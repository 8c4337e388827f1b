//! Scanning a package document for the book's title, author and resources.
//!
//! The scan is one pass over the tokenizer's events with three flags of
//! state. The flags are independent: a document can arm several at once, and
//! the scan then does for each what it would have done for it alone.

use crate::text::{bytes_eq, string_from_utf8};
use crate::xml::{
    next_event, open_reader, pending_events, tag_attributes, unescape_text, xml_attributes,
    xml_events, xml_unescaped, XmlAttribute, XmlEvent, XmlToken, attribute_pairs,
};
use vstd::prelude::*;
use vstd::string::StringSliceAdditionalSpecFns;
use vstd::utf8::*;

verus! {

/// Why a package document was given up.
#[derive(Debug, Clone, Copy, PartialEq, Eq, Structural)]
pub enum MalformedManifest {
    /// The tokenizer could not read on.
    Syntax,
    /// The attributes of a resource entry could not be read.
    Attribute,
    /// The text of a title or creator could not be unescaped.
    Text,
    /// A resource's location, or the document itself, is not UTF-8.
    NotUtf8,
}

/// Title and author of the book; empty where the document names none.
#[derive(Debug, Clone, PartialEq, Eq)]
pub struct BookMetadata {
    pub title: String,
    pub author: String,
}

/// One resource that the package document lists.
#[derive(Debug, Clone, PartialEq, Eq)]
pub struct DownloadItem {
    /// Where the resource lies, relative to the package document, as written.
    pub href: String,
    /// Whether the resource is a page of the book, to be cut down before it
    /// is archived.
    pub is_html: bool,
}

/// What a package document yields.
#[derive(Debug, Clone, PartialEq, Eq)]
pub struct Manifest {
    pub metadata: BookMetadata,
    /// The resources, in the order in which the document lists them.
    pub items: Vec<DownloadItem>,
}

/// What a [`DownloadItem`] holds.
pub struct ItemModel {
    pub href: Seq<char>,
    pub is_html: bool,
}

/// What a [`Manifest`] holds.
pub struct ManifestModel {
    pub title: Seq<char>,
    pub author: Seq<char>,
    pub items: Seq<ItemModel>,
}

impl View for DownloadItem {
    type V = ItemModel;

    open spec fn view(&self) -> ItemModel {
        ItemModel { href: self.href@, is_html: self.is_html }
    }
}

/// What a list of items holds.
pub open spec fn item_models(items: Seq<DownloadItem>) -> Seq<ItemModel> {
    items.map_values(|item: DownloadItem| item@)
}

impl View for Manifest {
    type V = ManifestModel;

    open spec fn view(&self) -> ManifestModel {
        ManifestModel {
            title: self.metadata.title@,
            author: self.metadata.author@,
            items: item_models(self.items@),
        }
    }
}

/// The three flags of the scan.
#[derive(Debug, Clone, Copy, PartialEq, Eq, Structural)]
pub struct ScanFlags {
    /// A title element has opened and its text is still to come.
    pub in_title: bool,
    /// A creator element has opened and its text is still to come.
    pub in_author: bool,
    /// The manifest element is open.
    pub in_manifest: bool,
}

/// The scan part-way through a document.
#[derive(Debug, Clone, PartialEq, Eq)]
pub struct Scanner {
    pub flags: ScanFlags,
    pub title: String,
    pub author: String,
    pub items: Vec<DownloadItem>,
}

/// What a [`Scanner`] holds.
pub struct ScanModel {
    pub flags: ScanFlags,
    pub title: Seq<char>,
    pub author: Seq<char>,
    pub items: Seq<ItemModel>,
}

impl View for Scanner {
    type V = ScanModel;

    open spec fn view(&self) -> ScanModel {
        ScanModel {
            flags: self.flags,
            title: self.title@,
            author: self.author@,
            items: item_models(self.items@),
        }
    }
}

/// The name of the element that holds the title.
pub open spec fn title_name() -> Seq<u8> {
    "dc:title".spec_bytes()
}

/// The name of the element that holds the author.
pub open spec fn creator_name() -> Seq<u8> {
    "dc:creator".spec_bytes()
}

/// The name of the element that lists the resources.
pub open spec fn manifest_name() -> Seq<u8> {
    "manifest".spec_bytes()
}

/// The name of the element that stands for one resource.
pub open spec fn item_name() -> Seq<u8> {
    "item".spec_bytes()
}

/// The key of the attribute that holds a resource's location.
pub open spec fn href_key() -> Seq<u8> {
    "href".spec_bytes()
}

/// The key of the attribute that holds a resource's media type.
pub open spec fn media_type_key() -> Seq<u8> {
    "media-type".spec_bytes()
}

/// The media type of a page of the book.
pub open spec fn page_media_type() -> Seq<u8> {
    "application/xhtml+xml".spec_bytes()
}

/// The value of the last attribute with the given key, if there is one.
pub open spec fn attribute_value(attrs: Seq<(Seq<u8>, Seq<u8>)>, key: Seq<u8>) -> Option<Seq<u8>>
    decreases attrs.len(),
{
    if attrs.len() == 0 {
        None
    } else if attrs.last().0 == key {
        Some(attrs.last().1)
    } else {
        attribute_value(attrs.drop_last(), key)
    }
}

/// The location that a resource entry's attributes give: the bytes of its
/// `href`, or nothing where it has none.
pub open spec fn href_bytes(attrs: Seq<(Seq<u8>, Seq<u8>)>) -> Seq<u8> {
    match attribute_value(attrs, href_key()) {
        Some(value) => value,
        None => Seq::empty(),
    }
}

/// The resource that an entry's attributes describe. The location is taken
/// as written; the entry is a page exactly when its media type is that of a
/// page. All other attributes count for nothing. There is no resource where
/// the location is not UTF-8.
pub open spec fn item_of(attrs: Seq<(Seq<u8>, Seq<u8>)>) -> Option<ItemModel> {
    if valid_utf8(href_bytes(attrs)) {
        Some(
            ItemModel {
                href: decode_utf8(href_bytes(attrs)),
                is_html: attribute_value(attrs, media_type_key()) == Some(page_media_type()),
            },
        )
    } else {
        None
    }
}

/// The scan before the first event: nothing armed, nothing found.
pub open spec fn initial_scan() -> ScanModel {
    ScanModel {
        flags: ScanFlags { in_title: false, in_author: false, in_manifest: false },
        title: Seq::empty(),
        author: Seq::empty(),
        items: Seq::empty(),
    }
}

/// The flags after an opening tag.
pub open spec fn flags_after_open(flags: ScanFlags, name: Seq<u8>) -> ScanFlags {
    if name == title_name() {
        ScanFlags { in_title: true, ..flags }
    } else if name == creator_name() {
        ScanFlags { in_author: true, ..flags }
    } else if name == manifest_name() {
        ScanFlags { in_manifest: true, ..flags }
    } else {
        flags
    }
}

/// The flags after a closing tag.
pub open spec fn flags_after_close(flags: ScanFlags, name: Seq<u8>) -> ScanFlags {
    if name == manifest_name() {
        ScanFlags { in_manifest: false, ..flags }
    } else {
        flags
    }
}

/// Whether a self-closing tag of this name is a resource entry to the scan.
pub open spec fn counts_as_item(flags: ScanFlags, name: Seq<u8>) -> bool {
    flags.in_manifest && name == item_name()
}

/// Whether the scan is waiting for a text.
pub open spec fn awaits_text(flags: ScanFlags) -> bool {
    flags.in_title || flags.in_author
}

/// The scan after a text that it was waiting for: the text goes to each of
/// title and author whose flag is armed, and both flags are cleared.
pub open spec fn scan_after_text(scan: ScanModel, text: Seq<char>) -> ScanModel {
    ScanModel {
        flags: ScanFlags { in_title: false, in_author: false, ..scan.flags },
        title: if scan.flags.in_title { text } else { scan.title },
        author: if scan.flags.in_author { text } else { scan.author },
        items: scan.items,
    }
}

/// The scan after one event.
pub open spec fn scan_step(scan: ScanModel, token: XmlToken) -> Result<ScanModel, MalformedManifest> {
    match token {
        XmlToken::Start { name } => Ok(
            ScanModel { flags: flags_after_open(scan.flags, name), ..scan },
        ),
        XmlToken::End { name } => Ok(
            ScanModel { flags: flags_after_close(scan.flags, name), ..scan },
        ),
        XmlToken::Empty { name, tag } => if counts_as_item(scan.flags, name) {
            match xml_attributes(tag, name.len() as int) {
                None => Err(MalformedManifest::Attribute),
                Some(attrs) => match item_of(attrs) {
                    None => Err(MalformedManifest::NotUtf8),
                    Some(item) => Ok(ScanModel { items: scan.items.push(item), ..scan }),
                },
            }
        } else {
            Ok(scan)
        },
        XmlToken::Text { escaped } => if awaits_text(scan.flags) {
            match xml_unescaped(escaped) {
                None => Err(MalformedManifest::Text),
                Some(text) => Ok(scan_after_text(scan, text)),
            }
        } else {
            Ok(scan)
        },
        XmlToken::Eof => Ok(scan),
        XmlToken::Other => Ok(scan),
    }
}

/// The scan after a stream of tokenizer results, taken in order up to the end
/// of the document. The first failure, the tokenizer's or the scan's, ends it.
pub open spec fn scan_all(scan: ScanModel, stream: Seq<Option<XmlToken>>) -> Result<
    ScanModel,
    MalformedManifest,
>
    decreases stream.len(),
{
    if stream.len() == 0 {
        Ok(scan)
    } else {
        match stream[0] {
            None => Err(MalformedManifest::Syntax),
            Some(XmlToken::Eof) => Ok(scan),
            Some(token) => match scan_step(scan, token) {
                Ok(next) => scan_all(next, stream.drop_first()),
                Err(e) => Err(e),
            },
        }
    }
}

/// What a finished scan has found.
pub open spec fn found(scan: ScanModel) -> ManifestModel {
    ManifestModel { title: scan.title, author: scan.author, items: scan.items }
}

/// The resource that an entry's attributes describe.
pub fn item_from_attributes(attrs: &Vec<XmlAttribute>) -> (r: Result<
    DownloadItem,
    MalformedManifest,
>)
    ensures
        match r {
            Ok(item) => item_of(attribute_pairs(attrs@)) == Some(item@),
            Err(e) => e == MalformedManifest::NotUtf8 && item_of(attribute_pairs(attrs@)) is None,
        },
        r matches Ok(item) ==> item.is_html == (attribute_value(
            attribute_pairs(attrs@),
            media_type_key(),
        ) == Some(page_media_type())),
{
    let ghost pairs = attribute_pairs(attrs@);
    let mut href: Vec<u8> = Vec::new();
    let mut is_html: bool = false;
    let mut i: usize = 0;
    while i < attrs.len()
        invariant
            i <= attrs.len(),
            pairs == attribute_pairs(attrs@),
            href@ == href_bytes(pairs.take(i as int)),
            is_html == (attribute_value(pairs.take(i as int), media_type_key()) == Some(
                page_media_type(),
            )),
        decreases attrs.len() - i,
    {
        let attr = &attrs[i];
        proof {
            let next = pairs.take(i + 1);
            assert(next.drop_last() =~= pairs.take(i as int));
            assert(next.last() == attr@);
        }
        if bytes_eq(attr.key.as_slice(), "href".as_bytes()) {
            href = attr.value.clone();
        }
        if bytes_eq(attr.key.as_slice(), "media-type".as_bytes()) {
            is_html = bytes_eq(attr.value.as_slice(), "application/xhtml+xml".as_bytes());
        }
        i += 1;
    }
    proof {
        assert(pairs.take(attrs.len() as int) =~= pairs);
    }
    match string_from_utf8(href) {
        Some(text) => {
            proof {
                encode_utf8_decode_utf8(text@);
            }
            Ok(DownloadItem { href: text, is_html })
        },
        None => Err(MalformedManifest::NotUtf8),
    }
}

impl Scanner {
    /// A scan that has seen nothing yet.
    pub fn new() -> (scanner: Scanner)
        ensures
            scanner@ == initial_scan(),
    {
        let scanner = Scanner {
            flags: ScanFlags { in_title: false, in_author: false, in_manifest: false },
            title: String::new(),
            author: String::new(),
            items: Vec::new(),
        };
        assert(item_models(scanner.items@) =~= Seq::empty());
        scanner
    }

    /// Takes note of an opening tag.
    pub fn open_tag(&mut self, name: &[u8])
        ensures
            final(self)@ == (ScanModel {
                flags: flags_after_open(old(self)@.flags, name@),
                ..old(self)@
            }),
    {
        if bytes_eq(name, "dc:title".as_bytes()) {
            self.flags.in_title = true;
        } else if bytes_eq(name, "dc:creator".as_bytes()) {
            self.flags.in_author = true;
        } else if bytes_eq(name, "manifest".as_bytes()) {
            self.flags.in_manifest = true;
        }
    }

    /// Takes note of a closing tag.
    pub fn close_tag(&mut self, name: &[u8])
        ensures
            final(self)@ == (ScanModel {
                flags: flags_after_close(old(self)@.flags, name@),
                ..old(self)@
            }),
    {
        if bytes_eq(name, "manifest".as_bytes()) {
            self.flags.in_manifest = false;
        }
    }

    /// Whether a self-closing tag of this name is a resource entry here.
    pub fn wants_item(&self, name: &[u8]) -> (r: bool)
        ensures
            r == counts_as_item(self@.flags, name@),
    {
        self.flags.in_manifest && bytes_eq(name, "item".as_bytes())
    }

    /// Appends a resource to those found.
    pub fn add_item(&mut self, item: DownloadItem)
        ensures
            final(self)@ == (ScanModel { items: old(self)@.items.push(item@), ..old(self)@ }),
    {
        self.items.push(item);
        assert(item_models(self.items@) =~= item_models(old(self).items@).push(item@));
    }

    /// Whether the scan is waiting for a text.
    pub fn wants_text(&self) -> (r: bool)
        ensures
            r == awaits_text(self@.flags),
    {
        self.flags.in_title || self.flags.in_author
    }

    /// Hands a text to each of title and author that is waiting for one.
    pub fn take_text(&mut self, text: String)
        ensures
            final(self)@ == scan_after_text(old(self)@, text@),
    {
        if self.flags.in_title {
            self.title = text.clone();
            self.flags.in_title = false;
        }
        if self.flags.in_author {
            self.author = text;
            self.flags.in_author = false;
        }
    }

    /// Ends the scan.
    pub fn finish(self) -> (manifest: Manifest)
        ensures
            manifest@ == found(self@),
    {
        Manifest {
            metadata: BookMetadata { title: self.title, author: self.author },
            items: self.items,
        }
    }
}

/// What a package document yields: the outcome of the scan over its events.
pub open spec fn parsed(xml: Seq<char>) -> Result<ManifestModel, MalformedManifest> {
    match scan_all(initial_scan(), xml_events(xml)) {
        Ok(scan) => Ok(found(scan)),
        Err(e) => Err(e),
    }
}

/// What a result of [`parse_index`] holds.
pub open spec fn outcome_of(r: Result<Manifest, MalformedManifest>) -> Result<
    ManifestModel,
    MalformedManifest,
> {
    match r {
        Ok(manifest) => Ok(manifest@),
        Err(e) => Err(e),
    }
}

/// Reads title, author and the list of resources out of a package document.
///
/// The title is the first text after a `dc:title` opens, the author the
/// first text after a `dc:creator` opens. Every self-closing `item` between
/// the opening and the closing of `manifest` gives one resource, in document
/// order. A document that the tokenizer cannot read to its end is refused as
/// a whole.
pub fn parse_index(contents_str: &str) -> (r: Result<Manifest, MalformedManifest>)
    ensures
        outcome_of(r) == parsed(contents_str@),
{
    let mut reader = open_reader(contents_str);
    let mut scanner = Scanner::new();
    loop
        invariant
            scan_all(scanner@, pending_events(reader)) == scan_all(
                initial_scan(),
                xml_events(contents_str@),
            ),
        decreases pending_events(reader).len(),
    {
        let event = match next_event(&mut reader) {
            Ok(event) => event,
            Err(_) => {
                return Err(MalformedManifest::Syntax);
            },
        };
        match event {
            XmlEvent::Start { name } => {
                scanner.open_tag(name.as_slice());
            },
            XmlEvent::End { name } => {
                scanner.close_tag(name.as_slice());
            },
            XmlEvent::Empty { name, tag } => {
                if scanner.wants_item(name.as_slice()) {
                    let attrs = match tag_attributes(tag.as_slice(), name.len()) {
                        Ok(attrs) => attrs,
                        Err(_) => {
                            return Err(MalformedManifest::Attribute);
                        },
                    };
                    match item_from_attributes(&attrs) {
                        Ok(item) => {
                            scanner.add_item(item);
                        },
                        Err(e) => {
                            return Err(e);
                        },
                    }
                }
            },
            XmlEvent::Text { escaped } => {
                if scanner.wants_text() {
                    match unescape_text(escaped.as_slice(), &reader) {
                        Ok(text) => {
                            scanner.take_text(text);
                        },
                        Err(_) => {
                            return Err(MalformedManifest::Text);
                        },
                    }
                }
            },
            XmlEvent::Eof => {
                return Ok(scanner.finish());
            },
            XmlEvent::Other => {},
        }
    }
}

/// The names that arm the three flags are three different names.
pub proof fn lemma_names_differ()
    ensures
        title_name() != creator_name(),
        title_name() != manifest_name(),
        creator_name() != manifest_name(),
{
    broadcast use vstd::string::is_ascii_spec_bytes;

    reveal_strlit("dc:title");
    reveal_strlit("dc:creator");
    reveal_strlit("manifest");
    assert(vstd::string::is_ascii("dc:title"));
    assert(vstd::string::is_ascii("dc:creator"));
    assert(vstd::string::is_ascii("manifest"));
    assert(title_name().len() == 8);
    assert(creator_name().len() == 10);
    assert(manifest_name().len() == 8);
    assert(title_name()[0] != manifest_name()[0]);
}

/// The tokens of a stream before its end: those that come before the first
/// failure and before the end of the document.
pub open spec fn document_tokens(stream: Seq<Option<XmlToken>>) -> Seq<XmlToken>
    decreases stream.len(),
{
    if stream.len() == 0 {
        Seq::empty()
    } else {
        match stream[0] {
            None => Seq::empty(),
            Some(XmlToken::Eof) => Seq::empty(),
            Some(token) => seq![token] + document_tokens(stream.drop_first()),
        }
    }
}

/// Whether the manifest element is open where the token at `at` stands: the
/// last tag named `manifest` before it was an opening one.
pub open spec fn manifest_open(tokens: Seq<XmlToken>, at: int) -> bool
    decreases at,
{
    if at <= 0 {
        false
    } else {
        match tokens[at - 1] {
            XmlToken::Start { name } => name == manifest_name() || manifest_open(tokens, at - 1),
            XmlToken::End { name } => name != manifest_name() && manifest_open(tokens, at - 1),
            _ => manifest_open(tokens, at - 1),
        }
    }
}

/// Whether the token at `at` is a resource entry: a self-closing `item` that
/// stands where the manifest element is open.
pub open spec fn is_listed(tokens: Seq<XmlToken>, at: int) -> bool {
    &&& manifest_open(tokens, at)
    &&& tokens[at] matches XmlToken::Empty { name, .. }
    &&& name == item_name()
}

/// The resource that a self-closing tag describes, where its attributes can
/// be read.
pub open spec fn item_at(token: XmlToken) -> ItemModel {
    item_of(xml_attributes(token->Empty_tag, token->Empty_name.len() as int)->0)->0
}

/// How many of the first `upto` tokens are resource entries.
pub open spec fn listed_count(tokens: Seq<XmlToken>, upto: int) -> nat
    decreases upto,
{
    if upto <= 0 {
        0
    } else if is_listed(tokens, upto - 1) {
        listed_count(tokens, upto - 1) + 1
    } else {
        listed_count(tokens, upto - 1)
    }
}

/// The resources that the resource entries among the first `upto` tokens
/// describe, in the order of the entries.
pub open spec fn listed_items(tokens: Seq<XmlToken>, upto: int) -> Seq<ItemModel>
    decreases upto,
{
    if upto <= 0 {
        Seq::empty()
    } else if is_listed(tokens, upto - 1) {
        listed_items(tokens, upto - 1).push(item_at(tokens[upto - 1]))
    } else {
        listed_items(tokens, upto - 1)
    }
}

/// The scan after the first `upto` tokens.
pub open spec fn scan_upto(tokens: Seq<XmlToken>, upto: int) -> Result<ScanModel, MalformedManifest>
    decreases upto,
{
    if upto <= 0 {
        Ok(initial_scan())
    } else {
        match scan_upto(tokens, upto - 1) {
            Ok(scan) => scan_step(scan, tokens[upto - 1]),
            Err(e) => Err(e),
        }
    }
}

/// The tokens of a document are the stream's first results, none of them the
/// end of the document, and what follows them in the stream, if anything, is
/// a failure or the end of the document.
proof fn lemma_document_tokens(stream: Seq<Option<XmlToken>>)
    ensures
        document_tokens(stream).len() <= stream.len(),
        forall|i: int|
            0 <= i < document_tokens(stream).len() ==> #[trigger] stream[i] == Some(
                document_tokens(stream)[i],
            ) && !(document_tokens(stream)[i] is Eof),
        document_tokens(stream).len() < stream.len() ==> stream[document_tokens(
            stream,
        ).len() as int] is None || stream[document_tokens(stream).len() as int] == Some(
            XmlToken::Eof,
        ),
    decreases stream.len(),
{
    if stream.len() > 0 {
        match stream[0] {
            None => {},
            Some(XmlToken::Eof) => {},
            Some(token) => {
                let rest = stream.drop_first();
                lemma_document_tokens(rest);
                let tokens = document_tokens(stream);
                assert(tokens == seq![token] + document_tokens(rest));
                assert forall|i: int| 0 <= i < tokens.len() implies #[trigger] stream[i] == Some(
                    tokens[i],
                ) && !(tokens[i] is Eof) by {
                    if i > 0 {
                        assert(stream[i] == rest[i - 1]);
                        assert(tokens[i] == document_tokens(rest)[i - 1]);
                    }
                }
                if tokens.len() < stream.len() {
                    assert(stream[tokens.len() as int] == rest[tokens.len() - 1]);
                }
            },
        }
    }
}

/// Scanning a stream from the state that its first `upto` tokens leave, over
/// what follows them, is scanning the stream from the start.
proof fn lemma_scan_from(stream: Seq<Option<XmlToken>>, upto: int)
    requires
        0 <= upto <= document_tokens(stream).len(),
    ensures
        match scan_upto(document_tokens(stream), upto) {
            Ok(scan) => scan_all(initial_scan(), stream) == scan_all(
                scan,
                stream.subrange(upto, stream.len() as int),
            ),
            Err(e) => scan_all(initial_scan(), stream) matches Err(first) && first == e,
        },
    decreases upto,
{
    let tokens = document_tokens(stream);
    lemma_document_tokens(stream);
    if upto == 0 {
        assert(stream.subrange(0, stream.len() as int) =~= stream);
    } else {
        lemma_scan_from(stream, upto - 1);
        match scan_upto(tokens, upto - 1) {
            Ok(scan) => {
                let tail = stream.subrange(upto - 1, stream.len() as int);
                assert(tail[0] == stream[upto - 1]);
                assert(tail.drop_first() =~= stream.subrange(upto, stream.len() as int));
            },
            Err(e) => {},
        }
    }
}

/// After the first `upto` tokens the scan knows whether the manifest element
/// is open, and holds the resources of the entries among those tokens.
proof fn lemma_scan_lists(tokens: Seq<XmlToken>, upto: int)
    requires
        0 <= upto <= tokens.len(),
    ensures
        scan_upto(tokens, upto) matches Ok(scan) ==> scan.flags.in_manifest == manifest_open(
            tokens,
            upto,
        ) && scan.items == listed_items(tokens, upto) && scan.items.len() == listed_count(
            tokens,
            upto,
        ),
    decreases upto,
{
    if upto > 0 {
        lemma_scan_lists(tokens, upto - 1);
        lemma_names_differ();
    }
}

/// A document's resources are those of its resource entries, one for each,
/// in document order.
///
/// Of a stream that the scan accepts, the resources found are exactly those
/// that the self-closing `item` tags inside the manifest element describe, in
/// the order of the tags. An `item` outside the manifest element adds
/// nothing.
pub proof fn lemma_items_are_those_listed(stream: Seq<Option<XmlToken>>)
    requires
        scan_all(initial_scan(), stream) is Ok,
    ensures
        ({
            let tokens = document_tokens(stream);
            let items = scan_all(initial_scan(), stream)->Ok_0.items;
            &&& items == listed_items(tokens, tokens.len() as int)
            &&& items.len() == listed_count(tokens, tokens.len() as int)
        }),
{
    let tokens = document_tokens(stream);
    let upto = tokens.len() as int;
    lemma_document_tokens(stream);
    lemma_scan_from(stream, upto);
    lemma_scan_lists(tokens, upto);
}

/// What [`parse_index`] finds in a document that it accepts are the
/// resources of the document's resource entries, in document order.
pub proof fn lemma_parsed_items_are_those_listed(xml: Seq<char>)
    requires
        parsed(xml) is Ok,
    ensures
        ({
            let tokens = document_tokens(xml_events(xml));
            let items = parsed(xml)->Ok_0.items;
            &&& items == listed_items(tokens, tokens.len() as int)
            &&& items.len() == listed_count(tokens, tokens.len() as int)
        }),
{
    lemma_items_are_those_listed(xml_events(xml));
}

} // verus!
