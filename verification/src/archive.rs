//! Laying out, naming and packing the archive.
//!
//! The archive holds the package document first, then the fixed entries that
//! every EPUB carries, then the book's resources in the order in which they
//! were fetched. `zip` packs it, in memory; writing the bytes to a file is the
//! caller's part.

use crate::text::push_char;
use std::io::{Cursor, Write};
use vstd::prelude::*;
use vstd::slice::slice_to_vec;
use vstd::string::StringSliceAdditionalSpecFns;
use zip::result::ZipError;
use zip::write::FileOptions;
use zip::{CompressionMethod, ZipWriter};

verus! {

/// The name under which the package document is archived.
pub const DOCUMENT_NAME: &'static str = "content.opf";

/// The name of the entry that declares the archive's type.
pub const MIMETYPE_NAME: &'static str = "mimetype";

/// The archive's type.
pub const MIMETYPE: &'static str = "application/epub+zip";

/// The name of the entry that points a reader at the package document.
pub const CONTAINER_NAME: &'static str = "META-INF/container.xml";

/// The entry that points a reader at the package document.
pub const CONTAINER: &'static str = "<?xml version=\"1.0\"?>\n<container version=\"1.0\" xmlns=\"urn:oasis:names:tc:opendocument:xmlns:container\">\n   <rootfiles>\n      <rootfile full-path=\"content.opf\" media-type=\"application/oebps-package+xml\"/>\n   </rootfiles>\n</container>\n";

/// What joins title and author in the archive's file name.
pub const NAME_JOINT: &'static str = " - ";

/// The ending of the archive's file name.
pub const NAME_ENDING: &'static str = ".epub";

/// One entry of the archive.
#[derive(Debug, Clone, PartialEq, Eq)]
pub struct ResourceItem {
    /// The entry's name in the archive.
    pub path: String,
    /// The entry's bytes.
    pub content: Vec<u8>,
}

impl View for ResourceItem {
    type V = (Seq<char>, Seq<u8>);

    open spec fn view(&self) -> (Seq<char>, Seq<u8>) {
        (self.path@, self.content@)
    }
}

/// The names and bytes of a list of entries.
pub open spec fn entry_models(items: Seq<ResourceItem>) -> Seq<(Seq<char>, Seq<u8>)> {
    items.map_values(|item: ResourceItem| item@)
}

/// Why no archive was made.
#[derive(Debug, Clone, Copy, PartialEq, Eq, Structural)]
pub enum StorageFailure {
    /// The packer would not take an entry.
    Entry,
    /// The packer could not close the archive.
    Finish,
}

/// The fixed entries that every archive carries.
pub open spec fn fixed_entries() -> Seq<(Seq<char>, Seq<u8>)> {
    seq![(MIMETYPE_NAME@, MIMETYPE.spec_bytes()), (CONTAINER_NAME@, CONTAINER.spec_bytes())]
}

/// The fixed entries that every archive carries: the declaration of its type
/// and the pointer to the package document.
pub fn default_files() -> (files: Vec<ResourceItem>)
    ensures
        entry_models(files@) == fixed_entries(),
{
    let mut files: Vec<ResourceItem> = Vec::new();
    files.push(
        ResourceItem {
            path: MIMETYPE_NAME.to_owned(),
            content: slice_to_vec(MIMETYPE.as_bytes()),
        },
    );
    files.push(
        ResourceItem {
            path: CONTAINER_NAME.to_owned(),
            content: slice_to_vec(CONTAINER.as_bytes()),
        },
    );
    assert(entry_models(files@) =~= fixed_entries());
    files
}

/// A character that a file name must not hold on one platform or another.
pub open spec fn is_reserved(c: char) -> bool {
    c == ':' || c == '/' || c == '\\' || c == '*' || c == '"' || c == '<' || c == '>' || c == '|'
}

/// A text with every reserved character replaced by a space.
pub open spec fn sanitized(text: Seq<char>) -> Seq<char> {
    Seq::new(text.len(), |i: int| if is_reserved(text[i]) { ' ' } else { text[i] })
}

/// The archive's file name: title and author, joined and sanitized, and the
/// ending.
pub open spec fn file_name(title: Seq<char>, author: Seq<char>) -> Seq<char> {
    sanitized(title + NAME_JOINT@ + author) + NAME_ENDING@
}

/// Whether a file name must not hold this character.
pub fn reserved(c: char) -> (r: bool)
    ensures
        r == is_reserved(c),
{
    c == ':' || c == '/' || c == '\\' || c == '*' || c == '"' || c == '<' || c == '>' || c == '|'
}

/// Appends `text` to `out`, every reserved character replaced by a space.
pub fn push_sanitized(out: &mut String, text: &str)
    ensures
        final(out)@ == old(out)@ + sanitized(text@),
{
    let n: usize = text.unicode_len();
    let mut i: usize = 0;
    while i < n
        invariant
            n == text@.len(),
            i <= n,
            out@ == old(out)@ + sanitized(text@).take(i as int),
        decreases n - i,
    {
        let c = text.get_char(i);
        let kept = if reserved(c) { ' ' } else { c };
        push_char(out, kept);
        assert(sanitized(text@).take(i + 1) =~= sanitized(text@).take(i as int).push(kept));
        i += 1;
    }
    assert(sanitized(text@).take(n as int) =~= sanitized(text@));
}

/// Names the archive's file after the book.
pub fn archive_file_name(title: &str, author: &str) -> (name: String)
    ensures
        name@ == file_name(title@, author@),
{
    let mut name = String::new();
    push_sanitized(&mut name, title);
    push_sanitized(&mut name, NAME_JOINT);
    push_sanitized(&mut name, author);
    name.append(NAME_ENDING);
    proof {
        let whole = title@ + NAME_JOINT@ + author@;
        assert(sanitized(whole) =~= sanitized(title@) + sanitized(NAME_JOINT@) + sanitized(
            author@,
        ));
    }
    name
}

/// The file name is title, joint and author, character for character, but
/// for the reserved characters, each of which has become one space; the
/// ending follows.
pub proof fn lemma_file_name_replaces_reserved_only(title: Seq<char>, author: Seq<char>)
    ensures
        ({
            let label = title + NAME_JOINT@ + author;
            let name = file_name(title, author);
            &&& name.len() == label.len() + NAME_ENDING@.len()
            &&& forall|i: int|
                0 <= i < label.len() ==> #[trigger] name[i] == if is_reserved(label[i]) {
                    ' '
                } else {
                    label[i]
                }
            &&& name.subrange(label.len() as int, name.len() as int) == NAME_ENDING@
        }),
{
    let label = title + NAME_JOINT@ + author;
    let name = file_name(title, author);
    assert(name.subrange(label.len() as int, name.len() as int) =~= NAME_ENDING@);
}

/// `zip::result::ZipError`, which this crate only ever counts as a failure.
#[verifier::external_type_specification]
#[verifier::external_body]
pub struct ExZipError(ZipError);

/// A `zip::ZipWriter` that packs into memory, with some entries written.
#[verifier::external_body]
pub struct ArchiveWriter {
    inner: ZipWriter<Cursor<Vec<u8>>>,
}

/// The entries that have been written to `writer`, in order: the name of
/// each and the bytes handed over for it.
pub uninterp spec fn written_entries(writer: ArchiveWriter) -> Seq<(Seq<char>, Seq<u8>)>;

/// Whether `ZipWriter` takes one more entry, of this name and with these
/// bytes, into an archive that holds `written` already: whether
/// `start_file`, with the default options and deflate compression, and
/// `write_all` after it both succeed. The packer works in memory, so nothing
/// but the entries has a say in it.
pub uninterp spec fn zip_takes(
    written: Seq<(Seq<char>, Seq<u8>)>,
    name: Seq<char>,
    content: Seq<u8>,
) -> bool;

/// The bytes of the archive that `ZipWriter` makes of these entries, each
/// started with the default options and deflate compression and written in
/// one piece, or `None` where it cannot close the archive. Built without the
/// `time` feature, the packer stamps every entry with the same fixed date, so
/// the bytes depend on the entries alone.
pub uninterp spec fn zip_image(entries: Seq<(Seq<char>, Seq<u8>)>) -> Option<Seq<u8>>;

/// The bytes that a result of [`finish_archive`] holds.
pub open spec fn image_of(r: Result<Vec<u8>, ZipError>) -> Option<Seq<u8>> {
    match r {
        Ok(bytes) => Some(bytes@),
        Err(_) => None,
    }
}

/// `ZipWriter::new` over an empty buffer: an archive without entries.
#[verifier::external_body]
pub(crate) fn new_archive() -> (writer: ArchiveWriter)
    ensures
        written_entries(writer).len() == 0,
{
    ArchiveWriter { inner: ZipWriter::new(Cursor::new(Vec::new())) }
}

/// `ZipWriter::start_file` and, through the writer's `Write`, `write_all`:
/// where both succeed the archive has one entry more, of this name and with
/// these bytes.
#[verifier::external_body]
pub(crate) fn add_entry(writer: &mut ArchiveWriter, name: &str, content: &[u8]) -> (r: Result<
    (),
    ZipError,
>)
    ensures
        r is Ok <==> zip_takes(written_entries(*old(writer)), name@, content@),
        r is Ok ==> written_entries(*final(writer)) == written_entries(*old(writer)).push(
            (name@, content@),
        ),
{
    let options = FileOptions::default().compression_method(CompressionMethod::Deflated);
    writer.inner.start_file(name, options)?;
    writer.inner.write_all(content).map_err(ZipError::Io)
}

/// `ZipWriter::finish`, and the buffer out of its cursor: the bytes of the
/// archive of the entries written.
#[verifier::external_body]
pub(crate) fn finish_archive(writer: ArchiveWriter) -> (r: Result<Vec<u8>, ZipError>)
    ensures
        image_of(r) == zip_image(written_entries(writer)),
{
    let mut writer = writer;
    writer.inner.finish().map(|cursor| cursor.into_inner())
}

/// The entries of the archive of a book, in order: the package document,
/// then the fixed entries, then the resources.
pub open spec fn archive_entries(
    document: Seq<u8>,
    fixed: Seq<(Seq<char>, Seq<u8>)>,
    resources: Seq<(Seq<char>, Seq<u8>)>,
) -> Seq<(Seq<char>, Seq<u8>)> {
    seq![(DOCUMENT_NAME@, document)] + fixed + resources
}

/// Whether the packer takes `entries`, one after the other, into an archive
/// that holds `written` already.
pub open spec fn takes_all(
    written: Seq<(Seq<char>, Seq<u8>)>,
    entries: Seq<(Seq<char>, Seq<u8>)>,
) -> bool
    decreases entries.len(),
{
    if entries.len() == 0 {
        true
    } else {
        &&& zip_takes(written, entries[0].0, entries[0].1)
        &&& takes_all(written.push(entries[0]), entries.drop_first())
    }
}

/// What packing these entries comes to: the archive's bytes, or which step
/// the packer refused.
pub open spec fn packed(entries: Seq<(Seq<char>, Seq<u8>)>) -> Result<Seq<u8>, StorageFailure> {
    if !takes_all(Seq::empty(), entries) {
        Err(StorageFailure::Entry)
    } else {
        match zip_image(entries) {
            Some(bytes) => Ok(bytes),
            None => Err(StorageFailure::Finish),
        }
    }
}

/// What a result of [`assemble`] holds.
pub open spec fn archive_of(r: Result<Vec<u8>, StorageFailure>) -> Result<
    Seq<u8>,
    StorageFailure,
> {
    match r {
        Ok(bytes) => Ok(bytes@),
        Err(e) => Err(e),
    }
}

/// The packer takes a run of entries exactly when it takes the first part of
/// the run and then the rest.
pub proof fn lemma_takes_all_in_parts(
    written: Seq<(Seq<char>, Seq<u8>)>,
    first: Seq<(Seq<char>, Seq<u8>)>,
    rest: Seq<(Seq<char>, Seq<u8>)>,
)
    ensures
        takes_all(written, first + rest) == (takes_all(written, first) && takes_all(
            written + first,
            rest,
        )),
    decreases first.len(),
{
    if first.len() == 0 {
        assert(first + rest =~= rest);
        assert(written + first =~= written);
    } else {
        let whole = first + rest;
        assert(whole[0] == first[0]);
        assert(whole.drop_first() =~= first.drop_first() + rest);
        lemma_takes_all_in_parts(written.push(first[0]), first.drop_first(), rest);
        assert(written.push(first[0]) + first.drop_first() =~= written + first);
    }
}

/// Writes `items` to the archive, in order, up to the first that the packer
/// refuses.
fn add_entries(writer: &mut ArchiveWriter, items: &Vec<ResourceItem>) -> (r: Result<
    (),
    StorageFailure,
>)
    ensures
        r is Ok <==> takes_all(written_entries(*old(writer)), entry_models(items@)),
        r is Ok ==> written_entries(*final(writer)) == written_entries(*old(writer))
            + entry_models(items@),
        r matches Err(e) ==> e == StorageFailure::Entry,
{
    let ghost all = entry_models(items@);
    let mut i: usize = 0;
    assert(all.skip(0) =~= all);
    assert(all.take(0) =~= Seq::empty());
    while i < items.len()
        invariant
            i <= items.len(),
            all == entry_models(items@),
            written_entries(*writer) == written_entries(*old(writer)) + all.take(i as int),
            takes_all(written_entries(*old(writer)), all) == takes_all(
                written_entries(*writer),
                all.skip(i as int),
            ),
        decreases items.len() - i,
    {
        let item = &items[i];
        proof {
            assert(all.skip(i as int)[0] == item@);
            assert(all.skip(i as int).drop_first() =~= all.skip(i + 1));
        }
        match add_entry(writer, item.path.as_str(), item.content.as_slice()) {
            Ok(()) => {},
            Err(_) => {
                return Err(StorageFailure::Entry);
            },
        }
        assert(all.take(i + 1) =~= all.take(i as int).push(item@));
        assert(written_entries(*writer) =~= written_entries(*old(writer)) + all.take(i + 1));
        i += 1;
    }
    assert(all.take(items.len() as int) =~= all);
    assert(all.skip(items.len() as int) =~= Seq::empty());
    Ok(())
}

/// Packs the archive of a book: the package document under its fixed name,
/// then the fixed entries, then the resources, each deflated. The result is
/// the packer's: the bytes of the archive of exactly these entries in this
/// order, or the report of the step that the packer refused, the first entry
/// that it would not take or the closing of the archive.
pub fn assemble(document: &[u8], fixed: &Vec<ResourceItem>, resources: &Vec<ResourceItem>) -> (r:
    Result<Vec<u8>, StorageFailure>)
    ensures
        archive_of(r) == packed(
            archive_entries(document@, entry_models(fixed@), entry_models(resources@)),
        ),
{
    let ghost first = seq![(DOCUMENT_NAME@, document@)];
    let ghost entries = archive_entries(
        document@,
        entry_models(fixed@),
        entry_models(resources@),
    );
    let mut writer = new_archive();
    proof {
        let none = Seq::<(Seq<char>, Seq<u8>)>::empty();
        assert(written_entries(writer) =~= none);
        lemma_takes_all_in_parts(none, first + entry_models(fixed@), entry_models(resources@));
        lemma_takes_all_in_parts(none, first, entry_models(fixed@));
        assert(first.drop_first().len() == 0);
        assert(takes_all(none.push(first[0]), first.drop_first()));
        assert(none.push(first[0]) =~= first);
        assert(none + first =~= first);
        assert(none + (first + entry_models(fixed@)) =~= first + entry_models(fixed@));
        assert(takes_all(none, first) == zip_takes(none, DOCUMENT_NAME@, document@));
    }
    match add_entry(&mut writer, DOCUMENT_NAME, document) {
        Ok(()) => {},
        Err(_) => {
            return Err(StorageFailure::Entry);
        },
    }
    assert(written_entries(writer) =~= first);
    match add_entries(&mut writer, fixed) {
        Ok(()) => {},
        Err(e) => {
            return Err(e);
        },
    }
    match add_entries(&mut writer, resources) {
        Ok(()) => {},
        Err(e) => {
            return Err(e);
        },
    }
    assert(written_entries(writer) =~= entries);
    match finish_archive(writer) {
        Ok(bytes) => Ok(bytes),
        Err(_) => Err(StorageFailure::Finish),
    }
}

/// The archive holds the package document, every fixed entry and every
/// resource, each once, by its own name and with its own bytes, in that
/// order, and nothing else.
pub proof fn lemma_archive_holds_every_entry(
    document: Seq<u8>,
    fixed: Seq<(Seq<char>, Seq<u8>)>,
    resources: Seq<(Seq<char>, Seq<u8>)>,
)
    ensures
        archive_entries(document, fixed, resources).len() == 1 + fixed.len() + resources.len(),
        archive_entries(document, fixed, resources)[0] == (DOCUMENT_NAME@, document),
        forall|i: int|
            0 <= i < fixed.len() ==> archive_entries(document, fixed, resources)[1 + i]
                == #[trigger] fixed[i],
        forall|i: int|
            0 <= i < resources.len() ==> archive_entries(document, fixed, resources)[1
                + fixed.len() + i] == #[trigger] resources[i],
{
}

} // verus!
