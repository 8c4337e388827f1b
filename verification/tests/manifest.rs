use epubee::manifest::{
    item_from_attributes, parse_index, BookMetadata, DownloadItem, MalformedManifest, Manifest,
    ScanFlags, Scanner,
};
use epubee::xml::XmlAttribute;

fn attr(key: &str, value: &str) -> XmlAttribute {
    XmlAttribute { key: key.as_bytes().to_vec(), value: value.as_bytes().to_vec() }
}

fn item(href: &str, is_html: bool) -> DownloadItem {
    DownloadItem { href: href.to_string(), is_html }
}

const PACKAGE: &str = r#"<?xml version="1.0" encoding="UTF-8"?>
<!-- a package document -->
<package xmlns="http://www.idpf.org/2007/opf" version="2.0">
  <metadata xmlns:dc="http://purl.org/dc/elements/1.1/">
    <dc:title>Moby Dick</dc:title>
    <dc:creator opf:role="aut">Herman Melville</dc:creator>
    <dc:language>en</dc:language>
  </metadata>
  <item id="early" href="early.xhtml" media-type="application/xhtml+xml"/>
  <manifest>
    <item id="c1" href="chap1.xhtml" media-type="application/xhtml+xml"/>
    <item id="css" href="css/style.css" media-type="text/css" />
    <item id="cover" media-type="image/jpeg" href="images/cover.jpg"/>
    <other href="skipped.xhtml" media-type="application/xhtml+xml"/>
    <item id="c2" href='chap2.xhtml' media-type='application/xhtml+xml'/>
  </manifest>
  <spine toc="ncx">
    <item href="late.xhtml" media-type="application/xhtml+xml"/>
    <itemref idref="c1"/>
  </spine>
</package>
"#;

#[test]
fn package_document_yields_metadata_and_items() {
    let manifest = parse_index(PACKAGE).unwrap();
    assert_eq!(
        manifest,
        Manifest {
            metadata: BookMetadata {
                title: "Moby Dick".to_string(),
                author: "Herman Melville".to_string(),
            },
            items: vec![
                item("chap1.xhtml", true),
                item("css/style.css", false),
                item("images/cover.jpg", false),
                item("chap2.xhtml", true),
            ],
        }
    );
}

#[test]
fn items_outside_the_manifest_do_not_count() {
    let xml = "<p><item href=\"a\"/><manifest><item href=\"b\"/><item href=\"c\"/></manifest>\
               <item href=\"d\"/><item href=\"e\"/><item href=\"f\"/></p>";
    let manifest = parse_index(xml).unwrap();
    assert_eq!(manifest.items, vec![item("b", false), item("c", false)]);
}

#[test]
fn items_come_in_document_order() {
    let xml = "<manifest><item href=\"z\"/><item href=\"a\"/><item href=\"m\"/>\
               <item href=\"a\"/></manifest>";
    let hrefs: Vec<String> = parse_index(xml).unwrap().items.into_iter().map(|i| i.href).collect();
    assert_eq!(hrefs, vec!["z", "a", "m", "a"]);
}

#[test]
fn a_manifest_may_open_more_than_once() {
    let xml = "<p><manifest><item href=\"a\"/></manifest><item href=\"b\"/>\
               <manifest><item href=\"c\"/></manifest></p>";
    assert_eq!(parse_index(xml).unwrap().items, vec![item("a", false), item("c", false)]);
}

#[test]
fn only_self_closing_items_count() {
    let xml = "<manifest><item href=\"open\"></item><item href=\"closed\"/></manifest>";
    assert_eq!(parse_index(xml).unwrap().items, vec![item("closed", false)]);
}

#[test]
fn media_type_decides_what_is_a_page() {
    let xml = "<manifest>\
               <item href=\"a\" media-type=\"application/xhtml+xml\"/>\
               <item href=\"b\" media-type=\"application/xhtml+xml \"/>\
               <item href=\"c\" media-type=\"Application/xhtml+xml\"/>\
               <item href=\"d\" media-type=\"text/html\"/>\
               <item href=\"e\" media-type=\"\"/>\
               <item href=\"f\"/>\
               </manifest>";
    assert_eq!(
        parse_index(xml).unwrap().items,
        vec![
            item("a", true),
            item("b", false),
            item("c", false),
            item("d", false),
            item("e", false),
            item("f", false),
        ]
    );
}

#[test]
fn href_is_taken_as_written() {
    let xml = "<manifest><item href=\"a%20b/c&amp;d.xhtml\"/><item href=\"caf\u{e9}.png\"/>\
               </manifest>";
    assert_eq!(
        parse_index(xml).unwrap().items,
        vec![item("a%20b/c&amp;d.xhtml", false), item("caf\u{e9}.png", false)]
    );
}

#[test]
fn item_without_href_has_an_empty_one() {
    let xml = "<manifest><item media-type=\"application/xhtml+xml\"/><item/></manifest>";
    assert_eq!(parse_index(xml).unwrap().items, vec![item("", true), item("", false)]);
}

#[test]
fn metadata_defaults_to_empty() {
    let manifest = parse_index("<package><manifest/></package>").unwrap();
    assert_eq!(
        manifest.metadata,
        BookMetadata { title: String::new(), author: String::new() }
    );
    assert_eq!(manifest.items, Vec::new());
    assert_eq!(parse_index("").unwrap().items, Vec::new());
}

#[test]
fn text_is_unescaped() {
    let xml = "<m><dc:title>Tom &amp; Jerry &lt;1&gt; &#65;&#x42;</dc:title>\
               <dc:creator>O&apos;Neil</dc:creator></m>";
    let manifest = parse_index(xml).unwrap();
    assert_eq!(manifest.metadata.title, "Tom & Jerry <1> AB");
    assert_eq!(manifest.metadata.author, "O'Neil");
}

#[test]
fn first_text_after_the_opening_wins() {
    let xml = "<m><dc:title>One<b>Two</b>Three</dc:title><dc:creator>A<i/>B</dc:creator></m>";
    let manifest = parse_index(xml).unwrap();
    assert_eq!(manifest.metadata.title, "One");
    assert_eq!(manifest.metadata.author, "A");
}

#[test]
fn a_later_title_replaces_an_earlier_one() {
    let xml = "<m><dc:title>First</dc:title><dc:title>Second</dc:title></m>";
    assert_eq!(parse_index(xml).unwrap().metadata.title, "Second");
}

#[test]
fn an_empty_title_is_empty() {
    let xml = "<m><dc:title></dc:title><dc:creator>A</dc:creator></m>";
    let manifest = parse_index(xml).unwrap();
    assert_eq!(manifest.metadata.title, "");
    assert_eq!(manifest.metadata.author, "A");
}

#[test]
fn text_keeps_its_white_space() {
    let xml = "<m><dc:title>  Moby\n Dick </dc:title></m>";
    assert_eq!(parse_index(xml).unwrap().metadata.title, "  Moby\n Dick ");
}

#[test]
fn mismatched_tags_are_refused() {
    assert_eq!(parse_index("<a><b></a></b>"), Err(MalformedManifest::Syntax));
    assert_eq!(parse_index("<manifest><item href=\"a\"/></other>"), Err(MalformedManifest::Syntax));
    assert_eq!(parse_index("</a>"), Err(MalformedManifest::Syntax));
}

#[test]
fn a_broken_declaration_is_refused() {
    assert_eq!(parse_index("<a><!bogus></a>"), Err(MalformedManifest::Syntax));
    assert_eq!(parse_index("<a><!-- never closed </a>"), Err(MalformedManifest::Syntax));
}

#[test]
fn broken_attributes_of_an_item_are_refused() {
    assert_eq!(
        parse_index("<manifest><item href=chap1.xhtml/></manifest>"),
        Err(MalformedManifest::Attribute)
    );
    assert_eq!(
        parse_index("<manifest><item href=\"a\" href=\"b\"/></manifest>"),
        Err(MalformedManifest::Attribute)
    );
    assert_eq!(
        parse_index("<manifest><item href \"a\"/></manifest>"),
        Err(MalformedManifest::Attribute)
    );
}

#[test]
fn broken_attributes_elsewhere_are_passed_over() {
    let xml = "<p><item href=a/><other x=y/><manifest><other x=y/><item href=\"a\"/></manifest></p>";
    assert_eq!(parse_index(xml).unwrap().items, vec![item("a", false)]);
}

#[test]
fn a_broken_escape_in_the_title_is_refused() {
    assert_eq!(
        parse_index("<m><dc:title>Tom &bogus; Jerry</dc:title></m>"),
        Err(MalformedManifest::Text)
    );
    assert_eq!(
        parse_index("<m><dc:creator>Tom & Jerry</dc:creator></m>"),
        Err(MalformedManifest::Text)
    );
    assert_eq!(
        parse_index("<m><dc:creator>&#xZZ;</dc:creator></m>"),
        Err(MalformedManifest::Text)
    );
}

#[test]
fn a_broken_escape_elsewhere_is_passed_over() {
    let xml = "<m><p>&bogus;</p><dc:title>T</dc:title></m>";
    assert_eq!(parse_index(xml).unwrap().metadata.title, "T");
}

#[test]
fn the_first_failure_is_reported() {
    let xml = "<manifest><item href=a/></manifest></wrong>";
    assert_eq!(parse_index(xml), Err(MalformedManifest::Attribute));
    let xml = "<a></b><manifest><item href=a/></manifest>";
    assert_eq!(parse_index(xml), Err(MalformedManifest::Syntax));
}

#[test]
fn item_from_attributes_reads_href_and_media_type() {
    let attrs = vec![
        attr("id", "c1"),
        attr("href", "chap1.xhtml"),
        attr("media-type", "application/xhtml+xml"),
    ];
    assert_eq!(item_from_attributes(&attrs), Ok(item("chap1.xhtml", true)));
}

#[test]
fn item_from_attributes_ignores_other_keys() {
    let attrs = vec![attr("HREF", "x"), attr("href ", "y"), attr("media_type", "application/xhtml+xml")];
    assert_eq!(item_from_attributes(&attrs), Ok(item("", false)));
    assert_eq!(item_from_attributes(&Vec::new()), Ok(item("", false)));
}

#[test]
fn item_from_attributes_takes_the_last_of_a_key() {
    let attrs = vec![
        attr("href", "first"),
        attr("media-type", "application/xhtml+xml"),
        attr("href", "second"),
        attr("media-type", "text/css"),
    ];
    assert_eq!(item_from_attributes(&attrs), Ok(item("second", false)));
}

#[test]
fn item_from_attributes_refuses_an_href_that_is_not_utf8() {
    let attrs = vec![XmlAttribute { key: b"href".to_vec(), value: vec![0x61, 0xff] }];
    assert_eq!(item_from_attributes(&attrs), Err(MalformedManifest::NotUtf8));
}

#[test]
fn scanner_starts_with_nothing() {
    let scanner = Scanner::new();
    assert_eq!(
        scanner.flags,
        ScanFlags { in_title: false, in_author: false, in_manifest: false }
    );
    assert_eq!(scanner.title, "");
    assert_eq!(scanner.author, "");
    assert!(scanner.items.is_empty());
    assert!(!scanner.wants_text());
    assert!(!scanner.wants_item(b"item"));
}

#[test]
fn scanner_flags_follow_the_tags() {
    let mut scanner = Scanner::new();
    scanner.open_tag(b"package");
    assert_eq!(scanner, Scanner::new());
    scanner.open_tag(b"dc:title");
    assert!(scanner.flags.in_title && !scanner.flags.in_author && !scanner.flags.in_manifest);
    assert!(scanner.wants_text());
    scanner.open_tag(b"manifest");
    assert!(scanner.flags.in_title && scanner.flags.in_manifest);
    assert!(scanner.wants_item(b"item"));
    assert!(!scanner.wants_item(b"items"));
    assert!(!scanner.wants_item(b"Item"));
    scanner.close_tag(b"dc:title");
    assert!(scanner.flags.in_title);
    scanner.close_tag(b"manifest");
    assert!(!scanner.flags.in_manifest);
    assert!(!scanner.wants_item(b"item"));
    scanner.open_tag(b"dc:creator");
    assert!(scanner.flags.in_title && scanner.flags.in_author);
}

#[test]
fn scanner_hands_a_text_to_all_that_wait() {
    let mut scanner = Scanner::new();
    scanner.take_text("stray".to_string());
    assert_eq!(scanner, Scanner::new());
    scanner.open_tag(b"dc:title");
    scanner.open_tag(b"dc:creator");
    scanner.open_tag(b"manifest");
    scanner.take_text("both".to_string());
    assert_eq!(scanner.title, "both");
    assert_eq!(scanner.author, "both");
    assert_eq!(
        scanner.flags,
        ScanFlags { in_title: false, in_author: false, in_manifest: true }
    );
    scanner.open_tag(b"dc:creator");
    scanner.take_text("author".to_string());
    scanner.take_text("late".to_string());
    assert_eq!(scanner.title, "both");
    assert_eq!(scanner.author, "author");
}

#[test]
fn scanner_collects_items_in_order() {
    let mut scanner = Scanner::new();
    scanner.add_item(item("a", true));
    scanner.add_item(item("b", false));
    scanner.open_tag(b"dc:title");
    scanner.take_text("T".to_string());
    assert_eq!(
        scanner.finish(),
        Manifest {
            metadata: BookMetadata { title: "T".to_string(), author: String::new() },
            items: vec![item("a", true), item("b", false)],
        }
    );
}
