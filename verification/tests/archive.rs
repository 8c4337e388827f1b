use epubee::archive::{
    archive_file_name, assemble, default_files, push_sanitized, reserved, ResourceItem,
    CONTAINER, CONTAINER_NAME, DOCUMENT_NAME, MIMETYPE, MIMETYPE_NAME,
};
use std::io::{Cursor, Read};
use zip::{CompressionMethod, ZipArchive};

fn entry(path: &str, content: &[u8]) -> ResourceItem {
    ResourceItem { path: path.to_string(), content: content.to_vec() }
}

/// Reads an archive back: the name and the bytes of every entry, in order.
fn unpacked(archive: Vec<u8>) -> Vec<(String, Vec<u8>)> {
    let mut archive = ZipArchive::new(Cursor::new(archive)).unwrap();
    let mut entries = Vec::new();
    for i in 0..archive.len() {
        let mut file = archive.by_index(i).unwrap();
        let mut content = Vec::new();
        file.read_to_end(&mut content).unwrap();
        entries.push((file.name().to_string(), content));
    }
    entries
}

#[test]
fn reserved_characters_become_spaces() {
    assert_eq!(
        archive_file_name("a:b/c\\d*e\"f<g>h|i", "x"),
        "a b c d e f g h i - x.epub"
    );
}

#[test]
fn other_characters_are_kept() {
    assert_eq!(
        archive_file_name("Moby Dick; or, The Whale?", "H. Melville (1851) [ed.] & co_'s"),
        "Moby Dick; or, The Whale? - H. Melville (1851) [ed.] & co_'s.epub"
    );
    assert_eq!(archive_file_name("\u{4e66}\u{ff1a}\u{e9}", "\u{1f600}"), "\u{4e66}\u{ff1a}\u{e9} - \u{1f600}.epub");
}

#[test]
fn every_occurrence_is_replaced() {
    assert_eq!(archive_file_name("::a::", "//"), "  a   -   .epub");
    assert_eq!(archive_file_name("", ""), " - .epub");
}

#[test]
fn scenario_file_name() {
    assert_eq!(
        archive_file_name("Moby Dick", "Herman Melville"),
        "Moby Dick - Herman Melville.epub"
    );
}

#[test]
fn exactly_eight_characters_are_reserved() {
    let reserved_ones: String = (0u8..128).map(|b| b as char).filter(|c| reserved(*c)).collect();
    assert_eq!(reserved_ones, "\"*/:<>\\|");
    assert!(!reserved('\u{ff1a}'));
    assert!(!reserved(' '));
}

#[test]
fn push_sanitized_appends() {
    let mut out = String::from("kept: ");
    push_sanitized(&mut out, "a|b");
    assert_eq!(out, "kept: a b");
    push_sanitized(&mut out, "");
    assert_eq!(out, "kept: a b");
}

#[test]
fn default_files_are_mimetype_and_container() {
    let files = default_files();
    assert_eq!(
        files,
        vec![
            entry("mimetype", b"application/epub+zip"),
            entry(
                "META-INF/container.xml",
                br#"<?xml version="1.0"?>
<container version="1.0" xmlns="urn:oasis:names:tc:opendocument:xmlns:container">
   <rootfiles>
      <rootfile full-path="content.opf" media-type="application/oebps-package+xml"/>
   </rootfiles>
</container>
"#
            ),
        ]
    );
    assert_eq!(MIMETYPE_NAME, "mimetype");
    assert_eq!(MIMETYPE, "application/epub+zip");
    assert_eq!(CONTAINER_NAME, "META-INF/container.xml");
    assert!(CONTAINER.contains(DOCUMENT_NAME));
}

#[test]
fn archive_holds_document_fixed_entries_and_resources() {
    let document = b"<package><manifest/></package>";
    let fixed = default_files();
    let big: Vec<u8> = (0..20000u32).map(|i| (i % 251) as u8).collect();
    let resources = vec![
        entry("chap1.xhtml", b"<html>one</html>"),
        entry("images/cover.jpg", &[0xff, 0xd8, 0xff, 0x00, 0x80]),
        entry("empty.css", b""),
        entry("big.bin", &big),
    ];
    let archive = assemble(document, &fixed, &resources).unwrap();
    let entries = unpacked(archive);
    assert_eq!(entries.len(), 1 + fixed.len() + resources.len());
    assert_eq!(entries[0], ("content.opf".to_string(), document.to_vec()));
    for (i, item) in fixed.iter().enumerate() {
        assert_eq!(entries[1 + i], (item.path.clone(), item.content.clone()));
    }
    for (i, item) in resources.iter().enumerate() {
        assert_eq!(entries[1 + fixed.len() + i], (item.path.clone(), item.content.clone()));
    }
}

#[test]
fn archive_without_resources_holds_the_document() {
    let archive = assemble(b"doc", &Vec::new(), &Vec::new()).unwrap();
    assert_eq!(unpacked(archive), vec![("content.opf".to_string(), b"doc".to_vec())]);
}

#[test]
fn every_entry_is_deflated() {
    let archive = assemble(b"doc", &default_files(), &vec![entry("a", b"aaaaaaaaaaaaaaaa")]).unwrap();
    let mut archive = ZipArchive::new(Cursor::new(archive)).unwrap();
    assert_eq!(archive.len(), 4);
    for i in 0..archive.len() {
        assert_eq!(archive.by_index(i).unwrap().compression(), CompressionMethod::Deflated);
    }
}

#[test]
fn the_same_entries_give_the_same_bytes() {
    let resources = vec![entry("chap1.xhtml", b"<html>one</html>")];
    let first = assemble(b"doc", &default_files(), &resources).unwrap();
    let second = assemble(b"doc", &default_files(), &resources).unwrap();
    assert_eq!(first, second);
    let other = assemble(b"doc", &default_files(), &vec![entry("chap1.xhtml", b"<html>two</html>")]);
    assert_ne!(other.unwrap(), first);
}

#[test]
fn entries_keep_their_order_and_duplicates() {
    let resources = vec![entry("b", b"1"), entry("a", b"2"), entry("b", b"3")];
    let names: Vec<String> =
        unpacked(assemble(b"", &Vec::new(), &resources).unwrap()).into_iter().map(|e| e.0).collect();
    assert_eq!(names, vec!["content.opf", "b", "a", "b"]);
}
