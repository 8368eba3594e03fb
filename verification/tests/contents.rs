use std::io::{Cursor, Write};

use mula::fs::archive::EntryKind;
use mula::fs::contents::{from_zip, TarKind, TarListing, TarRead, TarStep};
use zip::write::SimpleFileOptions;
use zip::ZipWriter;

fn zip_of(names: &[&str]) -> Vec<u8> {
    let mut zip = ZipWriter::new(Cursor::new(Vec::new()));
    for name in names {
        if let Some(dir) = name.strip_suffix('/') {
            zip.add_directory(dir, SimpleFileOptions::default()).unwrap();
        } else {
            zip.start_file(*name, SimpleFileOptions::default()).unwrap();
            zip.write_all(b"hello").unwrap();
        }
    }
    zip.finish().unwrap().into_inner()
}

#[test]
fn a_zip_lists_its_index_in_order() {
    let contents = from_zip(zip_of(&["docs/", "docs/a.txt", "b.txt"]), 10).unwrap();
    let names: Vec<(&str, u64, EntryKind)> = contents
        .entries
        .iter()
        .map(|e| (e.name.as_str(), e.size, e.kind))
        .collect();
    assert_eq!(
        names,
        [
            ("docs/", 0, EntryKind::Directory),
            ("docs/a.txt", 5, EntryKind::File),
            ("b.txt", 5, EntryKind::File)
        ]
    );
    assert!(!contents.clipped);
}

#[test]
fn a_zip_past_the_limit_is_clipped() {
    let contents = from_zip(zip_of(&["a", "b", "c"]), 2).unwrap();
    assert_eq!(contents.entries.len(), 2);
    assert!(contents.clipped);
}

#[test]
fn bytes_that_are_no_zip_are_an_error() {
    assert!(from_zip(b"not a zip at all".to_vec(), 10).is_err());
}

fn entry(name: &str, kind: TarKind) -> Option<TarRead> {
    Some(TarRead::Entry { name: name.to_string(), size: 7, kind })
}

#[test]
fn a_tar_walk_collects_until_the_stream_ends() {
    let mut listing = TarListing::new(10);
    for (name, kind) in [("d", TarKind::Directory), ("l", TarKind::Link), ("f", TarKind::Other)] {
        listing = match listing.step(false, entry(name, kind)) {
            TarStep::Continue(l) => l,
            other => panic!("the walk stopped early: {other:?}"),
        };
    }
    let TarStep::Finished(Ok(Some(contents))) = listing.step(false, None) else {
        panic!("the end of the stream did not finish the listing");
    };
    let kinds: Vec<EntryKind> = contents.entries.iter().map(|e| e.kind).collect();
    assert_eq!(kinds, [EntryKind::Directory, EntryKind::Symlink, EntryKind::File]);
    assert!(!contents.clipped);
}

#[test]
fn a_tar_walk_stops_at_the_limit_and_says_so() {
    let listing = match TarListing::new(1).step(false, entry("a", TarKind::Other)) {
        TarStep::Continue(l) => l,
        other => panic!("{other:?}"),
    };
    let TarStep::Finished(Ok(Some(contents))) = listing.step(false, entry("b", TarKind::Other)) else {
        panic!("the limit did not end the walk");
    };
    assert_eq!(contents.entries.len(), 1);
    assert!(contents.clipped);
}

#[test]
fn a_tar_walk_nobody_wants_ends_with_nothing() {
    assert!(matches!(
        TarListing::new(5).step(true, entry("a", TarKind::Other)),
        TarStep::Finished(Ok(None))
    ));
}

#[test]
fn a_tar_entry_that_cannot_be_read_ends_the_walk_with_the_error() {
    assert!(matches!(
        TarListing::new(5).step(false, Some(TarRead::Failed("bad header".to_string()))),
        TarStep::Finished(Err(e)) if e == "bad header"
    ));
}
