use std::io::Write;

use flate2::{write::GzEncoder, Compression};
use mula::fs::archive::{is_tar, sniff, stem, Format, USTAR_AT};

/// The first bytes of a tar: a header whose magic sits at 257, padded out to
/// the 512 a header occupies.
fn tar_header() -> Vec<u8> {
    let mut bytes = vec![0u8; 512];
    bytes[USTAR_AT..USTAR_AT + 5].copy_from_slice(b"ustar");
    bytes
}

fn gzipped(bytes: &[u8]) -> Vec<u8> {
    let mut encoder = GzEncoder::new(Vec::new(), Compression::fast());
    encoder.write_all(bytes).unwrap();
    encoder.finish().unwrap()
}

#[test]
fn a_zip_is_known_by_its_local_header() {
    assert_eq!(sniff(b"PK\x03\x04rest"), Some(Format::Zip));
}

#[test]
fn an_empty_zip_is_still_a_zip() {
    assert_eq!(sniff(b"PK\x05\x06rest"), Some(Format::Zip));
}

#[test]
fn a_tar_is_known_by_the_magic_in_its_first_header() {
    assert_eq!(sniff(&tar_header()), Some(Format::Tar));
}

#[test]
fn a_gzipped_tar_is_known_by_what_is_inside_it() {
    assert_eq!(sniff(&gzipped(&tar_header())), Some(Format::TarGz));
}

#[test]
fn a_gzipped_file_that_is_not_a_tar_is_not_an_archive() {
    assert_eq!(sniff(&gzipped(b"hello, and nothing like a tar")), None);
}

#[test]
fn a_gzip_cut_off_before_the_header_is_not_an_archive() {
    let whole = gzipped(&tar_header());
    assert_eq!(sniff(&whole[..whole.len() / 2]), None);
}

#[test]
fn a_file_that_announces_nothing_is_not_an_archive() {
    assert_eq!(sniff(b"#!/bin/sh\necho hello\n"), None);
}

#[test]
fn an_empty_file_is_not_an_archive() {
    assert_eq!(sniff(b""), None);
}

#[test]
fn the_magic_has_to_stand_where_a_header_keeps_it() {
    let mut early = vec![0u8; 512];
    early[..5].copy_from_slice(b"ustar");
    assert!(!is_tar(&early));
    assert!(is_tar(&tar_header()));
    assert!(!is_tar(&tar_header()[..USTAR_AT + 4]));
}

#[test]
fn a_name_asks_for_a_format_by_how_it_ends() {
    assert_eq!(Format::of_name("backup.zip"), Some(Format::Zip));
    assert_eq!(Format::of_name("backup.tar"), Some(Format::Tar));
    assert_eq!(Format::of_name("backup.tar.gz"), Some(Format::TarGz));
    assert_eq!(Format::of_name("backup.tgz"), Some(Format::TarGz));
    assert_eq!(Format::of_name("backup.rar"), None);
    assert_eq!(Format::of_name("backup"), None);
}

#[test]
fn the_suffix_is_read_whatever_case_it_is_written_in() {
    assert_eq!(Format::of_name("BACKUP.ZIP"), Some(Format::Zip));
    assert_eq!(Format::of_name("Backup.Tar.Gz"), Some(Format::TarGz));
}

#[test]
fn the_stem_is_the_name_without_the_suffix() {
    assert_eq!(stem("notes.tar.gz"), "notes");
    assert_eq!(stem("notes.tgz"), "notes");
    assert_eq!(stem("notes.zip"), "notes");
    assert_eq!(stem("notes.tar"), "notes");
}

#[test]
fn a_name_with_no_suffix_is_its_own_stem() {
    assert_eq!(stem("notes"), "notes");
    assert_eq!(stem("notes.rar"), "notes.rar");
}

#[test]
fn a_name_that_is_nothing_but_a_suffix_is_its_own_stem() {
    assert_eq!(stem(".zip"), ".zip");
}

#[test]
fn the_stem_and_the_suffix_make_the_name_again() {
    for name in ["a.zip", "Big.TAR.GZ", "x.tgz", "deep.tar"] {
        let stem = stem(name);
        assert!(name.starts_with(&stem));
        assert!(Format::of_name(name).is_some());
        assert!(stem.len() < name.len());
    }
}

#[test]
fn a_name_in_capitals_keeps_its_capitals_in_the_stem() {
    assert_eq!(stem("Backup.Tar.Gz"), "Backup");
    assert_eq!(stem("ČAU.ZIP"), "ČAU");
}
