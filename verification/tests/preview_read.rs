use mula::fs::preview::{classify, is_text, printable, sniff_image, whole_chars, Bitmap, Content, ImageKind, Limits};

#[test]
fn a_character_cut_in_half_by_the_cap_is_dropped() {
    let text = "ahoj č".as_bytes();
    assert_eq!(whole_chars(&text[..text.len() - 1]), text.len() - 2);
    assert_eq!(whole_chars(text), text.len());
}

#[test]
fn tabs_become_spaces_and_other_control_characters_go_away() {
    assert_eq!(printable("a\tb\u{7}c", 100), "a    bc");
}

#[test]
fn a_line_is_cut_once_it_holds_the_cap() {
    assert_eq!(printable(&"ab".repeat(100), 10), "ababababab");
    // A tab that starts under the cap is cut at it like anything else.
    assert_eq!(printable("abc\td", 4), "abc ");
    assert_eq!(printable("a\t", 2), "a ");
    assert_eq!(printable("\tx", 4), "    ");
}

#[test]
fn a_nul_byte_makes_it_binary() {
    assert!(!is_text(b"MZ\x00\x00program"));
    assert!(is_text(b"plain text"));
    assert!(is_text(b""));
}

#[test]
fn a_picture_is_known_by_its_signature_and_not_by_its_name() {
    assert_eq!(sniff_image(b"\x89PNG\r\n\x1a\nrest"), Some(ImageKind::Png));
    assert_eq!(sniff_image(b"\xff\xd8\xffrest"), Some(ImageKind::Jpeg));
    assert_eq!(sniff_image(b"just text\n"), None);
    assert_eq!(sniff_image(b"\x89PN"), None);
}

#[test]
fn a_text_file_comes_back_as_lines() {
    let Content::Text { lines, clipped } = classify(b"first\nsecond\n".to_vec(), false, &Limits::default()) else {
        panic!("text did not read as text");
    };
    assert_eq!(lines, ["first", "second"]);
    assert!(!clipped);
}

#[test]
fn a_line_the_read_stopped_in_is_dropped() {
    let capped = Limits { max_bytes: 8, ..Limits::default() };
    let Content::Text { lines, clipped } = classify(b"one\ntwo\nthr".to_vec(), true, &capped) else {
        panic!("text did not read as text");
    };
    assert_eq!(lines, ["one", "two"]);
    assert!(clipped);
}

#[test]
fn a_nul_in_the_bytes_is_shown_as_a_dump() {
    let content = classify(b"MZ\x00\x00program".to_vec(), false, &Limits::default());
    assert!(matches!(content, Content::Binary { clipped: false, .. }));
}

#[test]
fn a_file_with_as_many_lines_as_are_kept_says_it_goes_on() {
    let few = Limits { max_lines: 2, ..Limits::default() };
    let Content::Text { lines, clipped } = classify(b"a\nb\nc\n".to_vec(), false, &few) else {
        panic!("text did not read as text");
    };
    assert_eq!(lines, ["a"]);
    assert!(clipped);
}

#[test]
fn a_pixel_outside_the_bitmap_is_transparent_black() {
    let bitmap = Bitmap::of(1, 2, vec![1, 2, 3, 4, 5, 6, 7, 8]);
    assert_eq!(bitmap.pixel(0, 1), [5, 6, 7, 8]);
    assert_eq!(bitmap.pixel(1, 0), [0, 0, 0, 0]);
    assert_eq!(bitmap.pixel(0, 2), [0, 0, 0, 0]);
    assert_eq!(bitmap.rgba().len(), 8);
}
