use mula::fs::preview::Bitmap;
use mula::ui::geometry::Area;
use mula::ui::graphics::kitty::{base64, forget, forget_all, place, push_number, push_text};

#[test]
fn a_payload_is_spelled_the_way_the_standard_spells_it() {
    assert_eq!(base64(b""), b"");
    assert_eq!(base64(b"M"), b"TQ==");
    assert_eq!(base64(b"Ma"), b"TWE=");
    assert_eq!(base64(b"Man"), b"TWFu");
    assert_eq!(base64(b"Mula!"), b"TXVsYSE=");
    assert_eq!(base64(&[0xff, 0xff, 0xff]), b"////");
    assert_eq!(base64(&[0x00, 0x00, 0x00]), b"AAAA");
}

#[test]
fn forgetting_names_the_image_it_frees() {
    let mut out = Vec::new();
    forget(&mut out);
    assert_eq!(out, b"\x1b_Ga=d,d=I,i=1,q=2\x1b\\");
}

#[test]
fn forgetting_everything_names_no_image_at_all() {
    let mut out = Vec::new();
    forget_all(&mut out);
    assert_eq!(out, b"\x1b_Ga=d,d=A,q=2\x1b\\");
}

#[test]
fn text_and_numbers_are_appended_as_they_are_written() {
    let mut out = b"x".to_vec();
    push_text(&mut out, "a=");
    push_number(&mut out, 0);
    push_text(&mut out, ",");
    push_number(&mut out, 18446744073709551615);
    assert_eq!(out, b"xa=0,18446744073709551615");
}

fn bitmap(width: u32, height: u32) -> Bitmap {
    let pixels = (0..width * height * 4).map(|byte| byte as u8).collect();
    Bitmap::of(width, height, pixels)
}

fn placed(bitmap: &Bitmap, area: Area) -> Vec<u8> {
    let mut out = Vec::new();
    place(bitmap, area, &mut out);
    out
}

#[test]
fn a_bitmap_with_no_pixels_places_nothing() {
    assert!(placed(&bitmap(0, 0), Area::new(0, 0, 4, 2)).is_empty());
}

#[test]
fn a_placement_moves_the_cursor_then_carries_the_pixels() {
    let written = placed(&bitmap(1, 1), Area::new(2, 3, 4, 2));
    assert_eq!(
        String::from_utf8(written).unwrap(),
        "\x1b[4;3H\x1b_Ga=T,f=32,s=1,v=1,i=1,p=1,c=4,r=2,q=2,C=1,m=0;AAECAw==\x1b\\"
    );
}

#[test]
fn a_long_payload_goes_in_chunks_and_only_the_last_says_it_is_the_last() {
    // 64 by 64 pixels are 16384 bytes, which is 21848 of base64: six chunks.
    let written = String::from_utf8(placed(&bitmap(64, 64), Area::new(0, 0, 10, 5))).unwrap();
    assert_eq!(written.matches("\x1b_G").count(), 6);
    assert_eq!(written.matches("m=1;").count(), 5);
    assert_eq!(written.matches("m=0;").count(), 1);
    assert!(written.ends_with("\x1b\\"));
}
