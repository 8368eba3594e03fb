use mula::fs::directory::Detail;
use mula::ui::favorites::tail;
use mula::ui::preview::{bytes_per_row, hex_line, scaled};
use mula::ui::sort::{Order, Sort, SortKey};
use mula::ui::text_input::{HorizontalDir, TextInput};

fn by(key: SortKey) -> Sort {
    Sort { key, order: Order::Natural }
}

fn holding(text: &str) -> TextInput {
    let mut input = TextInput::new();
    input.set_text(text);
    input
}

#[test]
fn a_hex_row_holds_more_bytes_when_the_panel_is_wider() {
    assert_eq!(bytes_per_row(38), 4);
    assert_eq!(bytes_per_row(78), 16);
    assert_eq!(bytes_per_row(4), 4);
}

#[test]
fn a_hex_row_shows_the_offset_the_bytes_and_the_printable_ones() {
    let row = hex_line(16, b"Hi\x00\x01", 4);
    assert_eq!(row.offset, "000010  ");
    assert_eq!(row.hex, "48 69 00 01");
    assert_eq!(row.text, "Hi..");
    // A short last row keeps the text column where the full rows have it.
    let short = hex_line(0, b"A", 4);
    assert_eq!(short.hex, "41         ");
    assert_eq!(short.text, "A");
}

#[test]
fn a_picture_keeps_its_shape_inside_the_grid() {
    assert_eq!(scaled(20, 10, 10, 10), (10, 5));
    assert_eq!(scaled(10, 20, 10, 10), (5, 10));
    assert_eq!(scaled(2, 1, 10, 10), (10, 5));
    assert_eq!(scaled(1000, 1, 10, 10), (10, 1));
}

#[test]
fn a_key_that_compares_metadata_asks_for_it() {
    assert_eq!(by(SortKey::Name).detail(), Detail::NamesOnly);
    assert_eq!(by(SortKey::Extension).detail(), Detail::NamesOnly);
    assert_eq!(by(SortKey::Size).detail(), Detail::WithMetadata);
    assert_eq!(by(SortKey::Modified).detail(), Detail::WithMetadata);
}

#[test]
fn the_order_every_pane_starts_in_is_not_labelled() {
    assert_eq!(Sort::default().label(), None);
    assert_eq!(
        by(SortKey::Size).reversed().label().as_deref(),
        Some("by size, reversed")
    );
}

#[test]
fn typing_lands_where_the_cursor_is() {
    let mut input = holding("ac");
    input.move_cursor(HorizontalDir::Left);
    input.insert('b');
    assert_eq!(input.text(), "abc");
}

#[test]
fn the_cursor_counts_characters_rather_than_bytes() {
    let mut input = holding("čau");
    input.move_cursor(HorizontalDir::Left);
    input.backspace();
    assert_eq!(input.text(), "ču");
}

#[test]
fn the_cursor_stops_at_either_end() {
    let mut input = holding("ab");
    for _ in 0..5 {
        input.move_cursor(HorizontalDir::Left);
    }
    input.backspace();
    assert_eq!(input.text(), "ab");

    for _ in 0..5 {
        input.move_cursor(HorizontalDir::Right);
    }
    input.insert('c');
    assert_eq!(input.text(), "abc");
}

#[test]
fn text_that_fits_is_shown_whole_and_is_not_scrolled() {
    let input = holding("abc");
    assert_eq!(input.visible_text(10), "abc");
}

#[test]
fn a_path_with_few_enough_components_is_given_whole() {
    assert_eq!(tail("/one/two"), "/one/two");
    assert_eq!(tail("/a/b/c/d"), "…/b/c/d");
}
