use mula::ui::graphics::capabilities::{
    apc_body, cell_size, csi_params, kitty, number, Capabilities, CellSize, Graphics, Protocol,
    ATTRIBUTES,
};

/// What a terminal with the kitty protocol says to the query.
const KITTY_OK: &[u8] = b"\x1b_Gi=31;OK\x1b\\";
/// What one that knows the sequence but refuses the request says.
const KITTY_ERROR: &[u8] = b"\x1b_Gi=31;ENOTSUPPORTED:aq\x1b\\";
/// Device Attributes, which every terminal answers and which is the fence.
const ATTRIBUTES_PLAIN: &[u8] = b"\x1b[?62;22c";
/// A cell eight pixels across and seventeen tall, height first.
const CELL_REPLY: &[u8] = b"\x1b[6;17;8t";

fn reply(parts: &[&[u8]]) -> Vec<u8> {
    parts.concat()
}

fn cell(width: u16, height: u16) -> CellSize {
    CellSize { width, height }
}

#[test]
fn a_terminal_that_says_nothing_draws_half_blocks() {
    assert_eq!(Capabilities::from_reply(b""), Capabilities::default());
}

#[test]
fn an_ok_to_the_query_is_the_kitty_protocol() {
    let answered = reply(&[KITTY_OK, ATTRIBUTES_PLAIN]);
    assert_eq!(
        Capabilities::from_reply(&answered).protocol,
        Some(Protocol::Kitty)
    );
}

#[test]
fn an_error_to_the_query_is_not() {
    let answered = reply(&[KITTY_ERROR, ATTRIBUTES_PLAIN]);
    assert_eq!(Capabilities::from_reply(&answered).protocol, None);
}

#[test]
fn a_protocol_without_a_cell_size_places_nothing() {
    let answered = reply(&[KITTY_OK, ATTRIBUTES_PLAIN]);
    assert_eq!(Capabilities::from_reply(&answered).graphics(), None);
}

#[test]
fn a_cell_size_without_a_protocol_places_nothing() {
    let answered = reply(&[CELL_REPLY, ATTRIBUTES_PLAIN]);
    assert_eq!(Capabilities::from_reply(&answered).graphics(), None);
}

#[test]
fn the_cell_size_comes_out_width_first() {
    assert_eq!(cell_size(CELL_REPLY), Some(cell(8, 17)));
}

#[test]
fn the_window_size_is_not_the_cell_size() {
    assert_eq!(cell_size(b"\x1b[4;1080;1920t"), None);
}

#[test]
fn a_cell_of_no_size_is_no_answer() {
    assert_eq!(cell_size(b"\x1b[6;0;0t"), None);
}

#[test]
fn every_answer_out_of_one_reply() {
    let answered = reply(&[CELL_REPLY, KITTY_OK, ATTRIBUTES_PLAIN]);
    assert_eq!(
        Capabilities::from_reply(&answered).graphics(),
        Some(Graphics {
            protocol: Protocol::Kitty,
            cell: cell(8, 17),
        })
    );
}

#[test]
fn the_fence_alone_is_an_answer() {
    assert_eq!(
        Capabilities::from_reply(ATTRIBUTES_PLAIN),
        Capabilities::default()
    );
}

#[test]
fn a_sequence_that_never_ends_is_not_read_past() {
    assert_eq!(csi_params(b"\x1b[62;4", ATTRIBUTES), None);
}

#[test]
fn the_parameters_are_what_sits_between_the_bracket_and_the_final_byte() {
    assert_eq!(csi_params(b"junk\x1b[?62;22c", ATTRIBUTES), Some(&b"?62;22"[..]));
    assert_eq!(apc_body(b"\x1b_Gi=31;OK\x1b\\"), Some(&b"i=31;OK"[..]));
    assert_eq!(apc_body(b"\x1b_Gi=31;OK"), None);
}

#[test]
fn only_an_ok_to_our_own_query_is_the_protocol() {
    assert!(kitty(KITTY_OK));
    assert!(!kitty(KITTY_ERROR));
    assert!(!kitty(b""));
}

#[test]
fn a_number_is_decimal_digits_and_nothing_else() {
    assert_eq!(number(b"17"), Some(17));
    assert_eq!(number(b"65535"), Some(65535));
    assert_eq!(number(b"65536"), None);
    assert_eq!(number(b""), None);
    assert_eq!(number(b"1x"), None);
}
