use std::time::Duration;

use mula::ui::geometry::Area;
use mula::ui::toast::{stacked, Toast, ToastLevel, BORDER, MAX_WIDTH};

fn toast(message: &str) -> Toast {
    Toast::new(message, ToastLevel::Info, None)
}

#[test]
fn an_empty_message_still_yields_one_line() {
    assert_eq!(Toast::wrap("", 10), [""]);
}

#[test]
fn a_short_message_asks_only_for_what_it_needs() {
    assert_eq!(toast("boom").width(80), 4 + BORDER);
}

#[test]
fn width_is_capped_by_the_maximum_and_by_the_area() {
    let long = toast(&"x".repeat(200));
    assert_eq!(long.width(80), MAX_WIDTH);
    assert_eq!(long.width(20), 20);
}

#[test]
fn shrinking_to_the_longest_line_does_not_rewrap() {
    let toast = toast("Deleted 3 of 5 items");
    let width = toast.width(12);
    assert_eq!(width, 12);
    assert_eq!(toast.height(width), 2 + BORDER);
}

#[test]
fn a_width_too_narrow_for_the_borders_still_leaves_a_column() {
    assert_eq!(Toast::inner(0), 1);
    assert_eq!(Toast::inner(2), 2);
    assert_eq!(Toast::inner(3), 1);
}

#[test]
fn the_level_decides_how_long_a_toast_without_a_duration_lives() {
    assert!(!Toast::new("boom", ToastLevel::Error, None).is_expired());
    assert!(Toast::new("boom", ToastLevel::Info, Some(Duration::ZERO)).is_expired());
}

#[test]
fn words_wrap_at_the_width_and_a_long_word_is_cut() {
    assert_eq!(Toast::wrap("one two three", 7), ["one two", "three"]);
    assert_eq!(Toast::wrap("abcdefgh", 3), ["abc", "def", "gh"]);
}

#[test]
fn a_wide_character_counts_for_two_columns() {
    // Each of these takes two cells, so three of them do not fit in five.
    assert_eq!(Toast::wrap("日本語", 5), ["日本", "語"]);
}

#[test]
fn an_expired_toast_is_one_that_has_outlived_its_lifetime() {
    let t = Toast::new("boom", ToastLevel::Info, Some(Duration::from_nanos(10)));
    assert!(!t.expired_after(9));
    assert!(t.expired_after(10));
}

#[test]
fn a_toast_never_asks_for_more_than_the_area_has() {
    assert_eq!(toast("boom").width(2), 2);
    assert_eq!(toast("boom").width(1), 1);
    assert_eq!(toast("boom").width(0), 0);
}

#[test]
fn toasts_stack_up_from_the_bottom_right_while_they_fit() {
    let area = Area { x: 10, y: 5, width: 40, height: 10 };
    let rects = stacked(&vec![(6, 3), (20, 4), (8, 5)], area);
    assert_eq!(
        rects,
        [Area { x: 44, y: 12, width: 6, height: 3 }, Area { x: 30, y: 8, width: 20, height: 4 }]
    );
}
