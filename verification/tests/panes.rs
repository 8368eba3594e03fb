use mula::fs::directory::{Detail, DirEntry, DirEntryKind, Directory};
use mula::fs::listing::{Kind, Listed};
use mula::ui::columns::Columns;
use mula::ui::pane::{Entered, Pane, PaneError};

fn directory_at(path: &str, count: usize, detail: Detail) -> Directory {
    let entries = (0..count)
        .map(|i| DirEntry {
            path: format!("{}/{}", path.trim_end_matches('/'), i),
            kind: DirEntryKind::File,
            meta: None,
        })
        .collect();
    Directory::new(path.to_string(), entries, detail)
}

fn pane(count: usize) -> Pane {
    Pane::new(directory_at("/", count, Detail::NamesOnly))
}

#[test]
fn the_cursor_wraps_from_the_last_item_to_the_first() {
    let mut pane = pane(3);
    for _ in 0..3 {
        pane.select_next();
    }
    assert_eq!(pane.selected(), Some(0));
}

#[test]
fn the_cursor_wraps_from_the_first_item_to_the_last() {
    let mut pane = pane(3);
    pane.select_prev();
    assert_eq!(pane.selected(), Some(2));
}

#[test]
fn the_cursor_reaches_either_end_from_anywhere() {
    let mut pane = pane(5);
    pane.select_next();
    pane.select_next();
    pane.select_last();
    assert_eq!(pane.selected(), Some(4));
    pane.select_first();
    assert_eq!(pane.selected(), Some(0));
}

#[test]
fn jumping_to_the_last_item_leaves_an_entry_under_the_cursor() {
    let mut pane = pane(3);
    pane.select_last();
    assert_eq!(pane.selected_entry().unwrap().path, "/2");
}

#[test]
fn an_empty_listing_has_no_end_to_jump_to() {
    let mut pane = pane(0);
    pane.select_first();
    pane.select_last();
    assert_eq!(pane.selected(), None);
}

#[test]
fn an_empty_listing_selects_nothing_and_the_cursor_stays_put() {
    let mut pane = pane(0);
    pane.select_next();
    pane.select_prev();
    assert_eq!(pane.selected(), None);
    assert!(matches!(pane.selected_entry(), Err(PaneError::NoItemSelected)));
}

#[test]
fn a_pane_with_no_listing_shows_its_path_and_asks_for_it() {
    let mut pane = Pane::empty("/a");
    assert_eq!(pane.get_current_dir(), "/a");
    assert_eq!(pane.take_unsent().as_deref(), Some("/a"));
}

#[test]
fn a_listing_is_asked_for_once() {
    let mut pane = Pane::empty("/a");
    pane.take_unsent();
    assert!(pane.take_unsent().is_none());
}

#[test]
fn a_request_that_went_out_can_be_asked_again() {
    let mut pane = Pane::empty("/a");
    pane.take_unsent();
    pane.unsend();
    assert_eq!(pane.take_unsent().as_deref(), Some("/a"));
}

#[test]
fn an_answer_replaces_the_listing_and_ends_the_wait() {
    let mut pane = Pane::empty("/a");
    pane.take_unsent();
    pane.listed(Ok(Listed::Directory(directory_at("/a", 2, Detail::NamesOnly))))
        .unwrap();
    assert_eq!(pane.directory().len(), 2);
    assert!(pane.take_unsent().is_none());
}

#[test]
fn a_shorter_listing_pulls_the_selection_back_to_the_last_item() {
    let mut pane = pane(5);
    pane.select_prev();
    pane.listed(Ok(Listed::Directory(directory_at("/", 2, Detail::NamesOnly))))
        .unwrap();
    assert_eq!(pane.selected(), Some(1));
    assert_eq!(pane.selected_entry().unwrap().path, "/1");
}

#[test]
fn a_failed_answer_leaves_the_pane_where_it_was_and_does_not_ask_again() {
    let mut pane = pane(3);
    pane.refresh();
    pane.take_unsent();
    let result = pane.listed(Err("permission denied".to_string()));
    assert_eq!(result.unwrap_err(), PaneError::IO("permission denied".to_string()));
    assert_eq!(pane.get_current_dir(), "/");
    assert_eq!(pane.directory().len(), 3);
    assert!(pane.take_unsent().is_none());
}

#[test]
fn entering_asks_for_the_entry_under_the_cursor() {
    let mut pane = pane(3);
    pane.select_next();
    pane.change_directory().unwrap();
    assert_eq!(pane.take_unsent().as_deref(), Some("/1"));
}

#[test]
fn entering_something_that_is_not_a_directory_hands_it_back_to_be_opened() {
    let mut pane = pane(3);
    pane.select_next();
    pane.change_directory().unwrap();
    pane.take_unsent();
    let entered = pane.listed(Ok(Listed::NotADirectory(Kind::Text))).unwrap();
    assert!(matches!(entered, Entered::Open { path, kind } if path == "/1" && kind == Kind::Text));
    assert_eq!(pane.get_current_dir(), "/");
    assert!(pane.take_unsent().is_none());
}

#[test]
fn a_refresh_onto_something_that_is_not_a_directory_opens_nothing() {
    let mut pane = pane(3);
    pane.refresh();
    pane.take_unsent();
    let entered = pane.listed(Ok(Listed::NotADirectory(Kind::Text))).unwrap();
    assert!(matches!(entered, Entered::Nothing));
    assert_eq!(pane.get_current_dir(), "/");
}

#[test]
fn revealing_puts_the_cursor_on_the_target_once_the_listing_arrives() {
    let mut pane = pane(3);
    pane.reveal_path("/b/2");
    assert_eq!(pane.take_unsent().as_deref(), Some("/b"));
    pane.listed(Ok(Listed::Directory(directory_at("/b", 4, Detail::NamesOnly))))
        .unwrap();
    assert_eq!(pane.selected_entry().unwrap().path, "/b/2");
}

#[test]
fn a_pane_asks_again_for_a_listing_that_is_thinner_than_the_columns_need() {
    let mut pane = pane(3);
    pane.want_detail(Detail::WithMetadata);
    assert_eq!(pane.take_unsent().as_deref(), Some("/"));
}

#[test]
fn a_pane_holding_more_than_the_columns_need_asks_for_nothing() {
    let mut pane = Pane::new(directory_at("/", 3, Detail::WithMetadata));
    pane.want_detail(Detail::NamesOnly);
    assert!(pane.take_unsent().is_none());
    pane.want_detail(Detail::WithMetadata);
    assert!(pane.take_unsent().is_none());
}

#[test]
fn a_pane_already_waiting_keeps_what_it_was_waiting_for() {
    let mut pane = pane(3);
    pane.reveal_path("/b/2");
    pane.want_detail(Detail::WithMetadata);
    assert_eq!(pane.take_unsent().as_deref(), Some("/b"));
}

#[test]
fn a_request_replaced_before_it_was_sent_asks_only_for_the_last_one() {
    let mut pane = pane(3);
    pane.reveal_path("/b/2");
    pane.refresh();
    assert_eq!(pane.take_unsent().as_deref(), Some("/"));
    assert!(pane.take_unsent().is_none());
}

#[test]
fn a_row_gives_the_name_what_the_columns_leave() {
    let entry = DirEntry {
        path: "/home/a-rather-long-file-name.txt".to_string(),
        kind: DirEntryKind::File,
        meta: None,
    };
    // Two for the mark, the icon and its blank, six for the size column.
    let row = Pane::row(&entry, true, Columns::Size, 20);
    assert_eq!(row.mark, "\u{258c} ");
    let icon_width = ratatui::text::Span::raw(format!("{} ", row.icon.glyph)).width();
    let room = 20 - 2 - icon_width - 6;
    assert_eq!(ratatui::text::Span::raw(row.label.clone()).width() + row.padding, room);
    assert!(row.label.ends_with('…'));
    let unmarked = Pane::row(&entry, false, Columns::Name, 200);
    assert_eq!(unmarked.mark, "  ");
    assert_eq!(unmarked.label, "a-rather-long-file-name.txt");
}
