use mula::action::VerticalDir;
use mula::fs::directory::{DirEntry, DirEntryKind};
use mula::fs::find::Ended;
use mula::keys::validate;
use mula::ui::finder::{find_keys, first_shown, Finder};

fn hit(path: &str) -> DirEntry {
    DirEntry { path: path.to_string(), kind: DirEntryKind::File, meta: None }
}

fn finder(hits: &[&str]) -> Finder {
    let mut finder = Finder::new("/root");
    finder.insert('a');
    finder.extend(hits.iter().map(|name| hit(&format!("/root/{name}"))).collect());
    finder
}

#[test]
fn find_keys_bind_every_key_once() {
    validate(&find_keys()).unwrap();
}

#[test]
fn the_first_hit_takes_the_cursor() {
    let finder = finder(&["one", "two"]);
    assert_eq!(finder.cursor(), Some(0));
    assert_eq!(finder.selected().unwrap().path, "/root/one");
}

#[test]
fn more_hits_leave_the_cursor_where_it_was() {
    let mut finder = finder(&["one", "two"]);
    finder.move_selection(VerticalDir::Down);
    finder.extend(vec![hit("/root/three")]);
    assert_eq!(finder.cursor(), Some(1));
}

#[test]
fn the_cursor_wraps_at_both_ends_of_the_hits() {
    let mut finder = finder(&["one", "two"]);
    finder.move_selection(VerticalDir::Up);
    assert_eq!(finder.cursor(), Some(1));
    finder.move_selection(VerticalDir::Down);
    assert_eq!(finder.cursor(), Some(0));
}

#[test]
fn moving_through_no_hits_at_all_does_nothing() {
    let mut finder = Finder::new("/root");
    finder.move_selection(VerticalDir::Down);
    finder.move_selection(VerticalDir::Up);
    assert!(finder.selected().is_none());
}

#[test]
fn restarting_drops_the_hits_and_the_cursor_with_them() {
    let mut finder = finder(&["one", "two"]);
    finder.finish(Ended::Exhausted);
    finder.restart();
    assert!(finder.selected().is_none());
    assert!(finder.hits().is_empty());
    assert_eq!(finder.status(), "Searching, 0 found");
}

#[test]
fn the_status_says_how_the_search_stands() {
    assert_eq!(Finder::new("/root").status(), "Type to search");
    let mut finder = finder(&["one", "two"]);
    assert_eq!(finder.status(), "Searching, 2 found");
    finder.finish(Ended::HitLimit);
    assert_eq!(finder.status(), "2 found, stopped at the limit");
    finder.finish(Ended::Exhausted);
    assert_eq!(finder.status(), "2 found");
}

#[test]
fn a_hit_is_labelled_from_the_root_down() {
    let finder = finder(&[]);
    assert_eq!(finder.label(&hit("/root/a/b.txt")), "a/b.txt");
    assert_eq!(finder.label(&hit("/elsewhere/c")), "/elsewhere/c");
}

#[test]
fn typing_and_backspacing_edit_the_query() {
    let mut finder = Finder::new("/root");
    finder.insert('a');
    finder.insert('c');
    finder.move_cursor(mula::ui::text_input::HorizontalDir::Left);
    finder.insert('b');
    assert_eq!(finder.query(), "abc");
    finder.backspace();
    assert_eq!(finder.query(), "ac");
    assert_eq!(finder.root(), "/root");
}

#[test]
fn the_hit_list_scrolls_only_as_far_as_the_cursor_needs() {
    assert_eq!(first_shown(None, 5), 0);
    assert_eq!(first_shown(Some(4), 5), 0);
    assert_eq!(first_shown(Some(5), 5), 1);
    assert_eq!(first_shown(Some(12), 5), 8);
    assert_eq!(first_shown(Some(3), 0), 0);
}
