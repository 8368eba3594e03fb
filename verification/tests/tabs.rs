use mula::fs::directory::{Detail, DirEntry, DirEntryKind, Directory};
use mula::fs::listing::Listed;
use mula::ui::tab::{MarkOp, Tab, TabId, TabList, ToggleDirection};

fn tabs(count: u64) -> TabList {
    TabList::new((0..count).map(|i| Tab::new(TabId(i), i.to_string(), "/")).collect())
}

fn tab_over(names: &[&str]) -> Tab {
    let mut entries = vec![DirEntry {
        path: "/".to_string(),
        kind: DirEntryKind::Parent,
        meta: None,
    }];
    entries.extend(names.iter().map(|name| DirEntry {
        path: format!("/a/{name}"),
        kind: DirEntryKind::File,
        meta: None,
    }));
    let mut tab = Tab::new(TabId(0), "t".to_string(), "/a");
    tab.get_pane_mut()
        .listed(Ok(Listed::Directory(Directory::new("/a".to_string(), entries, Detail::NamesOnly))))
        .unwrap();
    tab
}

fn marked_names(tab: &Tab) -> Vec<String> {
    let mut names: Vec<String> = tab
        .get_selected_items()
        .iter()
        .map(|path| path.rsplit('/').next().unwrap().to_string())
        .collect();
    names.sort();
    names
}

#[test]
fn closing_a_tab_leaves_the_cursor_on_the_one_that_followed_it() {
    let mut tabs = tabs(3);
    tabs.toggle(ToggleDirection::Next);
    assert!(tabs.close_active().is_some());
    assert_eq!(tabs.active_tab().get_title(), "2");
}

#[test]
fn closing_the_last_tab_steps_the_cursor_back() {
    let mut tabs = tabs(2);
    tabs.toggle(ToggleDirection::Next);
    tabs.close_active();
    assert_eq!(tabs.active_tab().get_title(), "0");
}

#[test]
fn the_only_tab_is_never_closed() {
    let mut tabs = tabs(1);
    assert!(tabs.close_active().is_none());
    assert_eq!(tabs.active_tab().get_title(), "0");
}

#[test]
fn a_closed_tab_can_no_longer_be_found_by_its_id() {
    let mut tabs = tabs(2);
    let closed = tabs.close_active().unwrap();
    assert!(tabs.tab_mut(closed).is_none());
    assert!(tabs.tab_mut(TabId(1)).is_some());
}

#[test]
fn toggling_wraps_around_either_end() {
    let mut tabs = tabs(3);
    tabs.toggle(ToggleDirection::Previous);
    assert_eq!(tabs.active_tab().get_title(), "2");
    tabs.toggle(ToggleDirection::Next);
    assert_eq!(tabs.active_tab().get_title(), "0");
}

#[test]
fn marking_everything_takes_every_row_on_screen() {
    let mut tab = tab_over(&["a", "b", "c"]);
    tab.mark_visible();
    assert_eq!(marked_names(&tab), ["a", "b", "c"]);
}

#[test]
fn marking_everything_leaves_the_parent_alone() {
    let mut tab = tab_over(&["a"]);
    tab.mark_visible();
    assert_eq!(marked_names(&tab), ["a"]);
}

#[test]
fn marking_everything_skips_what_the_view_is_hiding() {
    let mut tab = tab_over(&["a", ".env", "b"]);
    tab.mark_visible();
    assert_eq!(marked_names(&tab), ["a", "b"]);
}

#[test]
fn marking_everything_twice_marks_each_item_once() {
    let mut tab = tab_over(&["a", "b"]);
    tab.mark_visible();
    tab.mark_visible();
    assert_eq!(marked_names(&tab), ["a", "b"]);
}

#[test]
fn marking_everything_keeps_the_marks_made_in_another_directory() {
    let mut tab = tab_over(&["a"]);
    tab.mark_paths(vec!["/elsewhere/x".to_string()]);
    tab.mark_visible();
    assert_eq!(marked_names(&tab), ["a", "x"]);
}

#[test]
fn toggling_a_mark_twice_leaves_nothing_marked() {
    let mut tab = tab_over(&["a", "b"]);
    tab.get_pane_mut().select_next();
    tab.apply_mark(MarkOp::Toggle).unwrap();
    assert_eq!(marked_names(&tab), ["a"]);
    assert!(tab.is_marked("/a/a"));
    assert!(tab.is_marked("/a//a"));
    tab.apply_mark(MarkOp::Toggle).unwrap();
    assert!(marked_names(&tab).is_empty());
}

#[test]
fn the_parent_is_never_marked() {
    let mut tab = tab_over(&["a"]);
    tab.apply_mark(MarkOp::Mark).unwrap();
    assert!(marked_names(&tab).is_empty());
}

#[test]
fn unmarking_and_clearing_take_marks_away() {
    let mut tab = tab_over(&["a", "b"]);
    tab.mark_visible();
    tab.get_pane_mut().select_next();
    tab.apply_mark(MarkOp::Unmark).unwrap();
    assert_eq!(marked_names(&tab), ["b"]);
    tab.deselect_items();
    assert!(marked_names(&tab).is_empty());
}
