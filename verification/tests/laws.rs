use mula::fs::find::{Ended, Limits, Walk};
use mula::favorites::{Added, Favorites};
use mula::fs::directory::{assemble, Detail, DirEntry, DirEntryKind, Directory, EntryMeta, Found};
use mula::fs::listing::{Kind, Listed};
use mula::fs::reader::Reader;
use mula::fs::sizes::{Stat, Tally};
use mula::fs::worker::Health;
use mula::ui::infobar::{lay_out, InfoBar};
use mula::ui::pane::{Entered, PaneError};
use mula::ui::panel::Panel;
use mula::ui::tab::{MarkOp, Tab, TabId, ToggleDirection};
use mula::ui::text_input::{HorizontalDir, TextInput};

fn listing(path: &str, names: &[&str]) -> Directory {
    let entries = names
        .iter()
        .map(|name| DirEntry { path: format!("{path}/{name}"), kind: DirEntryKind::File, meta: None })
        .collect();
    Directory::new(path.to_string(), entries, Detail::NamesOnly)
}

#[test]
fn typing_a_character_and_erasing_it_leaves_the_text_as_it_was() {
    let mut input = TextInput::new();
    input.set_text("report");
    input.move_cursor(HorizontalDir::Left);
    input.move_cursor(HorizontalDir::Left);
    let (text, cursor) = (input.text(), input.cursor());

    input.insert('x');
    assert_eq!(input.text(), "repoxrt");
    input.backspace();

    assert_eq!(input.text(), text);
    assert_eq!(input.cursor(), cursor);
}

#[test]
fn flipping_a_mark_twice_leaves_the_marks_as_they_were() {
    let mut tab = Tab::new(TabId(7), "t".to_string(), "/srv");
    tab.get_pane_mut().listed(Ok(Listed::Directory(listing("/srv", &["a", "b"])))).unwrap();

    tab.apply_mark(MarkOp::Toggle).unwrap();
    assert!(tab.is_marked("/srv/a"));
    tab.apply_mark(MarkOp::Toggle).unwrap();

    assert!(!tab.is_marked("/srv/a"));
    assert!(tab.get_selected_items().is_empty());
}

#[test]
fn a_file_with_two_names_is_counted_once() {
    let linked = Stat { is_dir: false, dev: 1, ino: 42, nlink: 2, len: 100 };
    let single = Stat { is_dir: false, dev: 1, ino: 43, nlink: 1, len: 7 };
    let mut tally = Tally::new();

    tally.count(linked);
    tally.count(single);
    tally.count(linked);

    assert_eq!(tally.total(), 107);
}

#[test]
fn the_info_bar_never_draws_past_its_width() {
    let bar = InfoBar::new().marked(12).queued(3).tick(5);
    for width in [0usize, 5, 10, 20, 80] {
        let row = lay_out(bar.segments(), width);
        let drawn: usize = row.iter().map(|piece| piece.text.chars().count()).sum();
        assert!(drawn <= width, "{drawn} columns drawn in {width}");
    }
}

#[test]
fn answers_to_a_replaced_request_are_dropped() {
    let mut reader = Reader::start();
    let first = reader.send(true).unwrap();
    let second = reader.send(true).unwrap();

    let drained = reader.drain(vec![(first, "stale"), (second, "live"), (first, "late")], false);
    assert_eq!(drained.msgs, vec!["live"]);

    reader.cancel();
    let drained = reader.drain(vec![(first, "stale"), (second, "live")], false);
    assert!(drained.msgs.is_empty());
    assert_eq!(drained.health, Health::Running);
}

#[test]
fn answers_to_a_cancelled_request_stay_dropped_at_every_later_drain() {
    let mut reader = Reader::start();
    let first = reader.send(true).unwrap();
    reader.cancel();
    assert!(reader.drain(vec![(first, "stale")], false).msgs.is_empty());
    let third = reader.send(true).unwrap();
    let drained = reader.drain(vec![(first, "stale"), (first + 1, "cancelled"), (third, "live")], false);
    assert_eq!(drained.msgs, vec!["live"]);
    reader.cancel();
    assert!(reader.drain(vec![(first, "stale"), (third, "replaced")], false).msgs.is_empty());
}

#[test]
fn adding_a_favorite_and_removing_it_leaves_the_list_as_it_was() {
    let write = |_: &str, _: &str| Ok(());
    let mut favorites = Favorites::open("favorites.toml", vec!["/home".to_string(), "/srv".to_string()]);

    assert_eq!(favorites.add("/tmp", &write), Ok(Added::Added));
    assert_eq!(favorites.paths(), &vec!["/home".to_string(), "/srv".to_string(), "/tmp".to_string()]);
    assert_eq!(favorites.remove("/tmp", &write), Ok(()));

    assert_eq!(favorites.paths(), &vec!["/home".to_string(), "/srv".to_string()]);
}

#[test]
fn a_panel_hands_only_the_newest_listing_to_the_tab_that_asked() {
    let mut panel = Panel::new(Tab::new(TabId(0), "t".to_string(), "/srv"));
    let sent = panel.send_wanted(Detail::NamesOnly);
    assert_eq!(sent.as_deref(), Some("/srv"));

    let drained = mula::fs::reader::Drained {
        msgs: vec![Ok(Listed::Directory(listing("/srv", &["old"]))), Ok(Listed::Directory(listing("/srv", &["new", "newer"])))],
        health: Health::Running,
    };
    let collected = panel.collect_listing(drained);

    assert!(collected.error.is_none());
    assert!(matches!(collected.entered, Entered::Nothing));
    assert_eq!(panel.active_pane().directory().len(), 2);
}

#[test]
fn a_panel_reports_the_listing_it_could_not_read() {
    let mut panel = Panel::new(Tab::new(TabId(0), "t".to_string(), "/srv"));
    panel.send_wanted(Detail::NamesOnly);

    let drained = mula::fs::reader::Drained { msgs: vec![Err("/srv: denied".to_string())], health: Health::Stopped };
    let collected = panel.collect_listing(drained);

    assert_eq!(collected.health, Health::Stopped);
    assert_eq!(collected.error, Some(PaneError::IO("/srv: denied".to_string())));
}

#[test]
fn a_panel_with_nothing_collected_stays_as_it_was() {
    let mut panel = Panel::new(Tab::new(TabId(0), "t".to_string(), "/srv"));
    let drained = mula::fs::reader::Drained { msgs: Vec::new(), health: Health::Running };
    let collected = panel.collect_listing(drained);

    assert!(collected.error.is_none());
    assert!(matches!(collected.entered, Entered::Nothing));
}

#[test]
fn the_active_pane_can_be_moved_in_place() {
    let mut panel = Panel::new(Tab::new(TabId(0), "t".to_string(), "/srv"));
    panel.active_pane_mut().listed(Ok(Listed::Directory(listing("/srv", &["a", "b", "c"])))).unwrap();
    panel.active_pane_mut().select_last();

    assert_eq!(panel.active_pane().selected(), Some(2));
    assert!(matches!(
        panel.active_pane_mut().listed(Ok(Listed::NotADirectory(Kind::Text))),
        Ok(Entered::Nothing)
    ));
}

fn tree(path: &str, entries: &[(&str, DirEntryKind)]) -> Directory {
    let entries = entries
        .iter()
        .map(|(name, kind)| DirEntry { path: format!("{path}/{name}"), kind: *kind, meta: None })
        .collect();
    Directory::new(path.to_string(), entries, Detail::NamesOnly)
}

fn panel_at(path: &str, entries: &[(&str, DirEntryKind)]) -> Panel {
    let mut panel = Panel::new(Tab::new(TabId(0), "t".to_string(), path));
    panel.active_pane_mut().listed(Ok(Listed::Directory(tree(path, entries)))).unwrap();
    panel
}

#[test]
fn a_panel_somewhere_new_asks_for_every_directory_it_lists() {
    let mut panel = panel_at("/srv", &[("a", DirEntryKind::Directory), ("b", DirEntryKind::File), ("c", DirEntryKind::Directory)]);
    let mut sizes = mula::fs::sizes::DirSizes::new();
    sizes.insert("/srv/a".to_string(), 10);

    assert_eq!(panel.send_sizing(&sizes), Some(vec!["/srv/a".to_string(), "/srv/c".to_string()]));
}

#[test]
fn a_panel_that_stays_asks_nothing_twice() {
    let mut panel = panel_at("/srv", &[("a", DirEntryKind::Directory), ("c", DirEntryKind::Directory)]);
    let mut sizes = mula::fs::sizes::DirSizes::new();
    assert!(panel.send_sizing(&sizes).is_some());

    assert_eq!(panel.send_sizing(&sizes), None);

    sizes.insert("/srv/a".to_string(), 10);
    assert_eq!(panel.send_sizing(&sizes), None);
}

#[test]
fn a_restarted_panel_asks_again_for_what_is_still_unknown() {
    let mut panel = panel_at("/srv", &[("a", DirEntryKind::Directory), ("c", DirEntryKind::Directory)]);
    let mut sizes = mula::fs::sizes::DirSizes::new();
    panel.send_sizing(&sizes);
    sizes.insert("/srv/a".to_string(), 10);

    panel.restart_sizing();

    assert_eq!(panel.send_sizing(&sizes), Some(vec!["/srv/c".to_string()]));
}

#[test]
fn stopping_says_whether_anything_was_being_measured() {
    let mut panel = panel_at("/srv", &[("a", DirEntryKind::Directory)]);
    assert!(!panel.stop_sizing());
    panel.send_sizing(&mula::fs::sizes::DirSizes::new());

    assert!(panel.stop_sizing());
    assert!(!panel.stop_sizing());
}

#[test]
fn a_tab_that_loses_the_reader_asks_again_once_it_is_back() {
    let mut panel = Panel::new(Tab::new(TabId(0), "first".to_string(), "/srv"));
    assert_eq!(panel.send_wanted(Detail::NamesOnly).as_deref(), Some("/srv"));
    assert_eq!(panel.send_wanted(Detail::NamesOnly), None);

    panel.tabs_mut().add_tab(Tab::new(TabId(1), "second".to_string(), "/tmp"));
    panel.tabs_mut().toggle(ToggleDirection::Next);
    assert_eq!(panel.send_wanted(Detail::NamesOnly).as_deref(), Some("/tmp"));

    panel.tabs_mut().toggle(ToggleDirection::Next);
    assert_eq!(panel.send_wanted(Detail::NamesOnly).as_deref(), Some("/srv"));
}

#[test]
fn entries_that_compare_equal_keep_the_order_they_came_in() {
    let file = |path: &str| DirEntry { path: path.to_string(), kind: DirEntryKind::File, meta: None };
    let d = Directory::new("/d".to_string(), vec![file("/b/x"), file("/a/y"), file("/a/x")], Detail::NamesOnly);
    let paths: Vec<&str> = d.entries().iter().map(|e| e.path.as_str()).collect();
    assert_eq!(paths, ["/b/x", "/a/x", "/a/y"]);
    let d = Directory::new("/d".to_string(), vec![file("/a/x"), file("/b/x")], Detail::NamesOnly);
    let paths: Vec<&str> = d.entries().iter().map(|e| e.path.as_str()).collect();
    assert_eq!(paths, ["/a/x", "/b/x"]);
}

#[test]
fn a_walk_reads_every_level_before_the_next_and_stops_at_the_limit() {
    let dir = |path: &str| DirEntry { path: path.to_string(), kind: DirEntryKind::Directory, meta: None };
    let file = |path: &str| DirEntry { path: path.to_string(), kind: DirEntryKind::File, meta: None };
    let limits = Limits { max_hits: 2, max_depth: 5, skip_dirs: Vec::new() };
    let mut walk = Walk::start("/r", "log", limits);

    assert_eq!(walk.next_dir(), Some(("/r".to_string(), 0)));
    let (hits, ended) = walk.visit(&[dir("/r/a"), dir("/r/b")], 0);
    assert!(hits.is_empty() && ended.is_none());
    assert_eq!(walk.next_dir(), Some(("/r/a".to_string(), 1)));
    let (hits, ended) = walk.visit(&[dir("/r/a/c"), file("/r/a/x.log")], 1);
    assert_eq!(hits.len(), 1);
    assert!(ended.is_none());
    assert_eq!(walk.next_dir(), Some(("/r/b".to_string(), 1)));
    let (hits, ended) = walk.visit(&[file("/r/b/LOG"), file("/r/b/later.log")], 1);
    assert_eq!(hits.iter().map(|h| h.path.as_str()).collect::<Vec<_>>(), ["/r/b/LOG"]);
    assert_eq!(ended, Some(Ended::HitLimit));
}

#[test]
fn a_listing_puts_the_parent_first_and_sorts_what_was_found() {
    let found = vec![
        Found { path: "/d/b.txt".to_string(), is_symlink: false, is_dir: false, meta: Some(EntryMeta { size: 3, modified: 0 }) },
        Found { path: "/d/link".to_string(), is_symlink: true, is_dir: true, meta: None },
        Found { path: "/d/sub".to_string(), is_symlink: false, is_dir: true, meta: None },
    ];
    let d = assemble("/d", found, Detail::NamesOnly);
    let listed: Vec<(&str, DirEntryKind)> = d.entries().iter().map(|e| (e.path.as_str(), e.kind)).collect();
    assert_eq!(
        listed,
        [
            ("/", DirEntryKind::Parent),
            ("/d/sub", DirEntryKind::Directory),
            ("/d/link", DirEntryKind::Symlink),
            ("/d/b.txt", DirEntryKind::File),
        ]
    );
    assert!(d.entries().iter().all(|e| e.meta.is_none()));
    assert_eq!(d.path(), "/d");
    let root = assemble("/", Vec::new(), Detail::WithMetadata);
    assert!(root.entries().is_empty());
}
