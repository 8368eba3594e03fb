use mula::keys::{Binding, KeyBinding, KeyCode};
use mula::ui::infobar::{lay_out, InfoBar, Piece, ProgressView};
use mula::ui::keybar::keybar;

/// The row as the terminal would show it, for a bar `width` columns wide.
fn render(bar: InfoBar, width: usize) -> String {
    lay_out(bar.segments(), width)
        .iter()
        .map(|piece| piece.text.as_str())
        .collect()
}

fn halfway() -> ProgressView {
    ProgressView {
        filled: "████████".to_string(),
        unfilled: "░░░░░░░░".to_string(),
        percent: "  50%".to_string(),
        full: false,
        current: "file.txt".to_string(),
        done: 6,
        total: 12,
    }
}

fn cancel_key() -> Option<KeyBinding> {
    Some(KeyBinding::plain(KeyCode::F(9)))
}

#[test]
fn the_marked_count_is_drawn() {
    assert_eq!(render(InfoBar::new().marked(3), 40), "3 marked");
}

#[test]
fn nothing_marked_leaves_the_row_empty() {
    assert_eq!(render(InfoBar::new(), 40), "");
}

#[test]
fn a_segment_that_does_not_fit_is_dropped() {
    assert_eq!(render(InfoBar::new().marked(12), 5), "");
}

#[test]
fn progress_draws_a_half_filled_bar_with_its_counts() {
    assert_eq!(
        render(InfoBar::new().progress(Some(halfway())), 80),
        "⠋ ████████░░░░░░░░  50% | file.txt | 6 / 12"
    );
}

#[test]
fn progress_comes_before_the_marked_count() {
    let row = render(InfoBar::new().progress(Some(halfway())).marked(3), 80);
    assert!(row.ends_with("6 / 12 | 3 marked"), "{row}");
}

#[test]
fn a_narrow_row_keeps_the_bar_and_drops_the_rest() {
    assert_eq!(
        render(InfoBar::new().progress(Some(halfway())).marked(3), 26),
        "⠋ ████████░░░░░░░░  50%"
    );
}

#[test]
fn the_spinner_turns_with_the_tick() {
    let first = render(InfoBar::new().progress(Some(halfway())).tick(0), 30);
    let second = render(InfoBar::new().progress(Some(halfway())).tick(1), 30);
    assert_ne!(first, second);
    let again = render(InfoBar::new().progress(Some(halfway())).tick(8), 30);
    assert_eq!(first, again);
}

#[test]
fn a_long_name_is_clipped_to_its_display_width() {
    let mut progress = halfway();
    progress.current = "a-very-long-file-name-indeed-and-more.txt".to_string();
    let segments = InfoBar::new().progress(Some(progress)).segments();
    let name = &segments[1][0].text;
    assert_eq!(name.chars().count(), 24);
    assert!(name.ends_with('…'));
}

#[test]
fn the_cancel_hint_shows_only_while_a_job_runs() {
    let running = render(InfoBar::new().progress(Some(halfway())).cancel_key(cancel_key()), 80);
    assert!(running.ends_with("F9 cancel"), "{running}");
    assert_eq!(render(InfoBar::new().cancel_key(cancel_key()), 80), "");
}

#[test]
fn a_finished_bar_drops_the_cancel_hint() {
    let done = ProgressView { full: true, ..halfway() };
    let row = render(InfoBar::new().progress(Some(done)).cancel_key(cancel_key()), 80);
    assert!(!row.contains("cancel"), "{row}");
}

#[test]
fn the_hint_is_the_first_thing_a_narrow_row_drops() {
    let row = render(
        InfoBar::new().progress(Some(halfway())).marked(3).cancel_key(cancel_key()),
        60,
    );
    assert!(row.contains("3 marked"), "{row}");
    assert!(!row.contains("cancel"), "{row}");
}

#[test]
fn the_queue_counts_only_what_is_waiting() {
    assert_eq!(render(InfoBar::new().queued(1), 40), "");
    assert_eq!(render(InfoBar::new().queued(3), 40), "2 queued");
}

fn texts(row: &[Piece]) -> String {
    row.iter().map(|p| p.text.as_str()).collect()
}

#[test]
fn the_help_hint_leads_the_key_bar() {
    let table = [
        Binding { key: KeyBinding::plain(KeyCode::Char('q')), msg: (), bar: Some("Quit"), help: "" },
        Binding { key: KeyBinding::plain(KeyCode::Char('x')), msg: (), bar: None, help: "" },
        Binding { key: KeyBinding::ctrl(KeyCode::Char('c')), msg: (), bar: Some("Copy"), help: "" },
    ];
    let row = keybar(&table, Some(KeyBinding::plain(KeyCode::F(1))));
    assert_eq!(texts(&row), "F1 Help  q Quit  Ctrl+c Copy");
    let bare = keybar(&table, None);
    assert_eq!(texts(&bare), "q Quit  Ctrl+c Copy");
}
