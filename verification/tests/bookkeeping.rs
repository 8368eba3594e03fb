use mula::app::{ConfirmTarget, InputTarget};
use mula::fs::listing::{kind_of, Kind};
use mula::fs::ops::ProcessedSummary;
use mula::fs::sizes::{counted, Counted, DirSizes, Stat, Tally};
use mula::modes::{
    confirm_key, delete_question, find_key, input_key, quit_question, summary_toast, ConfirmStep,
    FindStep, InputStep, Mode, Typed,
};
use mula::places::{config_file, favorites_file, log_dir};
use mula::ui::dialog::{Dialog, DialogMsg};
use mula::ui::finder::{FindMsg, Finder};
use mula::ui::prompt::{InputMsg, Prompt};
use mula::ui::text_input::HorizontalDir;
use mula::ui::toast::ToastLevel;

fn stat(is_dir: bool, dev: u64, ino: u64, nlink: u64, len: u64) -> Stat {
    Stat { is_dir, dev, ino, nlink, len }
}

#[test]
fn a_file_with_several_names_counts_once() {
    let mut tally = Tally::new();
    tally.count(stat(false, 1, 10, 1, 100));
    tally.count(stat(false, 1, 20, 2, 50));
    tally.count(stat(false, 1, 20, 2, 50));
    tally.count(stat(false, 1, 30, 3, 7));
    assert_eq!(tally.total(), 157);
}

#[test]
fn a_walk_stays_on_its_device() {
    assert_eq!(counted(stat(true, 1, 0, 2, 0), 1), Counted::Descend);
    assert_eq!(counted(stat(true, 2, 0, 2, 0), 1), Counted::Skip);
    assert_eq!(counted(stat(false, 1, 0, 2, 9), 1), Counted::Linked);
    assert_eq!(counted(stat(false, 1, 0, 1, 9), 1), Counted::Single);
}

#[test]
fn forgetting_a_path_forgets_every_directory_above_it() {
    let mut sizes = DirSizes::new();
    sizes.insert("/a".to_string(), 1);
    sizes.insert("/a/b".to_string(), 2);
    sizes.insert("/a/c".to_string(), 3);
    sizes.insert("/".to_string(), 4);
    assert_eq!(sizes.get("/a/b/"), Some(2));
    sizes.forget("/a/b/file");
    assert_eq!(sizes.get("/a"), None);
    assert_eq!(sizes.get("/a/b"), None);
    assert_eq!(sizes.get("/"), None);
    assert_eq!(sizes.get("/a/c"), Some(3));
}

#[test]
fn a_later_total_stands_over_an_earlier_one() {
    let mut sizes = DirSizes::new();
    sizes.insert("/a".to_string(), 1);
    sizes.insert("/a/".to_string(), 5);
    assert_eq!(sizes.get("/a"), Some(5));
}

#[test]
fn what_is_not_a_directory_is_told_by_its_metadata_and_its_first_bytes() {
    assert_eq!(kind_of(false, b""), Kind::NotAFile);
    assert_eq!(kind_of(true, b"hello\n"), Kind::Text);
    assert_eq!(kind_of(true, b""), Kind::Text);
    assert_eq!(kind_of(true, b"PNG\0\0\0"), Kind::Opaque);
}

fn summary(total: usize, processed: usize, skipped: usize, failed: usize) -> ProcessedSummary {
    let mut s = ProcessedSummary::new(total);
    for _ in 0..processed {
        s.process();
    }
    for _ in 0..skipped {
        s.skip();
    }
    for _ in 0..failed {
        s.fail();
    }
    s
}

#[test]
fn a_batch_is_reported_by_what_it_did() {
    assert_eq!(
        summary_toast("copied", &summary(0, 0, 0, 0), None),
        (ToastLevel::Warning, "Nothing is marked".to_string())
    );
    assert_eq!(
        summary_toast("copied", &summary(3, 3, 0, 0), None),
        (ToastLevel::Info, "3 item(s) copied".to_string())
    );
    assert_eq!(
        summary_toast("moved", &summary(3, 0, 3, 0), None),
        (ToastLevel::Warning, "Nothing moved, 3 skipped".to_string())
    );
    assert_eq!(
        summary_toast("deleted", &summary(4, 2, 1, 1), Some("denied")),
        (ToastLevel::Error, "2 of 4 deleted, 1 skipped, 1 failed: denied".to_string())
    );
    assert_eq!(
        summary_toast("copied", &summary(4, 2, 0, 2), Some("full")),
        (ToastLevel::Error, "2 of 4 copied, 2 failed, last: full".to_string())
    );
}

#[test]
fn the_questions_name_what_they_ask_about() {
    assert_eq!(delete_question(3), "Delete 3 selected item(s)?");
    assert_eq!(quit_question(2), "2 operation(s) still running. Quit?");
}

#[test]
fn a_dialog_answered_yes_hands_back_what_it_asked_about() {
    let mut mode = Mode::Confirm { dialog: Dialog::new("Delete", "Delete?"), pending: ConfirmTarget::Delete };
    assert_eq!(confirm_key(&mut mode, None), ConfirmStep::Stay);
    assert_eq!(confirm_key(&mut mode, Some(DialogMsg::Move(HorizontalDir::Left))), ConfirmStep::Stay);
    assert_eq!(confirm_key(&mut mode, Some(DialogMsg::Confirm)), ConfirmStep::Commit(ConfirmTarget::Delete));
    assert!(matches!(mode, Mode::Browse));
}

#[test]
fn a_dialog_answered_no_or_cancelled_does_nothing() {
    let mut mode = Mode::Confirm { dialog: Dialog::new("Quit", "Quit?"), pending: ConfirmTarget::Quit };
    assert_eq!(confirm_key(&mut mode, Some(DialogMsg::Confirm)), ConfirmStep::Closed);
    let mut mode = Mode::Confirm { dialog: Dialog::new("Quit", "Quit?"), pending: ConfirmTarget::Quit };
    assert_eq!(confirm_key(&mut mode, Some(DialogMsg::Cancel)), ConfirmStep::Closed);
    assert!(matches!(mode, Mode::Browse));
}

#[test]
fn a_prompt_hands_back_what_was_typed() {
    let mut mode = Mode::Input { prompt: Prompt::new("Rename tab".to_string()), pending: InputTarget::RenameTab };
    assert!(matches!(input_key(&mut mode, None, Typed::Char('x')), InputStep::Stay));
    assert!(matches!(input_key(&mut mode, None, Typed::Char('y')), InputStep::Stay));
    assert!(matches!(input_key(&mut mode, None, Typed::Backspace), InputStep::Stay));
    let step = input_key(&mut mode, Some(InputMsg::Confirm), Typed::Other);
    assert!(matches!(step, InputStep::Submit { target: InputTarget::RenameTab, text } if text == "x"));
    assert!(matches!(mode, Mode::Browse));
}

#[test]
fn a_prompt_confirmed_empty_says_so() {
    let mut mode = Mode::Input { prompt: Prompt::new("New".to_string()), pending: InputTarget::RenameTab };
    assert!(matches!(input_key(&mut mode, Some(InputMsg::Confirm), Typed::Other), InputStep::NothingTyped));
}

#[test]
fn typing_in_the_finder_searches_and_emptying_it_stops() {
    let mut mode = Mode::Find { finder: Finder::new("/root") };
    let step = find_key(&mut mode, None, Typed::Char('a'));
    assert!(matches!(step, FindStep::Search { root, query } if root == "/root" && query == "a"));
    assert!(matches!(find_key(&mut mode, None, Typed::Backspace), FindStep::StopSearch));
    assert!(matches!(find_key(&mut mode, None, Typed::Other), FindStep::Stay));
    // Nothing to go to leaves the overlay open.
    assert!(matches!(find_key(&mut mode, Some(FindMsg::Confirm), Typed::Other), FindStep::Stay));
    assert!(matches!(find_key(&mut mode, Some(FindMsg::Cancel), Typed::Other), FindStep::Cancelled));
    assert!(matches!(mode, Mode::Browse));
}

#[test]
fn the_files_go_where_the_environment_says() {
    let s = |v: &str| Some(v.to_string());
    assert_eq!(config_file(&s("/x"), &s("/home/u")).as_deref(), Some("/x/mula/config.toml"));
    assert_eq!(config_file(&s(""), &s("/home/u/")).as_deref(), Some("/home/u/.config/mula/config.toml"));
    assert_eq!(config_file(&None, &None), None);
    assert_eq!(favorites_file(&None, &s("/h"), false).as_deref(), Some("/h/.local/state/mula/favorites.toml"));
    assert_eq!(
        favorites_file(&None, &s("/h"), true).as_deref(),
        Some("/h/Library/Application Support/mula/favorites.toml")
    );
    assert_eq!(log_dir(&s("/s"), &None, false).as_deref(), Some("/s/mula"));
    assert_eq!(log_dir(&None, &s("/h"), true).as_deref(), Some("/h/Library/Logs/mula"));
    assert_eq!(log_dir(&None, &s(""), true), None);
}
