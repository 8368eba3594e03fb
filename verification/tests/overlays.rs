use std::mem::discriminant;

use mula::action::VerticalDir;
use mula::keys::{find, global_keys, validate, GlobalMsg};
use mula::ui::dialog::{dialog_keys, Choice, Dialog, DialogMsg};
use mula::ui::filter::{filter_keys, Filter, FilterMsg};
use mula::ui::help::{help_keys, HelpMsg, HelpState};
use mula::ui::text_input::HorizontalDir;

#[test]
fn dialog_keys_bind_every_key_once() {
    validate(&dialog_keys()).unwrap();
}

#[test]
fn dialog_keys_cover_every_message() {
    let keys = dialog_keys();
    for msg in [
        DialogMsg::Move(HorizontalDir::Left),
        DialogMsg::Confirm,
        DialogMsg::Cancel,
    ] {
        assert!(
            find(&keys, |m| discriminant(m) == discriminant(&msg)).is_some(),
            "{msg:?} has no key"
        );
    }
}

#[test]
fn a_fresh_dialog_starts_on_no() {
    assert_eq!(
        Dialog::new("Delete", "Delete 3 items?").choice(),
        Choice::No
    );
}

#[test]
fn the_choice_moves_along_the_buttons_and_stops_at_the_ends() {
    let mut dialog = Dialog::new("Delete", "Delete 3 items?");
    dialog.move_to(HorizontalDir::Left);
    assert_eq!(dialog.choice(), Choice::Yes);
    dialog.move_to(HorizontalDir::Left);
    assert_eq!(dialog.choice(), Choice::Yes);
    dialog.move_to(HorizontalDir::Right);
    dialog.move_to(HorizontalDir::Right);
    assert_eq!(dialog.choice(), Choice::No);
}

#[test]
fn help_keys_bind_every_key_once() {
    validate(&help_keys()).unwrap();
}

#[test]
fn every_help_key_reaches_the_bar() {
    for binding in help_keys() {
        assert!(binding.bar.is_some(), "{} is named nowhere", binding.key.name());
    }
}

#[test]
fn help_keys_cover_every_message() {
    let keys = help_keys();
    for msg in [
        HelpMsg::Scroll(VerticalDir::Up),
        HelpMsg::ScrollPage(VerticalDir::Up),
        HelpMsg::Close,
    ] {
        assert!(
            find(&keys, |m| discriminant(m) == discriminant(&msg)).is_some(),
            "{msg:?} has no key"
        );
    }
}

#[test]
fn the_help_never_scrolls_past_its_last_page() {
    let mut state = HelpState::default();
    for _ in 0..100 {
        state.scroll(VerticalDir::Down);
    }
    assert_eq!(state.fit(10, 25), 15);
    assert_eq!(state.offset(), 15);
    // Everything fits, so it starts at the top.
    assert_eq!(state.fit(30, 25), 0);
}

#[test]
fn filter_keys_bind_every_key_once() {
    validate(&filter_keys()).unwrap();
}

#[test]
fn every_filter_key_reaches_the_bar() {
    for binding in filter_keys() {
        assert!(binding.bar.is_some(), "{} is named nowhere", binding.key.name());
    }
    let keys = filter_keys();
    assert!(find(&keys, |m| matches!(m, FilterMsg::Confirm)).is_some());
    assert!(find(&keys, |m| matches!(m, FilterMsg::Cancel)).is_some());
}

#[test]
fn the_globals_reach_the_help_overlay() {
    assert!(find(&global_keys(), |m| matches!(m, GlobalMsg::ShowHelp)).is_some());
}

#[test]
fn a_filter_ignores_case_and_matches_anywhere_in_a_name() {
    let mut filter = Filter::default();
    assert!(filter.matches("anything"));
    for c in "READ".chars() {
        filter.push(c);
    }
    assert!(filter.matches("readme.md"));
    assert!(filter.matches("Already"));
    assert!(!filter.matches("red"));
    filter.pop();
    assert_eq!(filter.text(), "REA");
    assert!(filter.matches("area"));
}

#[test]
fn a_filter_ignores_only_ascii_case() {
    let mut filter = Filter::default();
    for c in "LoG".chars() {
        filter.push(c);
    }
    assert!(filter.matches("mula.log"));
    assert!(filter.matches("LOGBOOK"));
    assert!(!filter.matches("notes.txt"));
    let mut accent = Filter::default();
    accent.push('É');
    assert!(!accent.matches("é"));
    assert!(accent.matches("É"));
}
