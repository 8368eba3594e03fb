use mula::fs::paths::{
    claim_free_name, inside, insertion_point, numbered, parent, same_path, starts_with, stays_put, ClaimError,
    Claimed, KEEP_BOTH_LIMIT,
};
use std::cell::RefCell;

#[test]
fn a_link_that_stays_under_the_root_is_inside() {
    assert!(inside("/tmp/x", "/tmp/x/a", "b/c"));
    assert!(inside("/tmp/x", "/tmp/x/a", "../b"));
    assert!(inside("/tmp/x", "/tmp/x/a", "./b/../c"));
}

#[test]
fn a_link_that_climbs_out_or_starts_at_the_root_is_not() {
    assert!(!inside("/tmp/x", "/tmp/x/a", "../../etc"));
    assert!(!inside("/tmp/x", "/tmp/x", "/etc/passwd"));
    assert!(!inside("/tmp/x", "/", "../.."));
    // A sibling that only shares a prefix of the name is not under the root.
    assert!(!inside("/tmp/x", "/tmp/x/a", "../../xy"));
}

#[test]
fn starting_with_compares_whole_components() {
    assert!(starts_with("/a/b/c", "/a/b"));
    assert!(starts_with("/a/b", "/a/b/"));
    assert!(!starts_with("/a/bc", "/a/b"));
    assert!(!starts_with("a/b", "/a"));
}

#[test]
fn the_number_goes_where_the_extension_starts() {
    let at = |s: &str| insertion_point(&s.chars().collect());
    assert_eq!(at("notes.tar.gz"), 9);
    assert_eq!(at(".bashrc"), 7);
    assert_eq!(at("Makefile"), 8);
    let n = |s: &str, k: u32| numbered(&s.chars().collect(), k).into_iter().collect::<String>();
    assert_eq!(n("notes.tar.gz", 1), "notes.tar(1).gz");
    assert_eq!(n(".bashrc", 2), ".bashrc(2)");
    assert_eq!(n("archive.", 10), "archive(10).");
}

#[test]
fn keeping_both_counts_past_the_names_already_taken() {
    let asked = RefCell::new(Vec::new());
    let take = |p: &str| {
        asked.borrow_mut().push(p.to_string());
        if p.ends_with("(3).txt") { Claimed::Taken } else { Claimed::Exists }
    };
    assert_eq!(claim_free_name("/d/a.txt", &take).unwrap(), "/d/a(3).txt");
    assert_eq!(*asked.borrow(), ["/d/a(1).txt", "/d/a(2).txt", "/d/a(3).txt"]);
}

#[test]
fn keeping_both_gives_up_after_the_limit_and_on_other_failures() {
    let full = |_: &str| Claimed::Exists;
    assert_eq!(claim_free_name("/d/a", &full), Err(ClaimError::AllTaken));
    let broken = |_: &str| Claimed::Failed("read-only".to_string());
    assert_eq!(claim_free_name("/d/a", &broken), Err(ClaimError::Failed("read-only".to_string())));
    assert_eq!(claim_free_name("/", &full), Err(ClaimError::NoName));
    assert_eq!(KEEP_BOTH_LIMIT, 1000);
}

#[test]
fn the_parent_is_the_path_without_its_last_component() {
    assert_eq!(parent("/a/b").as_deref(), Some("/a"));
    assert_eq!(parent("/a").as_deref(), Some("/"));
    assert_eq!(parent("a").as_deref(), Some(""));
    assert_eq!(parent("/"), None);
    assert_eq!(parent(""), None);
}

#[test]
fn two_spellings_of_one_path_are_the_same_path() {
    assert!(same_path("/a//b/", "/a/b"));
    assert!(same_path("/a/./b", "/a/b"));
    assert!(!same_path("/a/b", "a/b"));
    assert!(!same_path("/a/b", "/a/c"));
}

#[test]
fn an_item_already_in_the_destination_directory_stays_put() {
    assert!(stays_put("/a/x", "/a/x"));
    assert!(stays_put("/a/x", "/a//y"));
    assert!(stays_put("/", "/b/x"));
    assert!(!stays_put("/a/x", "/b/x"));
    assert!(!stays_put("/a/x", "/"));
}
