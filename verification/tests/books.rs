use mula::fs::archive::{file_mode, unpacking, Unpacking};
use mula::fs::job::{Batch, Deleted, JobKind, Step};
use mula::fs::ops::{archive_into, transfers_into, DeleteMode, Transfer, TransferOp, Unfinished};

fn skipped_once() -> Unfinished {
    let mut left = Unfinished::none();
    left.skipped = 1;
    left
}

#[test]
fn an_item_already_where_it_goes_is_skipped_without_a_reason() {
    let mut books = Batch::new(1);
    assert!(books.transfer_done("/a/x".to_string(), Step::Done(skipped_once())));
    let outcome = books.into_outcome(7, JobKind::Transfer(TransferOp::Copy));
    assert_eq!(outcome.tag, 7);
    assert_eq!(outcome.summary.total(), 1);
    assert_eq!(outcome.summary.skipped(), 1);
    assert_eq!(outcome.summary.processed(), 0);
    assert_eq!(outcome.summary.failed(), 0);
    assert_eq!(outcome.summary.collided(), 0);
    assert!(outcome.failed.is_empty());
    assert!(outcome.collided.is_empty());
    assert!(outcome.kept.is_empty());
    assert_eq!(outcome.reason, None);
}

#[test]
fn a_reason_comes_with_a_failure_and_only_with_one() {
    let mut books = Batch::new(3);
    assert!(books.transfer_done("/a".to_string(), Step::Done(Unfinished::none())));
    assert_eq!(books.reason, None);
    assert!(books.transfer_done("/b".to_string(), Step::Failed("denied".to_string())));
    assert_eq!(books.reason, Some("denied".to_string()));
    assert_eq!(books.failed, ["/b"]);
    assert!(!books.transfer_done("/c".to_string(), Step::Cancelled));
    assert_eq!(books.summary.processed(), 1);
    assert_eq!(books.summary.failed(), 1);
    assert_eq!(books.summary.total(), 3);
    assert_eq!(books.recorded, 2);
}

#[test]
fn a_tree_that_clashed_is_counted_as_collided_with_what_it_kept() {
    let mut books = Batch::new(1);
    let mut left = Unfinished::none();
    left.collided.push(Transfer { from: "/s/t/f".to_string(), to: "/d/t/f".to_string() });
    left.kept.push("/d/t/g(1)".to_string());
    assert!(books.transfer_done("/s/t".to_string(), Step::Done(left)));
    assert_eq!(books.summary.collided(), 1);
    assert_eq!(books.summary.processed(), 0);
    assert_eq!(books.collided, [Transfer { from: "/s/t/f".to_string(), to: "/d/t/f".to_string() }]);
    assert_eq!(books.kept, ["/d/t/g(1)"]);
    assert_eq!(books.reason, None);
}

#[test]
fn a_tree_that_landed_under_numbered_names_is_processed() {
    let mut books = Batch::new(1);
    let mut left = Unfinished::none();
    left.kept.push("/d/x(1)".to_string());
    assert!(books.transfer_done("/s/x".to_string(), Step::Done(left)));
    assert_eq!(books.summary.processed(), 1);
    assert_eq!(books.kept, ["/d/x(1)"]);
    assert!(books.collided.is_empty());
}

#[test]
fn a_deletion_that_found_nothing_is_skipped() {
    let mut books = Batch::new(2);
    assert!(books.delete_done("/gone".to_string(), Step::Done(Deleted::NotFound)));
    assert!(books.delete_done("/here".to_string(), Step::Done(Deleted::Removed)));
    let outcome = books.into_outcome(1, JobKind::Delete(DeleteMode::Trash));
    assert_eq!(outcome.summary.skipped(), 1);
    assert_eq!(outcome.summary.processed(), 1);
    assert_eq!(outcome.reason, None);
}

#[test]
fn a_cancelled_archive_goes_back_on_the_panel_without_a_reason() {
    let mut books = Batch::new(1);
    books.pack_done(vec!["/a".to_string(), "/b".to_string()], Step::Cancelled);
    assert_eq!(books.failed, ["/a", "/b"]);
    assert_eq!(books.summary.failed(), 0);
    assert_eq!(books.reason, None);
}

#[test]
fn each_item_goes_into_the_other_directory_under_its_own_name() {
    let t = transfers_into("/dst", vec!["/src/a.txt".to_string(), "/src/dir/".to_string(), "/".to_string()]);
    assert_eq!(
        t,
        [
            Transfer { from: "/src/a.txt".to_string(), to: "/dst/a.txt".to_string() },
            Transfer { from: "/src/dir/".to_string(), to: "/dst/dir".to_string() },
            Transfer { from: "/".to_string(), to: "/dst/".to_string() },
        ]
    );
    assert_eq!(transfers_into("/", vec!["/src/b".to_string()])[0].to, "/b");
}

#[test]
fn a_zip_is_named_after_the_first_mark() {
    assert_eq!(archive_into("/dst", "/src/photos"), "/dst/photos.zip");
    assert_eq!(archive_into("/dst/", "/src/notes.txt"), "/dst/notes.txt.zip");
}

#[test]
fn an_entry_is_unpacked_by_what_it_is_once_its_name_is_safe() {
    assert_eq!(unpacking(false, true, false, false, true), Unpacking::Refuse);
    assert_eq!(unpacking(true, false, true, false, false), Unpacking::Refuse);
    assert_eq!(unpacking(true, true, true, false, false), Unpacking::MakeDirectory);
    assert_eq!(unpacking(true, true, false, true, false), Unpacking::MakeLink);
    assert_eq!(unpacking(true, true, false, false, true), Unpacking::WriteFile);
    assert_eq!(unpacking(true, true, false, false, false), Unpacking::Refuse);
    assert_eq!(file_mode(Some(0o104755)), Some(0o755));
    assert_eq!(file_mode(None), None);
}
