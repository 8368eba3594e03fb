use std::cell::RefCell;

use mula::favorites::{parse, read_outcome, Added, Favorites, FavoritesError, ReadFailure};

/// A list kept in a file of its own, written through the closure handed in.
fn favorites() -> Favorites {
    Favorites::open("state/favorites.toml", Vec::new())
}

#[test]
fn a_file_that_is_not_there_yet_is_an_empty_list() {
    assert!(read_outcome("nothing.toml", Err(ReadFailure::NotFound))
        .unwrap()
        .is_empty());
}

#[test]
fn a_file_that_cannot_be_read_says_why() {
    assert_eq!(
        read_outcome("f.toml", Err(ReadFailure::Other("denied".to_string()))),
        Err(FavoritesError::Unreadable {
            path: "f.toml".to_string(),
            reason: "denied".to_string()
        })
    );
}

#[test]
fn what_was_added_is_read_back() {
    let disk = RefCell::new(String::new());
    let write = |_: &str, text: &str| {
        *disk.borrow_mut() = text.to_string();
        Ok(())
    };
    let mut list = favorites();
    list.add("/one", &write).unwrap();
    list.add("/two", &write).unwrap();

    let text = disk.borrow().clone();
    let paths = read_outcome("state/favorites.toml", Ok(text)).unwrap();
    assert_eq!(paths, ["/one", "/two"]);
}

#[test]
fn adding_a_directory_twice_adds_it_once() {
    let write = |_: &str, _: &str| Ok(());
    let mut list = favorites();
    assert_eq!(list.add("/one", &write).unwrap(), Added::Added);
    assert_eq!(list.add("/one", &write).unwrap(), Added::AlreadyListed);
    assert_eq!(list.paths(), &["/one".to_string()]);
}

#[test]
fn a_removal_is_written_out() {
    let disk = RefCell::new(String::new());
    let write = |_: &str, text: &str| {
        *disk.borrow_mut() = text.to_string();
        Ok(())
    };
    let mut list = favorites();
    list.add("/one", &write).unwrap();
    list.add("/two", &write).unwrap();
    list.remove("/one", &write).unwrap();

    let text = disk.borrow().clone();
    let paths = read_outcome("state/favorites.toml", Ok(text)).unwrap();
    assert_eq!(paths, ["/two"]);
}

#[test]
fn a_list_that_is_written_nowhere_takes_nothing() {
    let write = |_: &str, _: &str| Ok(());
    let mut list = Favorites::closed();
    let error = list.add("/one", &write).unwrap_err();
    assert!(matches!(error, FavoritesError::ReadOnly), "{error:?}");
    assert!(list.paths().is_empty());
}

#[test]
fn a_list_that_could_not_be_written_is_left_as_it_was() {
    let refuse = |file: &str, _: &str| {
        Err(FavoritesError::Unwritable {
            path: file.to_string(),
            reason: "full".to_string(),
        })
    };
    let mut list = favorites();
    assert!(list.add("/one", &refuse).is_err());
    assert!(list.paths().is_empty());
}

#[test]
fn a_file_holding_something_else_is_not_read_as_a_list() {
    let file = "/favorites.toml";
    assert!(matches!(
        parse(file, "favorites = 3").unwrap_err(),
        FavoritesError::NotPaths { .. }
    ));
    assert!(matches!(
        parse(file, "favorites = [3]").unwrap_err(),
        FavoritesError::NotPaths { .. }
    ));
    assert!(matches!(
        parse(file, "favorites = [").unwrap_err(),
        FavoritesError::Malformed { .. }
    ));
}

#[test]
fn a_file_without_the_key_is_an_empty_list() {
    assert!(parse("/f.toml", "other = 1").unwrap().is_empty());
}

#[test]
fn a_path_with_quotes_in_it_survives_the_file() {
    let disk = RefCell::new(String::new());
    let write = |_: &str, text: &str| {
        *disk.borrow_mut() = text.to_string();
        Ok(())
    };
    let mut list = favorites();
    let awkward = "/tmp/a \"quoted\"\\name";

    list.add(awkward, &write).unwrap();

    let text = disk.borrow().clone();
    let paths = read_outcome("state/favorites.toml", Ok(text)).unwrap();
    assert_eq!(paths, [awkward]);
}
