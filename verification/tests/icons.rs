use mula::ui::icon::{by_extension_table, by_name_table, extension, lookup};

#[test]
fn no_key_is_listed_twice_in_either_table() {
    for table in [by_name_table(), by_extension_table()] {
        for (i, (key, _)) in table.iter().enumerate() {
            let duplicate = table
                .iter()
                .skip(i + 1)
                .any(|(other, _)| other.eq_ignore_ascii_case(key));
            assert!(!duplicate, "{key} is listed twice");
        }
    }
}

#[test]
fn only_the_last_extension_is_read() {
    assert_eq!(extension("/p/archive.tar.gz"), Some("gz".chars().collect()));
    assert_eq!(extension("/p/.bashrc"), None);
    assert_eq!(extension("/p/Makefile"), None);
}

#[test]
fn a_key_is_found_whatever_case_it_is_written_in() {
    let table = by_extension_table();
    let lower = lookup(&table, &"rs".chars().collect());
    let upper = lookup(&table, &"RS".chars().collect());
    assert!(lower.is_some());
    assert_eq!(lower, upper);
    assert_eq!(lookup(&table, &"nosuchthing".chars().collect()), None);
}
