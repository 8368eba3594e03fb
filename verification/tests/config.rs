use mula::action::Action;
use mula::config::{browse_table, table_from, ConfigError};
use mula::favorites::ReadFailure;
use mula::fs::ops::TransferOp;
use mula::keys::{
    browse_actions, find, global_keys, resolve, table, Binding, BindingError, KeyCode, KeyModifiers, KeyPress,
};

fn built(text: &str) -> Result<Vec<Binding<Action>>, ConfigError> {
    table_from(text, "config.toml", &browse_actions(), &global_keys())
}

fn press(code: KeyCode) -> KeyPress {
    KeyPress { code, mods: KeyModifiers { ctrl: false, alt: false, shift: false } }
}

fn copies(table: &[Binding<Action>], code: KeyCode) -> bool {
    matches!(resolve(table, &press(code)), Some(Action::Transfer { op: TransferOp::Copy }))
}

fn defaults() -> Vec<Binding<Action>> {
    table(&browse_actions(), &[])
}

fn listed(table: &[Binding<Action>]) -> Vec<(String, Option<&'static str>, &'static str)> {
    table.iter().map(|b| (b.key.name(), b.bar, b.help)).collect()
}

#[test]
fn an_empty_config_is_the_default_table() {
    let table = built("").unwrap();

    assert!(copies(&table, KeyCode::F(5)));
    assert_eq!(listed(&table), listed(&defaults()));
}

#[test]
fn an_action_answers_to_the_keys_the_config_gives_it() {
    let table = built(
        r#"
            [keys.browse]
            "transfer.copy" = ["y"]
            "#,
    )
    .unwrap();

    assert!(copies(&table, KeyCode::Char('y')));
    assert!(!copies(&table, KeyCode::F(5)));
}

#[test]
fn a_dotted_name_and_a_quoted_one_are_one_action() {
    let quoted = built("[keys.browse]\n\"transfer.copy\" = [\"y\"]").unwrap();
    let dotted = built("[keys.browse]\ntransfer.copy = [\"y\"]").unwrap();
    let sectioned = built("[keys.browse.transfer]\ncopy = [\"y\"]").unwrap();

    for table in [quoted, dotted, sectioned] {
        assert!(copies(&table, KeyCode::Char('y')));
        assert!(!copies(&table, KeyCode::F(5)));
    }
}

#[test]
fn one_key_may_be_given_without_a_list() {
    let table = built("[keys.browse]\n\"transfer.copy\" = \"y\"").unwrap();

    assert!(copies(&table, KeyCode::Char('y')));
}

#[test]
fn an_empty_list_leaves_the_action_unbound() {
    let table = built("[keys.browse]\n\"transfer.copy\" = []").unwrap();

    assert!(!copies(&table, KeyCode::F(5)));
    assert!(find(&table, |a| matches!(a, Action::Transfer { op: TransferOp::Copy })).is_none());
}

#[test]
fn an_action_may_be_reachable_more_than_one_way() {
    let table = built("[keys.browse]\n\"transfer.copy\" = [\"F5\", \"y\"]").unwrap();

    assert!(copies(&table, KeyCode::F(5)));
    assert!(copies(&table, KeyCode::Char('y')));
}

#[test]
fn a_misspelled_action_names_itself() {
    let error = built("[keys.browse]\n\"transfer.kopie\" = [\"y\"]").unwrap_err();

    assert!(
        matches!(&error, ConfigError::UnknownAction { name } if name == "transfer.kopie"),
        "the error was {error:?}"
    );
}

#[test]
fn a_misspelled_key_names_the_action_it_was_given_to() {
    let error = built("[keys.browse]\n\"transfer.copy\" = [\"Ctrl+Wat\"]").unwrap_err();

    assert!(
        matches!(&error, ConfigError::BadKey { name, .. } if name == "transfer.copy"),
        "the error was {error:?}"
    );
}

#[test]
fn two_actions_cannot_take_one_key() {
    let error =
        built("[keys.browse]\n\"transfer.copy\" = [\"d\"]\n\"entry.delete\" = [\"d\"]").unwrap_err();

    assert!(matches!(error, ConfigError::Clash { .. }), "the error was {error:?}");
}

#[test]
fn a_config_key_cannot_take_a_key_a_default_already_holds() {
    let error = built("[keys.browse]\n\"transfer.copy\" = [\"q\"]").unwrap_err();

    assert!(matches!(error, ConfigError::Clash { .. }), "the error was {error:?}");
}

#[test]
fn a_global_key_cannot_be_taken_by_an_action() {
    let global = global_keys()[0].key.name();
    let error = built(&format!("[keys.browse]\n\"transfer.copy\" = [\"{global}\"]")).unwrap_err();

    assert!(
        matches!(&error, ConfigError::ShadowsGlobal { name, .. } if name == "transfer.copy"),
        "the error was {error:?}"
    );
}

#[test]
fn a_value_that_is_not_a_key_names_the_action() {
    let error = built("[keys.browse]\n\"transfer.copy\" = 5").unwrap_err();

    assert!(
        matches!(&error, ConfigError::NotKeys { name } if name == "transfer.copy"),
        "the error was {error:?}"
    );
}

#[test]
fn broken_toml_says_which_file() {
    let error = built("[keys.browse").unwrap_err();

    assert!(
        matches!(&error, ConfigError::Malformed { path, .. } if path == "config.toml"),
        "the error was {error:?}"
    );
}

#[test]
fn a_browse_that_is_not_a_table_is_refused() {
    let error = built("[keys]\nbrowse = 5").unwrap_err();

    assert!(matches!(error, ConfigError::NotATable), "the error was {error:?}");
}

#[test]
fn keys_that_are_not_a_table_leave_the_defaults() {
    let table = built("keys = 5").unwrap();

    assert_eq!(listed(&table), listed(&defaults()));
}

#[test]
fn the_first_name_in_order_is_the_one_refused() {
    let error = built("[keys.browse]\n\"zzz\" = [\"y\"]\n\"aaa\" = [\"y\"]").unwrap_err();

    assert!(
        matches!(&error, ConfigError::UnknownAction { name } if name == "aaa"),
        "the error was {error:?}"
    );
}

#[test]
fn a_bad_key_is_reported_with_the_name_it_read() {
    let error = built("[keys.browse]\n\"transfer.copy\" = [\"y\", \"Wat\"]").unwrap_err();

    match error {
        ConfigError::BadKey { name, source: BindingError::UnknownKey { name: key } } => {
            assert_eq!(name, "transfer.copy");
            assert_eq!(key, "Wat");
        },
        other => panic!("the error was {other:?}"),
    }
}

#[test]
fn no_home_and_no_file_are_the_defaults() {
    let none = browse_table(None).unwrap();
    let missing = browse_table(Some(("/nowhere/config.toml", Err(ReadFailure::NotFound)))).unwrap();

    assert_eq!(listed(&none), listed(&defaults()));
    assert_eq!(listed(&missing), listed(&defaults()));
}

#[test]
fn an_unreadable_file_names_itself_and_why() {
    let error = browse_table(Some(("/etc/mula.toml", Err(ReadFailure::Other("denied".to_string())))))
        .unwrap_err();

    assert!(
        matches!(&error, ConfigError::Unreadable { path, reason } if path == "/etc/mula.toml" && reason == "denied"),
        "the error was {error:?}"
    );
}

#[test]
fn a_read_file_is_built_like_any_text() {
    let table = browse_table(Some(("config.toml", Ok("[keys.browse]\n\"transfer.copy\" = \"y\"".to_string()))))
        .unwrap();

    assert!(copies(&table, KeyCode::Char('y')));
}
