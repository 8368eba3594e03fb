use mula::action::Action;
use mula::config::{table_from, ConfigError};
use mula::keys::{browse_actions, global_keys, table, Binding};

/// The example config a user is handed: every Browse action, with the keys it
/// has when no config says otherwise.
const EXAMPLE: &str = r#"# Keys for Mula: every Browse action, with the keys it has by default.
# An action left out keeps its default keys.

[keys.browse]
# Moves the cursor one item up
cursor.up = ["Up"]
# Moves the cursor one item down
cursor.down = ["Down"]
# Moves the cursor to the first item
cursor.first = ["g"]
# Moves the cursor to the last item
cursor.last = ["Shift+G"]
# Focuses the other panel
panel.toggle = ["Tab"]
# Enters a directory, or opens a file with what belongs to it
entry.open = ["Enter"]
# Leaves for the directory above, wherever the cursor is
panel.parent = ["Backspace"]
# Marks or unmarks the item under the cursor
mark.toggle = ["Space"]
# Marks the item under the cursor and moves up
mark.up = ["Shift+Up"]
# Marks the item under the cursor and moves down
mark.down = ["Shift+Down"]
# Unmarks the item under the cursor and moves up
unmark.up = ["Alt+Up"]
# Unmarks the item under the cursor and moves down
unmark.down = ["Alt+Down"]
# Marks every item the panel is showing
mark.all = ["a"]
# Drops the filter, or unmarks everything when there is no filter
panel.clear = ["Esc"]
# Renames the item under the cursor
entry.rename = ["F2"]
# Opens the file under the cursor in $PAGER
entry.view = ["F3"]
# Opens the file under the cursor in $EDITOR
entry.edit = ["F4"]
# Copies marked items into the other panel
transfer.copy = ["F5"]
# Moves marked items into the other panel
transfer.move = ["F6"]
# Creates a file, or a folder if the name ends with /
entry.create = ["F7"]
# Moves marked items to the trash, asking first
entry.delete = ["F8"]
# Deletes marked items for good, without the trash, asking first
entry.delete-permanent = ["Shift+F8"]
# Stops the running operation
job.cancel = ["F9"]
# Shows what is under the cursor in the other panel
view.quick = ["v"]
# Drops a column from the listing, and brings them all back
view.columns = ["c"]
# Shows or hides the entries whose names begin with a dot
view.dotfiles = ["."]
# Searches the tree below this panel for a name
panel.find = ["/"]
# Narrows this listing to the names holding what you type
panel.filter = ["f"]
# Opens a new tab in the focused panel
tab.new = ["t"]
# Closes the active tab, unless it is the only one
tab.close = ["w"]
# Renames the active tab
tab.rename = ["r"]
# Switches to the previous tab, wrapping to the last one
tab.previous = ["["]
# Switches to the next tab, wrapping to the first one
tab.next = ["]"]
# Leaves Mula
app.quit = ["q"]
"#;

fn built(text: &str) -> Result<Vec<Binding<Action>>, ConfigError> {
    table_from(text, "config.example.toml", &browse_actions(), &global_keys())
}

#[test]
fn the_example_config_names_every_action() {
    for entry in browse_actions() {
        assert!(
            EXAMPLE.contains(&format!("\n{} = ", entry.name)),
            "{} is not in config.example.toml",
            entry.name
        );
    }
}

#[test]
fn the_example_config_is_the_defaults_written_out() {
    let listed = |table: &[Binding<Action>]| {
        table.iter().map(|b| (b.key.name(), b.bar, b.help)).collect::<Vec<_>>()
    };

    let example = built(EXAMPLE).unwrap();
    let defaults = table(&browse_actions(), &[]);

    assert_eq!(listed(&example), listed(&defaults));
}
