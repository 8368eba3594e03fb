use mula::keys::browse_actions;

/// The key table of the README.
const README_KEYS: &str = r#"| Key | Action | What it does |
|---|---|---|
| Up | `cursor.up` | Moves the cursor one item up |
| Down | `cursor.down` | Moves the cursor one item down |
| g | `cursor.first` | Moves the cursor to the first item |
| Shift+G | `cursor.last` | Moves the cursor to the last item |
| Tab | `panel.toggle` | Focuses the other panel |
| Enter | `entry.open` | Enters a directory, or opens a file with what belongs to it |
| Backspace | `panel.parent` | Leaves for the directory above, wherever the cursor is |
| Space | `mark.toggle` | Marks or unmarks the item under the cursor |
| Shift+Up | `mark.up` | Marks the item under the cursor and moves up |
| Shift+Down | `mark.down` | Marks the item under the cursor and moves down |
| Alt+Up | `unmark.up` | Unmarks the item under the cursor and moves up |
| Alt+Down | `unmark.down` | Unmarks the item under the cursor and moves down |
| a | `mark.all` | Marks every item the panel is showing |
| Esc | `panel.clear` | Drops the filter, or unmarks everything when there is no filter |
| F2 | `entry.rename` | Renames the item under the cursor |
| F3 | `entry.view` | Opens the file under the cursor in $PAGER |
| F4 | `entry.edit` | Opens the file under the cursor in $EDITOR |
| F5 | `transfer.copy` | Copies marked items into the other panel |
| F6 | `transfer.move` | Moves marked items into the other panel |
| F7 | `entry.create` | Creates a file, or a folder if the name ends with / |
| F8 | `entry.delete` | Moves marked items to the trash, asking first |
| Shift+F8 | `entry.delete-permanent` | Deletes marked items for good, without the trash, asking first |
| F9 | `job.cancel` | Stops the running operation |
| v | `view.quick` | Shows what is under the cursor in the other panel |
| c | `view.columns` | Drops a column from the listing, and brings them all back |
| . | `view.dotfiles` | Shows or hides the entries whose names begin with a dot |
| / | `panel.find` | Searches the tree below this panel for a name |
| f | `panel.filter` | Narrows this listing to the names holding what you type |
| t | `tab.new` | Opens a new tab in the focused panel |
| w | `tab.close` | Closes the active tab, unless it is the only one |
| r | `tab.rename` | Renames the active tab |
| [ | `tab.previous` | Switches to the previous tab, wrapping to the last one |
| ] | `tab.next` | Switches to the next tab, wrapping to the first one |
| q | `app.quit` | Leaves Mula |"#;

#[test]
fn the_readme_names_every_action() {
    for entry in browse_actions() {
        assert!(
            README_KEYS.contains(&format!("`{}`", entry.name)),
            "{} is in no README table",
            entry.name
        );
    }
}
