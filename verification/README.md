# Mula

Mula is a dual-pane file manager for the terminal: two panels side by side,
each with tabs, marks and a quick view of the file under the cursor,
and background jobs that copy, move, delete, pack and unpack what is marked.

The crate is written in Verus. The decisions Mula makes live in `src/` and are
verified: each public function states in its contract what it returns or how
it changes its argument, over mathematical models (`Seq`, `Set`, `Map`, `int`)
and the views of the library's types, and Verus proves the code against it.
What stays outside is the work itself: reading and writing the disk, walking
directories and archives, threads, the terminal, drawing, and decoding images
(which uses floating point).

## Keys

In Browse, each action answers to the keys below unless the config file
(`mula/config.toml` under `$XDG_CONFIG_HOME`, else under `~/.config`, in the
table `[keys.browse]`) gives it others; F1
lists the keys that work right now. Two actions have keys but are not
offered yet: `view.dotfiles` and `panel.filter` answer with a notice saying
so.

| Key | Action | What it does |
|---|---|---|
| Up | `cursor.up` | Moves the cursor one item up |
| Down | `cursor.down` | Moves the cursor one item down |
| g | `cursor.first` | Moves the cursor to the first item |
| Shift+G | `cursor.last` | Moves the cursor to the last item |
| Tab | `panel.toggle` | Focuses the other panel |
| Enter | `entry.open` | Enters a directory, or opens a file with what belongs to it |
| Backspace | `panel.parent` | Leaves for the directory above, wherever the cursor is |
| Space | `mark.toggle` | Marks or unmarks the item under the cursor |
| Shift+Up | `mark.up` | Marks the item under the cursor and moves up |
| Shift+Down | `mark.down` | Marks the item under the cursor and moves down |
| Alt+Up | `unmark.up` | Unmarks the item under the cursor and moves up |
| Alt+Down | `unmark.down` | Unmarks the item under the cursor and moves down |
| a | `mark.all` | Marks every item the panel is showing |
| Esc | `panel.clear` | Drops the filter, or unmarks everything when there is no filter |
| F2 | `entry.rename` | Renames the item under the cursor |
| F3 | `entry.view` | Opens the file under the cursor in $PAGER |
| F4 | `entry.edit` | Opens the file under the cursor in $EDITOR |
| F5 | `transfer.copy` | Copies marked items into the other panel |
| F6 | `transfer.move` | Moves marked items into the other panel |
| F7 | `entry.create` | Creates a file, or a folder if the name ends with / |
| F8 | `entry.delete` | Moves marked items to the trash, asking first |
| Shift+F8 | `entry.delete-permanent` | Deletes marked items for good, without the trash, asking first |
| F9 | `job.cancel` | Stops the running operation |
| v | `view.quick` | Shows what is under the cursor in the other panel |
| c | `view.columns` | Drops a column from the listing, and brings them all back |
| . | `view.dotfiles` | Shows or hides the entries whose names begin with a dot |
| / | `panel.find` | Searches the tree below this panel for a name |
| f | `panel.filter` | Narrows this listing to the names holding what you type |
| t | `tab.new` | Opens a new tab in the focused panel |
| w | `tab.close` | Closes the active tab, unless it is the only one |
| r | `tab.rename` | Renames the active tab |
| [ | `tab.previous` | Switches to the previous tab, wrapping to the last one |
| ] | `tab.next` | Switches to the next tab, wrapping to the first one |
| q | `app.quit` | Leaves Mula |

## Layout

- `src/` — the verified library.
  - `keys.rs`, `action.rs`, `config.rs` — what a key is, how it is named and
    read back, the default key tables, and the config file that overrides them.
  - `app.rs`, `modes.rs` — the main loop's state and what a key does in each
    mode (browsing, a dialog, a prompt, the find overlay).
  - `ui/` — what the panels, tabs, panes and overlays keep and decide:
    cursors, marks, scrolling, the filter and sort rules, the key bar, the info bar,
    the help overlay, the favorites overlay, the toasts and the quick view.
    The filter, the sort orders and the favorites are in the library but not
    yet reachable from the program.
  - `fs/` — what the filesystem work decides: directory order, path
    arithmetic, the books a job keeps, what an archive holds, previews,
    directory sizes, and the bookkeeping of the reader and worker threads.
  - `favorites.rs`, `places.rs`, `open.rs`, `command_line.rs` — the favorites
    file, where Mula keeps its files, which program opens a file, and the
    command line.
- `app/` — the program around the library: the terminal, the drawing, the
  threads that read directories and run jobs, and the disk itself. It hands
  the library plain values and acts on what comes back.
- `tests/` — tests of the library on concrete values.

## Trust

Calls into the `toml`, `zip`, `flate2` and `ratatui` crates, and a few
functions of `std` that vstd does not specify, stand behind small wrappers
marked `#[verifier::external_body]`. Each says in its doc comment what its
contract claims of the outside function; those claims are not proved.
