# noice

A small terminal file browser in the suckless spirit: vi-style keys,
marks, yank/move/paste/link, filtering, sorting by name, size, time or
version, directory jumps and a saved session.

The browser's logic is a library verified with Verus; the program around
it does the terminal, the keyboard, the file system and the programs it
starts.

## Keys

- Moving: `j` / Down, `k` / Up, `g` / Home to the first entry, `G` / End
  to the last, `[` and `]` a page up and down, Ctrl-U and Ctrl-D half a
  page.
- Entering and leaving: `l` / Right / Enter enters a directory or opens a
  file, `h` / Left / Backspace goes to the parent directory.
- Marks and files: Space marks, `u` unmarks all, `y` yanks the marked
  entries (or the selected one), `U` clears what was yanked, `m` moves and
  `p` pastes the yanked entries here, `L` links them here, `D` deletes, `r`
  renames, `n` makes a directory, `N` makes a file.
- View: `.` (or Ctrl-H) hidden entries, `d` directories first, `/` filter,
  `s` `S` `t` sort by name, size or time, `v` version sort, `i` sizes, `R`
  reload, Ctrl-L redraw.
- Directory jumps: `'` then a key jumps to its directory: `/` the root,
  `~` home, `c` `~/.config`, `d` `~/Downloads`, `D` `~/Documents`, `t`
  `/tmp`, and `'` again the last directory visited. `~` alone jumps home
  too.
- Other: `c` change to a typed directory, `e` edit, `M` media player, `z`
  top, `?` help, `!` shell, `q` / ESC quit.

The two-key commands of the key table (`keys::combo_action`) are `gg`
(first entry), `g` or `'` then a key (jump), `DD` (delete), `nf` (make a
file) and `nd` (make a directory); with the bindings above only `'` starts
one, since `g`, `D` and `n` act at once: the jumps are reached through `'`
and making a file through `N`. Binding `g`, `D` or `n` to a pending key in
`config.rs` brings the others back.

## Layout

- `src/` — the verified library.
  - `state.rs`: the browser's state, its model (`StateModel`) and every
    change to it; `run` takes one event (key press, resize, change on disk)
    and returns the outside work it asks for (`actions::Effect`).
  - `actions.rs`: what each action does to the state and asks of the
    outside, as spec functions.
  - `keys.rs`: key bindings, two-key commands and file rules.
  - `listing.rs`, `sort.rs`, `order.rs`, `version.rs`: which entries are
    listed, how they are marked again after a reload, and their order
    (stable, directories first, by name, size, time or version).
  - `render.rs`: the screen as text.
  - `session.rs`: the saved session and reading it back.
  - `size.rs`: human-readable sizes.
  - `args.rs`, `prompts.rs`, `paths.rs`, `text.rs`, `config.rs`: options,
    prompt answers, `~` expansion, text helpers and the configuration.
  - `laws.rs`: properties that span several operations.
- `app/` — the program: raw terminal mode, key reading, file watching
  (inotify/kqueue through `libc`), directory reads and file operations.
- `tests/` — tests of the library on concrete values.
