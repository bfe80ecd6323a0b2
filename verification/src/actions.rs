use vstd::prelude::*;
use crate::config::{Action, dir_jump_table};
use crate::keys::{combo_action, key_action};
use crate::listing::{Entry, SortMode};
use crate::sort::with_mark;
use crate::state::{
    State, StateModel, min_nat, sat_sub, texts, view_rows, with_adjusted_offset,
};
use crate::text::decimal;

verus! {

/// What the caller has to do after the browser took a key: the outside
/// work that the state cannot do itself.
pub enum Effect {
    /// Nothing more: draw again.
    Stay,
    /// Leave the browser.
    Quit,
    /// Read the directory again.
    Reload,
    /// Read the directory again, then show the message.
    ReloadAndSay(String),
    /// Go to the parent directory (`State::go_back`).
    GoBack,
    /// Enter the directory at the path (resolved first, then
    /// `State::enter_dir`).
    EnterDir(String),
    /// Open the file at the path (see `file_command`).
    OpenFile(String),
    /// Jump to the directory (`~` expanded and resolved first, then
    /// `State::jump_to`, or `State::jump_missing` when it is no directory).
    JumpTo(String),
    /// Ask, then delete the paths (`State::delete_done`).
    Delete(Vec<String>),
    /// Move the yanked paths here (`State::file_op_done`).
    MoveFiles(Vec<String>),
    /// Copy the yanked paths here (`State::file_op_done`).
    Paste(Vec<String>),
    /// Link the yanked paths here (`State::file_op_done`).
    Link(Vec<String>),
    /// Ask for a new name for the entry with this name and path.
    Rename(String, String),
    /// Ask for a name and make a directory.
    MakeDir,
    /// Ask for a name and make a file.
    MakeFile,
    /// Ask for a directory and go there.
    ChangeDir,
    /// Run a shell in the directory.
    Shell,
    /// Edit the file at the path.
    EditFile(String),
    /// Play the file at the path.
    MediaPlayer(String),
    /// Run the process monitor in the directory.
    TopMonitor,
    /// Show the manual.
    ShowHelp,
    /// Clear the whole screen, then draw again.
    ClearScreen,
}

/// An effect as the contracts see it.
pub enum EffectModel {
    Stay,
    Quit,
    Reload,
    ReloadAndSay(Seq<char>),
    GoBack,
    EnterDir(Seq<char>),
    OpenFile(Seq<char>),
    JumpTo(Seq<char>),
    Delete(Seq<Seq<char>>),
    MoveFiles(Seq<Seq<char>>),
    Paste(Seq<Seq<char>>),
    Link(Seq<Seq<char>>),
    Rename(Seq<char>, Seq<char>),
    MakeDir,
    MakeFile,
    ChangeDir,
    Shell,
    EditFile(Seq<char>),
    MediaPlayer(Seq<char>),
    TopMonitor,
    ShowHelp,
    ClearScreen,
}

impl View for Effect {
    type V = EffectModel;

    open spec fn view(&self) -> EffectModel {
        match self {
            Effect::Stay => EffectModel::Stay,
            Effect::Quit => EffectModel::Quit,
            Effect::Reload => EffectModel::Reload,
            Effect::ReloadAndSay(s) => EffectModel::ReloadAndSay(s@),
            Effect::GoBack => EffectModel::GoBack,
            Effect::EnterDir(s) => EffectModel::EnterDir(s@),
            Effect::OpenFile(s) => EffectModel::OpenFile(s@),
            Effect::JumpTo(s) => EffectModel::JumpTo(s@),
            Effect::Delete(v) => EffectModel::Delete(texts(v@)),
            Effect::MoveFiles(v) => EffectModel::MoveFiles(texts(v@)),
            Effect::Paste(v) => EffectModel::Paste(texts(v@)),
            Effect::Link(v) => EffectModel::Link(texts(v@)),
            Effect::Rename(n, p) => EffectModel::Rename(n@, p@),
            Effect::MakeDir => EffectModel::MakeDir,
            Effect::MakeFile => EffectModel::MakeFile,
            Effect::ChangeDir => EffectModel::ChangeDir,
            Effect::Shell => EffectModel::Shell,
            Effect::EditFile(s) => EffectModel::EditFile(s@),
            Effect::MediaPlayer(s) => EffectModel::MediaPlayer(s@),
            Effect::TopMonitor => EffectModel::TopMonitor,
            Effect::ShowHelp => EffectModel::ShowHelp,
            Effect::ClearScreen => EffectModel::ClearScreen,
        }
    }
}

/// The selection is on an entry.
pub open spec fn has_selection(m: StateModel) -> bool {
    m.cursor < m.entries.len()
}

/// The paths of the marked entries, in listing order.
pub open spec fn marked_paths(s: Seq<Entry>) -> Seq<Seq<char>>
    decreases s.len(),
{
    if s.len() == 0 {
        Seq::empty()
    } else if s.last().marked {
        marked_paths(s.drop_last()).push(s.last().path@)
    } else {
        marked_paths(s.drop_last())
    }
}

/// The paths that an operation on "the marked entries, or else the
/// selected one" works on.
pub open spec fn targets(m: StateModel) -> Seq<Seq<char>> {
    let marked = marked_paths(m.entries);
    if marked.len() == 0 && has_selection(m) {
        seq![m.entries[m.cursor as int].path@]
    } else {
        marked
    }
}

/// The listing with every mark cleared.
pub open spec fn unmarked(s: Seq<Entry>) -> Seq<Entry> {
    s.map_values(|e: Entry| with_mark(e, false))
}

/// How far half a page moves: half the terminal's height, at least 1.
pub open spec fn half_page(term_height: nat) -> nat {
    if term_height / 2 >= 1 {
        term_height / 2
    } else {
        1
    }
}

/// The message after a yank of `n` paths.
pub open spec fn yanked_message(n: nat) -> Seq<char> {
    "Yanked "@ + decimal(n) + " item(s)"@
}

/// The state with the selection moved to `c` and the view following it.
pub open spec fn moved_to(m: StateModel, c: nat) -> StateModel {
    with_adjusted_offset(StateModel { cursor: c, ..m })
}

/// The first directory jump on `key` that leads somewhere.
pub open spec fn jump_target(t: Seq<(u8, &'static str)>, key: u8) -> Option<Seq<char>>
    decreases t.len(),
{
    if t.len() == 0 {
        None
    } else if t[0].0 == key && t[0].1@.len() > 0 {
        Some(t[0].1@)
    } else {
        jump_target(t.drop_first(), key)
    }
}

/// The actions that only move the selection.
pub open spec fn is_move(a: Action) -> bool {
    a is Next || a is Previous || a is Home || a is End || a is PageUp || a is PageDown
        || a is HalfPageUp || a is HalfPageDown
}

/// Where a moving action takes the selection.
pub open spec fn move_target(m: StateModel, a: Action) -> nat {
    let last = sat_sub(m.entries.len(), 1);
    match a {
        Action::Next => if m.cursor < last {
            m.cursor + 1
        } else {
            m.cursor
        },
        Action::Previous => sat_sub(m.cursor, 1),
        Action::Home => 0,
        Action::End => last,
        Action::PageUp => sat_sub(m.cursor, view_rows(m.term_height)),
        Action::PageDown => min_nat(m.cursor + view_rows(m.term_height), last),
        Action::HalfPageUp => sat_sub(m.cursor, half_page(m.term_height)),
        _ => min_nat(m.cursor + half_page(m.term_height), last),
    }
}

/// The state after a moving action: the selection moved and the view
/// following it (`Next` on the last entry changes nothing).
pub open spec fn move_state(m: StateModel, a: Action) -> StateModel {
    if a is Next && move_target(m, a) == m.cursor {
        m
    } else {
        moved_to(m, move_target(m, a))
    }
}

/// The state after marking or unmarking: `Mark` flips the mark of the
/// selected entry and moves to the next one, `UnmarkAll` clears all marks.
pub open spec fn mark_state(m: StateModel, a: Action) -> StateModel {
    if a is Mark {
        if has_selection(m) {
            let e = m.entries[m.cursor as int];
            let m2 = StateModel {
                entries: m.entries.update(m.cursor as int, with_mark(e, !e.marked)),
                cache_dirty: true,
                ..m
            };
            if m.cursor < m.entries.len() - 1 {
                moved_to(m2, m.cursor + 1)
            } else {
                m2
            }
        } else {
            m
        }
    } else {
        StateModel { entries: unmarked(m.entries), cache_dirty: true, ..m }
    }
}

/// The state after a yank: the marked paths, or else the selected one, are
/// yanked, with a message when there are any.
pub open spec fn yank_state(m: StateModel) -> StateModel {
    let y = targets(m);
    StateModel {
        yanked: y,
        message: if y.len() > 0 {
            Some(yanked_message(y.len()))
        } else {
            None
        },
        cache_dirty: true,
        ..m
    }
}

/// The state after an operation on the yanked paths was asked for: where
/// nothing is yanked, a message says so.
pub open spec fn file_op_state(m: StateModel, a: Action) -> StateModel {
    if m.yanked.len() == 0 {
        StateModel {
            message: Some(
                if a is MoveFiles {
                    "Nothing to move"@
                } else if a is Paste {
                    "Nothing to paste"@
                } else {
                    "Nothing to link"@
                },
            ),
            ..m
        }
    } else {
        m
    }
}

/// The state after a jump back to the last directory: the two directories
/// swap and the listing starts over unfiltered; with no last directory a
/// message says so.
pub open spec fn jump_back_state(m: StateModel) -> StateModel {
    match m.last_dir {
        Some(l) => StateModel {
            dir: l,
            last_dir: Some(m.dir),
            cursor: 0,
            view_offset: 0,
            filter: None,
            ..m
        },
        None => StateModel { message: Some("No previous directory"@), ..m },
    }
}

/// The state after a change of what is listed or how: hidden entries,
/// directories first, the sort mode, sizes, version sort.
pub open spec fn option_state(m: StateModel, a: Action) -> StateModel {
    match a {
        Action::ToggleHidden => StateModel {
            show_hidden: !m.show_hidden,
            cursor: 0,
            view_offset: 0,
            ..m
        },
        Action::ToggleDirsFirst => StateModel { dirs_first: !m.dirs_first, ..m },
        Action::SortByName => StateModel { sort_mode: SortMode::Name, ..m },
        Action::SortBySize => StateModel { sort_mode: SortMode::Size, ..m },
        Action::SortByTime => StateModel { sort_mode: SortMode::Time, ..m },
        Action::ToggleSize => StateModel {
            show_size: !m.show_size,
            message: Some(
                if !m.show_size {
                    "Show size: on"@
                } else {
                    "Show size: off"@
                },
            ),
            ..m
        },
        _ => StateModel {
            version_sort: !m.version_sort,
            sort_mode: if !m.version_sort {
                SortMode::Version
            } else {
                SortMode::Name
            },
            ..m
        },
    }
}

/// The actions that change what is listed or how.
pub open spec fn is_option(a: Action) -> bool {
    a is ToggleHidden || a is ToggleDirsFirst || a is SortByName || a is SortBySize
        || a is SortByTime || a is ToggleSize || a is ToggleVersionSort
}

/// The state after the browser took an action, before any outside work:
/// the message cleared, then what the action changes by itself.
#[verifier::opaque]
pub open spec fn action_state(m0: StateModel, a: Action) -> StateModel {
    let m = StateModel { message: None, ..m0 };
    if is_move(a) {
        move_state(m, a)
    } else if a is Mark || a is UnmarkAll {
        mark_state(m, a)
    } else if a is Yank {
        yank_state(m)
    } else if a is MoveFiles || a is Paste || a is Link {
        file_op_state(m, a)
    } else if is_option(a) {
        option_state(m, a)
    } else {
        match a {
            Action::Filter => StateModel { filter_input: Some(Seq::empty()), ..m },
            Action::Jump(k) => if k == 39 {
                jump_back_state(m)
            } else {
                m
            },
            Action::UnYank => StateModel {
                yanked: Seq::empty(),
                message: Some("Cleared yanked items"@),
                ..m
            },
            Action::PendingKey(k) => StateModel { pending_key: Some(k), ..m },
            _ => m,
        }
    }
}

/// The outside work that an action asks for.
#[verifier::opaque]
pub open spec fn action_effect(m: StateModel, a: Action) -> EffectModel {
    let sel = has_selection(m);
    match a {
        Action::Quit => EffectModel::Quit,
        Action::Enter => if sel {
            let e = m.entries[m.cursor as int];
            if e.is_dir {
                EffectModel::EnterDir(e.path@)
            } else {
                EffectModel::OpenFile(e.path@)
            }
        } else {
            EffectModel::Stay
        },
        Action::Back => EffectModel::GoBack,
        Action::MoveFiles => if m.yanked.len() == 0 {
            EffectModel::Stay
        } else {
            EffectModel::MoveFiles(m.yanked)
        },
        Action::Paste => if m.yanked.len() == 0 {
            EffectModel::Stay
        } else {
            EffectModel::Paste(m.yanked)
        },
        Action::Link => if m.yanked.len() == 0 {
            EffectModel::Stay
        } else {
            EffectModel::Link(m.yanked)
        },
        Action::Delete => if targets(m).len() == 0 {
            EffectModel::Stay
        } else {
            EffectModel::Delete(targets(m))
        },
        Action::Rename => if sel {
            EffectModel::Rename(m.entries[m.cursor as int].name@, m.entries[m.cursor as int].path@)
        } else {
            EffectModel::Stay
        },
        Action::MakeDir => EffectModel::MakeDir,
        Action::MakeFile => EffectModel::MakeFile,
        Action::ChangeDir => EffectModel::ChangeDir,
        Action::Shell => EffectModel::Shell,
        Action::EditFile => if sel {
            EffectModel::EditFile(m.entries[m.cursor as int].path@)
        } else {
            EffectModel::Stay
        },
        Action::MediaPlayer => if sel {
            EffectModel::MediaPlayer(m.entries[m.cursor as int].path@)
        } else {
            EffectModel::Stay
        },
        Action::TopMonitor => EffectModel::TopMonitor,
        Action::ShowHelp => EffectModel::ShowHelp,
        Action::ToggleHidden | Action::ToggleDirsFirst | Action::SortByName | Action::SortBySize
        | Action::SortByTime => EffectModel::Reload,
        Action::Reload => EffectModel::ReloadAndSay("Reloaded"@),
        Action::ToggleVersionSort => EffectModel::ReloadAndSay(
            if !m.version_sort {
                "Version sort: on"@
            } else {
                "Version sort: off"@
            },
        ),
        Action::Jump(k) => if k == 39 {
            if m.last_dir is Some {
                EffectModel::Reload
            } else {
                EffectModel::Stay
            }
        } else {
            match jump_target(dir_jump_table(), k) {
                Some(p) => EffectModel::JumpTo(p),
                None => EffectModel::Stay,
            }
        },
        _ => EffectModel::Stay,
    }
}

/// The state after a key typed while a filter is being typed: Enter
/// (10 or 13) applies the filter (none if empty) and starts the listing over
/// at the top; ESC cancels; Backspace (127 or 8) removes the last
/// character; a printable ASCII key adds its character; other keys do
/// nothing.
pub open spec fn filter_key_state(m: StateModel, key: u8) -> StateModel {
    match m.filter_input {
        None => m,
        Some(fi) => if key == 10 || key == 13 {
            StateModel {
                filter: if fi.len() == 0 {
                    None
                } else {
                    Some(fi)
                },
                filter_input: None,
                cursor: 0,
                view_offset: 0,
                ..m
            }
        } else if key == 27 {
            StateModel { filter_input: None, ..m }
        } else if key == 127 || key == 8 {
            StateModel {
                filter_input: Some(
                    if fi.len() > 0 {
                        fi.drop_last()
                    } else {
                        fi
                    },
                ),
                ..m
            }
        } else if 32 <= key && key <= 126 {
            StateModel { filter_input: Some(fi.push(key as char)), ..m }
        } else {
            m
        },
    }
}

/// A key typed while a filter is being typed asks for the directory to be
/// read again: Enter did it.
pub open spec fn filter_key_reloads(m: StateModel, key: u8) -> bool {
    m.filter_input is Some && (key == 10 || key == 13)
}

/// The state after the bytes of a key press: typed into the filter while
/// one is being typed; else the second key of a two-key command; else the
/// key's own binding.
pub open spec fn key_state(m: StateModel, keys: Seq<u8>) -> StateModel {
    if m.filter_input is Some {
        filter_key_state(m, keys[0])
    } else if m.pending_key is Some {
        let m1 = StateModel { pending_key: None, ..m };
        match combo_action(m.pending_key->0, keys[0]) {
            Some(a) => action_state(m1, a),
            None => m1,
        }
    } else {
        match key_action(keys) {
            Some(a) => action_state(m, a),
            None => m,
        }
    }
}

/// The outside work that a key press asks for (see `key_state`).
pub open spec fn key_effect(m: StateModel, keys: Seq<u8>) -> EffectModel {
    if m.filter_input is Some {
        if filter_key_reloads(m, keys[0]) {
            EffectModel::Reload
        } else {
            EffectModel::Stay
        }
    } else if m.pending_key is Some {
        let m1 = StateModel { pending_key: None, ..m };
        match combo_action(m.pending_key->0, keys[0]) {
            Some(a) => action_effect(m1, a),
            None => EffectModel::Stay,
        }
    } else {
        match key_action(keys) {
            Some(a) => action_effect(m, a),
            None => EffectModel::Stay,
        }
    }
}

/// An operation on the yanked paths.
#[derive(Clone, Copy, Debug, PartialEq, Eq, Structural)]
pub enum FileOp {
    Move,
    Copy,
    Link,
}

/// The message after an operation on the yanked paths: how many succeeded,
/// or the errors, joined by commas.
pub open spec fn file_op_message(op: FileOp, success: nat, errors: Seq<Seq<char>>) -> Seq<char> {
    if errors.len() == 0 {
        match op {
            FileOp::Move => "Moved "@ + decimal(success) + " item(s)"@,
            FileOp::Copy => "Pasted "@ + decimal(success) + " item(s)"@,
            FileOp::Link => "Created "@ + decimal(success) + " link(s)"@,
        }
    } else {
        "Errors: "@ + crate::text::join(errors, ", "@)
    }
}

/// An outside step that went wrong, for the message that reports it.
#[derive(Clone, Copy, Debug, PartialEq, Eq, Structural)]
pub enum Failure {
    /// Renaming, making a directory or making a file.
    Operation,
    Editor,
    MediaPlayer,
    Top,
    Help,
}

/// The words before the error in a failure's message.
pub open spec fn failure_prefix(f: Failure) -> Seq<char> {
    match f {
        Failure::Operation => "Error: "@,
        Failure::Editor => "Error running editor: "@,
        Failure::MediaPlayer => "Error running media player: "@,
        Failure::Top => "Error running top: "@,
        Failure::Help => "Error running help: "@,
    }
}

/// An outside step that went well, for the message that says so.
#[derive(Clone, Copy, Debug, PartialEq, Eq, Structural)]
pub enum Done {
    Renamed,
    DirectoryCreated,
    FileCreated,
}

/// The message of a step that went well.
pub open spec fn done_message(d: Done) -> Seq<char> {
    match d {
        Done::Renamed => "Renamed"@,
        Done::DirectoryCreated => "Directory created"@,
        Done::FileCreated => "File created"@,
    }
}

} // verus!
