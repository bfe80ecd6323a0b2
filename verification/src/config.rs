use vstd::prelude::*;

verus! {

/// Hidden entries are listed from the start.
pub const SHOW_HIDDEN: bool = false;

/// Directories are listed before files from the start.
pub const DIRS_FIRST: bool = true;

/// Colors are used from the start.
pub const USE_COLOR: bool = true;

/// Sizes are shown from the start.
pub const SHOW_SIZE: bool = false;

/// The home directory is shown as `~` from the start.
pub const TILDE_HOME: bool = false;

/// Names are sorted by the numbers they hold from the start.
pub const VERSION_SORT: bool = true;

pub const CURSOR: &'static str = " > ";
pub const NO_CURSOR: &'static str = "   ";
pub const YANK_SYMBOL: &'static str = "* ";

pub const COLOR_DIR: &'static str = "\x1b[34m";
pub const COLOR_FILE: &'static str = "\x1b[0m";
pub const COLOR_EXEC: &'static str = "\x1b[32m";
pub const COLOR_LINK: &'static str = "\x1b[36m";
pub const COLOR_MARKED: &'static str = "\x1b[33m";
pub const COLOR_RESET: &'static str = "\x1b[0m";
pub const COLOR_ERROR: &'static str = "\x1b[31m";

pub const DEFAULT_PAGER: &'static str = "less";
pub const DEFAULT_SHELL: &'static str = "sh";
pub const DEFAULT_EDITOR: &'static str = "vi";
pub const DEFAULT_TOP: &'static str = "top";
pub const DEFAULT_MEDIA_PLAYER: &'static str = "mpv --shuffle";
pub const DEFAULT_MAN_COMMAND: &'static str = "man noice";

/// What a key (or a pair of keys) asks the browser to do.
#[derive(Copy, Clone, Debug, PartialEq, Eq, Structural)]
pub enum Action {
    Quit,
    Next,
    Previous,
    Enter,
    Back,
    Filter,
    Yank,
    UnYank,
    Paste,
    Delete,
    ToggleDirsFirst,
    ToggleHidden,
    ToggleSize,
    ToggleVersionSort,
    Mark,
    UnmarkAll,
    Home,
    End,
    PageUp,
    PageDown,
    HalfPageUp,
    HalfPageDown,
    Rename,
    MakeDir,
    MakeFile,
    Shell,
    Reload,
    Redraw,
    SortByName,
    SortBySize,
    SortByTime,
    MoveFiles,
    Link,
    ChangeDir,
    EditFile,
    MediaPlayer,
    TopMonitor,
    ShowHelp,
    Jump(u8),
    PendingKey(u8),
}

/// The single-key bindings, in the order in which they are searched.
pub open spec fn keybind_table() -> Seq<(u8, Action)> {
    seq![
        (113u8, Action::Quit),  // 'q'
        (106u8, Action::Next),  // 'j'
        (107u8, Action::Previous),  // 'k'
        (108u8, Action::Enter),  // 'l'
        (104u8, Action::Back),  // 'h'
        (103u8, Action::Home),  // 'g'
        (71u8, Action::End),  // 'G'
        (91u8, Action::PageUp),  // '['
        (93u8, Action::PageDown),  // ']'
        (32u8, Action::Mark),  // ' '
        (117u8, Action::UnmarkAll),  // 'u'
        (121u8, Action::Yank),  // 'y'
        (109u8, Action::MoveFiles),  // 'm'
        (112u8, Action::Paste),  // 'p'
        (68u8, Action::Delete),  // 'D'
        (114u8, Action::Rename),  // 'r'
        (110u8, Action::MakeDir),  // 'n'
        (76u8, Action::Link),  // 'L'
        (46u8, Action::ToggleHidden),  // '.'
        (100u8, Action::ToggleDirsFirst),  // 'd'
        (47u8, Action::Filter),  // '/'
        (115u8, Action::SortByName),  // 's'
        (83u8, Action::SortBySize),  // 'S'
        (116u8, Action::SortByTime),  // 't'
        (82u8, Action::Reload),  // 'R'
        (33u8, Action::Shell),  // '!'
        (39u8, Action::PendingKey(39u8)),  // '''
        (85u8, Action::UnYank),  // 'U'
        (78u8, Action::MakeFile),  // 'N'
        (105u8, Action::ToggleSize),  // 'i'
        (118u8, Action::ToggleVersionSort),  // 'v'
        (99u8, Action::ChangeDir),  // 'c'
        (101u8, Action::EditFile),  // 'e'
        (77u8, Action::MediaPlayer),  // 'M'
        (122u8, Action::TopMonitor),  // 'z'
        (63u8, Action::ShowHelp),  // '?'
        (4u8, Action::HalfPageDown),
        (21u8, Action::HalfPageUp),
        (12u8, Action::Redraw),
        (8u8, Action::ToggleHidden),
        (27u8, Action::Quit),
        (10u8, Action::Enter),
        (127u8, Action::Back),
    ]
}

/// The single-key bindings: vi-style movement (`j` `k` `l` `h`, `g` and
/// `G` for the first and last entry, `[` and `]` a page up and down), marks
/// and the operations on them (space, `u`, `y`, `m`, `p`, `D`, `r`, `n`,
/// `L`), the view (`.` `d` `/` `s` `S` `t` `R`), `!` for a shell, `q` or ESC
/// to quit, and `'` then a key to jump to a directory. Ctrl-D and Ctrl-U
/// move half a page, Ctrl-L redraws, Ctrl-H toggles hidden entries, Enter
/// enters and Backspace goes back.
pub fn keybinds() -> (t: Vec<(u8, Action)>)
    ensures
        t@ == keybind_table(),
{
    vec![
        (113u8, Action::Quit),  // 'q'
        (106u8, Action::Next),  // 'j'
        (107u8, Action::Previous),  // 'k'
        (108u8, Action::Enter),  // 'l'
        (104u8, Action::Back),  // 'h'
        (103u8, Action::Home),  // 'g'
        (71u8, Action::End),  // 'G'
        (91u8, Action::PageUp),  // '['
        (93u8, Action::PageDown),  // ']'
        (32u8, Action::Mark),  // ' '
        (117u8, Action::UnmarkAll),  // 'u'
        (121u8, Action::Yank),  // 'y'
        (109u8, Action::MoveFiles),  // 'm'
        (112u8, Action::Paste),  // 'p'
        (68u8, Action::Delete),  // 'D'
        (114u8, Action::Rename),  // 'r'
        (110u8, Action::MakeDir),  // 'n'
        (76u8, Action::Link),  // 'L'
        (46u8, Action::ToggleHidden),  // '.'
        (100u8, Action::ToggleDirsFirst),  // 'd'
        (47u8, Action::Filter),  // '/'
        (115u8, Action::SortByName),  // 's'
        (83u8, Action::SortBySize),  // 'S'
        (116u8, Action::SortByTime),  // 't'
        (82u8, Action::Reload),  // 'R'
        (33u8, Action::Shell),  // '!'
        (39u8, Action::PendingKey(39u8)),  // '''
        (85u8, Action::UnYank),  // 'U'
        (78u8, Action::MakeFile),  // 'N'
        (105u8, Action::ToggleSize),  // 'i'
        (118u8, Action::ToggleVersionSort),  // 'v'
        (99u8, Action::ChangeDir),  // 'c'
        (101u8, Action::EditFile),  // 'e'
        (77u8, Action::MediaPlayer),  // 'M'
        (122u8, Action::TopMonitor),  // 'z'
        (63u8, Action::ShowHelp),  // '?'
        (4u8, Action::HalfPageDown),
        (21u8, Action::HalfPageUp),
        (12u8, Action::Redraw),
        (8u8, Action::ToggleHidden),
        (27u8, Action::Quit),
        (10u8, Action::Enter),
        (127u8, Action::Back),
    ]
}

/// The directory jumps: a key and the directory that it leads to; the
/// entry with an empty directory stands for the last directory visited.
pub open spec fn dir_jump_table() -> Seq<(u8, &'static str)> {
    seq![
        (47u8, "/"),  // '/'
        (126u8, "~"),  // '~'
        (99u8, "~/.config"),  // 'c'
        (100u8, "~/Downloads"),  // 'd'
        (68u8, "~/Documents"),  // 'D'
        (116u8, "/tmp"),  // 't'
        (39u8, ""),  // '''
    ]
}

/// The directory jumps (see `dir_jump_table`): `/` the root, `~` home, `c`
/// `~/.config`, `d` `~/Downloads`, `D` `~/Documents`, `t` `/tmp`, and `'`
/// the last directory visited.
pub fn dir_jumps() -> (t: Vec<(u8, &'static str)>)
    ensures
        t@ == dir_jump_table(),
{
    vec![
        (47u8, "/"),  // '/'
        (126u8, "~"),  // '~'
        (99u8, "~/.config"),  // 'c'
        (100u8, "~/Downloads"),  // 'd'
        (68u8, "~/Documents"),  // 'D'
        (116u8, "/tmp"),  // 't'
        (39u8, ""),  // '''
    ]
}

/// The file associations: a pattern on the file's path and the command
/// that opens it; the first rule that matches wins.
pub open spec fn file_rule_table() -> Seq<(&'static str, &'static str)> {
    seq![
        ("\\.mp4$", "mpv"),
        ("\\.mkv$", "mpv"),
        ("\\.avi$", "mpv"),
        ("\\.mov$", "mpv"),
        ("\\.webm$", "mpv"),
        ("\\.pdf$", "open"),
        ("\\.txt$", "vim"),
        ("\\.rs$", "vim"),
        ("\\.c$", "vim"),
        ("\\.h$", "vim"),
        ("\\.cpp$", "vim"),
        ("\\.py$", "vim"),
        ("\\.js$", "vim"),
        ("\\.json$", "vim"),
        ("\\.toml$", "vim"),
        ("\\.yaml$", "vim"),
        ("\\.yml$", "vim"),
        ("\\.md$", "vim"),
        ("\\.sh$", "vim"),
        ("\\.jpg$", "open"),
        ("\\.jpeg$", "open"),
        ("\\.png$", "open"),
        ("\\.gif$", "open"),
        ("\\.svg$", "open"),
        ("\\.html$", "open"),
        ("\\.htm$", "open"),
    ]
}

/// The file associations (see `file_rule_table`).
pub fn file_rules() -> (t: Vec<(&'static str, &'static str)>)
    ensures
        t@ == file_rule_table(),
{
    vec![
        ("\\.mp4$", "mpv"),
        ("\\.mkv$", "mpv"),
        ("\\.avi$", "mpv"),
        ("\\.mov$", "mpv"),
        ("\\.webm$", "mpv"),
        ("\\.pdf$", "open"),
        ("\\.txt$", "vim"),
        ("\\.rs$", "vim"),
        ("\\.c$", "vim"),
        ("\\.h$", "vim"),
        ("\\.cpp$", "vim"),
        ("\\.py$", "vim"),
        ("\\.js$", "vim"),
        ("\\.json$", "vim"),
        ("\\.toml$", "vim"),
        ("\\.yaml$", "vim"),
        ("\\.yml$", "vim"),
        ("\\.md$", "vim"),
        ("\\.sh$", "vim"),
        ("\\.jpg$", "open"),
        ("\\.jpeg$", "open"),
        ("\\.png$", "open"),
        ("\\.gif$", "open"),
        ("\\.svg$", "open"),
        ("\\.html$", "open"),
        ("\\.htm$", "open"),
    ]
}

} // verus!
