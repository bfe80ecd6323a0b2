use vstd::prelude::*;
use crate::actions::{EffectModel, action_effect, action_state, filter_key_state, marked_paths};
use crate::render::entry_row;
use crate::config::Action;
use crate::keys::key_action;
use crate::size::{as_f64, f64_spacing, round_half_even, size_tenths, size_text, size_unit, unit_bytes, unit_char};
use crate::text::{decimal, digit_char};
use crate::version::{lex_order, version_numbers, version_order};
use crate::listing::{Entry, SortMode, entry_order, is_stable_sort, sorted_image};
use crate::sort::{is_listed, listing_candidates, was_marked};
use crate::state::StateModel;

verus! {

proof fn lemma_candidates_listed(raw: Seq<Entry>, old: Seq<Entry>, show_hidden: bool, filter: Option<Seq<char>>)
    ensures
        forall|j: int|
            0 <= j < listing_candidates(raw, old, show_hidden, filter).len() ==> {
                let e = #[trigger] listing_candidates(raw, old, show_hidden, filter)[j];
                is_listed(e.name@, show_hidden, filter) && e.marked == was_marked(old, e.path@)
            },
    decreases raw.len(),
{
    if raw.len() > 0 {
        lemma_candidates_listed(raw.drop_last(), old, show_hidden, filter);
        let c = listing_candidates(raw, old, show_hidden, filter);
        let rest = listing_candidates(raw.drop_last(), old, show_hidden, filter);
        assert forall|j: int| 0 <= j < c.len() implies {
            let e = #[trigger] c[j];
            is_listed(e.name@, show_hidden, filter) && e.marked == was_marked(old, e.path@)
        } by {
            if j < rest.len() {
                assert(c[j] == rest[j]);
            }
        }
    }
}

/// A listing holds only what is listed: no hidden entry unless hidden
/// entries are shown, under a filter only entries whose lowercase name
/// holds the lowercase filter; and an entry is marked exactly when the
/// previous listing had a marked entry with the same path.
pub proof fn law_listing_holds_listed_entries(
    r: Seq<Entry>,
    raw: Seq<Entry>,
    old: Seq<Entry>,
    show_hidden: bool,
    filter: Option<Seq<char>>,
    dirs_first: bool,
    mode: SortMode,
)
    requires
        is_stable_sort(r, listing_candidates(raw, old, show_hidden, filter), dirs_first, mode),
    ensures
        forall|i: int|
            0 <= i < r.len() ==> is_listed((#[trigger] r[i]).name@, show_hidden, filter) && r[i].marked
                == was_marked(old, r[i].path@),
{
    let c = listing_candidates(raw, old, show_hidden, filter);
    lemma_candidates_listed(raw, old, show_hidden, filter);
    let p = choose|p: Seq<int>| sorted_image(r, c, p, dirs_first, mode);
    assert forall|i: int| 0 <= i < r.len() implies is_listed((#[trigger] r[i]).name@, show_hidden, filter)
        && r[i].marked == was_marked(old, r[i].path@) by {
        assert(r[i] == c[p[i]]);
    }
}

/// With directories first, no file of a listing comes before a directory.
pub proof fn law_directories_first(r: Seq<Entry>, s: Seq<Entry>, mode: SortMode)
    requires
        is_stable_sort(r, s, true, mode),
    ensures
        forall|i: int, j: int| 0 <= i < j < r.len() && (#[trigger] r[j]).is_dir ==> (#[trigger] r[i]).is_dir,
{
    let p = choose|p: Seq<int>| sorted_image(r, s, p, true, mode);
    assert forall|i: int, j: int| 0 <= i < j < r.len() && (#[trigger] r[j]).is_dir implies (#[trigger] r[i]).is_dir by {
        assert(entry_order(r[i], r[j], true, mode) != std::cmp::Ordering::Greater);
    }
}

/// Jumping back to the last directory twice comes back to where it
/// started: the directory and the last directory are as before.
pub proof fn law_jump_back_twice(m: StateModel)
    requires
        m.last_dir is Some,
    ensures
        action_state(action_state(m, Action::Jump(39)), Action::Jump(39)).dir == m.dir,
        action_state(action_state(m, Action::Jump(39)), Action::Jump(39)).last_dir == m.last_dir,
{
    reveal(action_state);
}

/// Each toggle undoes itself: taken twice, hidden entries, directories
/// first, sizes and version sort are as before.
pub proof fn law_toggles_undo_themselves(m: StateModel)
    ensures
        action_state(action_state(m, Action::ToggleHidden), Action::ToggleHidden).show_hidden == m.show_hidden,
        action_state(action_state(m, Action::ToggleDirsFirst), Action::ToggleDirsFirst).dirs_first == m.dirs_first,
        action_state(action_state(m, Action::ToggleSize), Action::ToggleSize).show_size == m.show_size,
        action_state(action_state(m, Action::ToggleVersionSort), Action::ToggleVersionSort).version_sort
            == m.version_sort,
{
    reveal(action_state);
}

/// While a filter is being typed, a printable key followed by Backspace
/// leaves the state as it was.
pub proof fn law_backspace_undoes_typed_key(m: StateModel, key: u8)
    requires
        m.filter_input is Some,
        32 <= key <= 126,
    ensures
        filter_key_state(filter_key_state(m, key), 127) == m,
{
    let fi = m.filter_input->0;
    assert(fi.push(key as char).drop_last() =~= fi);
}

/// Moving down and then up comes back to the same entry, where there was
/// an entry below.
pub proof fn law_next_then_previous(m: StateModel)
    requires
        m.wf(),
        m.cursor + 1 < m.entries.len(),
    ensures
        action_state(action_state(m, Action::Next), Action::Previous).cursor == m.cursor,
{
    reveal(action_state);
}

/// How each move places the selection, with `rows` the terminal's height
/// less four (at least 0), `half` half its height (at least 1) and `last`
/// the last entry (0 on an empty listing): a page up or down moves by
/// `rows` and a half page by `half`, each held within the listing; one
/// step down stops at the last entry, one step up at the first. No move
/// changes the listing or the directory, and the view never starts below
/// the selection.
pub proof fn law_moves(m: StateModel)
    requires
        m.wf(),
    ensures
        ({
            let rows: int = if m.term_height >= 4 { m.term_height - 4 } else { 0 };
            let half: int = if m.term_height / 2 >= 1 { (m.term_height / 2) as int } else { 1 };
            let last: int = if m.entries.len() > 0 { m.entries.len() - 1 } else { 0 };
            &&& action_state(m, Action::PageUp).cursor == (if m.cursor >= rows { m.cursor - rows } else { 0 })
            &&& action_state(m, Action::PageDown).cursor == (if m.cursor + rows <= last { m.cursor + rows } else { last })
            &&& action_state(m, Action::HalfPageUp).cursor == (if m.cursor >= half { m.cursor - half } else { 0 })
            &&& action_state(m, Action::HalfPageDown).cursor == (if m.cursor + half <= last { m.cursor + half } else { last })
            &&& action_state(m, Action::Next).cursor == (if m.cursor < last { m.cursor + 1 as int } else { m.cursor as int })
            &&& action_state(m, Action::Previous).cursor == (if m.cursor > 0 { m.cursor - 1 } else { 0 })
            &&& action_state(m, Action::Home).cursor == 0
            &&& action_state(m, Action::End).cursor == last
        }),
        forall|a: Action|
            #![trigger action_state(m, a)]
            a is PageUp || a is PageDown || a is HalfPageUp || a is HalfPageDown || a is Next || a is Previous
                || a is Home || a is End ==> {
                let r = action_state(m, a);
                &&& r.entries == m.entries
                &&& r.dir == m.dir
                &&& r.view_offset <= r.cursor
            },
{
    reveal(action_state);
    crate::state::lemma_adjusted_offset_in_view(0, 0, 0);
    assert forall|a: Action|
        #![trigger action_state(m, a)]
        a is PageUp || a is PageDown || a is HalfPageUp || a is HalfPageDown || a is Next || a is Previous
            || a is Home || a is End implies {
            let r = action_state(m, a);
            &&& r.entries == m.entries
            &&& r.dir == m.dir
            &&& r.view_offset <= r.cursor
        } by {
        let m1 = StateModel { message: None, ..m };
        let t = crate::actions::move_target(m1, a);
        crate::state::lemma_adjusted_offset_in_view(t, m1.view_offset, m1.term_height);
        crate::state::lemma_adjusted_offset_in_view(m1.cursor, m1.view_offset, m1.term_height);
    }
}

/// Marking flips the mark of the selected entry alone and moves the
/// selection one down where there is an entry below; unmarking all clears
/// every mark and changes nothing else of any entry.
pub proof fn law_marks(m: StateModel)
    requires
        m.wf(),
    ensures
        ({
            let r = action_state(m, Action::UnmarkAll);
            &&& r.entries.len() == m.entries.len()
            &&& forall|i: int| 0 <= i < m.entries.len() ==> #[trigger] r.entries[i] == (Entry { marked: false, ..m.entries[i] })
        }),
        m.cursor < m.entries.len() ==> {
            let r = action_state(m, Action::Mark);
            &&& r.entries.len() == m.entries.len()
            &&& r.entries[m.cursor as int] == (Entry { marked: !m.entries[m.cursor as int].marked, ..m.entries[m.cursor as int] })
            &&& forall|i: int| 0 <= i < m.entries.len() && i != m.cursor ==> #[trigger] r.entries[i] == m.entries[i]
            &&& r.cursor == (if m.cursor + 1 < m.entries.len() { m.cursor + 1 as int } else { m.cursor as int })
        },
{
    reveal(action_state);
}

/// The entry `e` has the path `p`.
pub open spec fn has_path(e: Entry, p: Seq<char>) -> bool {
    e.path@ == p
}

/// Some marked entry of `s` has the path `p`.
pub open spec fn from_marked(s: Seq<Entry>, p: Seq<char>) -> bool {
    exists|i: int| 0 <= i < s.len() && #[trigger] s[i].marked && has_path(s[i], p)
}

proof fn lemma_marked_paths_sound(s: Seq<Entry>)
    ensures
        forall|k: int| 0 <= k < marked_paths(s).len() ==> #[trigger] from_marked(s, marked_paths(s)[k]),
    decreases s.len(),
{
    if s.len() > 0 {
        let t = s.drop_last();
        lemma_marked_paths_sound(t);
        assert forall|k: int| 0 <= k < marked_paths(s).len() implies #[trigger] from_marked(s, marked_paths(s)[k]) by {
            if k < marked_paths(t).len() {
                assert(marked_paths(s)[k] == marked_paths(t)[k]);
                assert(from_marked(t, marked_paths(t)[k]));
                let i = choose|i: int| 0 <= i < t.len() && #[trigger] t[i].marked && has_path(t[i], marked_paths(t)[k]);
                assert(s[i] == t[i]);
                assert(s[i].marked);
            } else {
                assert(s.last().marked);
                assert(marked_paths(s)[k] == s.last().path@);
                assert(s[s.len() - 1].marked);
            }
        }
    }
}

/// `p` is one of the paths `ps`.
pub open spec fn in_paths(ps: Seq<Seq<char>>, p: Seq<char>) -> bool {
    exists|k: int| 0 <= k < ps.len() && #[trigger] ps[k] == p
}

proof fn lemma_marked_paths_complete(s: Seq<Entry>)
    ensures
        forall|i: int| 0 <= i < s.len() && s[i].marked ==> #[trigger] in_paths(marked_paths(s), s[i].path@),
    decreases s.len(),
{
    if s.len() > 0 {
        let t = s.drop_last();
        lemma_marked_paths_complete(t);
        assert forall|i: int| 0 <= i < s.len() && s[i].marked implies #[trigger] in_paths(marked_paths(s), s[i].path@) by {
            let mp = marked_paths(s);
            if i < t.len() {
                assert(t[i] == s[i]);
                assert(in_paths(marked_paths(t), t[i].path@));
                let k = choose|k: int| 0 <= k < marked_paths(t).len() && #[trigger] marked_paths(t)[k] == t[i].path@;
                assert(mp[k] == marked_paths(t)[k]);
            } else {
                assert(mp[mp.len() - 1] == s.last().path@);
            }
        }
    }
}

/// What an operation on "the marked entries, or else the selected one"
/// works on, as `ps`: where an entry is marked, the paths of the marked
/// entries, each one of them and nothing else; where none is, the selected
/// entry's path alone; with no entry, nothing.
pub open spec fn acts_on(m: StateModel, ps: Seq<Seq<char>>) -> bool {
    if exists|i: int| 0 <= i < m.entries.len() && #[trigger] m.entries[i].marked {
        &&& forall|k: int| 0 <= k < ps.len() ==> #[trigger] from_marked(m.entries, ps[k])
        &&& forall|i: int| 0 <= i < m.entries.len() && m.entries[i].marked ==> #[trigger] in_paths(ps, m.entries[i].path@)
    } else if m.entries.len() > 0 {
        ps == seq![m.entries[m.cursor as int].path@]
    } else {
        ps.len() == 0
    }
}

/// Delete works on the marked entries, or else on the selected one, and
/// asks for nothing where there is neither; a yank takes the same paths.
pub proof fn law_delete_and_yank_targets(m: StateModel)
    requires
        m.wf(),
    ensures
        m.entries.len() > 0 ==> (action_effect(m, Action::Delete) matches EffectModel::Delete(ps) && acts_on(m, ps)),
        m.entries.len() == 0 ==> action_effect(m, Action::Delete) == EffectModel::Stay,
        acts_on(m, action_state(m, Action::Yank).yanked),
{
    lemma_targets_act(m);
    let t = crate::actions::targets(m);
    assert(action_effect(m, Action::Delete) == (if t.len() == 0 {
        EffectModel::Stay
    } else {
        EffectModel::Delete(t)
    })) by {
        reveal(action_effect);
    }
    let m1 = StateModel { message: None, ..m };
    assert(crate::actions::targets(m1) == t);
    assert(action_state(m, Action::Yank).yanked == t) by {
        reveal(action_state);
    }
}

proof fn lemma_targets_act(m: StateModel)
    requires
        m.wf(),
    ensures
        acts_on(m, crate::actions::targets(m)),
        m.entries.len() > 0 <==> crate::actions::targets(m).len() > 0,
{
    lemma_marked_paths_sound(m.entries);
    lemma_marked_paths_complete(m.entries);
    let mp = marked_paths(m.entries);
    if exists|i: int| 0 <= i < m.entries.len() && #[trigger] m.entries[i].marked {
        let i = choose|i: int| 0 <= i < m.entries.len() && #[trigger] m.entries[i].marked;
        assert(in_paths(mp, m.entries[i].path@));
        assert(mp.len() > 0);
    } else {
        if mp.len() > 0 {
            assert(from_marked(m.entries, mp[0]));
            let i = choose|i: int| 0 <= i < m.entries.len() && #[trigger] m.entries[i].marked && has_path(m.entries[i], mp[0]);
            assert(m.entries[i].marked);
        }
        assert(mp.len() == 0);
    }
}

/// With something yanked, moving, pasting and linking each ask for their
/// own work on exactly the yanked paths, three different works; with
/// nothing yanked they ask for none.
pub proof fn law_file_operations(m: StateModel)
    ensures
        m.yanked.len() > 0 ==> action_effect(m, Action::Link) == EffectModel::Link(m.yanked)
            && action_effect(m, Action::Paste) == EffectModel::Paste(m.yanked)
            && action_effect(m, Action::MoveFiles) == EffectModel::MoveFiles(m.yanked),
        m.yanked.len() > 0 ==> action_effect(m, Action::Link) != action_effect(m, Action::Paste)
            && action_effect(m, Action::Link) != action_effect(m, Action::MoveFiles)
            && action_effect(m, Action::Paste) != action_effect(m, Action::MoveFiles),
        m.yanked.len() == 0 ==> action_effect(m, Action::Link) == EffectModel::Stay
            && action_effect(m, Action::Paste) == EffectModel::Stay
            && action_effect(m, Action::MoveFiles) == EffectModel::Stay,
{
    reveal(action_effect);
}

/// Every row of the listing begins with a space, then `>` exactly on the
/// selected entry, then `*` exactly on a marked one, whether selected or
/// not.
pub proof fn law_row_marks(m: StateModel, i: int)
    requires
        0 <= i < m.entries.len(),
    ensures
        entry_row(m, i).len() >= 3,
        entry_row(m, i)[0] == ' ',
        entry_row(m, i)[1] == '>' <==> i == m.cursor,
        entry_row(m, i)[2] == '*' <==> m.entries[i].marked,
{
    reveal_strlit(">* ");
    reveal_strlit("> ");
    reveal_strlit(" * ");
    reveal_strlit("  ");
    let e = m.entries[i];
    let p = crate::render::row_prefix(i == m.cursor, e.marked);
    let st = crate::render::row_start(m, i);
    assert(p.len() >= 2);
    assert(st[0] == ' ');
    assert(st[1] == p[0]);
    assert(st[2] == p[1]);
    assert(entry_row(m, i)[0] == st[0]);
    assert(entry_row(m, i)[1] == st[1]);
    assert(entry_row(m, i)[2] == st[2]);
}

/// The keys bound as documented: `j` `k` `l` `h` move and enter, Enter
/// and Backspace enter and leave, `g` `G` go to the first and last entry,
/// `[` `]` page, Space marks, `u` unmarks all, `y` `m` `p` `D` `r` `n` `L`
/// yank, move, paste, delete, rename, make a directory and link, `.` `d`
/// `/` `s` `S` `t` `R` change the view, `!` starts a shell, `q` and ESC
/// quit; the arrow keys move, enter and leave.
pub proof fn law_documented_keys()
    ensures
        key_action(seq![106u8]) == Some(Action::Next),  // j
        key_action(seq![107u8]) == Some(Action::Previous),  // k
        key_action(seq![108u8]) == Some(Action::Enter),  // l
        key_action(seq![10u8]) == Some(Action::Enter),  // Enter
        key_action(seq![104u8]) == Some(Action::Back),  // h
        key_action(seq![127u8]) == Some(Action::Back),  // Backspace
        key_action(seq![103u8]) == Some(Action::Home),  // g
        key_action(seq![71u8]) == Some(Action::End),  // G
        key_action(seq![91u8]) == Some(Action::PageUp),  // [
        key_action(seq![93u8]) == Some(Action::PageDown),  // ]
        key_action(seq![32u8]) == Some(Action::Mark),  // Space
        key_action(seq![117u8]) == Some(Action::UnmarkAll),  // u
        key_action(seq![121u8]) == Some(Action::Yank),  // y
        key_action(seq![109u8]) == Some(Action::MoveFiles),  // m
        key_action(seq![112u8]) == Some(Action::Paste),  // p
        key_action(seq![68u8]) == Some(Action::Delete),  // D
        key_action(seq![114u8]) == Some(Action::Rename),  // r
        key_action(seq![110u8]) == Some(Action::MakeDir),  // n
        key_action(seq![76u8]) == Some(Action::Link),  // L
        key_action(seq![46u8]) == Some(Action::ToggleHidden),  // .
        key_action(seq![100u8]) == Some(Action::ToggleDirsFirst),  // d
        key_action(seq![47u8]) == Some(Action::Filter),  // /
        key_action(seq![115u8]) == Some(Action::SortByName),  // s
        key_action(seq![83u8]) == Some(Action::SortBySize),  // S
        key_action(seq![116u8]) == Some(Action::SortByTime),  // t
        key_action(seq![82u8]) == Some(Action::Reload),  // R
        key_action(seq![33u8]) == Some(Action::Shell),  // !
        key_action(seq![113u8]) == Some(Action::Quit),  // q
        key_action(seq![27u8]) == Some(Action::Quit),  // ESC
        key_action(seq![27u8, 91u8, 65u8]) == Some(Action::Previous),
        key_action(seq![27u8, 91u8, 66u8]) == Some(Action::Next),
        key_action(seq![27u8, 91u8, 67u8]) == Some(Action::Enter),
        key_action(seq![27u8, 91u8, 68u8]) == Some(Action::Back),
{
    reveal_with_fuel(crate::keys::lookup_key, 45);
}

/// Each view option does what it says: hidden entries and directories
/// first are flipped, a sort key is set, sizes are flipped with a message
/// saying which, and version sort is flipped and sorts by version exactly
/// when on; all but the size toggle ask for the directory to be read again.
pub proof fn law_view_options(m: StateModel)
    ensures
        action_state(m, Action::ToggleHidden).show_hidden == !m.show_hidden,
        action_state(m, Action::ToggleHidden).cursor == 0,
        action_state(m, Action::ToggleDirsFirst).dirs_first == !m.dirs_first,
        action_state(m, Action::SortByName).sort_mode == SortMode::Name,
        action_state(m, Action::SortBySize).sort_mode == SortMode::Size,
        action_state(m, Action::SortByTime).sort_mode == SortMode::Time,
        action_state(m, Action::ToggleSize).show_size == !m.show_size,
        action_state(m, Action::ToggleSize).message == Some(if m.show_size { "Show size: off"@ } else { "Show size: on"@ }),
        action_state(m, Action::ToggleVersionSort).version_sort == !m.version_sort,
        action_state(m, Action::ToggleVersionSort).sort_mode == (if m.version_sort { SortMode::Name } else { SortMode::Version }),
        action_effect(m, Action::ToggleHidden) == EffectModel::Reload,
        action_effect(m, Action::ToggleDirsFirst) == EffectModel::Reload,
        action_effect(m, Action::SortByName) == EffectModel::Reload,
        action_effect(m, Action::SortBySize) == EffectModel::Reload,
        action_effect(m, Action::SortByTime) == EffectModel::Reload,
        action_effect(m, Action::ToggleSize) == EffectModel::Stay,
{
    reveal(action_state);
    reveal(action_effect);
}

/// Entering works on the selected entry: a directory is entered and a file
/// opened, by its path; renaming, editing and the media player work on the
/// selected entry too; with no entry they ask for nothing. Going back asks
/// to go to the parent, and quitting to quit.
pub proof fn law_selected_entry_effects(m: StateModel)
    requires
        m.wf(),
    ensures
        m.entries.len() > 0 && m.entries[m.cursor as int].is_dir ==> action_effect(m, Action::Enter)
            == EffectModel::EnterDir(m.entries[m.cursor as int].path@),
        m.entries.len() > 0 && !m.entries[m.cursor as int].is_dir ==> action_effect(m, Action::Enter)
            == EffectModel::OpenFile(m.entries[m.cursor as int].path@),
        m.entries.len() > 0 ==> action_effect(m, Action::Rename) == EffectModel::Rename(
            m.entries[m.cursor as int].name@,
            m.entries[m.cursor as int].path@,
        ),
        m.entries.len() > 0 ==> action_effect(m, Action::EditFile) == EffectModel::EditFile(m.entries[m.cursor as int].path@),
        m.entries.len() > 0 ==> action_effect(m, Action::MediaPlayer) == EffectModel::MediaPlayer(m.entries[m.cursor as int].path@),
        m.entries.len() == 0 ==> action_effect(m, Action::Enter) == EffectModel::Stay
            && action_effect(m, Action::Rename) == EffectModel::Stay
            && action_effect(m, Action::EditFile) == EffectModel::Stay,
        action_effect(m, Action::Back) == EffectModel::GoBack,
        action_effect(m, Action::Quit) == EffectModel::Quit,
        action_state(m, Action::Enter).entries == m.entries && action_state(m, Action::Enter).dir == m.dir,
{
    reveal(action_effect);
    reveal(action_state);
}

/// While a filter is being typed, a printable key is added to it, Enter
/// puts what was typed in force (none where nothing was typed) from the
/// top of the listing and asks for a reread, and ESC stops typing and
/// leaves the filter in force as it was.
pub proof fn law_filter_typing(m: StateModel, key: u8)
    requires
        m.filter_input is Some,
    ensures
        32 <= key <= 126 ==> filter_key_state(m, key).filter_input == Some(m.filter_input->0.push(key as char))
            && filter_key_state(m, key).filter == m.filter,
        filter_key_state(m, 10).filter == (if m.filter_input->0.len() == 0 { None } else { m.filter_input }),
        filter_key_state(m, 10).filter_input is None,
        filter_key_state(m, 10).cursor == 0,
        crate::actions::filter_key_reloads(m, 10),
        filter_key_state(m, 27).filter == m.filter,
        filter_key_state(m, 27).filter_input is None,
        !crate::actions::filter_key_reloads(m, 27),
{
}

proof fn lemma_lex_order_at(x: Seq<u32>, y: Seq<u32>, k: int)
    requires
        0 <= k <= x.len(),
        k <= y.len(),
        forall|j: int| 0 <= j < k ==> x[j] == y[j],
    ensures
        k < x.len() && k < y.len() && x[k] < y[k] ==> lex_order(x, y) == std::cmp::Ordering::Less,
        k < x.len() && k < y.len() && x[k] > y[k] ==> lex_order(x, y) == std::cmp::Ordering::Greater,
        k == x.len() && k == y.len() ==> lex_order(x, y) == std::cmp::Ordering::Equal,
        k == x.len() && k < y.len() ==> lex_order(x, y) == std::cmp::Ordering::Less,
        k < x.len() && k == y.len() ==> lex_order(x, y) == std::cmp::Ordering::Greater,
    decreases k,
{
    if k > 0 {
        assert forall|j: int| 0 <= j < k - 1 implies x.drop_first()[j] == y.drop_first()[j] by {
            assert(x.drop_first()[j] == x[j + 1]);
            assert(y.drop_first()[j] == y[j + 1]);
        }
        lemma_lex_order_at(x.drop_first(), y.drop_first(), k - 1);
        assert(x[0] == y[0]);
    }
}

/// Version order compares the numbers that two names hold, in order: the
/// first place where they differ decides by the smaller number, and where
/// one name's numbers begin the other's, the name with fewer numbers comes
/// first; names with the same numbers are level.
pub proof fn law_version_order_by_numbers(a: Seq<char>, b: Seq<char>, k: int)
    requires
        0 <= k <= version_numbers(a).len(),
        k <= version_numbers(b).len(),
        forall|j: int| 0 <= j < k ==> version_numbers(a)[j] == version_numbers(b)[j],
    ensures
        ({
            let x = version_numbers(a);
            let y = version_numbers(b);
            &&& k < x.len() && k < y.len() && x[k] < y[k] ==> version_order(a, b) == std::cmp::Ordering::Less
            &&& k < x.len() && k < y.len() && x[k] > y[k] ==> version_order(a, b) == std::cmp::Ordering::Greater
            &&& k == x.len() && k == y.len() ==> version_order(a, b) == std::cmp::Ordering::Equal
            &&& k == x.len() && k < y.len() ==> version_order(a, b) == std::cmp::Ordering::Less
        }),
{
    lemma_lex_order_at(version_numbers(a), version_numbers(b), k);
}

proof fn lemma_round_half_even_near(num: nat, den: nat)
    requires
        den > 0,
    ensures
        round_half_even(num, den) * den <= num + den / 2 + 1,
        num <= round_half_even(num, den) * den + den / 2,
{
    let q = num / den;
    let r = num % den;
    vstd::arithmetic::div_mod::lemma_fundamental_div_mod(num as int, den as int);
    vstd::arithmetic::div_mod::lemma_mod_bound(num as int, den as int);
    assert(num == den * q + r);
    if 2 * r > den || (2 * r == den && q % 2 == 1) {
        assert(round_half_even(num, den) == q + 1);
        assert((q + 1) * den == q * den + den) by (nonlinear_arith);
        assert(q * den == den * q) by (nonlinear_arith);
    } else {
        assert(round_half_even(num, den) == q);
        assert(q * den == den * q) by (nonlinear_arith);
    }
}

/// How a size is shown: below 1024 bytes as the number of bytes and `B`;
/// above, in the largest of K, M, G and T (powers of 1024) that it reaches,
/// with one decimal: the tenths shown are the size in that unit times ten,
/// rounded to the nearest (within half a tenth, for sizes that a double
/// holds exactly).
pub proof fn law_size_text(n: nat)
    requires
        n < 9007199254740992,
    ensures
        n < 1024 ==> size_text(n) == decimal(n).push('B'),
        n >= 1024 ==> exists|t: nat|
            #![trigger decimal(t / 10)]
            size_text(n) == decimal(t / 10).push('.').push(digit_char(t % 10)).push(unit_char(size_unit(n)))
                && t * unit_bytes(size_unit(n)) <= 10 * n + unit_bytes(size_unit(n)) / 2 + 1
                && 10 * n <= t * unit_bytes(size_unit(n)) + unit_bytes(size_unit(n)) / 2,
        n >= 1024 ==> unit_bytes(size_unit(n)) <= n,
        n >= 1024 && size_unit(n) < 4 ==> n < 1024 * unit_bytes(size_unit(n)),
        unit_char(size_unit(n)) == (if n < 1024 { 'B' } else if n < 1048576 { 'K' } else if n < 1073741824 {
            'M'
        } else if n < 1099511627776 { 'G' } else { 'T' }),
{
    assert(f64_spacing(n) == 1);
    assert(round_half_even(n, 1) == n);
    assert(as_f64(n) == n);
    if n >= 1024 {
        let u = unit_bytes(size_unit(n));
        lemma_round_half_even_near(10 * n, u);
        let t = size_tenths(n);
        assert(decimal(t / 10) == decimal(t / 10));
    }
}

} // verus!
