use vstd::prelude::*;
use vstd::string::StrSliceExecFns;
use crate::config::{DIRS_FIRST, SHOW_HIDDEN, SHOW_SIZE, VERSION_SORT};
use crate::actions::{
    Effect, EffectModel, action_effect, action_state, file_op_state, is_move, is_option,
    mark_state, move_state, move_target, option_state, yank_state, Done, Failure, FileOp,
    done_message, failure_prefix, file_op_message, filter_key_reloads, filter_key_state,
    key_effect, key_state, jump_target, marked_paths, targets,
    unmarked, yanked_message,
};
use crate::config::{Action, dir_jump_table, dir_jumps};
use crate::listing::{Entry, SortMode, is_stable_sort};
use crate::sort::with_mark;
use crate::text::{chars_of, contains, same_text, starts_with, decimal_chars, join, join_exec, pop_char, push_all, push_char, push_str, string_of};
use crate::paths::{
    file_name_of, join_path, last_name, parent_of, path_join, parent_path, path_file_name, path_parent, plain_absolute,
    without_trailing_slashes,
};
use crate::keys::{handle_two_key_combo, keys_to_action};
use crate::sort::{build_listing, listing_candidates};

verus! {

/// The browser's state as the contracts see it.
pub struct StateModel {
    /// The directory shown.
    pub dir: Seq<char>,
    /// Its listing.
    pub entries: Seq<Entry>,
    /// The paths yanked for a paste, move or link.
    pub yanked: Seq<Seq<char>>,
    /// The filter that the listing is under.
    pub filter: Option<Seq<char>>,
    /// The message in the footer.
    pub message: Option<Seq<char>>,
    /// The file that the session is saved to.
    pub save_file: Option<Seq<char>>,
    /// The directory visited before the last jump.
    pub last_dir: Option<Seq<char>>,
    /// The filter being typed, while one is.
    pub filter_input: Option<Seq<char>>,
    /// The directory as the header shows it, once computed.
    pub dir_display: Option<Seq<char>>,
    /// The selected entry.
    pub cursor: nat,
    /// The first entry shown.
    pub view_offset: nat,
    pub term_height: nat,
    pub term_width: nat,
    /// The widest name in the listing, with its type suffix.
    pub longest_width: nat,
    /// The number of marked entries, as last counted for the footer.
    pub marked_count: nat,
    /// The number of yanked paths, as last counted for the footer.
    pub yanked_count: nat,
    pub sort_mode: SortMode,
    pub show_hidden: bool,
    pub dirs_first: bool,
    pub show_size: bool,
    pub version_sort: bool,
    pub use_color: bool,
    pub tilde_home: bool,
    /// The header and the footer counts must be computed again.
    pub cache_dirty: bool,
    /// The first key of a two-key command, once pressed.
    pub pending_key: Option<u8>,
}

/// The state of the browser.
pub struct State {
    dir: String,
    entries: Vec<Entry>,
    yanked: Vec<String>,
    filter: Option<String>,
    message: Option<String>,
    save_file: Option<String>,
    last_dir: Option<String>,
    filter_input: Option<String>,
    cached_dir_display: Option<String>,
    cursor: usize,
    view_offset: usize,
    term_height: usize,
    term_width: usize,
    longest_entry_width: usize,
    cached_counts: (usize, usize),
    sort_mode: SortMode,
    show_hidden: bool,
    dirs_first: bool,
    show_size: bool,
    version_sort: bool,
    use_color: bool,
    tilde_home: bool,
    cache_dirty: bool,
    pending_key: Option<u8>,
}

/// The texts of a list of strings.
pub open spec fn texts(v: Seq<String>) -> Seq<Seq<char>> {
    v.map_values(|s: String| s@)
}

impl View for State {
    type V = StateModel;

    closed spec fn view(&self) -> StateModel {
        StateModel {
            dir: self.dir@,
            entries: self.entries@,
            yanked: texts(self.yanked@),
            filter: self.filter.deep_view(),
            message: self.message.deep_view(),
            save_file: self.save_file.deep_view(),
            last_dir: self.last_dir.deep_view(),
            filter_input: self.filter_input.deep_view(),
            dir_display: self.cached_dir_display.deep_view(),
            cursor: self.cursor as nat,
            view_offset: self.view_offset as nat,
            term_height: self.term_height as nat,
            term_width: self.term_width as nat,
            longest_width: self.longest_entry_width as nat,
            marked_count: self.cached_counts.0 as nat,
            yanked_count: self.cached_counts.1 as nat,
            sort_mode: self.sort_mode,
            show_hidden: self.show_hidden,
            dirs_first: self.dirs_first,
            show_size: self.show_size,
            version_sort: self.version_sort,
            use_color: self.use_color,
            tilde_home: self.tilde_home,
            cache_dirty: self.cache_dirty,
            pending_key: self.pending_key,
        }
    }
}

impl StateModel {
    /// The selection stays on the listing (at 0 on an empty one) and is
    /// never above the first entry shown.
    pub open spec fn wf(self) -> bool {
        &&& self.entries.len() == 0 ==> self.cursor == 0
        &&& self.entries.len() > 0 ==> self.cursor < self.entries.len()
        &&& self.view_offset <= self.cursor
    }
}

/// `a - b`, or 0 where `b` is larger.
pub open spec fn sat_sub(a: nat, b: nat) -> nat {
    if a >= b {
        (a - b) as nat
    } else {
        0
    }
}

/// The smaller of two numbers.
pub open spec fn min_nat(a: nat, b: nat) -> nat {
    if a <= b {
        a
    } else {
        b
    }
}

/// The rows that the listing may use for the view offset: the terminal's
/// height less four.
pub open spec fn view_rows(term_height: nat) -> nat {
    sat_sub(term_height, 4)
}

/// The first entry to show so that the selection is in view: it moves up to
/// the selection when the selection is above it, and down so that the
/// selection is the last row when the selection is below the view; with no
/// rows to show it is 0.
pub open spec fn adjusted_offset(cursor: nat, offset: nat, term_height: nat) -> nat {
    let rows = view_rows(term_height);
    if cursor < offset {
        cursor
    } else if cursor >= offset + rows {
        if rows == 0 {
            0
        } else {
            sat_sub(cursor, (rows - 1) as nat)
        }
    } else {
        offset
    }
}

/// The state with the view offset adjusted to the selection.
pub open spec fn with_adjusted_offset(m: StateModel) -> StateModel {
    StateModel { view_offset: adjusted_offset(m.cursor, m.view_offset, m.term_height), ..m }
}

/// After the view follows the selection, the selection is never above the
/// view and, where the view has rows, never below it.
pub proof fn lemma_adjusted_offset_in_view(cursor: nat, offset: nat, term_height: nat)
    ensures
        adjusted_offset(cursor, offset, term_height) <= cursor,
        view_rows(term_height) > 0 ==> cursor < adjusted_offset(cursor, offset, term_height)
            + view_rows(term_height),
{
}

/// The first entry of a listing with the name `name`.
pub open spec fn first_named(s: Seq<Entry>, name: Seq<char>) -> Option<nat>
    decreases s.len(),
{
    if s.len() == 0 {
        None
    } else if s[0].name@ == name {
        Some(0)
    } else {
        match first_named(s.drop_first(), name) {
            Some(k) => Some(k + 1),
            None => None,
        }
    }
}

/// Where no entry before `i` has the name, the first one that has it is
/// `i` if entry `i` has it, and there is none if `i` is the end.
proof fn lemma_first_named(s: Seq<Entry>, name: Seq<char>, i: int)
    requires
        0 <= i <= s.len(),
        forall|j: int| 0 <= j < i ==> s[j].name@ != name,
    ensures
        i < s.len() && s[i].name@ == name ==> first_named(s, name) == Some(i as nat),
        i == s.len() ==> first_named(s, name) is None,
    decreases i,
{
    if i > 0 {
        assert forall|j: int| 0 <= j < i - 1 implies s.drop_first()[j].name@ != name by {
            assert(s.drop_first()[j] == s[j + 1]);
        }
        lemma_first_named(s.drop_first(), name, i - 1);
    }
}

/// Moves the first entry shown so that the selection is in view (see
/// `adjusted_offset`).
pub fn adjust_view_offset(state: &mut State)
    ensures
        final(state)@ == with_adjusted_offset(old(state)@),
{
    let rows = state.term_height.saturating_sub(4);
    if state.cursor < state.view_offset {
        state.view_offset = state.cursor;
    } else if state.cursor - state.view_offset >= rows {
        state.view_offset = if rows == 0 {
            0
        } else {
            state.cursor.saturating_sub(rows - 1)
        };
    }
}

/// The number of characters of the type suffix shown after a name: `/`
/// for a directory, `@` for a link, `*` for an executable, none otherwise.
pub open spec fn suffix_len(e: Entry) -> nat {
    if e.is_dir || e.is_link || e.is_exec {
        1
    } else {
        0
    }
}

/// The width of an entry's name with its type suffix.
pub open spec fn entry_width(e: Entry) -> nat {
    e.name@.len() + suffix_len(e)
}

/// The widest entry of a listing (0 for an empty one).
pub open spec fn max_width(s: Seq<Entry>) -> nat
    decreases s.len(),
{
    if s.len() == 0 {
        0
    } else {
        let w = entry_width(s.last());
        let rest = max_width(s.drop_last());
        if w > rest {
            w
        } else {
            rest
        }
    }
}

/// The selection after the listing changed to `len` entries: kept where it
/// is on the listing, otherwise moved to the last entry (0 when empty).
pub open spec fn clamped_cursor(cursor: nat, len: nat) -> nat {
    if cursor >= len {
        sat_sub(len, 1)
    } else {
        cursor
    }
}

/// The state once a read of the directory gave `entries`: the listing
/// replaced, the header to compute again, the widest entry measured, the
/// selection kept on the listing and the view moved to it.
pub open spec fn after_load(m: StateModel, entries: Seq<Entry>) -> StateModel {
    let c = clamped_cursor(m.cursor, entries.len());
    StateModel {
        entries: entries,
        cache_dirty: true,
        longest_width: max_width(entries),
        cursor: c,
        view_offset: adjusted_offset(c, m.view_offset, m.term_height),
        ..m
    }
}

/// The state once the directory is `dir`, at the top of its listing,
/// unfiltered.
pub open spec fn up_to(m: StateModel, dir: Seq<char>) -> StateModel {
    StateModel { dir: dir, cursor: 0, view_offset: 0, filter: None, ..m }
}

/// The state once the directory `dir` is entered: at the top of its
/// listing, unfiltered, the header to compute again.
pub open spec fn entered(m: StateModel, dir: Seq<char>) -> StateModel {
    StateModel { dir: dir, cursor: 0, view_offset: 0, filter: None, cache_dirty: true, ..m }
}

/// The state once a jump leads to `dir`: the directory left becomes the
/// last directory, at the top of the new listing, unfiltered.
pub open spec fn jumped(m: StateModel, dir: Seq<char>) -> StateModel {
    StateModel {
        dir: dir,
        last_dir: Some(m.dir),
        cursor: 0,
        view_offset: 0,
        filter: None,
        ..m
    }
}

/// Every name that a read gave is shorter than `usize::MAX` characters.
pub open spec fn names_fit(read: Result<Vec<Entry>, String>) -> bool {
    match read {
        Ok(raw) => forall|i: int| 0 <= i < raw@.len() ==> (#[trigger] raw@[i]).name@.len() < usize::MAX,
        Err(_) => true,
    }
}

/// After a read that gave entries, `entries` is their listing: the listed
/// ones, marked again, sorted stably (see `build_listing`).
pub open spec fn listing_fits(m: StateModel, read: Result<Vec<Entry>, String>, entries: Seq<Entry>) -> bool {
    match read {
        Ok(raw) => is_stable_sort(
            entries,
            listing_candidates(raw@, m.entries, m.show_hidden, m.filter),
            m.dirs_first,
            m.sort_mode,
        ),
        Err(_) => entries == m.entries,
    }
}

/// The state once a read gave `entries` as the listing (see `after_load`),
/// or once it failed: the error in the footer, all else as it was.
pub open spec fn after_listing(m: StateModel, read: Result<Vec<Entry>, String>, entries: Seq<Entry>) -> StateModel {
    match read {
        Ok(_) => after_load(m, entries),
        Err(e) => StateModel { message: Some("Error reading directory: "@ + e@), ..m },
    }
}

/// The state with the first entry named `name` selected and in view, where
/// there is a name and such an entry; otherwise as it was.
pub open spec fn with_selected(m: StateModel, name: Option<Seq<char>>) -> StateModel {
    match name {
        Some(n) => match first_named(m.entries, n) {
            Some(i) => with_adjusted_offset(StateModel { cursor: i, ..m }),
            None => m,
        },
        None => m,
    }
}

/// The width of an entry's name with its type suffix.
fn width_of(e: &Entry) -> (w: usize)
    requires
        e.name@.len() < usize::MAX,
    ensures
        w == entry_width(*e),
{
    let n = e.name.as_str().unicode_len();
    if e.is_dir || e.is_link || e.is_exec {
        n + 1
    } else {
        n
    }
}

impl State {
    /// A browser on `dir` with the configured defaults, nothing listed yet,
    /// in a terminal of 24 rows of 80 columns.
    pub fn new(dir: String, use_color: bool, tilde_home: bool, save_file: Option<String>) -> (s: State)
        ensures
            s@ == (StateModel {
                dir: dir@,
                entries: Seq::empty(),
                yanked: Seq::empty(),
                filter: None,
                message: None,
                save_file: save_file.deep_view(),
                last_dir: None,
                filter_input: None,
                dir_display: None,
                cursor: 0,
                view_offset: 0,
                term_height: 24,
                term_width: 80,
                longest_width: 0,
                marked_count: 0,
                yanked_count: 0,
                sort_mode: if VERSION_SORT { SortMode::Version } else { SortMode::Name },
                show_hidden: SHOW_HIDDEN,
                dirs_first: DIRS_FIRST,
                show_size: SHOW_SIZE,
                version_sort: VERSION_SORT,
                use_color: use_color,
                tilde_home: tilde_home,
                cache_dirty: true,
                pending_key: None,
            }),
            s@.wf(),
    {
        let s = State {
            dir,
            entries: Vec::new(),
            yanked: Vec::new(),
            filter: None,
            message: None,
            save_file,
            last_dir: None,
            filter_input: None,
            cached_dir_display: None,
            cursor: 0,
            view_offset: 0,
            term_height: 24,
            term_width: 80,
            longest_entry_width: 0,
            cached_counts: (0, 0),
            sort_mode: if VERSION_SORT {
                SortMode::Version
            } else {
                SortMode::Name
            },
            show_hidden: SHOW_HIDDEN,
            dirs_first: DIRS_FIRST,
            show_size: SHOW_SIZE,
            version_sort: VERSION_SORT,
            use_color,
            tilde_home,
            cache_dirty: true,
            pending_key: None,
        };
        proof {
            assert(texts(s.yanked@) =~= Seq::<Seq<char>>::empty());
        }
        s
    }

    /// Takes the entries that a read of the directory gave (see
    /// `build_listing` for which are listed, how they are marked and
    /// sorted), then keeps the selection on the listing and in view.
    pub fn load_entries(&mut self, raw: Vec<Entry>)
        requires
            forall|i: int| 0 <= i < raw@.len() ==> (#[trigger] raw@[i]).name@.len() < usize::MAX,
        ensures
            is_stable_sort(
                final(self)@.entries,
                listing_candidates(raw@, old(self)@.entries, old(self)@.show_hidden, old(self)@.filter),
                old(self)@.dirs_first,
                old(self)@.sort_mode,
            ),
            final(self)@ == after_load(old(self)@, final(self)@.entries),
            final(self)@.wf(),
    {
        let ghost raw0 = raw@;
        let entries = build_listing(raw, &self.entries, self.show_hidden, &self.filter, self.dirs_first, self.sort_mode);
        proof {
            assert forall|j: int| 0 <= j < entries@.len() implies (#[trigger] entries@[j]).name@.len() < usize::MAX by {
                let k = choose|k: int| 0 <= k < raw0.len() && entries@[j].name == raw0[k].name;
                assert(raw0[k].name@.len() < usize::MAX);
            }
        }
        let mut longest: usize = 0;
        let mut i: usize = 0;
        while i < entries.len()
            invariant
                i <= entries@.len(),
                longest == max_width(entries@.take(i as int)),
                forall|j: int| 0 <= j < entries@.len() ==> (#[trigger] entries@[j]).name@.len() < usize::MAX,
            decreases entries@.len() - i,
        {
            let w = width_of(&entries[i]);
            proof {
                assert(entries@.take(i + 1).drop_last() =~= entries@.take(i as int));
            }
            if w > longest {
                longest = w;
            }
            i = i + 1;
        }
        proof {
            assert(entries@.take(entries@.len() as int) =~= entries@);
        }
        self.entries = entries;
        self.cache_dirty = true;
        self.longest_entry_width = longest;
        if self.cursor >= self.entries.len() {
            self.cursor = self.entries.len().saturating_sub(1);
        }
        adjust_view_offset(self);
    }

}

/// The paths of the marked entries, in listing order.
fn marked_paths_exec(entries: &Vec<Entry>) -> (r: Vec<String>)
    ensures
        texts(r@) == marked_paths(entries@),
{
    let mut r: Vec<String> = Vec::new();
    let mut i: usize = 0;
    while i < entries.len()
        invariant
            i <= entries@.len(),
            texts(r@) == marked_paths(entries@.take(i as int)),
        decreases entries@.len() - i,
    {
        proof {
            assert(entries@.take(i + 1).drop_last() =~= entries@.take(i as int));
        }
        if entries[i].marked {
            r.push(entries[i].path.clone());
            proof {
                assert(texts(r@) =~= texts(r@.drop_last()).push(r@.last()@));
            }
        }
        i = i + 1;
    }
    proof {
        assert(entries@.take(entries@.len() as int) =~= entries@);
    }
    r
}

/// The paths that an operation on the marked entries, or else on the
/// selected one, works on.
fn targets_exec(state: &State) -> (r: Vec<String>)
    ensures
        texts(r@) == targets(state@),
{
    let mut r = marked_paths_exec(&state.entries);
    if r.len() == 0 && state.cursor < state.entries.len() {
        r.push(state.entries[state.cursor].path.clone());
        proof {
            assert(texts(r@) =~= seq![state.entries@[state.cursor as int].path@]);
        }
    }
    r
}

/// The message after a yank of `n` paths.
fn yanked_message_exec(n: usize) -> (r: String)
    ensures
        r@ == yanked_message(n as nat),
{
    let mut v: Vec<char> = Vec::new();
    push_str(&mut v, "Yanked ");
    let d = decimal_chars(n as u128);
    crate::text::push_all(&mut v, &d);
    push_str(&mut v, " item(s)");
    string_of(&v)
}

/// The first directory jump on `key` that leads somewhere.
fn jump_target_exec(key: u8) -> (r: Option<&'static str>)
    ensures
        match r {
            Some(p) => jump_target(dir_jump_table(), key) == Some(p@),
            None => jump_target(dir_jump_table(), key) is None,
        },
{
    let t = dir_jumps();
    let mut i: usize = 0;
    proof {
        assert(t@.skip(0) =~= t@);
    }
    while i < t.len()
        invariant
            t@ == dir_jump_table(),
            i <= t@.len(),
            jump_target(dir_jump_table(), key) == jump_target(t@.skip(i as int), key),
        decreases t@.len() - i,
    {
        proof {
            assert(t@.skip(i as int).drop_first() =~= t@.skip(i + 1));
        }
        let (k, p) = t[i];
        if k == key && !p.is_empty() {
            return Some(p);
        }
        i = i + 1;
    }
    None
}

fn take_move(action: Action, state: &mut State)
    requires
        old(state)@.wf(),
        is_move(action),
    ensures
        final(state)@ == move_state(old(state)@, action),
        final(state)@.wf(),
{
    proof {
        lemma_adjusted_offset_in_view(0, 0, 0);
    }
    let ghost m = state@;
    let len = state.entries.len();
    let last = len.saturating_sub(1);
    let target: usize = match action {
        Action::Next => if state.cursor < last {
            state.cursor + 1
        } else {
            state.cursor
        },
        Action::Previous => state.cursor.saturating_sub(1),
        Action::Home => 0,
        Action::End => last,
        Action::PageUp => state.cursor.saturating_sub(state.term_height.saturating_sub(4)),
        Action::PageDown => {
            let c = state.cursor.saturating_add(state.term_height.saturating_sub(4));
            if c < last {
                c
            } else {
                last
            }
        },
        Action::HalfPageUp => {
            let half = if state.term_height / 2 >= 1 {
                state.term_height / 2
            } else {
                1
            };
            state.cursor.saturating_sub(half)
        },
        _ => {
            let half = if state.term_height / 2 >= 1 {
                state.term_height / 2
            } else {
                1
            };
            let c = state.cursor.saturating_add(half);
            if c < last {
                c
            } else {
                last
            }
        },
    };
    match action {
        Action::Home => {
            state.cursor = 0;
            state.view_offset = 0;
        },
        Action::Next => {
            if state.cursor < last {
                state.cursor = target;
                adjust_view_offset(state);
            }
        },
        _ => {
            state.cursor = target;
            adjust_view_offset(state);
        },
    }
    proof {
        lemma_adjusted_offset_in_view(target as nat, m.view_offset, m.term_height);
        assert(target == move_target(m, action));
    }
}

fn take_mark(action: Action, state: &mut State)
    requires
        old(state)@.wf(),
        action is Mark || action is UnmarkAll,
    ensures
        final(state)@ == mark_state(old(state)@, action),
        final(state)@.wf(),
{
    let ghost m = state@;
    let len = state.entries.len();
    if let Action::Mark = action {
        if state.cursor < len {
            let c = state.cursor;
            let was = state.entries[c].marked;
            state.entries[c].marked = !was;
            state.cache_dirty = true;
            if c < len - 1 {
                state.cursor = c + 1;
                adjust_view_offset(state);
                proof {
                    lemma_adjusted_offset_in_view((c + 1) as nat, m.view_offset, m.term_height);
                }
            }
        }
    } else {
        let ghost before = state.entries@;
        let mut i: usize = 0;
        while i < state.entries.len()
            invariant
                state@ == (StateModel { entries: state@.entries, ..m }),
                before == m.entries,
                state.entries@.len() == before.len(),
                i <= before.len(),
                forall|j: int| 0 <= j < i ==> state.entries@[j] == with_mark(before[j], false),
                forall|j: int| i <= j < before.len() ==> state.entries@[j] == before[j],
            decreases before.len() - i,
        {
            state.entries[i].marked = false;
            i = i + 1;
        }
        proof {
            assert(state.entries@ =~= unmarked(before));
        }
        state.cache_dirty = true;
    }
}

fn take_yank(state: &mut State)
    requires
        old(state)@.wf(),
        old(state)@.message is None,
    ensures
        final(state)@ == yank_state(old(state)@),
        final(state)@.wf(),
{
    let y = targets_exec(state);
    let n = y.len();
    state.yanked = y;
    if n > 0 {
        state.message = Some(yanked_message_exec(n));
    }
    state.cache_dirty = true;
}

fn take_file_op(action: Action, state: &mut State) -> (e: Effect)
    requires
        old(state)@.wf(),
        action is MoveFiles || action is Paste || action is Link,
    ensures
        final(state)@ == file_op_state(old(state)@, action),
        e@ == action_effect(old(state)@, action),
        final(state)@.wf(),
{
    reveal(action_effect);
    if state.yanked.len() == 0 {
        state.message = Some(
            match action {
                Action::MoveFiles => "Nothing to move".to_owned(),
                Action::Paste => "Nothing to paste".to_owned(),
                _ => "Nothing to link".to_owned(),
            },
        );
        return Effect::Stay;
    }
    let y = state.yanked.clone();
    proof {
        assert(texts(y@) =~= texts(state.yanked@)) by {
            assert forall|i: int| 0 <= i < y@.len() implies y@[i]@ == state.yanked@[i]@ by {
                assert(vstd::pervasive::cloned(state.yanked@[i], y@[i]));
            }
        }
    }
    match action {
        Action::MoveFiles => Effect::MoveFiles(y),
        Action::Paste => Effect::Paste(y),
        _ => Effect::Link(y),
    }
}

fn take_option(action: Action, state: &mut State) -> (e: Effect)
    requires
        old(state)@.wf(),
        is_option(action),
    ensures
        final(state)@ == option_state(old(state)@, action),
        e@ == action_effect(old(state)@, action),
        final(state)@.wf(),
{
    reveal(action_effect);
    match action {
        Action::ToggleHidden => {
            state.show_hidden = !state.show_hidden;
            state.cursor = 0;
            state.view_offset = 0;
            Effect::Reload
        },
        Action::ToggleDirsFirst => {
            state.dirs_first = !state.dirs_first;
            Effect::Reload
        },
        Action::SortByName => {
            state.sort_mode = SortMode::Name;
            Effect::Reload
        },
        Action::SortBySize => {
            state.sort_mode = SortMode::Size;
            Effect::Reload
        },
        Action::SortByTime => {
            state.sort_mode = SortMode::Time;
            Effect::Reload
        },
        Action::ToggleSize => {
            state.show_size = !state.show_size;
            state.message = Some(
                if state.show_size {
                    "Show size: on".to_owned()
                } else {
                    "Show size: off".to_owned()
                },
            );
            Effect::Stay
        },
        _ => {
            state.version_sort = !state.version_sort;
            state.sort_mode = if state.version_sort {
                SortMode::Version
            } else {
                SortMode::Name
            };
            Effect::ReloadAndSay(
                if state.version_sort {
                    "Version sort: on".to_owned()
                } else {
                    "Version sort: off".to_owned()
                },
            )
        },
    }
}

fn take_jump(k: u8, state: &mut State) -> (e: Effect)
    requires
        old(state)@.wf(),
    ensures
        final(state)@ == action_state(old(state)@, Action::Jump(k)),
        e@ == action_effect(old(state)@, Action::Jump(k)),
        final(state)@.wf(),
{
    reveal(action_state);
    reveal(action_effect);
    state.message = None;
    if k == 39 {
        match state.last_dir.take() {
            Some(last_dir) => {
                let mut other = last_dir;
                std::mem::swap(&mut state.dir, &mut other);
                state.last_dir = Some(other);
                state.cursor = 0;
                state.view_offset = 0;
                state.filter = None;
                Effect::Reload
            },
            None => {
                state.message = Some("No previous directory".to_owned());
                Effect::Stay
            },
        }
    } else {
        match jump_target_exec(k) {
            Some(p) => Effect::JumpTo(p.to_owned()),
            None => Effect::Stay,
        }
    }
}

/// The actions whose change of state is neither a move, a mark, a yank,
/// an operation on the yanked paths, a change of options nor a jump.
spec fn is_other(a: Action) -> bool {
    !is_move(a) && !(a is Mark || a is UnmarkAll) && !(a is Yank) && !(a is MoveFiles || a
        is Paste || a is Link) && !is_option(a) && !(a is Jump)
}

fn take_other(action: Action, state: &mut State) -> (e: Effect)
    requires
        old(state)@.wf(),
        old(state)@.message is None,
        is_other(action),
    ensures
        final(state)@ == action_state(old(state)@, action),
        e@ == action_effect(old(state)@, action),
        final(state)@.wf(),
{
    reveal(action_state);
    reveal(action_effect);
    let len = state.entries.len();
    let c = state.cursor;
    match action {
        Action::Quit => Effect::Quit,
        Action::Enter => {
            if c < len {
                if state.entries[c].is_dir {
                    Effect::EnterDir(state.entries[c].path.clone())
                } else {
                    Effect::OpenFile(state.entries[c].path.clone())
                }
            } else {
                Effect::Stay
            }
        },
        Action::Back => Effect::GoBack,
        Action::Delete => {
            let t = targets_exec(state);
            if t.len() == 0 {
                Effect::Stay
            } else {
                Effect::Delete(t)
            }
        },
        Action::Rename => {
            if c < len {
                Effect::Rename(state.entries[c].name.clone(), state.entries[c].path.clone())
            } else {
                Effect::Stay
            }
        },
        Action::MakeDir => Effect::MakeDir,
        Action::MakeFile => Effect::MakeFile,
        Action::ChangeDir => Effect::ChangeDir,
        Action::Shell => Effect::Shell,
        Action::EditFile => {
            if c < len {
                Effect::EditFile(state.entries[c].path.clone())
            } else {
                Effect::Stay
            }
        },
        Action::MediaPlayer => {
            if c < len {
                Effect::MediaPlayer(state.entries[c].path.clone())
            } else {
                Effect::Stay
            }
        },
        Action::TopMonitor => Effect::TopMonitor,
        Action::ShowHelp => Effect::ShowHelp,
        Action::Filter => {
            state.filter_input = Some(String::new());
            Effect::Stay
        },
        Action::Reload => Effect::ReloadAndSay("Reloaded".to_owned()),
        Action::UnYank => {
            state.yanked = Vec::new();
            state.message = Some("Cleared yanked items".to_owned());
            proof {
                assert(texts(state.yanked@) =~= Seq::<Seq<char>>::empty());
            }
            Effect::Stay
        },
        Action::PendingKey(k) => {
            state.pending_key = Some(k);
            Effect::Stay
        },
        _ => Effect::Stay,
    }
}

spec fn cleared(m0: StateModel) -> StateModel {
    StateModel { message: None, ..m0 }
}

proof fn lemma_move_case(m0: StateModel, a: Action)
    requires
        is_move(a),
    ensures
        action_state(m0, a) == move_state(cleared(m0), a),
        action_effect(m0, a) == EffectModel::Stay,
{
    reveal(action_state);
    reveal(action_effect);
}

proof fn lemma_mark_case(m0: StateModel, a: Action)
    requires
        a is Mark || a is UnmarkAll,
    ensures
        action_state(m0, a) == mark_state(cleared(m0), a),
        action_effect(m0, a) == EffectModel::Stay,
{
    reveal(action_state);
    reveal(action_effect);
}

proof fn lemma_yank_case(m0: StateModel, a: Action)
    requires
        a is Yank,
    ensures
        action_state(m0, a) == yank_state(cleared(m0)),
        action_effect(m0, a) == EffectModel::Stay,
{
    reveal(action_state);
    reveal(action_effect);
}

proof fn lemma_file_op_case(m0: StateModel, a: Action)
    requires
        a is MoveFiles || a is Paste || a is Link,
    ensures
        action_state(m0, a) == file_op_state(cleared(m0), a),
        action_effect(m0, a) == action_effect(cleared(m0), a),
{
    reveal(action_state);
    reveal(action_effect);
}

proof fn lemma_option_case(m0: StateModel, a: Action)
    requires
        is_option(a),
    ensures
        action_state(m0, a) == option_state(cleared(m0), a),
        action_effect(m0, a) == action_effect(cleared(m0), a),
{
    reveal(action_state);
    reveal(action_effect);
}

proof fn lemma_rest_case(m0: StateModel, a: Action)
    requires
        a is Jump || is_other(a),
    ensures
        action_state(m0, a) == action_state(cleared(m0), a),
        action_effect(m0, a) == action_effect(cleared(m0), a),
{
    reveal(action_state);
    reveal(action_effect);
}

/// Takes an action: clears the message, then makes the change that the
/// action makes by itself (see `action_state`) and says what outside work
/// remains (see `action_effect`).
pub fn handle_action(action: Action, state: &mut State, key: u8) -> (e: Effect)
    requires
        old(state)@.wf(),
    ensures
        final(state)@ == action_state(old(state)@, action),
        e@ == action_effect(old(state)@, action),
        final(state)@.wf(),
{
    let ghost m0 = state@;
    state.message = None;
    assert(state@ == cleared(m0));
    if is_move_exec(action) {
        proof {
            lemma_move_case(m0, action);
        }
        take_move(action, state);
        return Effect::Stay;
    }
    match action {
        Action::Mark | Action::UnmarkAll => {
            proof {
                lemma_mark_case(m0, action);
            }
            take_mark(action, state);
            Effect::Stay
        },
        Action::Yank => {
            proof {
                lemma_yank_case(m0, action);
            }
            take_yank(state);
            Effect::Stay
        },
        Action::MoveFiles | Action::Paste | Action::Link => {
            proof {
                lemma_file_op_case(m0, action);
            }
            take_file_op(action, state)
        },
        Action::ToggleHidden | Action::ToggleDirsFirst | Action::SortByName | Action::SortBySize
        | Action::SortByTime | Action::ToggleSize | Action::ToggleVersionSort => {
            proof {
                lemma_option_case(m0, action);
            }
            take_option(action, state)
        },
        Action::Jump(k) => {
            proof {
                lemma_rest_case(m0, action);
            }
            take_jump(k, state)
        },
        _ => {
            proof {
                lemma_rest_case(m0, action);
            }
            take_other(action, state)
        },
    }
}

fn is_move_exec(a: Action) -> (r: bool)
    ensures
        r == is_move(a),
{
    match a {
        Action::Next | Action::Previous | Action::Home | Action::End | Action::PageUp
        | Action::PageDown | Action::HalfPageUp | Action::HalfPageDown => true,
        _ => false,
    }
}

/// Takes a key typed while a filter is being typed (see
/// `filter_key_state`); says whether the directory must be read again.
pub fn handle_filter_input(state: &mut State, key: u8) -> (reload: bool)
    requires
        old(state)@.wf(),
    ensures
        final(state)@ == filter_key_state(old(state)@, key),
        reload == filter_key_reloads(old(state)@, key),
        final(state)@.wf(),
{
    let ghost m = state@;
    match state.filter_input.take() {
        None => {
            assert(state@ == m);
            false
        },
        Some(fi) => {
            if key == 10 || key == 13 {
                state.filter = if fi.as_str().is_empty() {
                    None
                } else {
                    Some(fi)
                };
                state.filter_input = None;
                state.cursor = 0;
                state.view_offset = 0;
                true
            } else if key == 27 {
                false
            } else if key == 127 || key == 8 {
                let mut f = fi;
                pop_char(&mut f);
                state.filter_input = Some(f);
                false
            } else if 32 <= key && key <= 126 {
                let mut f = fi;
                push_char(&mut f, key as char);
                state.filter_input = Some(f);
                false
            } else {
                state.filter_input = Some(fi);
                false
            }
        },
    }
}

/// Takes the bytes of one key press (see `key_state` and `key_effect`).
pub fn dispatch_keys(state: &mut State, keys: &[u8]) -> (e: Effect)
    requires
        old(state)@.wf(),
        keys@.len() > 0,
    ensures
        final(state)@ == key_state(old(state)@, keys@),
        e@ == key_effect(old(state)@, keys@),
        final(state)@.wf(),
{
    if state.filter_input.is_some() {
        if handle_filter_input(state, keys[0]) {
            Effect::Reload
        } else {
            Effect::Stay
        }
    } else if let Some(pending) = state.pending_key {
        state.pending_key = None;
        match handle_two_key_combo(pending, keys[0]) {
            Some(a) => handle_action(a, state, keys[0]),
            None => Effect::Stay,
        }
    } else {
        match keys_to_action(keys) {
            Some(a) => handle_action(a, state, keys[0]),
            None => Effect::Stay,
        }
    }
}

impl State {
    /// Enters the directory `dir` (resolved by the caller): the listing
    /// starts over at the top, unfiltered, with the header to compute again.
    pub fn enter_dir(&mut self, dir: String)
        ensures
            final(self)@ == (StateModel {
                dir: dir@,
                cursor: 0,
                view_offset: 0,
                filter: None,
                cache_dirty: true,
                ..old(self)@
            }),
            final(self)@.wf(),
    {
        self.dir = dir;
        self.cursor = 0;
        self.view_offset = 0;
        self.filter = None;
        self.cache_dirty = true;
    }

    /// Goes to the directory `parent`: the listing starts over at the top,
    /// unfiltered.
    pub fn go_up(&mut self, parent: String)
        ensures
            final(self)@ == (StateModel {
                dir: parent@,
                cursor: 0,
                view_offset: 0,
                filter: None,
                ..old(self)@
            }),
            final(self)@.wf(),
    {
        self.dir = parent;
        self.cursor = 0;
        self.view_offset = 0;
        self.filter = None;
    }

    /// Goes to the parent of the directory (as `Path::parent` gives it), if
    /// it has one, and gives back the name of the directory left (as
    /// `Path::file_name` gives it), to select once the parent is listed.
    /// With no parent nothing changes.
    pub fn go_back(&mut self) -> (r: Option<Option<String>>)
        requires
            old(self)@.wf(),
        ensures
            r is None <==> path_parent(old(self)@.dir) is None,
            r is None ==> final(self)@ == old(self)@,
            r matches Some(n) ==> final(self)@ == up_to(old(self)@, path_parent(old(self)@.dir)->0)
                && n.deep_view() == path_file_name(old(self)@.dir),
            r is Some ==> final(self)@.dir.len() < old(self)@.dir.len()
                && starts_with(old(self)@.dir, final(self)@.dir),
            r matches Some(Some(n)) ==> n@.len() > 0 && contains(old(self)@.dir, n@),
            old(self)@.dir == seq!['/'] ==> r is None,
            plain_absolute(without_trailing_slashes(old(self)@.dir)) ==> (r matches Some(Some(n))
                && n@ == last_name(without_trailing_slashes(old(self)@.dir)) && final(self)@.dir
                == parent_path(without_trailing_slashes(old(self)@.dir))),
            final(self)@.wf(),
    {
        match parent_of(self.dir.as_str()) {
            None => None,
            Some(parent) => {
                let name = file_name_of(self.dir.as_str());
                self.go_up(parent);
                Some(name)
            },
        }
    }

    /// The path of `name` in the directory (as `Path::join` gives it): where
    /// a new entry of that name is made or an entry is renamed to.
    pub fn path_in_dir(&self, name: &str) -> (r: String)
        ensures
            r@ == path_join(self@.dir, name@),
    {
        join_path(self.dir.as_str(), name)
    }

    /// Where a yanked path is moved, copied or linked to: its file name (as
    /// `Path::file_name` gives it) in the directory; none where the path has
    /// no file name.
    pub fn destination(&self, path: &str) -> (r: Option<String>)
        ensures
            match path_file_name(path@) {
                Some(n) => r is Some && r->0@ == path_join(self@.dir, n),
                None => r is None,
            },
    {
        match file_name_of(path) {
            Some(n) => Some(join_path(self.dir.as_str(), n.as_str())),
            None => None,
        }
    }

    /// The whole step of a jump to the directory `dir` (resolved by the
    /// caller, who found it to be a directory): the directory left becomes
    /// the last directory, the listing starts over at the top, unfiltered,
    /// and `read` is taken as the outcome of reading `dir`.
    pub fn jump_listed(&mut self, dir: String, read: Result<Vec<Entry>, String>)
        requires
            names_fit(read),
        ensures
            listing_fits(jumped(old(self)@, dir@), read, final(self)@.entries),
            final(self)@ == after_listing(jumped(old(self)@, dir@), read, final(self)@.entries),
            final(self)@.wf(),
    {
        self.jump_to(dir);
        self.take_listing(read);
    }

    /// Where going back leads: the parent of the directory (as
    /// `Path::parent` gives it), if it has one.
    pub fn parent_dir(&self) -> (r: Option<String>)
        ensures
            r.deep_view() == path_parent(self@.dir),
            r matches Some(q) ==> q@.len() < self@.dir.len() && starts_with(self@.dir, q@),
            self@.dir == seq!['/'] ==> r is None,
            plain_absolute(without_trailing_slashes(self@.dir)) ==> r is Some && r->0@ == parent_path(
                without_trailing_slashes(self@.dir),
            ),
    {
        parent_of(self.dir.as_str())
    }

    /// Takes the outcome of reading the directory: the entries read (see
    /// `load_entries`), or the error that the read gave (see
    /// `read_failed`).
    pub fn take_listing(&mut self, read: Result<Vec<Entry>, String>)
        requires
            names_fit(read),
        ensures
            listing_fits(old(self)@, read, final(self)@.entries),
            final(self)@ == after_listing(old(self)@, read, final(self)@.entries),
            old(self)@.wf() ==> final(self)@.wf(),
    {
        match read {
            Ok(raw) => self.load_entries(raw),
            Err(e) => self.read_failed(e.as_str()),
        }
    }

    /// The whole step of going back: to the parent of the directory, if it
    /// has one, taking `read` as the outcome of reading that parent, then
    /// selecting the directory left where it is listed. Says whether it
    /// moved; with no parent nothing changes.
    pub fn back_listed(&mut self, read: Result<Vec<Entry>, String>) -> (moved: bool)
        requires
            old(self)@.wf(),
            names_fit(read),
        ensures
            moved <==> path_parent(old(self)@.dir) is Some,
            !moved ==> final(self)@ == old(self)@,
            moved ==> listing_fits(
                up_to(old(self)@, path_parent(old(self)@.dir)->0),
                read,
                final(self)@.entries,
            ),
            moved ==> final(self)@ == with_selected(
                after_listing(
                    up_to(old(self)@, path_parent(old(self)@.dir)->0),
                    read,
                    final(self)@.entries,
                ),
                path_file_name(old(self)@.dir),
            ),
            moved ==> final(self)@.dir.len() < old(self)@.dir.len() && starts_with(
                old(self)@.dir,
                final(self)@.dir,
            ),
            old(self)@.dir == seq!['/'] ==> !moved,
            plain_absolute(without_trailing_slashes(old(self)@.dir)) ==> moved && final(self)@.dir
                == parent_path(without_trailing_slashes(old(self)@.dir)),
            final(self)@.wf(),
    {
        match self.go_back() {
            None => false,
            Some(left) => {
                self.take_listing(read);
                match left {
                    Some(name) => self.select_name(name.as_str()),
                    None => {},
                }
                true
            },
        }
    }

    /// The whole step of entering the directory `dir` (resolved by the
    /// caller): the listing starts over at the top, unfiltered, and `read`
    /// is taken as the outcome of reading `dir`.
    pub fn enter_listed(&mut self, dir: String, read: Result<Vec<Entry>, String>)
        requires
            names_fit(read),
        ensures
            listing_fits(entered(old(self)@, dir@), read, final(self)@.entries),
            final(self)@ == after_listing(entered(old(self)@, dir@), read, final(self)@.entries),
            final(self)@.wf(),
    {
        self.enter_dir(dir);
        self.take_listing(read);
    }

    /// Selects the first entry named `name`, if there is one, and moves the
    /// view to it; otherwise nothing changes.
    pub fn select_name(&mut self, name: &str)
        requires
            old(self)@.wf(),
        ensures
            final(self)@ == (match first_named(old(self)@.entries, name@) {
                Some(i) => with_adjusted_offset(StateModel { cursor: i, ..old(self)@ }),
                None => old(self)@,
            }),
            final(self)@.wf(),
    {
        let ghost m = self@;
        let mut i: usize = 0;
        while i < self.entries.len()
            invariant
                self@ == m,
                m == old(self)@,
                m.wf(),
                i <= m.entries.len(),
                forall|j: int| 0 <= j < i ==> m.entries[j].name@ != name@,
            decreases m.entries.len() - i,
        {
            if same_text(self.entries[i].name.as_str(), name) {
                proof {
                    lemma_first_named(m.entries, name@, i as int);
                }
                self.cursor = i;
                adjust_view_offset(self);
                proof {
                    lemma_adjusted_offset_in_view(i as nat, m.view_offset, m.term_height);
                }
                return;
            }
            i = i + 1;
        }
        proof {
            lemma_first_named(m.entries, name@, m.entries.len() as int);
        }
    }

    /// Jumps to the directory `dir` (resolved by the caller): the directory
    /// left becomes the last directory, and the listing starts over at the
    /// top, unfiltered.
    pub fn jump_to(&mut self, dir: String)
        ensures
            final(self)@ == (StateModel {
                dir: dir@,
                last_dir: Some(old(self)@.dir),
                cursor: 0,
                view_offset: 0,
                filter: None,
                ..old(self)@
            }),
            final(self)@.wf(),
    {
        let mut other = dir;
        std::mem::swap(&mut self.dir, &mut other);
        self.last_dir = Some(other);
        self.cursor = 0;
        self.view_offset = 0;
        self.filter = None;
    }

    /// Reports that a jump led to no directory.
    pub fn jump_missing(&mut self, path: &str)
        ensures
            final(self)@ == (StateModel {
                message: Some("Directory not found: "@ + path@),
                ..old(self)@
            }),
    {
        self.message = Some(concat("Directory not found: ", path));
    }

    /// Reports that the directory could not be read.
    pub fn read_failed(&mut self, error: &str)
        ensures
            final(self)@ == (StateModel {
                message: Some("Error reading directory: "@ + error@),
                ..old(self)@
            }),
    {
        self.message = Some(concat("Error reading directory: ", error));
    }

    /// Shows a message.
    pub fn say(&mut self, message: &str)
        ensures
            final(self)@ == (StateModel { message: Some(message@), ..old(self)@ }),
    {
        self.message = Some(message.to_owned());
    }

    /// Reports a step that went well.
    pub fn done(&mut self, d: Done)
        ensures
            final(self)@ == (StateModel { message: Some(done_message(d)), ..old(self)@ }),
    {
        self.message = Some(
            match d {
                Done::Renamed => "Renamed".to_owned(),
                Done::DirectoryCreated => "Directory created".to_owned(),
                Done::FileCreated => "File created".to_owned(),
            },
        );
    }

    /// Reports an outside step that went wrong, with its error.
    pub fn fail(&mut self, f: Failure, error: &str)
        ensures
            final(self)@ == (StateModel {
                message: Some(failure_prefix(f) + error@),
                ..old(self)@
            }),
    {
        let prefix = match f {
            Failure::Operation => "Error: ",
            Failure::Editor => "Error running editor: ",
            Failure::MediaPlayer => "Error running media player: ",
            Failure::Top => "Error running top: ",
            Failure::Help => "Error running help: ",
        };
        self.message = Some(concat(prefix, error));
    }

    /// Reports an operation on the yanked paths (see `file_op_message`); a
    /// move that had no error empties the yanked paths.
    pub fn file_op_done(&mut self, op: FileOp, success: usize, errors: &Vec<String>)
        ensures
            final(self)@ == (StateModel {
                message: Some(file_op_message(op, success as nat, texts(errors@))),
                yanked: if op == FileOp::Move && errors@.len() == 0 {
                    Seq::empty()
                } else {
                    old(self)@.yanked
                },
                ..old(self)@
            }),
    {
        let mut v: Vec<char> = Vec::new();
        if errors.len() == 0 {
            let d = decimal_chars(success as u128);
            match op {
                FileOp::Move => {
                    push_str(&mut v, "Moved ");
                    push_all(&mut v, &d);
                    push_str(&mut v, " item(s)");
                    self.yanked = Vec::new();
                    proof {
                        assert(texts(self.yanked@) =~= Seq::<Seq<char>>::empty());
                    }
                },
                FileOp::Copy => {
                    push_str(&mut v, "Pasted ");
                    push_all(&mut v, &d);
                    push_str(&mut v, " item(s)");
                },
                FileOp::Link => {
                    push_str(&mut v, "Created ");
                    push_all(&mut v, &d);
                    push_str(&mut v, " link(s)");
                },
            }
        } else {
            push_str(&mut v, "Errors: ");
            let j = join_exec(errors, ", ");
            push_all(&mut v, &j);
        }
        self.message = Some(string_of(&v));
    }

    /// Reports a deletion: "Deleted", or the errors joined by commas.
    pub fn delete_done(&mut self, errors: &Vec<String>)
        ensures
            final(self)@ == (StateModel {
                message: Some(
                    if errors@.len() == 0 {
                        "Deleted"@
                    } else {
                        "Errors: "@ + join(texts(errors@), ", "@)
                    },
                ),
                ..old(self)@
            }),
    {
        if errors.len() == 0 {
            self.message = Some("Deleted".to_owned());
        } else {
            let mut v: Vec<char> = Vec::new();
            push_str(&mut v, "Errors: ");
            let j = join_exec(errors, ", ");
            push_all(&mut v, &j);
            self.message = Some(string_of(&v));
        }
    }

    /// Takes the terminal's size; says whether it changed. A change marks the
    /// header to compute again and moves the view to the selection.
    pub fn resize(&mut self, height: usize, width: usize) -> (changed: bool)
        requires
            old(self)@.wf(),
        ensures
            changed == (old(self)@.term_height != height || old(self)@.term_width != width),
            changed ==> final(self)@ == with_adjusted_offset(StateModel {
                term_height: height as nat,
                term_width: width as nat,
                cache_dirty: true,
                ..old(self)@
            }),
            !changed ==> final(self)@ == old(self)@,
            final(self)@.wf(),
    {
        if self.term_height != height || self.term_width != width {
            self.term_height = height;
            self.term_width = width;
            self.cache_dirty = true;
            let ghost m = self@;
            adjust_view_offset(self);
            proof {
                lemma_adjusted_offset_in_view(m.cursor, m.view_offset, m.term_height);
            }
            true
        } else {
            false
        }
    }
}

/// `a` followed by `b`.
fn concat(a: &str, b: &str) -> (r: String)
    ensures
        r@ == a@ + b@,
{
    let mut v: Vec<char> = Vec::new();
    push_str(&mut v, a);
    push_str(&mut v, b);
    string_of(&v)
}

/// The number of marked entries.
pub open spec fn count_marked(s: Seq<Entry>) -> nat
    decreases s.len(),
{
    if s.len() == 0 {
        0
    } else {
        count_marked(s.drop_last()) + if s.last().marked {
            1nat
        } else {
            0nat
        }
    }
}

/// The directory as the header shows it: with `~` in place of the home
/// directory at its start when that is asked for and the home directory is
/// known; otherwise as it is.
pub open spec fn dir_display(dir: Seq<char>, tilde_home: bool, home: Option<Seq<char>>) -> Seq<char> {
    match home {
        Some(h) => if tilde_home && crate::text::starts_with(dir, h) {
            seq!['~'] + dir.skip(h.len() as int)
        } else {
            dir
        },
        None => dir,
    }
}

/// The state once the header and the footer counts are up to date: when
/// they were marked to compute again, the directory's display, the number
/// of marked entries and of yanked paths are taken afresh.
pub open spec fn refreshed(m: StateModel, home: Option<Seq<char>>) -> StateModel {
    if m.cache_dirty {
        StateModel {
            dir_display: Some(dir_display(m.dir, m.tilde_home, home)),
            marked_count: count_marked(m.entries),
            yanked_count: m.yanked.len(),
            cache_dirty: false,
            ..m
        }
    } else {
        m
    }
}

impl State {
    /// Brings the header and the footer counts up to date (see
    /// `refreshed`); `home` is the home directory, where it is known.
    pub fn update_display_cache(&mut self, home: Option<&str>)
        ensures
            final(self)@ == refreshed(
                old(self)@,
                match home {
                    Some(h) => Some(h@),
                    None => None,
                },
            ),
    {
        if !self.cache_dirty {
            return;
        }
        let d = chars_of(self.dir.as_str());
        let shown: Vec<char> = match home {
            Some(h) => {
                let hc = chars_of(h);
                if self.tilde_home && crate::text::starts_with_exec(&d, &hc) {
                    let mut v: Vec<char> = Vec::new();
                    v.push('~');
                    let mut i: usize = hc.len();
                    while i < d.len()
                        invariant
                            hc@.len() <= i <= d@.len(),
                            v@ == seq!['~'] + d@.subrange(hc@.len() as int, i as int),
                        decreases d@.len() - i,
                    {
                        v.push(d[i]);
                        i = i + 1;
                        proof {
                            assert(v@ =~= seq!['~'] + d@.subrange(hc@.len() as int, i as int));
                        }
                    }
                    proof {
                        assert(d@.subrange(hc@.len() as int, d@.len() as int) =~= d@.skip(hc@.len() as int));
                    }
                    v
                } else {
                    d
                }
            },
            None => d,
        };
        self.cached_dir_display = Some(string_of(&shown));
        let mut marked: usize = 0;
        let mut i: usize = 0;
        while i < self.entries.len()
            invariant
                i <= self.entries@.len(),
                marked == count_marked(self.entries@.take(i as int)),
                marked <= i,
            decreases self.entries@.len() - i,
        {
            proof {
                assert(self.entries@.take(i + 1).drop_last() =~= self.entries@.take(i as int));
            }
            if self.entries[i].marked {
                marked = marked + 1;
            }
            i = i + 1;
        }
        proof {
            assert(self.entries@.take(self.entries@.len() as int) =~= self.entries@);
        }
        self.cached_counts = (marked, self.yanked.len());
        self.cache_dirty = false;
    }

    /// Whether an entry of this name is listed under the current options
    /// (see `is_listed`).
    pub fn lists(&self, name: &str) -> (r: bool)
        ensures
            r == crate::sort::is_listed(name@, self@.show_hidden, self@.filter),
    {
        crate::sort::is_listed_exec(name, self.show_hidden, &self.filter)
    }

    /// Sets the directory shown, as a saved session gives it.
    pub fn restore_dir(&mut self, dir: String)
        ensures
            final(self)@ == (StateModel { dir: dir@, ..old(self)@ }),
    {
        self.dir = dir;
    }

    /// Sets the last directory, as a saved session gives it.
    pub fn restore_last_dir(&mut self, dir: String)
        ensures
            final(self)@ == (StateModel { last_dir: Some(dir@), ..old(self)@ }),
    {
        self.last_dir = Some(dir);
    }

    /// The text of the session file that saves this state (see
    /// `session_text`).
    pub fn session_text(&self) -> (r: String)
        ensures
            r@ == crate::session::session_text(self@.dir, self@.last_dir),
    {
        crate::session::session_text_exec(self.dir.as_str(), &self.last_dir)
    }

    pub fn dir(&self) -> (r: &String)
        ensures
            r@ == self@.dir,
    {
        &self.dir
    }

    pub fn entries(&self) -> (r: &Vec<Entry>)
        ensures
            r@ == self@.entries,
    {
        &self.entries
    }

    pub fn yanked(&self) -> (r: &Vec<String>)
        ensures
            texts(r@) == self@.yanked,
    {
        &self.yanked
    }

    pub fn filter(&self) -> (r: &Option<String>)
        ensures
            r.deep_view() == self@.filter,
    {
        &self.filter
    }

    pub fn message(&self) -> (r: &Option<String>)
        ensures
            r.deep_view() == self@.message,
    {
        &self.message
    }

    pub fn save_file(&self) -> (r: &Option<String>)
        ensures
            r.deep_view() == self@.save_file,
    {
        &self.save_file
    }

    pub fn last_dir(&self) -> (r: &Option<String>)
        ensures
            r.deep_view() == self@.last_dir,
    {
        &self.last_dir
    }

    pub fn filter_input(&self) -> (r: &Option<String>)
        ensures
            r.deep_view() == self@.filter_input,
    {
        &self.filter_input
    }

    pub fn dir_display_cache(&self) -> (r: &Option<String>)
        ensures
            r.deep_view() == self@.dir_display,
    {
        &self.cached_dir_display
    }

    pub fn cursor(&self) -> (r: usize)
        ensures
            r == self@.cursor,
    {
        self.cursor
    }

    pub fn view_offset(&self) -> (r: usize)
        ensures
            r == self@.view_offset,
    {
        self.view_offset
    }

    pub fn term_height(&self) -> (r: usize)
        ensures
            r == self@.term_height,
    {
        self.term_height
    }

    pub fn term_width(&self) -> (r: usize)
        ensures
            r == self@.term_width,
    {
        self.term_width
    }

    pub fn longest_entry_width(&self) -> (r: usize)
        ensures
            r == self@.longest_width,
    {
        self.longest_entry_width
    }

    pub fn cached_counts(&self) -> (r: (usize, usize))
        ensures
            r.0 == self@.marked_count,
            r.1 == self@.yanked_count,
    {
        self.cached_counts
    }

    pub fn sort_mode(&self) -> (r: SortMode)
        ensures
            r == self@.sort_mode,
    {
        self.sort_mode
    }

    pub fn show_hidden(&self) -> (r: bool)
        ensures
            r == self@.show_hidden,
    {
        self.show_hidden
    }

    pub fn dirs_first(&self) -> (r: bool)
        ensures
            r == self@.dirs_first,
    {
        self.dirs_first
    }

    pub fn show_size(&self) -> (r: bool)
        ensures
            r == self@.show_size,
    {
        self.show_size
    }

    pub fn version_sort(&self) -> (r: bool)
        ensures
            r == self@.version_sort,
    {
        self.version_sort
    }

    pub fn use_color(&self) -> (r: bool)
        ensures
            r == self@.use_color,
    {
        self.use_color
    }

    pub fn tilde_home(&self) -> (r: bool)
        ensures
            r == self@.tilde_home,
    {
        self.tilde_home
    }

    pub fn cache_dirty(&self) -> (r: bool)
        ensures
            r == self@.cache_dirty,
    {
        self.cache_dirty
    }

    pub fn pending_key(&self) -> (r: Option<u8>)
        ensures
            r == self@.pending_key,
    {
        self.pending_key
    }
}

/// What happened outside, for the browser to take.
pub enum Event {
    /// The bytes of one key press.
    Keys(Vec<u8>),
    /// The terminal's size, in rows and columns.
    Resize(usize, usize),
    /// The directory's contents changed.
    Changed,
}

/// Takes one event of the browser's loop and says what outside work it
/// asks for: a key press as `dispatch_keys` takes it; a terminal size as
/// `State::resize` takes it, a change asking for the whole screen to be
/// cleared; a change of the directory asking for it to be read again.
pub fn run(state: &mut State, event: Event) -> (e: Effect)
    requires
        old(state)@.wf(),
        event matches Event::Keys(k) ==> k@.len() > 0,
    ensures
        final(state)@.wf(),
        match event {
            Event::Keys(k) => final(state)@ == key_state(old(state)@, k@) && e@ == key_effect(
                old(state)@,
                k@,
            ),
            Event::Resize(h, w) => if old(state)@.term_height != h || old(state)@.term_width != w {
                final(state)@ == with_adjusted_offset(
                    StateModel {
                        term_height: h as nat,
                        term_width: w as nat,
                        cache_dirty: true,
                        ..old(state)@
                    },
                ) && e@ == EffectModel::ClearScreen
            } else {
                final(state)@ == old(state)@ && e@ == EffectModel::Stay
            },
            Event::Changed => final(state)@ == old(state)@ && e@ == EffectModel::Reload,
        },
{
    match event {
        Event::Keys(k) => dispatch_keys(state, &k),
        Event::Resize(h, w) => {
            if state.resize(h, w) {
                Effect::ClearScreen
            } else {
                Effect::Stay
            }
        },
        Event::Changed => Effect::Reload,
    }
}

} // verus!
