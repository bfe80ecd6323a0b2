use vstd::prelude::*;
use crate::config::{COLOR_DIR, COLOR_ERROR, COLOR_EXEC, COLOR_FILE, COLOR_LINK, COLOR_MARKED, COLOR_RESET};
use crate::listing::Entry;
use crate::size::{format_size, size_text};
use crate::state::{State, StateModel, min_nat, refreshed, sat_sub};
use crate::text::{chars_of, decimal, decimal_chars, push_all, push_str, string_of};

verus! {

/// `n` copies of `c`.
pub open spec fn repeat(c: char, n: nat) -> Seq<char> {
    Seq::new(n, |i: int| c)
}

/// The rows that the listing shows: the terminal's height less five.
pub open spec fn list_rows(term_height: nat) -> nat {
    sat_sub(term_height, 5)
}

/// The entry after the last one shown.
pub open spec fn view_end(m: StateModel) -> nat {
    min_nat(m.view_offset + list_rows(m.term_height), m.entries.len())
}

/// What stands before an entry's name: `>` on the selected entry, `*` on a
/// marked one.
pub open spec fn row_prefix(selected: bool, marked: bool) -> Seq<char> {
    if selected {
        if marked {
            ">* "@
        } else {
            "> "@
        }
    } else {
        if marked {
            " * "@
        } else {
            "  "@
        }
    }
}

/// The color that an entry is drawn in: marked, link, directory,
/// executable, other, in that order of precedence.
pub open spec fn entry_color(e: Entry) -> Seq<char> {
    if e.marked {
        COLOR_MARKED@
    } else if e.is_link {
        COLOR_LINK@
    } else if e.is_dir {
        COLOR_DIR@
    } else if e.is_exec {
        COLOR_EXEC@
    } else {
        COLOR_FILE@
    }
}

/// The type suffix after an entry's name.
pub open spec fn entry_suffix(e: Entry) -> Seq<char> {
    if e.is_dir {
        seq!['/']
    } else if e.is_link {
        seq!['@']
    } else if e.is_exec {
        seq!['*']
    } else {
        Seq::empty()
    }
}

/// The size column: a space and the size right-aligned in eight columns
/// for a file, nine spaces for a directory.
pub open spec fn size_column(e: Entry) -> Seq<char> {
    if e.is_dir {
        repeat(' ', 9)
    } else {
        let t = size_text(e.size as nat);
        seq![' '] + repeat(' ', sat_sub(8, t.len())) + t
    }
}

/// The start of entry `i`'s row: a space, the prefix, and the entry's
/// color when colors are used.
pub open spec fn row_start(m: StateModel, i: int) -> Seq<char> {
    let e = m.entries[i];
    seq![' '] + row_prefix(i == m.cursor, e.marked) + if m.use_color {
        entry_color(e)
    } else {
        Seq::empty()
    }
}

/// The name with its suffix, padded to the widest entry.
pub open spec fn row_name(m: StateModel, e: Entry) -> Seq<char> {
    let name = e.name@ + entry_suffix(e);
    name + repeat(' ', sat_sub(m.longest_width, name.len()))
}

/// The end of an entry's row: the color reset when colors are used, the
/// size column when sizes are shown, and the line feed.
pub open spec fn row_end(m: StateModel, e: Entry) -> Seq<char> {
    (if m.use_color {
        COLOR_RESET@
    } else {
        Seq::empty()
    }) + (if m.show_size {
        size_column(e)
    } else {
        Seq::empty()
    }) + seq!['\n']
}

/// The row of entry `i`: the prefix, the colored name with its suffix,
/// padded to the widest entry, and the size column when sizes are shown.
pub open spec fn entry_row(m: StateModel, i: int) -> Seq<char> {
    row_start(m, i) + row_name(m, m.entries[i]) + row_end(m, m.entries[i])
}

/// The rows of the entries from `from` up to `to`.
pub open spec fn entry_rows(m: StateModel, from: int, to: int) -> Seq<char>
    decreases to - from,
{
    if to <= from {
        Seq::empty()
    } else {
        entry_rows(m, from, to - 1) + entry_row(m, to - 1)
    }
}

/// The header: the directory (bold when colors are used), the filter where
/// there is one, and a rule as wide as the terminal.
pub open spec fn header(m: StateModel) -> Seq<char> {
    let d = match m.dir_display {
        Some(d) => d,
        None => Seq::empty(),
    };
    (if m.use_color {
        " \x1b[1m"@ + d + "\x1b[0m\n"@
    } else {
        seq![' '] + d + seq!['\n']
    }) + (match m.filter {
        Some(f) => " Filter: "@ + f + seq!['\n'],
        None => Seq::empty(),
    }) + repeat('\u{2500}', m.term_width) + seq!['\n']
}

/// The footer: the filter being typed, with a cursor; else the message;
/// else the position, the counts of marked and yanked entries where there
/// are any, and the filter where there is one.
pub open spec fn footer(m: StateModel) -> Seq<char> {
    match m.filter_input {
        Some(fi) => " Filter: "@ + fi + if m.use_color {
            COLOR_ERROR@ + "\u{2588}"@ + COLOR_RESET@
        } else {
            seq!['_']
        },
        None => match m.message {
            Some(msg) => if m.use_color {
                seq![' '] + COLOR_ERROR@ + msg + COLOR_RESET@
            } else {
                seq![' '] + msg
            },
            None => status(m),
        },
    }
}

/// The screen of a state: cleared, the header, the rows shown, blank lines
/// down to the footer's row, and the footer.
pub open spec fn frame(m: StateModel) -> Seq<char> {
    "\x1b[H\x1b[2J"@ + header(m) + entry_rows(m, m.view_offset as int, view_end(m) as int) + repeat(
        '\n',
        sat_sub(list_rows(m.term_height), sat_sub(view_end(m), m.view_offset)),
    ) + footer(m)
}

fn push_repeat(out: &mut Vec<char>, c: char, n: usize)
    ensures
        final(out)@ == old(out)@ + repeat(c, n as nat),
{
    let mut i: usize = 0;
    while i < n
        invariant
            i <= n,
            out@ == old(out)@ + repeat(c, i as nat),
        decreases n - i,
    {
        out.push(c);
        i = i + 1;
        proof {
            assert(out@ =~= old(out)@ + repeat(c, i as nat));
        }
    }
}

fn push_decimal(out: &mut Vec<char>, n: u128)
    ensures
        final(out)@ == old(out)@ + decimal(n as nat),
{
    let d = decimal_chars(n);
    push_all(out, &d);
}

fn push_size_column(out: &mut Vec<char>, e: &Entry)
    ensures
        final(out)@ == old(out)@ + size_column(*e),
{
    if e.is_dir {
        push_repeat(out, ' ', 9);
    } else {
        let t = format_size(e.size);
        let tc = chars_of(t.as_str());
        out.push(' ');
        let pad = if tc.len() < 8 {
            8 - tc.len()
        } else {
            0
        };
        push_repeat(out, ' ', pad);
        push_all(out, &tc);
    }
}

fn push_prefix(out: &mut Vec<char>, selected: bool, marked: bool)
    ensures
        final(out)@ == old(out)@ + row_prefix(selected, marked),
{
    if selected {
        if marked {
            push_str(out, ">* ");
        } else {
            push_str(out, "> ");
        }
    } else {
        if marked {
            push_str(out, " * ");
        } else {
            push_str(out, "  ");
        }
    }
}

fn push_color(out: &mut Vec<char>, e: &Entry)
    ensures
        final(out)@ == old(out)@ + entry_color(*e),
{
    if e.marked {
        push_str(out, COLOR_MARKED);
    } else if e.is_link {
        push_str(out, COLOR_LINK);
    } else if e.is_dir {
        push_str(out, COLOR_DIR);
    } else if e.is_exec {
        push_str(out, COLOR_EXEC);
    } else {
        push_str(out, COLOR_FILE);
    }
}

fn shown_name(e: &Entry) -> (r: Vec<char>)
    ensures
        r@ == e.name@ + entry_suffix(*e),
{
    let mut shown = chars_of(e.name.as_str());
    if e.is_dir {
        shown.push('/');
    } else if e.is_link {
        shown.push('@');
    } else if e.is_exec {
        shown.push('*');
    }
    proof {
        assert(shown@ =~= e.name@ + entry_suffix(*e));
    }
    shown
}

fn push_row_start(out: &mut Vec<char>, state: &State, i: usize)
    requires
        i < state@.entries.len(),
    ensures
        final(out)@ == old(out)@ + row_start(state@, i as int),
{
    let e = &state.entries()[i];
    let ghost o = out@;
    out.push(' ');
    push_prefix(out, i == state.cursor(), e.marked);
    let ghost p1 = out@;
    if state.use_color() {
        push_color(out, e);
    }
    proof {
        assert(out@ =~= o + row_start(state@, i as int));
    }
}

fn push_row_name(out: &mut Vec<char>, state: &State, e: &Entry)
    ensures
        final(out)@ == old(out)@ + row_name(state@, *e),
{
    let ghost o = out@;
    let shown = shown_name(e);
    push_all(out, &shown);
    let longest = state.longest_entry_width();
    let pad = if longest >= shown.len() {
        longest - shown.len()
    } else {
        0
    };
    push_repeat(out, ' ', pad);
    proof {
        assert(out@ =~= o + row_name(state@, *e));
    }
}

fn push_row_end(out: &mut Vec<char>, state: &State, e: &Entry)
    ensures
        final(out)@ == old(out)@ + row_end(state@, *e),
{
    let ghost o = out@;
    if state.use_color() {
        push_str(out, COLOR_RESET);
    }
    let ghost p1 = out@;
    if state.show_size() {
        push_size_column(out, e);
    }
    let ghost p2 = out@;
    out.push('\n');
    proof {
        assert(out@ =~= o + row_end(state@, *e));
    }
}

fn push_row(out: &mut Vec<char>, state: &State, i: usize)
    requires
        i < state@.entries.len(),
    ensures
        final(out)@ == old(out)@ + entry_row(state@, i as int),
{
    let ghost o = out@;
    push_row_start(out, state, i);
    let e = &state.entries()[i];
    push_row_name(out, state, e);
    push_row_end(out, state, e);
    proof {
        let a = row_start(state@, i as int);
        let b = row_name(state@, *e);
        let c = row_end(state@, *e);
        assert(o + a + b + c =~= o + (a + b + c));
    }
}

fn push_header(out: &mut Vec<char>, state: &State)
    ensures
        final(out)@ == old(out)@ + header(state@),
{
    let d: Vec<char> = match state.dir_display_cache() {
        Some(d) => chars_of(d.as_str()),
        None => Vec::new(),
    };
    if state.use_color() {
        push_str(out, " \x1b[1m");
        push_all(out, &d);
        push_str(out, "\x1b[0m\n");
    } else {
        out.push(' ');
        push_all(out, &d);
        out.push('\n');
    }
    match state.filter() {
        Some(f) => {
            push_str(out, " Filter: ");
            push_str(out, f.as_str());
            out.push('\n');
        },
        None => {},
    }
    push_repeat(out, '\u{2500}', state.term_width());
    out.push('\n');
    proof {
        assert(out@ =~= old(out)@ + header(state@));
    }
}

/// A count in brackets with its word, shown only where the count is not
/// zero.
pub open spec fn count_part(count: nat, suffix: Seq<char>) -> Seq<char> {
    if count > 0 {
        " ["@ + decimal(count) + suffix
    } else {
        Seq::empty()
    }
}

/// The filter in force, in brackets, where there is one.
pub open spec fn filter_part(filter: Option<Seq<char>>) -> Seq<char> {
    match filter {
        Some(f) => " (filtered: "@ + f + seq![')'],
        None => Seq::empty(),
    }
}

/// The footer's part that shows the position and the counts.
pub open spec fn status(m: StateModel) -> Seq<char> {
    seq![' '] + decimal(m.cursor + 1) + seq!['/'] + decimal(m.entries.len())
        + count_part(m.marked_count, "*]"@) + count_part(m.yanked_count, " yanked]"@)
        + filter_part(m.filter)
}

fn push_count_part(out: &mut Vec<char>, count: usize, suffix: &str)
    ensures
        final(out)@ == old(out)@ + count_part(count as nat, suffix@),
{
    if count > 0 {
        push_str(out, " [");
        push_decimal(out, count as u128);
        push_str(out, suffix);
        proof {
            assert(out@ =~= old(out)@ + count_part(count as nat, suffix@));
        }
    } else {
        proof {
            assert(out@ =~= old(out)@ + count_part(count as nat, suffix@));
        }
    }
}

fn push_filter_part(out: &mut Vec<char>, filter: &Option<String>)
    ensures
        final(out)@ == old(out)@ + filter_part(filter.deep_view()),
{
    match filter {
        Some(f) => {
            push_str(out, " (filtered: ");
            push_str(out, f.as_str());
            out.push(')');
            proof {
                assert(out@ =~= old(out)@ + filter_part(Some(f@)));
            }
        },
        None => {
            proof {
                assert(out@ =~= old(out)@ + filter_part(None));
            }
        },
    }
}

fn push_status(out: &mut Vec<char>, state: &State)
    ensures
        final(out)@ == old(out)@ + status(state@),
{
    let ghost m = state@;
    let (marked, yanked) = state.cached_counts();
    out.push(' ');
    push_decimal(out, state.cursor() as u128 + 1);
    out.push('/');
    push_decimal(out, state.entries().len() as u128);
    push_count_part(out, marked, "*]");
    push_count_part(out, yanked, " yanked]");
    push_filter_part(out, state.filter());
    proof {
        assert(out@ =~= old(out)@ + status(m));
    }
}

fn push_footer(out: &mut Vec<char>, state: &State)
    requires
        state@.wf(),
    ensures
        final(out)@ == old(out)@ + footer(state@),
{
    match state.filter_input() {
        Some(fi) => {
            push_str(out, " Filter: ");
            push_str(out, fi.as_str());
            if state.use_color() {
                push_str(out, COLOR_ERROR);
                push_str(out, "\u{2588}");
                push_str(out, COLOR_RESET);
            } else {
                out.push('_');
            }
            proof {
                assert(out@ =~= old(out)@ + footer(state@));
            }
        },
        None => match state.message() {
            Some(msg) => {
                out.push(' ');
                if state.use_color() {
                    push_str(out, COLOR_ERROR);
                    push_str(out, msg.as_str());
                    push_str(out, COLOR_RESET);
                } else {
                    push_str(out, msg.as_str());
                }
                proof {
                    assert(out@ =~= old(out)@ + footer(state@));
                }
            },
            None => {
                push_status(out, state);
                proof {
                    assert(footer(state@) == status(state@));
                }
            },
        },
    }
}

/// Brings the header and the footer counts up to date (see
/// `State::update_display_cache`), then gives the screen to draw (see
/// `frame`).
pub fn render(state: &mut State, home: Option<&str>) -> (screen: String)
    requires
        old(state)@.wf(),
    ensures
        final(state)@ == refreshed(
            old(state)@,
            match home {
                Some(h) => Some(h@),
                None => None,
            },
        ),
        screen@ == frame(final(state)@),
{
    state.update_display_cache(home);
    let mut out: Vec<char> = Vec::new();
    push_str(&mut out, "\x1b[H\x1b[2J");
    push_header(&mut out, state);
    let ghost before_rows = out@;
    let len = state.entries().len();
    let start = state.view_offset();
    let rows = state.term_height().saturating_sub(5);
    let reach = start.saturating_add(rows);
    let end = if reach < len {
        reach
    } else {
        len
    };
    let mut i = start;
    proof {
        assert(entry_rows(state@, start as int, start as int) =~= Seq::<char>::empty());
    }
    while i < end
        invariant
            start <= i <= end,
            end <= state@.entries.len(),
            out@ == before_rows + entry_rows(state@, start as int, i as int),
        decreases end - i,
    {
        push_row(&mut out, state, i);
        i = i + 1;
        proof {
            assert(out@ =~= before_rows + entry_rows(state@, start as int, i as int));
        }
    }
    let shown = end - start;
    let blank = if rows >= shown {
        rows - shown
    } else {
        0
    };
    push_repeat(&mut out, '\n', blank);
    push_footer(&mut out, state);
    proof {
        assert(end == view_end(state@));
        assert(out@ =~= frame(state@));
    }
    string_of(&out)
}

} // verus!
