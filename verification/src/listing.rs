use vstd::prelude::*;
use std::cmp::Ordering;
use crate::order::{
    char_order, compare_chars, i128_order, u64_order, lemma_char_order_antisymmetric, lemma_char_order_transitive,
};
use crate::text::{chars_of, lowercase, to_lowercase};
use crate::version::{
    compare_numbers, extract_numbers, flip, lemma_lex_order_antisymmetric, lemma_lex_order_transitive,
    version_numbers, version_order,
};

verus! {

/// One entry of a directory listing.
#[derive(Clone, Debug)]
pub struct Entry {
    /// The file name.
    pub name: String,
    /// The path of the file.
    pub path: String,
    pub is_dir: bool,
    pub is_exec: bool,
    pub is_link: bool,
    /// The size in bytes.
    pub size: u64,
    pub marked: bool,
    /// The modification time, in nanoseconds from the Unix epoch (negative
    /// before it).
    pub mtime: i128,
}

/// The key that a listing is sorted by (after directories, where they come
/// first).
#[derive(Clone, Copy, Debug, PartialEq, Eq, Structural)]
pub enum SortMode {
    /// By name, lowercased, character by character.
    Name,
    /// Largest first.
    Size,
    /// Newest first.
    Time,
    /// By the numbers that the names hold.
    Version,
}

/// The order of two entries in a listing: directories before files when
/// `dirs_first` holds; then by the sort mode.
pub open spec fn entry_order(a: Entry, b: Entry, dirs_first: bool, mode: SortMode) -> Ordering {
    if dirs_first && a.is_dir && !b.is_dir {
        Ordering::Less
    } else if dirs_first && !a.is_dir && b.is_dir {
        Ordering::Greater
    } else {
        match mode {
            SortMode::Name => char_order(lowercase(a.name@), lowercase(b.name@)),
            SortMode::Size => u64_order(b.size, a.size),
            SortMode::Time => i128_order(b.mtime, a.mtime),
            SortMode::Version => version_order(a.name@, b.name@),
        }
    }
}

/// The order of entries is a total preorder: swapping two entries flips
/// the answer, and the order is transitive.
pub proof fn lemma_entry_order_preorder(a: Entry, b: Entry, c: Entry, dirs_first: bool, mode: SortMode)
    ensures
        entry_order(b, a, dirs_first, mode) == flip(entry_order(a, b, dirs_first, mode)),
        entry_order(a, a, dirs_first, mode) == Ordering::Equal,
        entry_order(a, b, dirs_first, mode) != Ordering::Greater && entry_order(b, c, dirs_first, mode)
            != Ordering::Greater ==> entry_order(a, c, dirs_first, mode) != Ordering::Greater,
{
    lemma_char_order_antisymmetric(lowercase(a.name@), lowercase(b.name@));
    lemma_char_order_antisymmetric(lowercase(a.name@), lowercase(a.name@));
    lemma_char_order_transitive(lowercase(a.name@), lowercase(b.name@), lowercase(c.name@));
    lemma_lex_order_antisymmetric(version_numbers(a.name@), version_numbers(b.name@));
    lemma_lex_order_antisymmetric(version_numbers(a.name@), version_numbers(a.name@));
    lemma_lex_order_transitive(
        version_numbers(a.name@),
        version_numbers(b.name@),
        version_numbers(c.name@),
    );
}

/// `p` names each index below `n` exactly once.
pub open spec fn is_index_permutation(p: Seq<int>, n: nat) -> bool {
    &&& p.len() == n
    &&& forall|i: int| 0 <= i < n ==> 0 <= #[trigger] p[i] < n
    &&& forall|i: int, j: int| 0 <= i < n && 0 <= j < n && i != j ==> #[trigger] p[i] != #[trigger] p[j]
}

/// `r` is `s` put in order by `p` (entry `i` of `r` is entry `p[i]` of `s`),
/// sorted, with entries that the order puts level kept in the order of `s`.
pub open spec fn sorted_image(
    r: Seq<Entry>,
    s: Seq<Entry>,
    p: Seq<int>,
    dirs_first: bool,
    mode: SortMode,
) -> bool {
    &&& r.len() == s.len()
    &&& is_index_permutation(p, s.len())
    &&& forall|i: int| 0 <= i < r.len() ==> #[trigger] r[i] == s[p[i]]
    &&& forall|i: int, j: int|
        0 <= i < j < r.len() ==> entry_order(#[trigger] r[i], #[trigger] r[j], dirs_first, mode)
            != Ordering::Greater
    &&& forall|i: int, j: int|
        0 <= i < j < r.len() && entry_order(#[trigger] r[i], #[trigger] r[j], dirs_first, mode)
            == Ordering::Equal ==> p[i] < p[j]
}

/// `r` is the stable sort of `s`: the order of `sort_by` on a listing.
pub open spec fn is_stable_sort(r: Seq<Entry>, s: Seq<Entry>, dirs_first: bool, mode: SortMode) -> bool {
    exists|p: Seq<int>| sorted_image(r, s, p, dirs_first, mode)
}

/// `a` comes after `b` in a listing.
pub open spec fn comes_after(a: Entry, b: Entry, dirs_first: bool, mode: SortMode) -> bool {
    entry_order(a, b, dirs_first, mode) == Ordering::Greater
}

/// `a` and `b` are level in the order of a listing.
pub open spec fn level(a: Entry, b: Entry, dirs_first: bool, mode: SortMode) -> bool {
    entry_order(a, b, dirs_first, mode) == Ordering::Equal
}

/// What comes after `x` and is not after `b` leaves `b` after `x`.
pub proof fn lemma_after_bound(x: Entry, a: Entry, b: Entry, dirs_first: bool, mode: SortMode)
    requires
        comes_after(a, x, dirs_first, mode),
        !comes_after(a, b, dirs_first, mode),
    ensures
        comes_after(b, x, dirs_first, mode),
{
    lemma_entry_order_preorder(a, b, x, dirs_first, mode);
}

/// Not being after is transitive.
pub proof fn lemma_not_after_transitive(a: Entry, b: Entry, c: Entry, dirs_first: bool, mode: SortMode)
    requires
        !comes_after(a, b, dirs_first, mode),
        !comes_after(b, c, dirs_first, mode),
    ensures
        !comes_after(a, c, dirs_first, mode),
{
    lemma_entry_order_preorder(a, b, c, dirs_first, mode);
}

/// Where `a` comes after `b`, `b` does not come after `a`, and the two are
/// not level.
pub proof fn lemma_after_strict(a: Entry, b: Entry, dirs_first: bool, mode: SortMode)
    requires
        comes_after(a, b, dirs_first, mode),
    ensures
        !comes_after(b, a, dirs_first, mode),
        !level(a, b, dirs_first, mode),
        !level(b, a, dirs_first, mode),
{
    lemma_entry_order_preorder(a, b, a, dirs_first, mode);
}

/// What a listing is sorted by, computed once per entry.
pub struct SortKey {
    pub is_dir: bool,
    /// The lowercased name.
    pub lower: Vec<char>,
    pub size: u64,
    pub mtime: i128,
    /// The numbers that the name holds.
    pub nums: Vec<u32>,
}

/// `k` is the sort key of `e`.
pub open spec fn key_matches(k: SortKey, e: Entry) -> bool {
    &&& k.is_dir == e.is_dir
    &&& k.lower@ == lowercase(e.name@)
    &&& k.size == e.size
    &&& k.mtime == e.mtime
    &&& k.nums@ == version_numbers(e.name@)
}

/// The sort key of an entry.
pub fn make_key(e: &Entry) -> (k: SortKey)
    ensures
        key_matches(k, *e),
{
    let low = to_lowercase(e.name.as_str());
    SortKey {
        is_dir: e.is_dir,
        lower: chars_of(low.as_str()),
        size: e.size,
        mtime: e.mtime,
        nums: extract_numbers(e.name.as_str()),
    }
}

fn compare_keys(
    a: &SortKey,
    b: &SortKey,
    Ghost(ea): Ghost<Entry>,
    Ghost(eb): Ghost<Entry>,
    dirs_first: bool,
    mode: SortMode,
) -> (r: Ordering)
    requires
        key_matches(*a, ea),
        key_matches(*b, eb),
    ensures
        r == entry_order(ea, eb, dirs_first, mode),
{
    if dirs_first && a.is_dir && !b.is_dir {
        return Ordering::Less;
    }
    if dirs_first && !a.is_dir && b.is_dir {
        return Ordering::Greater;
    }
    match mode {
        SortMode::Name => compare_chars(&a.lower, &b.lower),
        SortMode::Size => if b.size < a.size {
            Ordering::Less
        } else if b.size > a.size {
            Ordering::Greater
        } else {
            Ordering::Equal
        },
        SortMode::Time => if b.mtime < a.mtime {
            Ordering::Less
        } else if b.mtime > a.mtime {
            Ordering::Greater
        } else {
            Ordering::Equal
        },
        SortMode::Version => compare_numbers(&a.nums, &b.nums),
    }
}

/// Whether the entry keyed `a` comes after the entry keyed `b`.
pub fn key_after(
    a: &SortKey,
    b: &SortKey,
    Ghost(ea): Ghost<Entry>,
    Ghost(eb): Ghost<Entry>,
    dirs_first: bool,
    mode: SortMode,
) -> (r: bool)
    requires
        key_matches(*a, ea),
        key_matches(*b, eb),
    ensures
        r == comes_after(ea, eb, dirs_first, mode),
{
    match compare_keys(a, b, Ghost(ea), Ghost(eb), dirs_first, mode) {
        Ordering::Greater => true,
        _ => false,
    }
}

} // verus!
