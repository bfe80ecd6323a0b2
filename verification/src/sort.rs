use vstd::prelude::*;
use std::collections::VecDeque;
use crate::listing::{
    Entry, SortKey, SortMode, comes_after, is_stable_sort, key_after, key_matches, lemma_after_bound,
    lemma_after_strict, lemma_not_after_transitive, level, make_key, sorted_image,
};
use crate::text::{
    chars_of, contains, contains_exec, lowercase, starts_with, starts_with_exec, to_lowercase,
};

verus! {

/// An entry with its sort key.
pub struct Keyed {
    pub key: SortKey,
    pub entry: Entry,
}

/// The entries of keyed entries.
pub open spec fn entries_of(s: Seq<Keyed>) -> Seq<Entry> {
    s.map_values(|k: Keyed| k.entry)
}

/// All keys of a run match their entries.
pub open spec fn keys_match(s: Seq<Keyed>) -> bool {
    forall|i: int| 0 <= i < s.len() ==> key_matches(#[trigger] s[i].key, s[i].entry)
}

/// Merges two sorted runs into one, taking from the first run while its
/// head does not come after the head of the second: the merge of the
/// stable sorts of `s1` and `s2` is the stable sort of `s1 + s2`.
fn merge_runs(
    a: VecDeque<Keyed>,
    b: VecDeque<Keyed>,
    Ghost(s1): Ghost<Seq<Entry>>,
    Ghost(s2): Ghost<Seq<Entry>>,
    dirs_first: bool,
    mode: SortMode,
) -> (out: VecDeque<Keyed>)
    requires
        keys_match(a@),
        keys_match(b@),
        is_stable_sort(entries_of(a@), s1, dirs_first, mode),
        is_stable_sort(entries_of(b@), s2, dirs_first, mode),
    ensures
        keys_match(out@),
        is_stable_sort(entries_of(out@), s1 + s2, dirs_first, mode),
{
    let ghost ak = a@;
    let ghost bk = b@;
    let ghost ea = entries_of(ak);
    let ghost eb = entries_of(bk);
    let ghost p1 = choose|p: Seq<int>| sorted_image(ea, s1, p, dirs_first, mode);
    let ghost p2 = choose|p: Seq<int>| sorted_image(eb, s2, p, dirs_first, mode);
    let ghost n1 = ea.len() as int;
    let mut a = a;
    let mut b = b;
    let mut out: VecDeque<Keyed> = VecDeque::new();
    let ghost mut q: Seq<int> = Seq::empty();
    let ghost mut from_a: Seq<bool> = Seq::empty();
    let ghost mut idx: Seq<int> = Seq::empty();
    let ghost mut i: int = 0;
    let ghost mut k: int = 0;
    while a.len() > 0 || b.len() > 0
        invariant
            sorted_image(ea, s1, p1, dirs_first, mode),
            sorted_image(eb, s2, p2, dirs_first, mode),
            ea == entries_of(ak),
            eb == entries_of(bk),
            n1 == ea.len(),
            keys_match(ak),
            keys_match(bk),
            0 <= i <= ak.len(),
            0 <= k <= bk.len(),
            a@ == ak.skip(i),
            b@ == bk.skip(k),
            keys_match(out@),
            out@.len() == i + k,
            q.len() == i + k,
            from_a.len() == i + k,
            idx.len() == i + k,
            forall|t: int|
                0 <= t < out@.len() ==> if #[trigger] from_a[t] {
                    0 <= idx[t] < i && entries_of(out@)[t] == ea[idx[t]] && q[t] == p1[idx[t]]
                } else {
                    0 <= idx[t] < k && entries_of(out@)[t] == eb[idx[t]] && q[t] == n1 + p2[idx[t]]
                },
            forall|t: int, u: int|
                0 <= t < u < out@.len() && from_a[t] == from_a[u] ==> #[trigger] idx[t] < #[trigger] idx[u],
            forall|t: int, u: int|
                0 <= t < u < out@.len() ==> !comes_after(
                    #[trigger] entries_of(out@)[t],
                    #[trigger] entries_of(out@)[u],
                    dirs_first,
                    mode,
                ),
            forall|t: int, u: int|
                0 <= t < u < out@.len() && level(
                    #[trigger] entries_of(out@)[t],
                    #[trigger] entries_of(out@)[u],
                    dirs_first,
                    mode,
                ) ==> q[t] < q[u],
            forall|t: int, j: int|
                0 <= t < out@.len() && i <= j < ea.len() ==> !comes_after(
                    #[trigger] entries_of(out@)[t],
                    #[trigger] ea[j],
                    dirs_first,
                    mode,
                ),
            forall|t: int, j: int|
                0 <= t < out@.len() && k <= j < eb.len() ==> !comes_after(
                    #[trigger] entries_of(out@)[t],
                    #[trigger] eb[j],
                    dirs_first,
                    mode,
                ),
            forall|t: int, j: int|
                0 <= t < out@.len() && !from_a[t] && i <= j < ea.len() ==> comes_after(
                    #[trigger] ea[j],
                    #[trigger] entries_of(out@)[t],
                    dirs_first,
                    mode,
                ),
        decreases ak.len() + bk.len() - i - k,
    {
        let ghost o = entries_of(out@);
        let take_a = if a.len() == 0 {
            false
        } else if b.len() == 0 {
            true
        } else {
            assert(a@[0] == ak[i] && b@[0] == bk[k]);
            !key_after(&a[0].key, &b[0].key, Ghost(a@[0].entry), Ghost(b@[0].entry), dirs_first, mode)
        };
        if take_a {
            let x = a.pop_front().unwrap();
            proof {
                assert(x == ak[i]);
                assert(x.entry == ea[i]);
            }
            out.push_back(x);
            proof {
                let o2 = entries_of(out@);
                assert(o2 =~= o.push(ea[i]));
                assert forall|j: int| i < j < ea.len() implies !comes_after(ea[i], #[trigger] ea[j], dirs_first, mode) by {}
                assert forall|j: int| k <= j < eb.len() implies !comes_after(ea[i], #[trigger] eb[j], dirs_first, mode) by {
                    if j > k {
                        lemma_not_after_transitive(ea[i], eb[k], eb[j], dirs_first, mode);
                    }
                }
                assert forall|t: int| 0 <= t < o.len() && level(#[trigger] o[t], ea[i], dirs_first, mode) implies q[t] < p1[i] by {
                    if from_a[t] {
                        assert(idx[t] < i);
                    } else {
                        lemma_after_strict(ea[i], o[t], dirs_first, mode);
                    }
                }
                q = q.push(p1[i]);
                from_a = from_a.push(true);
                idx = idx.push(i);
                i = i + 1;
            }
        } else {
            let x = b.pop_front().unwrap();
            proof {
                assert(x == bk[k]);
                assert(x.entry == eb[k]);
            }
            out.push_back(x);
            proof {
                let o2 = entries_of(out@);
                assert(o2 =~= o.push(eb[k]));
                assert forall|j: int| k < j < eb.len() implies !comes_after(eb[k], #[trigger] eb[j], dirs_first, mode) by {}
                if i < ea.len() {
                    assert(comes_after(ea[i], eb[k], dirs_first, mode));
                    lemma_after_strict(ea[i], eb[k], dirs_first, mode);
                    assert forall|j: int| i <= j < ea.len() implies comes_after(#[trigger] ea[j], eb[k], dirs_first, mode) by {
                        if j > i {
                            lemma_after_bound(eb[k], ea[i], ea[j], dirs_first, mode);
                        }
                    }
                    assert forall|j: int| i <= j < ea.len() implies !comes_after(eb[k], #[trigger] ea[j], dirs_first, mode) by {
                        lemma_after_strict(ea[j], eb[k], dirs_first, mode);
                    }
                }
                assert forall|t: int| 0 <= t < o.len() && level(#[trigger] o[t], eb[k], dirs_first, mode) implies q[t] < n1 + p2[k] by {
                    if from_a[t] {
                        assert(0 <= p1[idx[t]] < n1);
                    } else {
                        assert(idx[t] < k);
                    }
                }
                q = q.push(n1 + p2[k]);
                from_a = from_a.push(false);
                idx = idx.push(k);
                k = k + 1;
            }
        }
    }
    proof {
        let o = entries_of(out@);
        let s = s1 + s2;
        assert(i == ak.len() && k == bk.len());
        assert forall|t: int| 0 <= t < o.len() implies 0 <= #[trigger] q[t] < s.len() && o[t] == s[q[t]] by {
            if from_a[t] {
                assert(s[p1[idx[t]]] == s1[p1[idx[t]]]);
            } else {
                assert(s[n1 + p2[idx[t]]] == s2[p2[idx[t]]]);
            }
        }
        assert forall|t: int, u: int| 0 <= t < s.len() && 0 <= u < s.len() && t != u implies #[trigger] q[t] != #[trigger] q[u] by {
            if from_a[t] && from_a[u] {
                assert(idx[t] != idx[u]) by {
                    if t < u { assert(idx[t] < idx[u]); } else { assert(idx[u] < idx[t]); }
                }
            } else if !from_a[t] && !from_a[u] {
                assert(idx[t] != idx[u]) by {
                    if t < u { assert(idx[t] < idx[u]); } else { assert(idx[u] < idx[t]); }
                }
            }
        }
        assert(sorted_image(o, s, q, dirs_first, mode));
    }
    out
}

/// Sorts a run stably by splitting it in halves, sorting each and merging.
fn sort_run(items: VecDeque<Keyed>, dirs_first: bool, mode: SortMode) -> (out: VecDeque<Keyed>)
    requires
        keys_match(items@),
    ensures
        keys_match(out@),
        is_stable_sort(entries_of(out@), entries_of(items@), dirs_first, mode),
    decreases items@.len(),
{
    let ghost all = items@;
    let n = items.len();
    if n <= 1 {
        proof {
            let s = entries_of(all);
            let p: Seq<int> = if n == 0 { Seq::empty() } else { seq![0int] };
            assert(sorted_image(s, s, p, dirs_first, mode));
        }
        return items;
    }
    let mut left = items;
    let right = left.split_off(n / 2);
    let ghost el = entries_of(left@);
    let ghost er = entries_of(right@);
    proof {
        assert(entries_of(all) =~= el + er);
    }
    let sl = sort_run(left, dirs_first, mode);
    let sr = sort_run(right, dirs_first, mode);
    merge_runs(sl, sr, Ghost(el), Ghost(er), dirs_first, mode)
}

/// Sorts keyed entries stably by the order of a listing (merge sort).
pub fn sort_keyed(items: Vec<Keyed>, dirs_first: bool, mode: SortMode) -> (out: Vec<Keyed>)
    requires
        forall|i: int| 0 <= i < items@.len() ==> key_matches(#[trigger] items@[i].key, items@[i].entry),
    ensures
        forall|i: int| 0 <= i < out@.len() ==> key_matches(#[trigger] out@[i].key, out@[i].entry),
        is_stable_sort(entries_of(out@), entries_of(items@), dirs_first, mode),
{
    let ghost all = items@;
    let mut run: VecDeque<Keyed> = VecDeque::new();
    for x in it: items.into_iter()
        invariant
            it.seq() == all,
            run@ == all.take(it.index() as int),
    {
        run.push_back(x);
        proof {
            assert(run@ =~= all.take(it.index() + 1));
        }
    }
    proof {
        assert(run@ =~= all);
    }
    let mut sorted = sort_run(run, dirs_first, mode);
    let ghost sk = sorted@;
    let mut out: Vec<Keyed> = Vec::new();
    while sorted.len() > 0
        invariant
            out@ + sorted@ == sk,
        decreases sorted@.len(),
    {
        let ghost before = sorted@;
        let x = sorted.pop_front().unwrap();
        out.push(x);
        proof {
            assert(out@ + sorted@ =~= sk);
        }
    }
    proof {
        assert(out@ =~= sk);
    }
    out
}

/// Whether a name is listed: hidden names (those that begin with `.`) only
/// when hidden entries are shown, and, under a filter, only names whose
/// lowercase form holds the lowercase form of the filter.
pub open spec fn is_listed(name: Seq<char>, show_hidden: bool, filter: Option<Seq<char>>) -> bool {
    &&& show_hidden || !starts_with(name, seq!['.'])
    &&& match filter {
        None => true,
        Some(f) => contains(lowercase(name), lowercase(f)),
    }
}

/// Some marked entry of `old` has the path `path`.
pub open spec fn was_marked(old: Seq<Entry>, path: Seq<char>) -> bool {
    exists|i: int| 0 <= i < old.len() && #[trigger] old[i].marked && old[i].path@ == path
}

/// `e` with its mark set to `m`.
pub open spec fn with_mark(e: Entry, m: bool) -> Entry {
    Entry { marked: m, ..e }
}

/// The entries of a directory read that a listing holds, in the order
/// read: those listed, each marked when an entry of the previous listing
/// with the same path was marked.
pub open spec fn listing_candidates(
    raw: Seq<Entry>,
    old: Seq<Entry>,
    show_hidden: bool,
    filter: Option<Seq<char>>,
) -> Seq<Entry>
    decreases raw.len(),
{
    if raw.len() == 0 {
        Seq::empty()
    } else {
        let rest = listing_candidates(raw.drop_last(), old, show_hidden, filter);
        let e = raw.last();
        if is_listed(e.name@, show_hidden, filter) {
            rest.push(with_mark(e, was_marked(old, e.path@)))
        } else {
            rest
        }
    }
}

/// Every entry of a listing is named as some entry of the read was.
proof fn lemma_candidates_named_from(
    raw: Seq<Entry>,
    old: Seq<Entry>,
    show_hidden: bool,
    filter: Option<Seq<char>>,
)
    ensures
        forall|j: int|
            0 <= j < listing_candidates(raw, old, show_hidden, filter).len() ==> exists|k: int|
                0 <= k < raw.len() && (#[trigger] listing_candidates(raw, old, show_hidden, filter)[j]).name
                    == raw[k].name,
    decreases raw.len(),
{
    if raw.len() > 0 {
        lemma_candidates_named_from(raw.drop_last(), old, show_hidden, filter);
        let c = listing_candidates(raw, old, show_hidden, filter);
        let rest = listing_candidates(raw.drop_last(), old, show_hidden, filter);
        assert forall|j: int| 0 <= j < c.len() implies exists|k: int|
            0 <= k < raw.len() && (#[trigger] c[j]).name == raw[k].name by {
            if j < rest.len() {
                assert(c[j] == rest[j]);
                let k = choose|k: int| 0 <= k < raw.drop_last().len() && rest[j].name == raw.drop_last()[k].name;
                assert(raw[k] == raw.drop_last()[k]);
            } else {
                assert(c[j].name == raw[raw.len() - 1].name);
            }
        }
    }
}

/// Whether the name is listed (see `is_listed`); `lower_filter` is the
/// lowercase form of the filter.
fn listed_exec(name: &str, show_hidden: bool, lower_filter: &Option<Vec<char>>, Ghost(filter): Ghost<Option<Seq<char>>>) -> (r: bool)
    requires
        match filter {
            None => lower_filter is None,
            Some(f) => lower_filter matches Some(lf) && lf@ == lowercase(f),
        },
    ensures
        r == is_listed(name@, show_hidden, filter),
{
    if !show_hidden {
        let cs = chars_of(name);
        let dot: Vec<char> = vec!['.'];
        assert(dot@ =~= seq!['.']);
        if starts_with_exec(&cs, &dot) {
            return false;
        }
    }
    match lower_filter {
        None => true,
        Some(lf) => {
            let low = to_lowercase(name);
            let lc = chars_of(low.as_str());
            contains_exec(&lc, lf)
        },
    }
}

/// Whether a name is listed (see `is_listed`).
pub fn is_listed_exec(name: &str, show_hidden: bool, filter: &Option<String>) -> (r: bool)
    ensures
        r == is_listed(name@, show_hidden, filter.deep_view()),
{
    let lower_filter: Option<Vec<char>> = match filter {
        None => None,
        Some(fs) => {
            let low = to_lowercase(fs.as_str());
            Some(chars_of(low.as_str()))
        },
    };
    listed_exec(name, show_hidden, &lower_filter, Ghost(filter.deep_view()))
}

/// The paths of the marked entries of `old`, gathered once so that each
/// entry read is looked up among the marked ones only.
fn marked_path_list(old: &Vec<Entry>) -> (r: Vec<&String>)
    ensures
        forall|path: Seq<char>| #[trigger] was_marked(old@, path) <==> exists|j: int|
            0 <= j < r@.len() && (#[trigger] r@[j])@ == path,
{
    let mut r: Vec<&String> = Vec::new();
    let ghost mut src: Seq<int> = Seq::empty();
    let mut i: usize = 0;
    while i < old.len()
        invariant
            i <= old@.len(),
            src.len() == r@.len(),
            forall|j: int| 0 <= j < r@.len() ==> 0 <= #[trigger] src[j] < i && old@[src[j]].marked
                && old@[src[j]].path@ == r@[j]@,
            forall|k: int| 0 <= k < i && #[trigger] old@[k].marked ==> exists|j: int|
                0 <= j < r@.len() && (#[trigger] r@[j])@ == old@[k].path@,
        decreases old@.len() - i,
    {
        let ghost r0 = r@;
        if old[i].marked {
            r.push(&old[i].path);
            proof {
                src = src.push(i as int);
            }
        }
        proof {
            assert forall|k: int| 0 <= k < i + 1 && #[trigger] old@[k].marked implies exists|j: int|
                0 <= j < r@.len() && (#[trigger] r@[j])@ == old@[k].path@ by {
                if k < i {
                    let j = choose|j: int| 0 <= j < r0.len() && (#[trigger] r0[j])@ == old@[k].path@;
                    assert(r@[j] == r0[j]);
                } else {
                    let j = r@.len() - 1;
                    assert(r@[j]@ == old@[k].path@);
                }
            }
        }
        i = i + 1;
    }
    proof {
        assert forall|path: Seq<char>| #[trigger] was_marked(old@, path) implies exists|j: int|
            0 <= j < r@.len() && (#[trigger] r@[j])@ == path by {
            let k = choose|k: int| 0 <= k < old@.len() && #[trigger] old@[k].marked && old@[k].path@ == path;
            assert(old@[k].marked);
        }
        assert forall|path: Seq<char>| (exists|j: int| 0 <= j < r@.len() && (#[trigger] r@[j])@ == path)
            implies #[trigger] was_marked(old@, path) by {
            let j = choose|j: int| 0 <= j < r@.len() && (#[trigger] r@[j])@ == path;
            assert(old@[src[j]].marked);
        }
    }
    r
}

/// Whether `path` is among `paths`.
fn path_listed(paths: &Vec<&String>, path: &String) -> (r: bool)
    ensures
        r == exists|j: int| 0 <= j < paths@.len() && (#[trigger] paths@[j])@ == path@,
{
    let mut i: usize = 0;
    while i < paths.len()
        invariant
            i <= paths@.len(),
            forall|j: int| 0 <= j < i ==> (#[trigger] paths@[j])@ != path@,
        decreases paths@.len() - i,
    {
        if *paths[i] == *path {
            proof {
                assert(paths@[i as int]@ == path@);
            }
            return true;
        }
        i = i + 1;
    }
    false
}

/// The listing of a directory: the entries read that are listed (see
/// `is_listed`), each marked when the previous listing held a marked entry
/// with the same path, sorted stably by the listing order.
pub fn build_listing(
    raw: Vec<Entry>,
    old: &Vec<Entry>,
    show_hidden: bool,
    filter: &Option<String>,
    dirs_first: bool,
    mode: SortMode,
) -> (r: Vec<Entry>)
    ensures
        is_stable_sort(
            r@,
            listing_candidates(raw@, old@, show_hidden, filter.deep_view()),
            dirs_first,
            mode,
        ),
        forall|i: int| 0 <= i < r@.len() ==> exists|k: int|
            0 <= k < raw@.len() && (#[trigger] r@[i]).name == raw@[k].name,
{
    let ghost f = filter.deep_view();
    let ghost raw0 = raw@;
    let lower_filter: Option<Vec<char>> = match filter {
        None => None,
        Some(fs) => {
            let low = to_lowercase(fs.as_str());
            Some(chars_of(low.as_str()))
        },
    };
    let ghost all = raw@;
    let marks = marked_path_list(old);
    let mut items: Vec<Keyed> = Vec::new();
    for e in it: raw.into_iter()
        invariant
            forall|path: Seq<char>| #[trigger] was_marked(old@, path) <==> exists|j: int|
                0 <= j < marks@.len() && (#[trigger] marks@[j])@ == path,
            it.seq() == all,
            f == filter.deep_view(),
            match f {
                None => lower_filter is None,
                Some(fv) => lower_filter matches Some(lf) && lf@ == lowercase(fv),
            },
            entries_of(items@) == listing_candidates(all.take(it.index() as int), old@, show_hidden, f),
            forall|i: int| 0 <= i < items@.len() ==> key_matches(#[trigger] items@[i].key, items@[i].entry),
    {
        let ghost i = it.index() as int;
        let ghost orig = e;
        proof {
            assert(all.take(i + 1).drop_last() =~= all.take(i));
            assert(all.take(i + 1).last() == e);
        }
        if listed_exec(e.name.as_str(), show_hidden, &lower_filter, Ghost(f)) {
            let m = path_listed(&marks, &e.path);
            assert(m == was_marked(old@, e.path@));
            let mut e2 = e;
            e2.marked = m;
            assert(e2 == with_mark(orig, m));
            let key = make_key(&e2);
            items.push(Keyed { key, entry: e2 });
            proof {
                assert(entries_of(items@) =~= listing_candidates(all.take(i), old@, show_hidden, f).push(e2));
            }
        }
    }
    proof {
        assert(all.take(all.len() as int) =~= all);
    }
    let sorted = sort_keyed(items, dirs_first, mode);
    let ghost sorted_items = sorted@;
    let mut r: Vec<Entry> = Vec::new();
    for k in it: sorted.into_iter()
        invariant
            it.seq() == sorted_items,
            r@ == entries_of(sorted_items).take(it.index() as int),
    {
        r.push(k.entry);
        proof {
            assert(r@ =~= entries_of(sorted_items).take(it.index() + 1));
        }
    }
    proof {
        assert(r@ =~= entries_of(sorted_items));
        let c = listing_candidates(raw0, old@, show_hidden, f);
        lemma_candidates_named_from(raw0, old@, show_hidden, f);
        let p = choose|p: Seq<int>| sorted_image(r@, c, p, dirs_first, mode);
        assert forall|i: int| 0 <= i < r@.len() implies exists|k: int|
            0 <= k < raw0.len() && (#[trigger] r@[i]).name == raw0[k].name by {
            assert(r@[i] == c[p[i]]);
        }
    }
    r
}

/// Whether a file read from a directory is listed as executable: it is
/// not a directory and one of its execute permission bits (mode `0o111`)
/// is set.
pub fn is_executable(is_dir: bool, mode: u32) -> (r: bool)
    ensures
        r == (!is_dir && (mode & 73u32) != 0),
{
    !is_dir && (mode & 73u32) != 0
}

/// A modification time in nanoseconds from the Unix epoch, negative before
/// it, held at the bounds of `i128` beyond them.
pub open spec fn time_nanos(before_epoch: bool, nanos: nat) -> int {
    let n: int = if nanos > i128::MAX { i128::MAX as int } else { nanos as int };
    if before_epoch {
        -n
    } else {
        n
    }
}

/// The modification time of an entry from its distance to the Unix epoch
/// (see `time_nanos`).
pub fn time_value(before_epoch: bool, nanos: u128) -> (r: i128)
    ensures
        r == time_nanos(before_epoch, nanos as nat),
{
    let n: i128 = if nanos > 170141183460469231731687303715884105727u128 {
        170141183460469231731687303715884105727i128
    } else {
        nanos as i128
    };
    if before_epoch {
        -n
    } else {
        n
    }
}

} // verus!
