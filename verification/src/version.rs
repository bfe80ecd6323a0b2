use vstd::prelude::*;
use std::cmp::Ordering;

verus! {

/// An ASCII decimal digit.
pub open spec fn is_digit(c: char) -> bool {
    '0' <= c && c <= '9'
}

/// The numeric value of an ASCII decimal digit.
pub open spec fn digit_value(c: char) -> nat {
    (c as int - '0' as int) as nat
}

/// The decimal value of a run of digits, most significant first.
pub open spec fn run_value(d: Seq<char>) -> nat
    decreases d.len(),
{
    if d.len() == 0 {
        0
    } else {
        run_value(d.drop_last()) * 10 + digit_value(d.last())
    }
}

/// The length of the run of digits at the front of `s`.
pub open spec fn leading_digits(s: Seq<char>) -> nat
    decreases s.len(),
{
    if s.len() == 0 || !is_digit(s[0]) {
        0
    } else {
        1 + leading_digits(s.drop_first())
    }
}

/// The numbers that a name holds, read left to right: each maximal run of
/// ASCII digits read as a decimal number, a run whose value does not fit
/// in a `u32` being left out.
pub open spec fn version_numbers(s: Seq<char>) -> Seq<u32>
    decreases s.len(),
{
    if s.len() == 0 {
        Seq::empty()
    } else if !is_digit(s[0]) {
        version_numbers(s.drop_first())
    } else {
        proof {
            lemma_leading_digits_bound(s);
        }
        let n = leading_digits(s);
        let v = run_value(s.take(n as int));
        if v <= u32::MAX {
            seq![v as u32] + version_numbers(s.skip(n as int))
        } else {
            version_numbers(s.skip(n as int))
        }
    }
}

/// Lexicographic order on sequences of numbers: the first differing number
/// decides, and where one sequence is a prefix of the other the shorter one
/// comes first.
pub open spec fn lex_order(a: Seq<u32>, b: Seq<u32>) -> Ordering
    decreases a.len(),
{
    if a.len() == 0 && b.len() == 0 {
        Ordering::Equal
    } else if a.len() == 0 {
        Ordering::Less
    } else if b.len() == 0 {
        Ordering::Greater
    } else if a[0] < b[0] {
        Ordering::Less
    } else if a[0] > b[0] {
        Ordering::Greater
    } else {
        lex_order(a.drop_first(), b.drop_first())
    }
}

/// The order that version sorting puts two names in.
pub open spec fn version_order(a: Seq<char>, b: Seq<char>) -> Ordering {
    lex_order(version_numbers(a), version_numbers(b))
}

/// The run of digits at the front of a text is no longer than the text.
pub proof fn lemma_leading_digits_bound(s: Seq<char>)
    ensures
        leading_digits(s) <= s.len(),
    decreases s.len(),
{
    if s.len() > 0 && is_digit(s[0]) {
        lemma_leading_digits_bound(s.drop_first());
    }
}

proof fn lemma_run_value_push(d: Seq<char>, c: char)
    ensures
        run_value(d.push(c)) == run_value(d) * 10 + digit_value(c),
{
    assert(d.push(c).drop_last() =~= d);
}

proof fn lemma_leading_digits_of_run(cur: Seq<char>, t: Seq<char>)
    requires
        forall|k: int| 0 <= k < cur.len() ==> is_digit(#[trigger] cur[k]),
        t.len() == 0 || !is_digit(t[0]),
    ensures
        leading_digits(cur + t) == cur.len(),
    decreases cur.len(),
{
    if cur.len() > 0 {
        assert((cur + t).drop_first() =~= cur.drop_first() + t);
        assert forall|k: int| 0 <= k < cur.drop_first().len() implies is_digit(
            #[trigger] cur.drop_first()[k],
        ) by {
            assert(cur.drop_first()[k] == cur[k + 1]);
        }
        lemma_leading_digits_of_run(cur.drop_first(), t);
    } else {
        assert(cur + t =~= t);
    }
}

/// The numbers of a digit run followed by text that does not go on with a digit.
proof fn lemma_numbers_after_run(cur: Seq<char>, t: Seq<char>)
    requires
        cur.len() > 0,
        forall|k: int| 0 <= k < cur.len() ==> is_digit(#[trigger] cur[k]),
        t.len() == 0 || !is_digit(t[0]),
    ensures
        version_numbers(cur + t) == (if run_value(cur) <= u32::MAX {
            seq![run_value(cur) as u32] + version_numbers(t)
        } else {
            version_numbers(t)
        }),
{
    lemma_leading_digits_of_run(cur, t);
    let s = cur + t;
    assert(s[0] == cur[0]);
    assert(s.take(cur.len() as int) =~= cur);
    assert(s.skip(cur.len() as int) =~= t);
}

/// The numbers that `s` holds, in order: each maximal run of ASCII digits
/// read as a decimal `u32`; a run whose value overflows a `u32` is skipped.
pub fn extract_numbers(s: &str) -> (nums: Vec<u32>)
    ensures
        nums@ == version_numbers(s@),
{
    let mut nums: Vec<u32> = Vec::new();
    let mut in_run = false;
    let mut cur_val: u64 = 0;
    let mut overflow = false;
    let ghost mut cur: Seq<char> = Seq::empty();
    proof {
        assert(cur + s@.skip(0) =~= s@);
        assert(nums@ + version_numbers(s@) =~= version_numbers(s@));
    }
    for c in it: s.chars()
        invariant
            it.seq() == s@,
            0 <= it.index() <= s@.len(),
            version_numbers(s@) == nums@ + version_numbers(cur + s@.skip(it.index() as int)),
            forall|k: int| 0 <= k < cur.len() ==> is_digit(#[trigger] cur[k]),
            in_run == (cur.len() > 0),
            overflow == (run_value(cur) > u32::MAX),
            !overflow ==> cur_val == run_value(cur),
    {
        let ghost i = it.index() as int;
        let ghost rest = s@.skip(i);
        assert(rest[0] == c);
        assert(rest.drop_first() =~= s@.skip(i + 1));
        if '0' <= c && c <= '9' {
            proof {
                lemma_run_value_push(cur, c);
                assert(cur.push(c) + s@.skip(i + 1) =~= cur + rest);
            }
            if !overflow {
                let d = digit_of(c);
                cur_val = cur_val * 10 + d;
                if cur_val > 4294967295u64 {
                    overflow = true;
                }
            }
            in_run = true;
            proof {
                cur = cur.push(c);
            }
        } else {
            if in_run {
                proof {
                    lemma_numbers_after_run(cur, rest);
                    assert(version_numbers(rest) == version_numbers(rest.drop_first()));
                    assert(Seq::<char>::empty() + s@.skip(i + 1) =~= s@.skip(i + 1));
                }
                if !overflow {
                    nums.push(narrow(cur_val));
                }
                in_run = false;
                cur_val = 0;
                overflow = false;
                proof {
                    cur = Seq::empty();
                }
            } else {
                proof {
                    assert(cur + rest =~= rest);
                    assert(Seq::<char>::empty() + s@.skip(i + 1) =~= s@.skip(i + 1));
                }
            }
        }
    }
    proof {
        assert(s@.skip(s@.len() as int) =~= Seq::<char>::empty());
        assert(cur + Seq::<char>::empty() =~= cur);
    }
    if in_run {
        proof {
            lemma_numbers_after_run(cur, Seq::empty());
        }
        if !overflow {
            nums.push(narrow(cur_val));
        }
    }
    proof {
        assert(nums@ =~= nums@ + Seq::<u32>::empty());
    }
    nums
}

fn digit_of(c: char) -> (d: u64)
    requires
        is_digit(c),
    ensures
        d == digit_value(c),
{
    (c as u32 - '0' as u32) as u64
}

fn narrow(v: u64) -> (r: u32)
    requires
        v <= u32::MAX,
    ensures
        r == v,
{
    v as u32
}

/// The numbers of `s` from position `i` on.
pub open spec fn suffix(s: Seq<u32>, i: usize) -> Seq<u32> {
    s.skip(i as int)
}

proof fn lemma_suffix_len(s: Seq<u32>, i: usize)
    requires
        i <= s.len(),
    ensures
        suffix(s, i).len() == s.len() - i,
        i == 0 ==> suffix(s, i) == s,
{
    if i == 0 {
        assert(suffix(s, i) =~= s);
    }
}

proof fn lemma_suffix_step(s: Seq<u32>, i: usize)
    requires
        i < s.len(),
        i < usize::MAX,
    ensures
        suffix(s, i).len() > 0,
        suffix(s, i)[0] == s[i as int],
        suffix(s, i).drop_first() == suffix(s, (i + 1) as usize),
{
    assert(suffix(s, i).drop_first() =~= suffix(s, (i + 1) as usize));
}

/// Compares two lists of numbers lexicographically (see `lex_order`).
pub fn compare_numbers(nums_a: &[u32], nums_b: &[u32]) -> (r: Ordering)
    ensures
        r == lex_order(nums_a@, nums_b@),
{
    let mut i: usize = 0;
    proof {
        lemma_suffix_len(nums_a@, i);
        lemma_suffix_len(nums_b@, i);
    }
    while i < nums_a.len() && i < nums_b.len()
        invariant
            i <= nums_a@.len(),
            i <= nums_b@.len(),
            lex_order(nums_a@, nums_b@) == lex_order(suffix(nums_a@, i), suffix(nums_b@, i)),
        decreases nums_a@.len() - i,
    {
        let x = nums_a[i];
        let y = nums_b[i];
        proof {
            lemma_suffix_step(nums_a@, i);
            lemma_suffix_step(nums_b@, i);
            assert(suffix(nums_a@, i)[0] == x);
            assert(suffix(nums_b@, i)[0] == y);
        }
        if x < y {
            return Ordering::Less;
        } else if x > y {
            return Ordering::Greater;
        }
        i = i + 1;
    }
    proof {
        lemma_suffix_len(nums_a@, i);
        lemma_suffix_len(nums_b@, i);
    }
    let la = nums_a.len();
    let lb = nums_b.len();
    if la < lb {
        Ordering::Less
    } else if la > lb {
        Ordering::Greater
    } else {
        Ordering::Equal
    }
}

/// Compares two names by the numbers that they hold (see `version_numbers`):
/// the first pair of numbers that differ decides, and where one list of
/// numbers is a prefix of the other the shorter one comes first.
pub fn version_compare(a: &str, b: &str) -> (r: Ordering)
    ensures
        r == version_order(a@, b@),
{
    let nums_a = extract_numbers(a);
    let nums_b = extract_numbers(b);
    compare_numbers(&nums_a, &nums_b)
}

/// The order that `Ordering::reverse` gives.
pub open spec fn flip(o: Ordering) -> Ordering {
    match o {
        Ordering::Less => Ordering::Greater,
        Ordering::Equal => Ordering::Equal,
        Ordering::Greater => Ordering::Less,
    }
}

/// Lexicographic order puts every sequence level with itself.
pub proof fn lemma_lex_order_reflexive(a: Seq<u32>)
    ensures
        lex_order(a, a) == Ordering::Equal,
    decreases a.len(),
{
    if a.len() > 0 {
        lemma_lex_order_reflexive(a.drop_first());
    }
}

/// Swapping the two sides of lexicographic order flips the answer.
pub proof fn lemma_lex_order_antisymmetric(a: Seq<u32>, b: Seq<u32>)
    ensures
        lex_order(b, a) == flip(lex_order(a, b)),
    decreases a.len(),
{
    if a.len() > 0 && b.len() > 0 && a[0] == b[0] {
        lemma_lex_order_antisymmetric(a.drop_first(), b.drop_first());
    }
}

/// Lexicographic order is transitive, both in its strict and in its
/// non-strict form.
pub proof fn lemma_lex_order_transitive(a: Seq<u32>, b: Seq<u32>, c: Seq<u32>)
    ensures
        lex_order(a, b) != Ordering::Greater && lex_order(b, c) != Ordering::Greater
            ==> lex_order(a, c) != Ordering::Greater,
        lex_order(a, b) == Ordering::Less && lex_order(b, c) != Ordering::Greater
            ==> lex_order(a, c) == Ordering::Less,
        lex_order(a, b) != Ordering::Greater && lex_order(b, c) == Ordering::Less
            ==> lex_order(a, c) == Ordering::Less,
        lex_order(a, b) == Ordering::Equal && lex_order(b, c) == Ordering::Equal
            ==> lex_order(a, c) == Ordering::Equal,
    decreases a.len(),
{
    if a.len() > 0 && b.len() > 0 && c.len() > 0 && a[0] == b[0] && b[0] == c[0] {
        lemma_lex_order_transitive(a.drop_first(), b.drop_first(), c.drop_first());
    }
}

/// Version order is a total preorder: every name is level with itself,
/// swapping the names flips the answer, and the order is transitive.
pub proof fn lemma_version_order_total_preorder(a: Seq<char>, b: Seq<char>, c: Seq<char>)
    ensures
        version_order(a, a) == Ordering::Equal,
        version_order(b, a) == flip(version_order(a, b)),
        version_order(a, b) != Ordering::Greater && version_order(b, c) != Ordering::Greater
            ==> version_order(a, c) != Ordering::Greater,
        version_order(a, b) == Ordering::Less && version_order(b, c) != Ordering::Greater
            ==> version_order(a, c) == Ordering::Less,
        version_order(a, b) == Ordering::Equal && version_order(b, c) == Ordering::Equal
            ==> version_order(a, c) == Ordering::Equal,
{
    lemma_lex_order_reflexive(version_numbers(a));
    lemma_lex_order_antisymmetric(version_numbers(a), version_numbers(b));
    lemma_lex_order_transitive(version_numbers(a), version_numbers(b), version_numbers(c));
}

} // verus!
