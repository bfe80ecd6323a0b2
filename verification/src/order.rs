use vstd::prelude::*;
use std::cmp::Ordering;
use crate::version::flip;

verus! {

/// Lexicographic order on texts, character by character (by code point,
/// which is also the order of their UTF-8 bytes); a prefix comes first.
pub open spec fn char_order(a: Seq<char>, b: Seq<char>) -> Ordering
    decreases a.len(),
{
    if a.len() == 0 && b.len() == 0 {
        Ordering::Equal
    } else if a.len() == 0 {
        Ordering::Less
    } else if b.len() == 0 {
        Ordering::Greater
    } else if a[0] < b[0] {
        Ordering::Less
    } else if a[0] > b[0] {
        Ordering::Greater
    } else {
        char_order(a.drop_first(), b.drop_first())
    }
}

/// The order of two sizes.
pub open spec fn u64_order(x: u64, y: u64) -> Ordering {
    if x < y {
        Ordering::Less
    } else if x > y {
        Ordering::Greater
    } else {
        Ordering::Equal
    }
}

/// The order of two times.
pub open spec fn i128_order(x: i128, y: i128) -> Ordering {
    if x < y {
        Ordering::Less
    } else if x > y {
        Ordering::Greater
    } else {
        Ordering::Equal
    }
}

/// Swapping the sides of character order flips the answer.
pub proof fn lemma_char_order_antisymmetric(a: Seq<char>, b: Seq<char>)
    ensures
        char_order(b, a) == flip(char_order(a, b)),
    decreases a.len(),
{
    if a.len() > 0 && b.len() > 0 && a[0] == b[0] {
        lemma_char_order_antisymmetric(a.drop_first(), b.drop_first());
    }
}

/// Character order is transitive, strictly and not.
pub proof fn lemma_char_order_transitive(a: Seq<char>, b: Seq<char>, c: Seq<char>)
    ensures
        char_order(a, b) != Ordering::Greater && char_order(b, c) != Ordering::Greater
            ==> char_order(a, c) != Ordering::Greater,
        char_order(a, b) == Ordering::Less && char_order(b, c) != Ordering::Greater
            ==> char_order(a, c) == Ordering::Less,
        char_order(a, b) != Ordering::Greater && char_order(b, c) == Ordering::Less
            ==> char_order(a, c) == Ordering::Less,
    decreases a.len(),
{
    if a.len() > 0 && b.len() > 0 && c.len() > 0 && a[0] == b[0] && b[0] == c[0] {
        lemma_char_order_transitive(a.drop_first(), b.drop_first(), c.drop_first());
    }
}

/// The characters of `s` from position `i` on.
pub open spec fn char_suffix(s: Seq<char>, i: usize) -> Seq<char> {
    s.skip(i as int)
}

proof fn lemma_char_suffix_len(s: Seq<char>, i: usize)
    requires
        i <= s.len(),
    ensures
        char_suffix(s, i).len() == s.len() - i,
        i == 0 ==> char_suffix(s, i) == s,
{
    if i == 0 {
        assert(char_suffix(s, i) =~= s);
    }
}

proof fn lemma_char_suffix_step(s: Seq<char>, i: usize)
    requires
        i < s.len(),
        i < usize::MAX,
    ensures
        char_suffix(s, i).len() > 0,
        char_suffix(s, i)[0] == s[i as int],
        char_suffix(s, i).drop_first() == char_suffix(s, (i + 1) as usize),
{
    assert(char_suffix(s, i).drop_first() =~= char_suffix(s, (i + 1) as usize));
}

/// Compares two texts character by character (see `char_order`).
pub fn compare_chars(a: &[char], b: &[char]) -> (r: Ordering)
    ensures
        r == char_order(a@, b@),
{
    let mut i: usize = 0;
    proof {
        lemma_char_suffix_len(a@, i);
        lemma_char_suffix_len(b@, i);
    }
    while i < a.len() && i < b.len()
        invariant
            i <= a@.len(),
            i <= b@.len(),
            char_order(a@, b@) == char_order(char_suffix(a@, i), char_suffix(b@, i)),
        decreases a@.len() - i,
    {
        let x = a[i];
        let y = b[i];
        proof {
            lemma_char_suffix_step(a@, i);
            lemma_char_suffix_step(b@, i);
            assert(char_suffix(a@, i)[0] == x);
            assert(char_suffix(b@, i)[0] == y);
        }
        if x < y {
            return Ordering::Less;
        } else if x > y {
            return Ordering::Greater;
        }
        i = i + 1;
    }
    proof {
        lemma_char_suffix_len(a@, i);
        lemma_char_suffix_len(b@, i);
    }
    let la = a.len();
    let lb = b.len();
    if la < lb {
        Ordering::Less
    } else if la > lb {
        Ordering::Greater
    } else {
        Ordering::Equal
    }
}

} // verus!
