use vstd::prelude::*;

verus! {

/// Copies the characters of `s` into a vector.
pub fn chars_of(s: &str) -> (r: Vec<char>)
    ensures
        r@ == s@,
{
    let mut r: Vec<char> = Vec::new();
    for c in it: s.chars()
        invariant
            r@ == it.seq().take(it.index() as int),
            it.seq() == s@,
    {
        r.push(c);
    }
    r
}

/// Appends one character to a string (`String::push`).
#[verifier::external_body]
pub(crate) fn push_char(s: &mut String, c: char)
    ensures
        final(s)@ == old(s)@.push(c),
{
    s.push(c);
}

/// Builds a string from its characters.
pub fn string_of(v: &[char]) -> (r: String)
    ensures
        r@ == v@,
{
    let mut r = String::new();
    let mut i: usize = 0;
    while i < v.len()
        invariant
            i <= v@.len(),
            r@ == v@.take(i as int),
        decreases v@.len() - i,
    {
        push_char(&mut r, v[i]);
        i = i + 1;
        proof {
            assert(v@.take(i as int) =~= v@.take(i - 1).push(v@[i - 1]));
        }
    }
    proof {
        assert(v@.take(v@.len() as int) =~= v@);
    }
    r
}

/// Appends the characters of `s` to `v`.
pub fn push_str(v: &mut Vec<char>, s: &str)
    ensures
        final(v)@ == old(v)@ + s@,
{
    let cs = chars_of(s);
    push_all(v, &cs);
}

/// Appends the characters of `w` to `v`.
pub fn push_all(v: &mut Vec<char>, w: &[char])
    ensures
        final(v)@ == old(v)@ + w@,
{
    let mut i: usize = 0;
    while i < w.len()
        invariant
            i <= w@.len(),
            v@ == old(v)@ + w@.take(i as int),
        decreases w@.len() - i,
    {
        v.push(w[i]);
        i = i + 1;
        proof {
            assert(w@.take(i as int) =~= w@.take(i - 1).push(w@[i - 1]));
        }
    }
    proof {
        assert(w@.take(w@.len() as int) =~= w@);
    }
}

/// The character of a decimal digit.
pub open spec fn digit_char(d: nat) -> char {
    ((48 + d) as u8) as char
}

/// The decimal notation of `n`, without leading zeros.
pub open spec fn decimal(n: nat) -> Seq<char>
    decreases n,
{
    if n < 10 {
        seq![digit_char(n)]
    } else {
        decimal(n / 10).push(digit_char(n % 10))
    }
}

/// The character of a decimal digit.
pub fn digit_to_char(d: u128) -> (c: char)
    requires
        d < 10,
    ensures
        c == digit_char(d as nat),
{
    let b: u8 = 48u8 + (d as u8);
    b as char
}

/// The decimal notation of `n`.
pub fn decimal_chars(n: u128) -> (r: Vec<char>)
    ensures
        r@ == decimal(n as nat),
    decreases n,
{
    if n < 10 {
        let mut v: Vec<char> = Vec::new();
        v.push(digit_to_char(n));
        proof {
            assert(v@ =~= seq![digit_char(n as nat)]);
        }
        v
    } else {
        let mut v = decimal_chars(n / 10);
        v.push(digit_to_char(n % 10));
        v
    }
}

/// `t` begins with `s`.
pub open spec fn starts_with(t: Seq<char>, s: Seq<char>) -> bool {
    s.len() <= t.len() && t.take(s.len() as int) == s
}

/// `t` ends with `s`.
pub open spec fn ends_with(t: Seq<char>, s: Seq<char>) -> bool {
    s.len() <= t.len() && t.skip(t.len() - s.len()) == s
}

/// `s` stands in `t` at position `i`.
pub open spec fn occurs_at(t: Seq<char>, s: Seq<char>, i: int) -> bool {
    0 <= i && i + s.len() <= t.len() && t.subrange(i, i + s.len()) == s
}

/// `s` stands somewhere in `t` (the empty text stands in every text).
pub open spec fn contains(t: Seq<char>, s: Seq<char>) -> bool {
    exists|i: int| occurs_at(t, s, i)
}

/// Whether `s` stands in `t` at position `i`.
pub fn occurs_at_exec(t: &[char], s: &[char], i: usize) -> (r: bool)
    requires
        i + s@.len() <= t@.len(),
    ensures
        r == occurs_at(t@, s@, i as int),
{
    let n = t.len();
    let mut k: usize = 0;
    while k < s.len()
        invariant
            n == t@.len(),
            k <= s@.len(),
            i + s@.len() <= t@.len(),
            forall|j: int| 0 <= j < k ==> t@[i + j] == s@[j],
        decreases s@.len() - k,
    {
        if t[i + k] != s[k] {
            proof {
                assert(t@.subrange(i as int, i + s@.len())[k as int] != s@[k as int]);
            }
            return false;
        }
        k = k + 1;
    }
    proof {
        assert(t@.subrange(i as int, i + s@.len()) =~= s@);
    }
    true
}

/// Whether `t` begins with `s`.
pub fn starts_with_exec(t: &[char], s: &[char]) -> (r: bool)
    ensures
        r == starts_with(t@, s@),
{
    if s.len() > t.len() {
        return false;
    }
    let r = occurs_at_exec(t, s, 0);
    proof {
        assert(t@.subrange(0, s@.len() as int) =~= t@.take(s@.len() as int));
    }
    r
}

/// Whether `t` ends with `s`.
pub fn ends_with_exec(t: &[char], s: &[char]) -> (r: bool)
    ensures
        r == ends_with(t@, s@),
{
    if s.len() > t.len() {
        return false;
    }
    let r = occurs_at_exec(t, s, t.len() - s.len());
    proof {
        assert(t@.subrange(t@.len() - s@.len(), t@.len() as int) =~= t@.skip(t@.len() - s@.len()));
    }
    r
}

/// Whether `s` stands somewhere in `t`.
pub fn contains_exec(t: &[char], s: &[char]) -> (r: bool)
    ensures
        r == contains(t@, s@),
{
    if s.len() > t.len() {
        return false;
    }
    let last = t.len() - s.len();
    let mut i: usize = 0;
    while i < last
        invariant
            i <= last,
            last == t@.len() - s@.len(),
            forall|j: int| 0 <= j < i ==> !occurs_at(t@, s@, j),
        decreases last - i,
    {
        if occurs_at_exec(t, s, i) {
            return true;
        }
        i = i + 1;
    }
    if occurs_at_exec(t, s, last) {
        return true;
    }
    proof {
        assert forall|j: int| !occurs_at(t@, s@, j) by {
            if 0 <= j && j + s@.len() <= t@.len() {
                assert(j <= last);
            }
        }
    }
    false
}

/// What `str::to_lowercase` makes of a text: its lowercase form under
/// Unicode's case mapping, where a character may become several and a
/// capital sigma is lowered by its context (final or not).
pub uninterp spec fn lowercase(s: Seq<char>) -> Seq<char>;

/// `str::to_lowercase`: the text with every character lowered as Unicode
/// says. The result is named by `lowercase`; nothing more is stated.
#[verifier::external_body]
pub(crate) fn to_lowercase(s: &str) -> (r: String)
    ensures
        r@ == lowercase(s@),
{
    s.to_lowercase()
}

/// Whether two texts are the same.
pub fn same_text(a: &str, b: &str) -> (r: bool)
    ensures
        r == (a@ == b@),
{
    let x = chars_of(a);
    let y = chars_of(b);
    if x.len() != y.len() {
        return false;
    }
    let mut i: usize = 0;
    while i < x.len()
        invariant
            x@ == a@,
            y@ == b@,
            x@.len() == y@.len(),
            i <= x@.len(),
            forall|j: int| 0 <= j < i ==> x@[j] == y@[j],
        decreases x@.len() - i,
    {
        if x[i] != y[i] {
            proof {
                assert(x@[i as int] != y@[i as int]);
            }
            return false;
        }
        i = i + 1;
    }
    proof {
        assert(x@ =~= y@);
    }
    true
}

/// White space as `char::is_whitespace` takes it: the characters with the
/// Unicode property White_Space.
pub open spec fn is_white(c: char) -> bool {
    let n = c as u32;
    ||| 0x09 <= n <= 0x0d
    ||| n == 0x20
    ||| n == 0x85
    ||| n == 0xa0
    ||| n == 0x1680
    ||| 0x2000 <= n <= 0x200a
    ||| n == 0x2028
    ||| n == 0x2029
    ||| n == 0x202f
    ||| n == 0x205f
    ||| n == 0x3000
}

/// The text without the white space at its beginning.
pub open spec fn trim_start(s: Seq<char>) -> Seq<char>
    decreases s.len(),
{
    if s.len() > 0 && is_white(s[0]) {
        trim_start(s.drop_first())
    } else {
        s
    }
}

/// The text without the white space at its end.
pub open spec fn trim_end(s: Seq<char>) -> Seq<char>
    decreases s.len(),
{
    if s.len() > 0 && is_white(s.last()) {
        trim_end(s.drop_last())
    } else {
        s
    }
}

/// The text without the white space at its two ends.
pub open spec fn trimmed(s: Seq<char>) -> Seq<char> {
    trim_end(trim_start(s))
}

/// `str::trim`: the text without the white space at its two ends, as its
/// documentation states it.
#[verifier::external_body]
pub(crate) fn trim(s: &str) -> (r: &str)
    ensures
        r@ == trimmed(s@),
{
    s.trim()
}

/// Removes the last character of a string, if it has one (`String::pop`).
#[verifier::external_body]
pub(crate) fn pop_char(s: &mut String)
    ensures
        final(s)@ == (if old(s)@.len() > 0 {
            old(s)@.drop_last()
        } else {
            old(s)@
        }),
{
    s.pop();
}

/// The texts joined with `sep` between each two.
pub open spec fn join(parts: Seq<Seq<char>>, sep: Seq<char>) -> Seq<char>
    decreases parts.len(),
{
    if parts.len() == 0 {
        Seq::empty()
    } else if parts.len() == 1 {
        parts[0]
    } else {
        join(parts.drop_last(), sep) + sep + parts.last()
    }
}

/// The strings joined with `sep` between each two.
pub fn join_exec(parts: &Vec<String>, sep: &str) -> (r: Vec<char>)
    ensures
        r@ == join(parts@.map_values(|s: String| s@), sep@),
{
    let ghost v = parts@.map_values(|s: String| s@);
    let mut r: Vec<char> = Vec::new();
    let mut i: usize = 0;
    while i < parts.len()
        invariant
            i <= parts@.len(),
            v == parts@.map_values(|s: String| s@),
            r@ == join(v.take(i as int), sep@),
        decreases parts@.len() - i,
    {
        proof {
            assert(v.take(i + 1).drop_last() =~= v.take(i as int));
        }
        if i > 0 {
            push_str(&mut r, sep);
        }
        push_str(&mut r, parts[i].as_str());
        i = i + 1;
    }
    proof {
        assert(v.take(parts@.len() as int) =~= v);
    }
    r
}

} // verus!
