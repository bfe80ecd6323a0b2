use vstd::prelude::*;
use crate::text::{chars_of, push_str, string_of};

verus! {

/// The number of characters before the first line feed (all of them if
/// there is none).
pub open spec fn line_len(s: Seq<char>) -> nat
    decreases s.len(),
{
    if s.len() == 0 || s[0] == '\n' {
        0
    } else {
        1 + line_len(s.drop_first())
    }
}

/// A line without the carriage return that ended it.
pub open spec fn strip_cr(l: Seq<char>) -> Seq<char> {
    if l.len() > 0 && l.last() == '\r' {
        l.drop_last()
    } else {
        l
    }
}

/// The lines of a text as `str::lines` gives them: split at each line feed,
/// a carriage return before a line feed dropped, a line feed at the very end
/// starting no further line.
pub open spec fn lines(s: Seq<char>) -> Seq<Seq<char>>
    decreases s.len(),
{
    if s.len() == 0 {
        Seq::empty()
    } else {
        let n = line_len(s);
        if n >= s.len() {
            seq![s]
        } else {
            seq![strip_cr(s.take(n as int))] + lines(s.skip(n as int + 1))
        }
    }
}

pub proof fn lemma_line_len_bound(s: Seq<char>)
    ensures
        line_len(s) <= s.len(),
        line_len(s) < s.len() ==> s[line_len(s) as int] == '\n',
        forall|k: int| 0 <= k < line_len(s) ==> s[k] != '\n',
    decreases s.len(),
{
    if s.len() > 0 && s[0] != '\n' {
        lemma_line_len_bound(s.drop_first());
        assert forall|k: int| 0 <= k < line_len(s) implies s[k] != '\n' by {
            if k > 0 {
                assert(s[k] == s.drop_first()[k - 1]);
            }
        }
    }
}

/// The two settings that a session file holds.
#[derive(Clone, Copy, Debug, PartialEq, Eq, Structural)]
pub enum SessionKey {
    /// `current_dir`: the directory shown.
    CurrentDir,
    /// `last_dir`: the directory visited before the last jump.
    LastDir,
}

/// The number of characters before the first `=` (all if there is none).
pub open spec fn key_len(s: Seq<char>) -> nat
    decreases s.len(),
{
    if s.len() == 0 || s[0] == '=' {
        0
    } else {
        1 + key_len(s.drop_first())
    }
}

/// The setting that a line of a session file makes: `key=value`, split at
/// the first `=`, for the keys `current_dir` and `last_dir`; other lines
/// make none.
pub open spec fn session_line(l: Seq<char>) -> Option<(SessionKey, Seq<char>)> {
    let k = key_len(l);
    if k >= l.len() {
        None
    } else if l.take(k as int) == "current_dir"@ {
        Some((SessionKey::CurrentDir, l.skip(k as int + 1)))
    } else if l.take(k as int) == "last_dir"@ {
        Some((SessionKey::LastDir, l.skip(k as int + 1)))
    } else {
        None
    }
}

/// The settings that lines make, in order.
pub open spec fn settings_of(ls: Seq<Seq<char>>) -> Seq<(SessionKey, Seq<char>)>
    decreases ls.len(),
{
    if ls.len() == 0 {
        Seq::empty()
    } else {
        match session_line(ls.last()) {
            Some(e) => settings_of(ls.drop_last()).push(e),
            None => settings_of(ls.drop_last()),
        }
    }
}

/// The settings that a session file holds, in order.
pub open spec fn session_settings(content: Seq<char>) -> Seq<(SessionKey, Seq<char>)> {
    settings_of(lines(content))
}

/// The text of a session file: the directory shown and, when there is one,
/// the last directory, each on a line of its own.
pub open spec fn session_text(dir: Seq<char>, last_dir: Option<Seq<char>>) -> Seq<char> {
    "current_dir="@ + dir + "\n"@ + match last_dir {
        Some(l) => "last_dir="@ + l + "\n"@,
        None => Seq::empty(),
    }
}

/// The texts of a list of character vectors.
pub open spec fn char_texts(v: Seq<Vec<char>>) -> Seq<Seq<char>> {
    v.map_values(|x: Vec<char>| x@)
}

proof fn lemma_line_len_at(t: Seq<char>, k0: int)
    requires
        0 <= k0 <= t.len(),
        k0 < t.len() ==> t[k0] == '\n',
        forall|k: int| 0 <= k < k0 ==> t[k] != '\n',
    ensures
        line_len(t) == k0,
{
    lemma_line_len_bound(t);
    if line_len(t) < k0 {
        assert(t[line_len(t) as int] == '\n');
    }
    if line_len(t) > k0 {
        assert(t[k0] != '\n');
    }
}

/// The lines of a text (see `lines`).
pub fn lines_exec(s: &[char]) -> (r: Vec<Vec<char>>)
    ensures
        char_texts(r@) == lines(s@),
{
    let mut out: Vec<Vec<char>> = Vec::new();
    let mut cur: Vec<char> = Vec::new();
    let mut st: usize = 0;
    let mut i: usize = 0;
    proof {
        assert(s@.skip(0) =~= s@);
        assert(char_texts(out@) =~= Seq::<Seq<char>>::empty());
    }
    while i < s.len()
        invariant
            st <= i <= s@.len(),
            cur@ == s@.subrange(st as int, i as int),
            forall|k: int| st <= k < i ==> s@[k] != '\n',
            lines(s@) == char_texts(out@) + lines(s@.skip(st as int)),
        decreases s@.len() - i,
    {
        if s[i] == '\n' {
            let ghost t = s@.skip(st as int);
            proof {
                lemma_line_len_at(t, i - st);
                assert(t.take(i - st) =~= cur@);
                assert(t.skip(i - st + 1) =~= s@.skip(i + 1));
                assert(lines(t) == seq![strip_cr(cur@)] + lines(s@.skip(i + 1)));
            }
            let n = cur.len();
            if n > 0 && cur[n - 1] == '\r' {
                cur.pop();
            }
            proof {
                assert(cur@ == strip_cr(t.take(i - st)));
            }
            out.push(cur);
            proof {
                assert(char_texts(out@) =~= char_texts(out@.drop_last()).push(out@.last()@));
            }
            cur = Vec::new();
            i = i + 1;
            st = i;
            proof {
                assert(cur@ =~= s@.subrange(st as int, i as int));
            }
        } else {
            cur.push(s[i]);
            i = i + 1;
            proof {
                assert(cur@ =~= s@.subrange(st as int, i as int));
            }
        }
    }
    let ghost t = s@.skip(st as int);
    if st < s.len() {
        proof {
            lemma_line_len_at(t, t.len() as int);
            assert(t =~= cur@);
        }
        out.push(cur);
        proof {
            assert(char_texts(out@) =~= char_texts(out@.drop_last()).push(out@.last()@));
        }
    } else {
        proof {
            assert(t.len() == 0);
            assert(char_texts(out@) + lines(t) =~= char_texts(out@));
        }
    }
    out
}

/// The setting that a line makes (see `session_line`).
fn session_line_exec(l: &[char]) -> (r: Option<(SessionKey, Vec<char>)>)
    ensures
        match r {
            Some((k, v)) => session_line(l@) == Some((k, v@)),
            None => session_line(l@) is None,
        },
{
    let mut k: usize = 0;
    while k < l.len() && l[k] != '='
        invariant
            k <= l@.len(),
            forall|j: int| 0 <= j < k ==> l@[j] != '=',
        decreases l@.len() - k,
    {
        k = k + 1;
    }
    proof {
        lemma_key_len_at(l@, k as int);
    }
    if k >= l.len() {
        return None;
    }
    let mut key: Vec<char> = Vec::new();
    let mut j: usize = 0;
    while j < k
        invariant
            j <= k < l@.len(),
            key@ == l@.take(j as int),
        decreases k - j,
    {
        key.push(l[j]);
        j = j + 1;
        proof {
            assert(key@ =~= l@.take(j as int));
        }
    }
    let mut value: Vec<char> = Vec::new();
    let mut m: usize = k + 1;
    while m < l.len()
        invariant
            k < m <= l@.len(),
            value@ == l@.subrange(k + 1, m as int),
        decreases l@.len() - m,
    {
        value.push(l[m]);
        m = m + 1;
        proof {
            assert(value@ =~= l@.subrange(k + 1, m as int));
        }
    }
    proof {
        assert(value@ =~= l@.skip(k + 1));
    }
    let cd = chars_of("current_dir");
    let ld = chars_of("last_dir");
    if same_chars(&key, &cd) {
        Some((SessionKey::CurrentDir, value))
    } else if same_chars(&key, &ld) {
        Some((SessionKey::LastDir, value))
    } else {
        None
    }
}

proof fn lemma_key_len_at(t: Seq<char>, k0: int)
    requires
        0 <= k0 <= t.len(),
        k0 < t.len() ==> t[k0] == '=',
        forall|k: int| 0 <= k < k0 ==> t[k] != '=',
    ensures
        key_len(t) == k0,
    decreases k0,
{
    if k0 > 0 {
        assert forall|k: int| 0 <= k < k0 - 1 implies t.drop_first()[k] != '=' by {
            assert(t.drop_first()[k] == t[k + 1]);
        }
        lemma_key_len_at(t.drop_first(), k0 - 1);
    }
}

/// Whether two character vectors hold the same text.
fn same_chars(a: &[char], b: &[char]) -> (r: bool)
    ensures
        r == (a@ == b@),
{
    if a.len() != b.len() {
        return false;
    }
    let mut i: usize = 0;
    while i < a.len()
        invariant
            a@.len() == b@.len(),
            i <= a@.len(),
            forall|j: int| 0 <= j < i ==> a@[j] == b@[j],
        decreases a@.len() - i,
    {
        if a[i] != b[i] {
            proof {
                assert(a@[i as int] != b@[i as int]);
            }
            return false;
        }
        i = i + 1;
    }
    proof {
        assert(a@ =~= b@);
    }
    true
}

/// The settings that a session file holds, in order (see
/// `session_settings`).
pub fn session_settings_exec(content: &str) -> (r: Vec<(SessionKey, String)>)
    ensures
        r@.map_values(|e: (SessionKey, String)| (e.0, e.1@)) == session_settings(content@),
{
    let cs = chars_of(content);
    let ls = lines_exec(&cs);
    let ghost lv = char_texts(ls@);
    let mut r: Vec<(SessionKey, String)> = Vec::new();
    let mut i: usize = 0;
    while i < ls.len()
        invariant
            i <= ls@.len(),
            lv == char_texts(ls@),
            lv == lines(content@),
            r@.map_values(|e: (SessionKey, String)| (e.0, e.1@)) == settings_of(lv.take(i as int)),
        decreases ls@.len() - i,
    {
        proof {
            assert(lv.take(i + 1).drop_last() =~= lv.take(i as int));
            assert(lv.take(i + 1).last() == ls@[i as int]@);
        }
        match session_line_exec(&ls[i]) {
            Some((k, v)) => {
                let ghost before = r@;
                r.push((k, string_of(&v)));
                proof {
                    assert(r@.map_values(|e: (SessionKey, String)| (e.0, e.1@)) =~= before.map_values(
                        |e: (SessionKey, String)| (e.0, e.1@),
                    ).push((k, v@)));
                }
            },
            None => {},
        }
        i = i + 1;
    }
    proof {
        assert(lv.take(ls@.len() as int) =~= lv);
    }
    r
}

/// The text of a session file (see `session_text`).
pub fn session_text_exec(dir: &str, last_dir: &Option<String>) -> (r: String)
    ensures
        r@ == session_text(dir@, last_dir.deep_view()),
{
    let mut v: Vec<char> = Vec::new();
    push_str(&mut v, "current_dir=");
    push_str(&mut v, dir);
    push_str(&mut v, "\n");
    match last_dir {
        Some(l) => {
            push_str(&mut v, "last_dir=");
            push_str(&mut v, l.as_str());
            push_str(&mut v, "\n");
        },
        None => {},
    }
    proof {
        assert(v@ =~= session_text(dir@, last_dir.deep_view()));
    }
    string_of(&v)
}

/// A text that can stand on a line of a session file and come back whole:
/// no line feed in it, and no carriage return at its end.
pub open spec fn fits_on_line(t: Seq<char>) -> bool {
    &&& forall|k: int| 0 <= k < t.len() ==> t[k] != '\n'
    &&& !(t.len() > 0 && t.last() == '\r')
}

proof fn lemma_lines_cons(a: Seq<char>, rest: Seq<char>)
    requires
        fits_on_line(a),
    ensures
        lines(a + "\n"@ + rest) == seq![a] + lines(rest),
{
    reveal_strlit("\n");
    let t = a + "\n"@ + rest;
    assert(t[a.len() as int] == '\n');
    assert forall|k: int| 0 <= k < a.len() implies t[k] != '\n' by {
        assert(t[k] == a[k]);
    }
    lemma_line_len_at(t, a.len() as int);
    assert(t.take(a.len() as int) =~= a);
    assert(t.skip(a.len() as int + 1) =~= rest);
}

proof fn lemma_setting_line(key: Seq<char>, value: Seq<char>)
    requires
        forall|k: int| 0 <= k < key.len() ==> key[k] != '=',
    ensures
        key_len(key + "="@ + value) == key.len(),
        (key + "="@ + value).take(key.len() as int) == key,
        (key + "="@ + value).skip(key.len() as int + 1) == value,
{
    reveal_strlit("=");
    let t = key + "="@ + value;
    assert forall|k: int| 0 <= k < key.len() implies t[k] != '=' by {
        assert(t[k] == key[k]);
    }
    lemma_key_len_at(t, key.len() as int);
    assert(t.take(key.len() as int) =~= key);
    assert(t.skip(key.len() as int + 1) =~= value);
}

/// The settings that a session saves: the directory shown, then the last
/// directory where there is one.
pub open spec fn saved_settings(dir: Seq<char>, last_dir: Option<Seq<char>>) -> Seq<(SessionKey, Seq<char>)> {
    match last_dir {
        Some(l) => seq![(SessionKey::CurrentDir, dir), (SessionKey::LastDir, l)],
        None => seq![(SessionKey::CurrentDir, dir)],
    }
}

/// Reading back a saved session gives the directories saved: the directory
/// shown, then the last directory where there is one, provided that each
/// fits on a line.
pub proof fn lemma_session_round_trip(dir: Seq<char>, last_dir: Option<Seq<char>>)
    requires
        fits_on_line(dir),
        last_dir matches Some(l) ==> fits_on_line(l),
    ensures
        session_settings(session_text(dir, last_dir)) == saved_settings(dir, last_dir),
{
    reveal_strlit("current_dir=");
    reveal_strlit("current_dir");
    reveal_strlit("last_dir=");
    reveal_strlit("last_dir");
    reveal_strlit("\n");
    let a = "current_dir="@ + dir;
    let rest = match last_dir {
        Some(l) => "last_dir="@ + l + "\n"@,
        None => Seq::empty(),
    };
    assert(session_text(dir, last_dir) =~= a + "\n"@ + rest);
    assert("current_dir="@ =~= "current_dir"@ + "="@) by {
        reveal_strlit("=");
    }
    assert(a =~= "current_dir"@ + "="@ + dir);
    assert(fits_on_line(a)) by {
        assert forall|k: int| 0 <= k < a.len() implies a[k] != '\n' by {
            if k >= 12 {
                assert(a[k] == dir[k - 12]);
            }
        }
    }
    lemma_lines_cons(a, rest);
    lemma_setting_line("current_dir"@, dir);
    assert(session_line(a) == Some((SessionKey::CurrentDir, dir)));
    match last_dir {
        Some(l) => {
            let b = "last_dir="@ + l;
            assert("last_dir="@ =~= "last_dir"@ + "="@) by {
                reveal_strlit("=");
            }
            assert(b =~= "last_dir"@ + "="@ + l);
            assert(fits_on_line(b)) by {
                assert forall|k: int| 0 <= k < b.len() implies b[k] != '\n' by {
                    if k >= 9 {
                        assert(b[k] == l[k - 9]);
                    }
                }
            }
            assert(rest =~= b + "\n"@ + Seq::<char>::empty());
            lemma_lines_cons(b, Seq::empty());
            lemma_setting_line("last_dir"@, l);
            assert(session_line(b) == Some((SessionKey::LastDir, l)));
            assert(lines(Seq::<char>::empty()) =~= Seq::<Seq<char>>::empty());
            assert(lines(rest) =~= seq![b]);
            assert(lines(a + "\n"@ + rest) =~= seq![a, b]);
            assert(seq![a, b].drop_last() =~= seq![a]);
            assert(seq![a].drop_last() =~= Seq::<Seq<char>>::empty());
            assert(settings_of(Seq::<Seq<char>>::empty()) =~= Seq::<(SessionKey, Seq<char>)>::empty());
            assert(seq![a].last() == a);
            assert(settings_of(seq![a]) =~= seq![(SessionKey::CurrentDir, dir)]);
            assert(seq![a, b].last() == b);
            assert(settings_of(seq![a, b]) =~= seq![(SessionKey::CurrentDir, dir), (SessionKey::LastDir, l)]);
            assert(session_settings(session_text(dir, last_dir)) == settings_of(seq![a, b]));

        },
        None => {
            assert(lines(Seq::<char>::empty()) =~= Seq::<Seq<char>>::empty());
            assert(lines(a + "\n"@ + rest) =~= seq![a]);
            assert(seq![a].drop_last() =~= Seq::<Seq<char>>::empty());
            assert(settings_of(Seq::<Seq<char>>::empty()) =~= Seq::<(SessionKey, Seq<char>)>::empty());
            assert(seq![a].last() == a);
            assert(settings_of(seq![a]) =~= seq![(SessionKey::CurrentDir, dir)]);
        },
    }
}

} // verus!
