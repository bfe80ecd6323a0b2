use vstd::prelude::*;
use crate::text::{
    is_white, lowercase, push_str, same_text, string_of, to_lowercase, trim, trim_start,
    trimmed,
};

verus! {

/// Whether the answer to "Delete ...? [y/N]" says yes: trimmed and
/// lowercased, it is `y`.
pub fn confirms(answer: &str) -> (r: bool)
    ensures
        r == (lowercase(trimmed(answer@)) == "y"@),
{
    let t = trim(answer);
    let low = to_lowercase(t);
    same_text(low.as_str(), "y")
}

/// The name typed at a prompt: the line trimmed, where it is not empty.
pub fn entered_name(line: &str) -> (r: Option<String>)
    ensures
        match r {
            Some(n) => trimmed(line@).len() > 0 && n@ == trimmed(line@),
            None => trimmed(line@).len() == 0,
        },
{
    let t = trim(line);
    if t.is_empty() {
        None
    } else {
        Some(t.to_owned())
    }
}

/// The new name typed for an entry named `current`: the line trimmed,
/// where it is neither empty nor the current name.
pub fn rename_target(line: &str, current: &str) -> (r: Option<String>)
    ensures
        match r {
            Some(n) => trimmed(line@).len() > 0 && trimmed(line@) != current@ && n@ == trimmed(line@),
            None => trimmed(line@).len() == 0 || trimmed(line@) == current@,
        },
{
    let t = trim(line);
    if t.is_empty() || same_text(t, current) {
        None
    } else {
        Some(t.to_owned())
    }
}

/// The text that reports an error on a path: the path, a colon and the
/// error.
pub fn error_line(path: &str, error: &str) -> (r: String)
    ensures
        r@ == path@ + ": "@ + error@,
{
    let mut v: Vec<char> = Vec::new();
    push_str(&mut v, path);
    push_str(&mut v, ": ");
    push_str(&mut v, error);
    string_of(&v)
}

/// The number of characters of `s` before its first white space.
pub open spec fn word_len(s: Seq<char>) -> nat
    decreases s.len(),
{
    if s.len() > 0 && !is_white(s[0]) {
        1 + word_len(s.drop_first())
    } else {
        0
    }
}

/// Trimming the beginning never lengthens a text, and leaves it beginning
/// with a character that is not white space, or empty.
pub proof fn lemma_trim_start(s: Seq<char>)
    ensures
        trim_start(s).len() <= s.len(),
        trim_start(s).len() > 0 ==> !is_white(trim_start(s)[0]),
    decreases s.len(),
{
    if s.len() > 0 && is_white(s[0]) {
        lemma_trim_start(s.drop_first());
    }
}

/// A word is no longer than the text, and a text that begins with a
/// character other than white space begins with a word of one or more.
pub proof fn lemma_word_len(s: Seq<char>)
    ensures
        word_len(s) <= s.len(),
        s.len() > 0 && !is_white(s[0]) ==> word_len(s) >= 1,
    decreases s.len(),
{
    if s.len() > 0 && !is_white(s[0]) {
        lemma_word_len(s.drop_first());
    }
}

/// The words of a text: its longest runs of characters other than white
/// space, in order.
pub open spec fn words(s: Seq<char>) -> Seq<Seq<char>>
    decreases s.len(),
{
    let t = trim_start(s);
    if t.len() == 0 {
        Seq::empty()
    } else {
        proof {
            lemma_trim_start(s);
            lemma_word_len(t);
        }
        let n = word_len(t);
        seq![t.take(n as int)] + words(t.skip(n as int))
    }
}

/// `str::split_whitespace`: the words of a text, as its documentation
/// states them.
#[verifier::external_body]
fn split_words(s: &str) -> (r: Vec<&str>)
    ensures
        r@.map_values(|w: &str| w@) == words(s@),
{
    s.split_whitespace().collect()
}

/// The program and the arguments of a command line: its first word and the
/// rest; a line with no word is taken whole as the program.
pub open spec fn command_parts(line: Seq<char>) -> (Seq<char>, Seq<Seq<char>>) {
    let w = words(line);
    if w.len() > 0 {
        (w[0], w.skip(1))
    } else {
        (line, Seq::empty())
    }
}

/// Splits a command line into the program and its arguments (see
/// `command_parts`).
pub fn split_command(line: &str) -> (r: (String, Vec<String>))
    ensures
        (r.0@, r.1@.map_values(|w: String| w@)) == command_parts(line@),
{
    let ws = split_words(line);
    let ghost wv = ws@.map_values(|x: &str| x@);
    let mut w: Vec<String> = Vec::new();
    let mut i: usize = 0;
    while i < ws.len()
        invariant
            i <= ws@.len(),
            wv == ws@.map_values(|x: &str| x@),
            w@.map_values(|x: String| x@) == wv.take(i as int),
        decreases ws@.len() - i,
    {
        let ghost before = w@;
        let one = ws[i].to_owned();
        assert(one@ == wv[i as int]);
        w.push(one);
        i = i + 1;
        proof {
            assert(w@ == before.push(one));
            assert(w@.map_values(|x: String| x@) =~= before.map_values(|x: String| x@).push(one@));
            assert(w@.map_values(|x: String| x@) =~= wv.take(i as int));
        }
    }
    proof {
        assert(wv.take(ws@.len() as int) =~= wv);
    }
    if w.len() > 0 {
        let first = w.remove(0);
        proof {
            assert(w@.map_values(|x: String| x@) =~= words(line@).skip(1));
        }
        (first, w)
    } else {
        let none: Vec<String> = Vec::new();
        proof {
            assert(none@.map_values(|x: String| x@) =~= Seq::<Seq<char>>::empty());
        }
        (line.to_owned(), none)
    }
}

} // verus!
