use vstd::prelude::*;
use crate::text::{chars_of, contains, push_str, starts_with, string_of};

verus! {

/// The segment of `p` that begins just after position `i` is `.` or `..`.
pub open spec fn dot_segment_after(p: Seq<char>, i: int) -> bool {
    ||| (i + 1 < p.len() && p[i + 1] == '.' && (i + 2 == p.len() || p[i + 2] == '/'))
    ||| (i + 2 < p.len() && p[i + 1] == '.' && p[i + 2] == '.' && (i + 3 == p.len() || p[i + 3]
        == '/'))
}

/// A plain absolute path: it begins with `/`, does not end with one, has
/// no two `/` in a row, no `\\`, and no segment `.` or `..`; such as
/// `/home/user`.
pub open spec fn plain_absolute(p: Seq<char>) -> bool {
    &&& p.len() >= 2
    &&& p[0] == '/'
    &&& p.last() != '/'
    &&& forall|k: int| 0 <= k < p.len() ==> p[k] != '\\'
    &&& forall|k: int| 0 <= k < p.len() - 1 && #[trigger] p[k] == '/' ==> p[k + 1] != '/'
    &&& forall|k: int| 0 <= k < p.len() && p[k] == '/' ==> !#[trigger] dot_segment_after(p, k)
}

/// The position of the last `/` in `p` (0 where there is none).
pub open spec fn last_slash(p: Seq<char>) -> int
    decreases p.len(),
{
    if p.len() == 0 {
        0
    } else if p.last() == '/' {
        p.len() - 1
    } else {
        last_slash(p.drop_last())
    }
}

/// The parent of a plain absolute path: all before its last `/`, or `/`
/// where that is the first character.
pub open spec fn parent_path(p: Seq<char>) -> Seq<char> {
    if last_slash(p) == 0 {
        seq!['/']
    } else {
        p.take(last_slash(p))
    }
}

/// The last name of a plain absolute path: all after its last `/`.
pub open spec fn last_name(p: Seq<char>) -> Seq<char> {
    p.skip(last_slash(p) + 1)
}

/// `p` without the `/` characters at its end.
pub open spec fn without_trailing_slashes(p: Seq<char>) -> Seq<char>
    decreases p.len(),
{
    if p.len() > 0 && p.last() == '/' {
        without_trailing_slashes(p.drop_last())
    } else {
        p
    }
}

/// What `Path::parent` gives for a path, as text.
pub uninterp spec fn path_parent(p: Seq<char>) -> Option<Seq<char>>;

/// What `Path::file_name` gives for a path, as text.
pub uninterp spec fn path_file_name(p: Seq<char>) -> Option<Seq<char>>;

/// `Path::parent`: the path without its last component, if it has one. It
/// depends on the path alone (under the path rules of the platform built
/// for), and its result is named `path_parent`. What holds under every
/// platform's rules is stated too: a parent is a shorter beginning of the
/// path; `/` has none; and, since a trailing `/` is normalized away, a
/// plain absolute path, with or without `/` at its end, has the parent that
/// the documentation's examples show (`/foo/bar` gives `/foo`, `/foo`
/// gives `/`).
#[verifier::external_body]
pub(crate) fn parent_of(p: &str) -> (r: Option<String>)
    ensures
        r.deep_view() == path_parent(p@),
        r matches Some(q) ==> q@.len() < p@.len() && starts_with(p@, q@),
        p@ == seq!['/'] ==> r is None,
        plain_absolute(without_trailing_slashes(p@)) ==> r is Some && r->0@ == parent_path(
            without_trailing_slashes(p@),
        ),
{
    match std::path::Path::new(p).parent() {
        Some(q) => Some(q.to_string_lossy().into_owned()),
        None => None,
    }
}

/// `Path::file_name`: the last component of the path, if it is a name. It
/// depends on the path alone (under the path rules of the platform built
/// for), and its result is named `path_file_name`. What holds under every
/// platform's rules is stated too: a file name is a nonempty piece of the
/// path, and that of a plain absolute path, with or without `/` at its end,
/// is all after its last `/`.
#[verifier::external_body]
pub(crate) fn file_name_of(p: &str) -> (r: Option<String>)
    ensures
        r.deep_view() == path_file_name(p@),
        r matches Some(n) ==> n@.len() > 0 && contains(p@, n@),
        plain_absolute(without_trailing_slashes(p@)) ==> r is Some && r->0@ == last_name(
            without_trailing_slashes(p@),
        ),
{
    match std::path::Path::new(p).file_name() {
        Some(n) => Some(n.to_string_lossy().into_owned()),
        None => None,
    }
}

/// What `Path::join` gives for a directory and a path, as text.
pub uninterp spec fn path_join(dir: Seq<char>, name: Seq<char>) -> Seq<char>;

/// `Path::join`: `name` pushed onto `dir`. It depends on its arguments
/// alone (under the path rules of the platform built for): which separator
/// is put between them, and whether an absolute `name` replaces `dir`,
/// follow those rules, so its result is named `path_join` and nothing more
/// is stated.
#[verifier::external_body]
pub(crate) fn join_path(dir: &str, name: &str) -> (r: String)
    ensures
        r@ == path_join(dir@, name@),
{
    std::path::Path::new(dir).join(name).to_string_lossy().into_owned()
}

/// A path with `~` for the home directory expanded: `~` alone becomes the
/// home directory, and `~/...` the home directory followed by `/...`, where
/// the home directory is known; any other path stays as it is.
pub open spec fn expanded(path: Seq<char>, home: Option<Seq<char>>) -> Seq<char> {
    match home {
        Some(h) => if path == seq!['~'] {
            h
        } else if starts_with(path, seq!['~', '/']) {
            h + path.skip(1)
        } else {
            path
        },
        None => path,
    }
}

/// Expands `~` in a path (see `expanded`); `home` is the home directory,
/// where it is known.
pub fn expand_tilde(path: &str, home: Option<&str>) -> (r: String)
    ensures
        r@ == expanded(
            path@,
            match home {
                Some(h) => Some(h@),
                None => None,
            },
        ),
{
    let p = chars_of(path);
    match home {
        None => string_of(&p),
        Some(h) => {
            let alone = p.len() == 1 && p[0] == '~';
            let with_slash = p.len() >= 2 && p[0] == '~' && p[1] == '/';
            proof {
                if p@.len() == 1 && p@[0] == '~' {
                    assert(p@ =~= seq!['~']);
                }
                if p@ == seq!['~'] {
                    assert(p@[0] == '~');
                }
                if p@.len() >= 2 {
                    assert(p@.take(2) =~= seq![p@[0], p@[1]]);
                }
            }
            if alone {
                h.to_owned()
            } else if with_slash {
                let mut v: Vec<char> = Vec::new();
                push_str(&mut v, h);
                let mut i: usize = 1;
                while i < p.len()
                    invariant
                        1 <= i <= p@.len(),
                        v@ == h@ + p@.subrange(1, i as int),
                    decreases p@.len() - i,
                {
                    v.push(p[i]);
                    i = i + 1;
                    proof {
                        assert(v@ =~= h@ + p@.subrange(1, i as int));
                    }
                }
                proof {
                    assert(p@.subrange(1, p@.len() as int) =~= p@.skip(1));
                }
                string_of(&v)
            } else {
                string_of(&p)
            }
        },
    }
}

} // verus!
