use vstd::prelude::*;
use crate::text::{chars_of, push_char};

verus! {

/// What the command line asks for.
pub struct Options {
    /// The directory to open (`.` when none is given).
    pub dir: String,
    /// `-c`: colors (on by default).
    pub use_color: bool,
    /// `-t`: the home directory shown as `~`.
    pub tilde_home: bool,
    /// `-f FILE`: the session file.
    pub save_file: Option<String>,
}

/// What the command line holds so far.
pub struct OptionsModel {
    pub dir: Option<Seq<char>>,
    pub use_color: bool,
    pub tilde_home: bool,
    pub save_file: Option<Seq<char>>,
}

/// A command line that cannot be taken.
#[derive(Clone, Copy, Debug, PartialEq, Eq, Structural)]
pub enum ArgError {
    /// `-f` is the last argument.
    MissingSaveFile,
    /// An option letter other than `c`, `t` and `f`.
    UnknownOption(char),
    /// A second directory.
    TooManyArguments,
}

/// The options before any argument is read.
pub open spec fn initial_options() -> OptionsModel {
    OptionsModel { dir: None, use_color: true, tilde_home: false, save_file: None }
}

/// The letters of an option argument, read from the left, the argument
/// standing at `i`: `c` and `t` set their flags; `f` takes the next argument
/// as the session file and ends the letters (and says so); any other
/// letter is an error.
pub open spec fn option_letters(
    args: Seq<Seq<char>>,
    i: int,
    cs: Seq<char>,
    st: OptionsModel,
) -> Result<(OptionsModel, bool), ArgError>
    decreases cs.len(),
{
    if cs.len() == 0 {
        Ok((st, false))
    } else if cs[0] == 'c' {
        option_letters(args, i, cs.drop_first(), OptionsModel { use_color: true, ..st })
    } else if cs[0] == 't' {
        option_letters(args, i, cs.drop_first(), OptionsModel { tilde_home: true, ..st })
    } else if cs[0] == 'f' {
        if i + 1 >= args.len() {
            Err(ArgError::MissingSaveFile)
        } else {
            Ok((OptionsModel { save_file: Some(args[i + 1]), ..st }, true))
        }
    } else {
        Err(ArgError::UnknownOption(cs[0]))
    }
}

/// An argument that holds options: it begins with `-` and is not `-`
/// alone.
pub open spec fn is_option_arg(a: Seq<char>) -> bool {
    a.len() > 0 && a[0] == '-' && a != seq!['-']
}

/// The arguments from `i` on, read onto `st`: option arguments by their
/// letters, the first other argument as the directory, a second one an
/// error.
pub open spec fn parse_from(args: Seq<Seq<char>>, i: int, st: OptionsModel) -> Result<
    OptionsModel,
    ArgError,
>
    decreases args.len() - i,
{
    if i >= args.len() || i < 0 {
        Ok(st)
    } else {
        let a = args[i];
        if is_option_arg(a) {
            match option_letters(args, i, a.skip(1), st) {
                Ok((st2, took)) => {
                    let next = i + 1 + if took {
                        1int
                    } else {
                        0int
                    };
                    if next >= args.len() {
                        Ok(st2)
                    } else {
                        parse_from(args, next, st2)
                    }
                },
                Err(e) => Err(e),
            }
        } else if st.dir is None {
            parse_from(args, i + 1, OptionsModel { dir: Some(a), ..st })
        } else {
            Err(ArgError::TooManyArguments)
        }
    }
}

/// The options of a command line (its first argument being the program):
/// read as `parse_from` says from the second argument on, the directory
/// being `.` where none is given.
pub open spec fn parsed_options(args: Seq<Seq<char>>) -> Result<OptionsModel, ArgError> {
    match parse_from(args, 1, initial_options()) {
        Ok(st) => Ok(OptionsModel { dir: Some(if st.dir is Some { st.dir->0 } else { seq!['.'] }), ..st }),
        Err(e) => Err(e),
    }
}

/// The options as the contracts see them.
pub open spec fn options_view(o: Options) -> OptionsModel {
    OptionsModel {
        dir: Some(o.dir@),
        use_color: o.use_color,
        tilde_home: o.tilde_home,
        save_file: o.save_file.deep_view(),
    }
}

/// Reads a command line (see `parsed_options`).
pub fn parse_args(args: &Vec<String>) -> (r: Result<Options, ArgError>)
    ensures
        match r {
            Ok(o) => parsed_options(args@.map_values(|s: String| s@)) == Ok::<OptionsModel, ArgError>(options_view(o)),
            Err(e) => parsed_options(args@.map_values(|s: String| s@)) == Err::<OptionsModel, ArgError>(e),
        },
{
    let ghost av = args@.map_values(|s: String| s@);
    let mut dir: Option<String> = None;
    let mut use_color = true;
    let mut tilde_home = false;
    let mut save_file: Option<String> = None;
    let mut i: usize = 1;
    while i < args.len()
        invariant
            av == args@.map_values(|s: String| s@),
            1 <= i,
            parse_from(av, 1, initial_options()) == parse_from(
                av,
                i as int,
                OptionsModel {
                    dir: dir.deep_view(),
                    use_color: use_color,
                    tilde_home: tilde_home,
                    save_file: save_file.deep_view(),
                },
            ),
        decreases args@.len() - i,
    {
        let ghost st = OptionsModel {
            dir: dir.deep_view(),
            use_color: use_color,
            tilde_home: tilde_home,
            save_file: save_file.deep_view(),
        };
        let cs = chars_of(args[i].as_str());
        assert(cs@ == av[i as int]);
        let is_opt = cs.len() > 0 && cs[0] == '-' && !(cs.len() == 1);
        proof {
            if cs@.len() == 1 && cs@[0] == '-' {
                assert(cs@ =~= seq!['-']);
            }
            if cs@ == seq!['-'] {
                assert(cs@.len() == 1);
            }
        }
        assert(is_opt == is_option_arg(av[i as int]));
        if is_opt {
            let mut k: usize = 1;
            let mut took = false;
            proof {
                assert(cs@.skip(1) == av[i as int].skip(1));
            }
            while k < cs.len()
                invariant_except_break
                    !took,
                    option_letters(av, i as int, cs@.skip(1), st) == option_letters(
                        av,
                        i as int,
                        cs@.skip(k as int),
                        OptionsModel {
                            dir: dir.deep_view(),
                            use_color: use_color,
                            tilde_home: tilde_home,
                            save_file: save_file.deep_view(),
                        },
                    ),
                invariant
                    av == args@.map_values(|s: String| s@),
                    parse_from(av, 1, initial_options()) == parse_from(av, i as int, st),
                    is_option_arg(av[i as int]),
                    1 <= i,
                    k == cs@.len() ==> cs@.skip(k as int) == Seq::<char>::empty(),
                    cs@ == av[i as int],
                    1 <= k <= cs@.len(),
                    i < args@.len(),
                ensures
                    parse_from(av, 1, initial_options()) == parse_from(av, i as int, st),
                    took ==> option_letters(av, i as int, cs@.skip(1), st) == Ok::<(OptionsModel, bool), ArgError>((
                        OptionsModel {
                            dir: dir.deep_view(),
                            use_color: use_color,
                            tilde_home: tilde_home,
                            save_file: save_file.deep_view(),
                        },
                        true,
                    )),
                    took ==> i + 1 < args@.len(),
                    !took ==> option_letters(av, i as int, cs@.skip(1), st) == Ok::<(OptionsModel, bool), ArgError>((
                        OptionsModel {
                            dir: dir.deep_view(),
                            use_color: use_color,
                            tilde_home: tilde_home,
                            save_file: save_file.deep_view(),
                        },
                        false,
                    )),
                decreases cs@.len() - k,
            {
                let c = cs[k];
                proof {
                    assert(cs@.skip(k as int)[0] == c);
                    assert(cs@.skip(k as int).drop_first() =~= cs@.skip(k + 1));
                }
                if c == 'c' {
                    use_color = true;
                } else if c == 't' {
                    tilde_home = true;
                } else if c == 'f' {
                    if i >= args.len() - 1 {
                        return Err(ArgError::MissingSaveFile);
                    }
                    save_file = Some(args[i + 1].clone());
                    took = true;
                    break;
                } else {
                    return Err(ArgError::UnknownOption(c));
                }
                k = k + 1;
                proof {
                    if k == cs@.len() {
                        assert(cs@.skip(k as int) =~= Seq::<char>::empty());
                    }
                }
            }
            if took {
                i = i + 1;
            }
        } else {
            if dir.is_some() {
                return Err(ArgError::TooManyArguments);
            }
            dir = Some(args[i].clone());
        }
        i = i + 1;
    }
    let ghost st_end = OptionsModel {
        dir: dir.deep_view(),
        use_color: use_color,
        tilde_home: tilde_home,
        save_file: save_file.deep_view(),
    };
    assert(parse_from(av, i as int, st_end) == Ok::<OptionsModel, ArgError>(st_end));
    assert(parse_from(av, 1, initial_options()) == Ok::<OptionsModel, ArgError>(st_end));
    let d = match dir {
        Some(d) => d,
        None => ".".to_owned(),
    };
    proof {
        reveal_strlit(".");
        assert("."@ =~= seq!['.']);
        assert(d@ == (if st_end.dir is Some { st_end.dir->0 } else { seq!['.'] }));
    }
    Ok(Options { dir: d, use_color, tilde_home, save_file })
}

impl ArgError {
    /// The text that reports the error.
    pub fn message(&self) -> (r: String)
        ensures
            r@ == match *self {
                ArgError::MissingSaveFile => "Option -f requires an argument"@,
                ArgError::UnknownOption(c) => "Unknown option: -"@ + seq![c],
                ArgError::TooManyArguments => "Too many arguments"@,
            },
    {
        match *self {
            ArgError::MissingSaveFile => "Option -f requires an argument".to_owned(),
            ArgError::UnknownOption(c) => {
                let mut s = "Unknown option: -".to_owned();
                push_char(&mut s, c);
                s
            },
            ArgError::TooManyArguments => "Too many arguments".to_owned(),
        }
    }
}

} // verus!
