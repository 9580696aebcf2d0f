use vstd::prelude::*;
use vstd::string::*;
use std::str::FromStr;

use crate::error::{ArgParseError, ArgParseErrorView};
use crate::flag::Flag;
use crate::token::{is_flag_token, is_long_token, looks_like_flag, looks_like_long_flag, str_eq};

verus! {

/// The tokens of an argument list, as character sequences.
pub open spec fn tokens(args: Seq<String>) -> Seq<Seq<char>> {
    args.map_values(|s: String| s@)
}

/// Whether `f` is the flag that the flag-shaped token `t` names: by long
/// name after `--`, else by the character right after `-`.
pub open spec fn flag_matches(f: Flag, t: Seq<char>) -> bool {
    if is_long_token(t) {
        f.long@ == t.skip(2)
    } else {
        t.len() > 1 && f.short == Some(t[1])
    }
}

/// The index of the first flag, from `i` on, that token `t` names.
pub open spec fn first_match(flags: Seq<Flag>, t: Seq<char>, i: int) -> Option<int>
    decreases flags.len() - i,
{
    if i < 0 || i >= flags.len() {
        None
    } else if flag_matches(flags[i], t) {
        Some(i)
    } else {
        first_match(flags, t, i + 1)
    }
}

/// What a parse records: each matched flag with the value it took, in token
/// order, and the positional arguments.
pub struct FlagParseView {
    pub flags: Seq<(Flag, Option<Seq<char>>)>,
    pub args: Seq<Seq<char>>,
}

/// `v` followed by the outcome `r` of parsing the rest of the tokens.
pub open spec fn prepend(
    v: FlagParseView,
    r: Result<FlagParseView, ArgParseErrorView>,
) -> Result<FlagParseView, ArgParseErrorView> {
    match r {
        Ok(w) => Ok(FlagParseView { flags: v.flags + w.flags, args: v.args + w.args }),
        Err(e) => Err(e),
    }
}

/// The flags-then-positionals walk over `toks` from index `i`, against the
/// flags of one command.
///
/// Flag-shaped tokens are matched (first match wins); a flag that takes a
/// value consumes the next token whatever its shape. The first token that is
/// not flag-shaped ends the flags: it and everything after it are positional.
pub open spec fn walk(flags: Seq<Flag>, toks: Seq<Seq<char>>, i: int) -> Result<
    FlagParseView,
    ArgParseErrorView,
>
    decreases toks.len() - i,
{
    if i < 0 || i >= toks.len() {
        Ok(FlagParseView { flags: seq![], args: seq![] })
    } else if !is_flag_token(toks[i]) {
        Ok(FlagParseView { flags: seq![], args: toks.subrange(i, toks.len() as int) })
    } else {
        match first_match(flags, toks[i], 0) {
            None => Err(ArgParseErrorView::InvalidFlag(toks[i])),
            Some(j) => if flags[j].parameter {
                if i + 1 >= toks.len() {
                    Err(ArgParseErrorView::MissingFlagValue(toks[i]))
                } else {
                    prepend(
                        FlagParseView { flags: seq![(flags[j], Some(toks[i + 1]))], args: seq![] },
                        walk(flags, toks, i + 2),
                    )
                }
            } else {
                prepend(
                    FlagParseView { flags: seq![(flags[j], None)], args: seq![] },
                    walk(flags, toks, i + 1),
                )
            },
        }
    }
}

/// The value recorded with the first flag whose long name is `long`, if any.
pub open spec fn first_value(flags: Seq<(Flag, Option<Seq<char>>)>, long: Seq<char>, i: int) -> Option<
    Seq<char>,
>
    decreases flags.len() - i,
{
    if i < 0 || i >= flags.len() {
        None
    } else if flags[i].0.long@ == long {
        flags[i].1
    } else {
        first_value(flags, long, i + 1)
    }
}

/// The flags and positional arguments found for one command.
pub struct FlagParse {
    flags: Vec<(Flag, Option<String>)>,
    /// The positional arguments, in order.
    pub args: Vec<String>,
}

/// A recorded value seen as a character sequence.
pub open spec fn value_view(v: Option<String>) -> Option<Seq<char>> {
    match v {
        Some(s) => Some(s@),
        None => None,
    }
}

impl View for FlagParse {
    type V = FlagParseView;

    closed spec fn view(&self) -> FlagParseView {
        FlagParseView {
            flags: self.flags@.map_values(|p: (Flag, Option<String>)| (p.0, value_view(p.1))),
            args: self.args@.map_values(|s: String| s@),
        }
    }
}

/// Prepending two pieces in turn is prepending them joined.
proof fn lemma_prepend_prepend(
    a: FlagParseView,
    b: FlagParseView,
    r: Result<FlagParseView, ArgParseErrorView>,
)
    ensures
        prepend(a, prepend(b, r)) == prepend(
            FlagParseView { flags: a.flags + b.flags, args: a.args + b.args },
            r,
        ),
{
    if let Ok(w) = r {
        assert(a.flags + (b.flags + w.flags) =~= (a.flags + b.flags) + w.flags);
        assert(a.args + (b.args + w.args) =~= (a.args + b.args) + w.args);
    }
}

/// Relies on `str::parse` (`FromStr`): reads a value of type `T` from text,
/// `None` where the text is not one.
#[verifier::external_body]
fn parse_text<T: FromStr>(s: &str) -> Option<T> {
    s.parse::<T>().ok()
}

/// Whether the flag-shaped token `tok` names `f`.
fn matches_token(f: &Flag, tok: &str) -> (r: bool)
    ensures
        r == flag_matches(*f, tok@),
{
    if looks_like_long_flag(tok) {
        let n = tok.unicode_len();
        let name = tok.substring_char(2, n);
        assert(tok@.skip(2) =~= tok@.subrange(2, n as int));
        str_eq(f.long.as_str(), name)
    } else if tok.unicode_len() > 1 {
        match f.short {
            Some(c) => c == tok.get_char(1),
            None => false,
        }
    } else {
        false
    }
}

/// The index of the first of `flags` that `tok` names.
fn find_flag(flags: &Vec<Flag>, tok: &str) -> (r: Option<usize>)
    ensures
        match r {
            Some(j) => j < flags@.len() && first_match(flags@, tok@, 0) == Some(j as int),
            None => first_match(flags@, tok@, 0) is None,
        },
{
    let mut i: usize = 0;
    while i < flags.len()
        invariant
            i <= flags@.len(),
            first_match(flags@, tok@, 0) == first_match(flags@, tok@, i as int),
        decreases flags.len() - i,
    {
        if matches_token(&flags[i], tok) {
            return Some(i);
        }
        i = i + 1;
    }
    None
}

impl FlagParse {
    /// Walks `args` from index `start` against `flags`: flags first, then
    /// positionals (see [`walk`]).
    pub fn from_tokens(flags: &Vec<Flag>, args: &Vec<String>, start: usize) -> (r: Result<
        FlagParse,
        ArgParseError,
    >)
        requires
            start <= args@.len(),
        ensures
            match walk(flags@, tokens(args@), start as int) {
                Ok(v) => r is Ok && r->Ok_0@ == v,
                Err(e) => r is Err && r->Err_0@ == e,
            },
    {
        let ghost toks = tokens(args@);
        let mut fp = FlagParse::new();
        let mut i: usize = start;
        loop
            invariant
                toks == tokens(args@),
                start <= i <= args@.len(),
                fp@.args == Seq::<Seq<char>>::empty(),
                walk(flags@, toks, start as int) == prepend(fp@, walk(flags@, toks, i as int)),
            ensures
                walk(flags@, toks, i as int) == Ok::<FlagParseView, ArgParseErrorView>(
                    FlagParseView { flags: seq![], args: toks.subrange(i as int, toks.len() as int) },
                ),
            decreases args.len() - i,
        {
            if i >= args.len() {
                assert(toks.subrange(i as int, toks.len() as int) =~= Seq::<Seq<char>>::empty());
                break;
            }
            let tok: &String = &args[i];
            if !looks_like_flag(tok.as_str()) {
                break;
            }
            match find_flag(flags, tok.as_str()) {
                None => {
                    return Err(ArgParseError::InvalidFlag(tok.clone()));
                },
                Some(j) => {
                    if flags[j].parameter {
                        if i + 1 >= args.len() {
                            return Err(ArgParseError::MissingFlagValue(tok.clone()));
                        }
                        let ghost before = fp@;
                        fp.add_flag_with_value(&flags[j], args[i + 1].as_str());
                        let ghost step = FlagParseView {
                            flags: seq![(flags@[j as int], Some(toks[i + 1]))],
                            args: seq![],
                        };
                        proof {
                            lemma_prepend_prepend(before, step, walk(flags@, toks, i + 2));
                        }
                        assert(fp@.flags =~= before.flags + step.flags);
                        assert(fp@.args =~= before.args + step.args);
                        i = i + 2;
                    } else {
                        let ghost before = fp@;
                        fp.add_flag(&flags[j]);
                        let ghost step = FlagParseView { flags: seq![(flags@[j as int], None)], args: seq![] };
                        proof {
                            lemma_prepend_prepend(before, step, walk(flags@, toks, i + 1));
                        }
                        assert(fp@.flags =~= before.flags + step.flags);
                        assert(fp@.args =~= before.args + step.args);
                        i = i + 1;
                    }
                },
            }
        }
        while i < args.len()
            invariant
                toks == tokens(args@),
                start <= i <= args@.len(),
                walk(flags@, toks, start as int) == prepend(
                    fp@,
                    Ok(FlagParseView { flags: seq![], args: toks.subrange(i as int, toks.len() as int) }),
                ),
            decreases args.len() - i,
        {
            let ghost before = fp@;
            fp.add_arg(&args[i]);
            assert(before.args + toks.subrange(i as int, toks.len() as int) =~= fp@.args + toks.subrange(
                i + 1,
                toks.len() as int,
            ));
            i = i + 1;
        }
        assert(fp@.flags + Seq::<(Flag, Option<Seq<char>>)>::empty() =~= fp@.flags);
        assert(fp@.args + toks.subrange(i as int, toks.len() as int) =~= fp@.args);
        Ok(fp)
    }

    /// Whether a flag with long name `long` was passed.
    pub fn get_flag(&self, long: &str) -> (r: bool)
        ensures
            r == exists|k: int| 0 <= k < self@.flags.len() && (#[trigger] self@.flags[k]).0.long@ == long@,
    {
        let mut i: usize = 0;
        while i < self.flags.len()
            invariant
                i <= self.flags@.len(),
                forall|k: int| 0 <= k < i ==> (#[trigger] self@.flags[k]).0.long@ != long@,
            decreases self.flags.len() - i,
        {
            if str_eq(self.flags[i].0.long.as_str(), long) {
                assert(self@.flags[i as int].0.long@ == long@);
                return true;
            }
            i = i + 1;
        }
        false
    }

    /// The text given with the first occurrence of the flag with long name
    /// `long`; `None` where the flag was not passed or took no value.
    pub fn get_flag_text(&self, long: &str) -> (r: Option<String>)
        ensures
            value_view(r) == first_value(self@.flags, long@, 0),
    {
        let mut i: usize = 0;
        while i < self.flags.len()
            invariant
                i <= self.flags@.len(),
                first_value(self@.flags, long@, 0) == first_value(self@.flags, long@, i as int),
            decreases self.flags.len() - i,
        {
            if str_eq(self.flags[i].0.long.as_str(), long) {
                return match &self.flags[i].1 {
                    Some(v) => Some(v.clone()),
                    None => None,
                };
            }
            i = i + 1;
        }
        None
    }

    /// The value of the first occurrence of the flag with long name `long`,
    /// read as a `T`. `None` where the flag was not passed, took no value, or
    /// its text does not read as a `T`.
    pub fn get_flag_value<T: FromStr>(&self, long: &str) -> (r: Option<T>)
        ensures
            first_value(self@.flags, long@, 0) is None ==> r is None,
    {
        match self.get_flag_text(long) {
            Some(v) => parse_text::<T>(v.as_str()),
            None => None,
        }
    }

    fn new() -> (r: FlagParse)
        ensures
            r@.flags == Seq::<(Flag, Option<Seq<char>>)>::empty(),
            r@.args == Seq::<Seq<char>>::empty(),
    {
        let r = FlagParse { flags: Vec::new(), args: Vec::new() };
        assert(r@.flags =~= Seq::<(Flag, Option<Seq<char>>)>::empty());
        assert(r@.args =~= Seq::<Seq<char>>::empty());
        r
    }

    fn add_flag(&mut self, flag: &Flag)
        ensures
            final(self)@.flags == old(self)@.flags.push((*flag, None)),
            final(self)@.args == old(self)@.args,
    {
        self.flags.push((flag.clone(), None));
        assert(self@.flags =~= old(self)@.flags.push((*flag, None)));
    }

    fn add_flag_with_value(&mut self, flag: &Flag, value: &str)
        ensures
            final(self)@.flags == old(self)@.flags.push((*flag, Some(value@))),
            final(self)@.args == old(self)@.args,
    {
        self.flags.push((flag.clone(), Some(value.to_owned())));
        assert(self@.flags =~= old(self)@.flags.push((*flag, Some(value@))));
    }

    fn add_arg(&mut self, arg: &String)
        ensures
            final(self)@.flags == old(self)@.flags,
            final(self)@.args == old(self)@.args.push(arg@),
    {
        self.args.push(arg.clone());
        assert(self@.args =~= old(self)@.args.push(arg@));
    }
}

} // verus!
