use vstd::prelude::*;

use crate::cli::{first_command, resolve, Cli};
use crate::flag::Flag;
use crate::parse::{first_match, flag_matches, tokens, walk, FlagParseView};
use crate::token::{is_flag_token, is_long_token};

verus! {

/// No two flags share a long name.
pub open spec fn longs_unique(flags: Seq<Flag>) -> bool {
    forall|a: int, b: int|
        0 <= a < flags.len() && 0 <= b < flags.len() && a != b ==> #[trigger] flags[a].long@
            != #[trigger] flags[b].long@
}

/// The long-form token of a flag: `--` followed by its long name.
pub open spec fn long_token(f: Flag) -> Seq<char> {
    seq!['-', '-'] + f.long@
}

/// The tokens that pass flag `f` with value `v`: its long form, then the
/// value where there is one.
pub open spec fn flag_tokens(f: Flag, v: Option<Seq<char>>) -> Seq<Seq<char>> {
    match v {
        Some(x) => seq![long_token(f), x],
        None => seq![long_token(f)],
    }
}

/// The tokens that pass each chosen flag (an index into `flags` and a value)
/// in order.
pub open spec fn serialize(flags: Seq<Flag>, chosen: Seq<(int, Option<Seq<char>>)>) -> Seq<Seq<char>>
    decreases chosen.len(),
{
    if chosen.len() == 0 {
        seq![]
    } else {
        flag_tokens(flags[chosen[0].0], chosen[0].1) + serialize(flags, chosen.skip(1))
    }
}

/// The chosen flags as a parse records them.
pub open spec fn recorded(flags: Seq<Flag>, chosen: Seq<(int, Option<Seq<char>>)>) -> Seq<
    (Flag, Option<Seq<char>>),
> {
    chosen.map_values(|p: (int, Option<Seq<char>>)| (flags[p.0], p.1))
}

/// Each chosen flag exists and carries a value exactly when it takes one.
pub open spec fn well_chosen(flags: Seq<Flag>, chosen: Seq<(int, Option<Seq<char>>)>) -> bool {
    forall|k: int|
        0 <= k < chosen.len() ==> 0 <= (#[trigger] chosen[k]).0 < flags.len() && (chosen[k].1 is Some
            <==> flags[chosen[k].0].parameter)
}

/// The walk over `p + b` from inside `b` is the walk over `b` alone.
proof fn lemma_walk_suffix(flags: Seq<Flag>, p: Seq<Seq<char>>, b: Seq<Seq<char>>, i: int)
    requires
        0 <= i,
    ensures
        walk(flags, p + b, p.len() + i) == walk(flags, b, i),
    decreases b.len() - i,
{
    let t = p + b;
    if i < b.len() {
        assert(t[p.len() + i] == b[i]);
        assert(t.subrange(p.len() + i, t.len() as int) =~= b.subrange(i, b.len() as int));
        lemma_walk_suffix(flags, p, b, i + 1);
        if i + 1 < b.len() {
            assert(t[p.len() + i + 1] == b[i + 1]);
            lemma_walk_suffix(flags, p, b, i + 2);
        }
    }
}

/// With unique long names, the long-form token of flag `k` names flag `k`.
proof fn lemma_long_token_finds(flags: Seq<Flag>, k: int, i: int)
    requires
        longs_unique(flags),
        0 <= i <= k < flags.len(),
    ensures
        first_match(flags, long_token(flags[k]), i) == Some(k),
    decreases k - i,
{
    let t = long_token(flags[k]);
    assert(t.skip(2) =~= flags[k].long@);
    assert(is_long_token(t));
    if i < k {
        assert(flags[i].long@ != flags[k].long@);
        assert(!flag_matches(flags[i], t));
        lemma_long_token_finds(flags, k, i + 1);
    }
}

/// Round trip: serialising a chosen list of flags by their long names (with
/// a value for each flag that takes one), followed by positional arguments
/// whose first is not flag-shaped, parses back to exactly those flags, values
/// and positionals, in order. Long names must be unique among the flags.
pub proof fn lemma_round_trip(
    flags: Seq<Flag>,
    chosen: Seq<(int, Option<Seq<char>>)>,
    positionals: Seq<Seq<char>>,
)
    requires
        longs_unique(flags),
        well_chosen(flags, chosen),
        positionals.len() > 0 ==> !is_flag_token(positionals[0]),
    ensures
        walk(flags, serialize(flags, chosen) + positionals, 0) == Ok::<
            FlagParseView,
            crate::error::ArgParseErrorView,
        >(FlagParseView { flags: recorded(flags, chosen), args: positionals }),
    decreases chosen.len(),
{
    let toks = serialize(flags, chosen) + positionals;
    if chosen.len() == 0 {
        assert(serialize(flags, chosen) + positionals =~= positionals);
        assert(recorded(flags, chosen) =~= seq![]);
        assert(positionals.subrange(0, positionals.len() as int) =~= positionals);
    } else {
        let (j, v) = chosen[0];
        let rest = chosen.skip(1);
        assert(well_chosen(flags, rest)) by {
            assert forall|k: int| 0 <= k < rest.len() implies 0 <= (#[trigger] rest[k]).0 < flags.len()
                && (rest[k].1 is Some <==> flags[rest[k].0].parameter) by {
                assert(rest[k] == chosen[k + 1]);
            }
        }
        lemma_round_trip(flags, rest, positionals);
        let head = flag_tokens(flags[j], v);
        let tail = serialize(flags, rest) + positionals;
        assert(toks =~= head + tail);
        lemma_long_token_finds(flags, j, 0);
        assert(toks[0] == long_token(flags[j]));
        assert(is_flag_token(toks[0]));
        lemma_walk_suffix(flags, head, tail, 0);
        if v is Some {
            assert(toks[1] == v->Some_0);
        }
        assert(recorded(flags, chosen) =~= seq![(flags[j], v)] + recorded(flags, rest));
        assert(positionals =~= Seq::<Seq<char>>::empty() + positionals);
    }
}

/// A flag-less command given only positional arguments records no flags and
/// takes every token, from where its flags would start, as a positional, in
/// order.
pub proof fn lemma_positionals_only(flags: Seq<Flag>, toks: Seq<Seq<char>>, start: int)
    requires
        flags.len() == 0,
        0 <= start <= toks.len(),
        forall|k: int| start <= k < toks.len() ==> !is_flag_token(#[trigger] toks[k]),
    ensures
        walk(flags, toks, start) == Ok::<FlagParseView, crate::error::ArgParseErrorView>(
            FlagParseView { flags: seq![], args: toks.subrange(start, toks.len() as int) },
        ),
{
    if start == toks.len() {
        assert(toks.subrange(start, toks.len() as int) =~= Seq::<Seq<char>>::empty());
    }
}

/// Round trip through a whole command line: the program's name, the name of
/// subcommand `c` (the first subcommand with that name, not flag-shaped),
/// then chosen flags of `c` by their long names and positional arguments
/// whose first is not flag-shaped. Parsing selects `c` and gives back exactly
/// those flags, values and positionals.
pub proof fn lemma_cli_round_trip<H>(
    cli: Cli<H>,
    c: int,
    args: Seq<String>,
    chosen: Seq<(int, Option<Seq<char>>)>,
    positionals: Seq<Seq<char>>,
)
    requires
        0 <= c < cli.subcommands@.len(),
        first_command(cli.subcommands@, cli.subcommands@[c].command_name@, 0) == Some(c),
        !is_flag_token(cli.subcommands@[c].command_name@),
        longs_unique(cli.subcommands@[c].flags@),
        well_chosen(cli.subcommands@[c].flags@, chosen),
        positionals.len() > 0 ==> !is_flag_token(positionals[0]),
        args.len() >= 2,
        tokens(args) == seq![tokens(args)[0], cli.subcommands@[c].command_name@] + serialize(
            cli.subcommands@[c].flags@,
            chosen,
        ) + positionals,
    ensures
        cli.parse_spec(args) == Ok::<_, crate::error::ArgParseErrorView>(
            (
                Some(c),
                FlagParseView {
                    flags: recorded(cli.subcommands@[c].flags@, chosen),
                    args: positionals,
                },
            ),
        ),
{
    let flags = cli.subcommands@[c].flags@;
    let toks = tokens(args);
    let head = seq![toks[0], cli.subcommands@[c].command_name@];
    let tail = serialize(flags, chosen) + positionals;
    assert(toks =~= head + tail);
    assert(toks[1] == cli.subcommands@[c].command_name@);
    assert(resolve(cli.subcommands@, toks) == (Some(c), 2int));
    lemma_walk_suffix(flags, head, tail, 0);
    lemma_round_trip(flags, chosen, positionals);
}

} // verus!
