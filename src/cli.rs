use vstd::prelude::*;

use crate::error::{ArgParseError, ArgParseErrorView};
use crate::flag::Flag;
use crate::parse::{tokens, walk, FlagParse, FlagParseView};
use crate::token::{is_flag_token, looks_like_flag, str_eq};

verus! {

/// A command: its name, a description, the flags it recognises, and the
/// handler that receives what was parsed.
pub struct Command<H> {
    pub command_name: &'static str,
    pub desc: &'static str,
    /// Called with the parse result when this command is invoked.
    pub handler: H,
    /// The flags this command takes; the first match wins.
    pub flags: Vec<Flag>,
}

/// The schema of a command-line program.
pub struct Cli<H> {
    /// Name of the program.
    pub program_name: &'static str,
    /// Brief description of the program.
    pub synopsis: &'static str,
    /// The command used when no subcommand is named.
    pub root_command: Command<H>,
    /// The named subcommands.
    pub subcommands: Vec<Command<H>>,
    /// Flags meant for every command (recorded, not yet consulted).
    pub global_flags: Vec<Flag>,
}

impl<H> Command<H> {
    /// A command with an empty name and description and no flags.
    pub fn new(handler: H) -> (r: Command<H>)
        ensures
            r.command_name@ == Seq::<char>::empty(),
            r.desc@ == Seq::<char>::empty(),
            r.handler == handler,
            r.flags@ == Seq::<Flag>::empty(),
    {
        proof {
            reveal_strlit("");
        }
        Command { command_name: "", desc: "", handler, flags: Vec::new() }
    }
}

/// The index of the first subcommand, from `i` on, named `name`.
pub open spec fn first_command<H>(subs: Seq<Command<H>>, name: Seq<char>, i: int) -> Option<int>
    decreases subs.len() - i,
{
    if i < 0 || i >= subs.len() {
        None
    } else if subs[i].command_name@ == name {
        Some(i)
    } else {
        first_command(subs, name, i + 1)
    }
}

/// Which command an argument list invokes, and where its flags start.
///
/// The first token is the program's own name and is skipped. A following
/// token that is not flag-shaped is taken as a command name: the first
/// subcommand with that name is chosen (`Some(index)`), and where none has
/// it, the root command (`None`). Either way the name is consumed.
pub open spec fn resolve<H>(subs: Seq<Command<H>>, toks: Seq<Seq<char>>) -> (Option<int>, int) {
    if toks.len() <= 1 {
        (None, toks.len() as int)
    } else if is_flag_token(toks[1]) {
        (None, 1)
    } else {
        (first_command(subs, toks[1], 0), 2)
    }
}

impl<H> Cli<H> {
    /// A program with empty name and synopsis, the given root command and
    /// no subcommands or global flags.
    pub fn new(root_command: Command<H>) -> (r: Cli<H>)
        ensures
            r.program_name@ == Seq::<char>::empty(),
            r.synopsis@ == Seq::<char>::empty(),
            r.root_command == root_command,
            r.subcommands@ == Seq::<Command<H>>::empty(),
            r.global_flags@ == Seq::<Flag>::empty(),
    {
        proof {
            reveal_strlit("");
        }
        Cli {
            program_name: "",
            synopsis: "",
            root_command,
            subcommands: Vec::new(),
            global_flags: Vec::new(),
        }
    }

    /// The command that `choice` designates: a subcommand by index, or the root.
    pub open spec fn command_of(&self, choice: Option<int>) -> Command<H> {
        match choice {
            Some(c) => self.subcommands@[c],
            None => self.root_command,
        }
    }

    /// What parsing `args` gives: the chosen command and its parse result.
    pub open spec fn parse_spec(&self, args: Seq<String>) -> Result<
        (Option<int>, FlagParseView),
        ArgParseErrorView,
    > {
        let toks = tokens(args);
        let (choice, start) = resolve(self.subcommands@, toks);
        match walk(self.command_of(choice).flags@, toks, start) {
            Ok(v) => Ok((choice, v)),
            Err(e) => Err(e),
        }
    }

    /// Finds the command that `args` invokes and the index of its first flag token.
    pub fn resolve_command(&self, args: &Vec<String>) -> (r: (Option<usize>, usize))
        ensures
            resolve(self.subcommands@, tokens(args@)) == (
                match r.0 {
                    Some(c) => Some(c as int),
                    None => None::<int>,
                },
                r.1 as int,
            ),
            r.1 <= args@.len(),
            match r.0 {
                Some(c) => c < self.subcommands@.len(),
                None => true,
            },
    {
        if args.len() <= 1 {
            return (None, args.len());
        }
        let name = args[1].as_str();
        if looks_like_flag(name) {
            return (None, 1);
        }
        let mut i: usize = 0;
        while i < self.subcommands.len()
            invariant
                args@.len() > 1,
                name@ == tokens(args@)[1],
                !is_flag_token(name@),
                i <= self.subcommands@.len(),
                first_command(self.subcommands@, name@, 0) == first_command(
                    self.subcommands@,
                    name@,
                    i as int,
                ),
            decreases self.subcommands.len() - i,
        {
            if str_eq(self.subcommands[i].command_name, name) {
                return (Some(i), 2);
            }
            i = i + 1;
        }
        (None, 2)
    }

    /// Resolves the command that `args` invokes and parses its flags and
    /// positional arguments.
    pub fn parse(&self, args: &Vec<String>) -> (r: Result<(Option<usize>, FlagParse), ArgParseError>)
        ensures
            match self.parse_spec(args@) {
                Ok((choice, v)) => r is Ok && r->Ok_0.1@ == v && match r->Ok_0.0 {
                    Some(c) => choice == Some(c as int),
                    None => choice is None,
                },
                Err(e) => r is Err && r->Err_0@ == e,
            },
            r is Ok ==> match r->Ok_0.0 {
                Some(c) => c < self.subcommands@.len(),
                None => true,
            },
    {
        let (choice, start) = self.resolve_command(args);
        let cmd = match choice {
            Some(c) => &self.subcommands[c],
            None => &self.root_command,
        };
        match FlagParse::from_tokens(&cmd.flags, args, start) {
            Ok(fp) => Ok((choice, fp)),
            Err(e) => Err(e),
        }
    }

    /// Renders help text; not written yet, so it does nothing.
    pub fn help_message(&self) {
    }
}

impl<H: Fn(FlagParse) -> Result<(), String>> Cli<H> {
    /// Whether every command's handler accepts every parse result.
    pub open spec fn handlers_ready(&self) -> bool {
        &&& forall|fp: FlagParse| call_requires(self.root_command.handler, (fp,))
        &&& forall|c: int, fp: FlagParse|
            0 <= c < self.subcommands@.len() ==> #[trigger] call_requires(
                self.subcommands@[c].handler,
                (fp,),
            )
    }

    /// Parses `args` (the first being the program's own name) and calls the
    /// invoked command's handler with the result.
    ///
    /// A parse error is returned as it is and no handler runs. Otherwise the
    /// handler's failure comes back as [`ArgParseError::UserError`] with its
    /// message, and its success as `Ok(())`.
    pub fn run(&self, args: &Vec<String>) -> (r: Result<(), ArgParseError>)
        requires
            self.handlers_ready(),
        ensures
            match self.parse_spec(args@) {
                Err(e) => r is Err && r->Err_0@ == e,
                Ok((choice, v)) => match r {
                    Ok(()) => exists|fp: FlagParse|
                        fp@ == v && #[trigger] call_ensures(
                            self.command_of(choice).handler,
                            (fp,),
                            Ok::<(), String>(()),
                        ),
                    Err(ArgParseError::UserError(m)) => exists|fp: FlagParse|
                        fp@ == v && #[trigger] call_ensures(
                            self.command_of(choice).handler,
                            (fp,),
                            Err::<(), String>(m),
                        ),
                    Err(_) => false,
                },
            },
    {
        let (choice, fp) = match self.parse(args) {
            Ok(p) => p,
            Err(e) => {
                return Err(e);
            },
        };
        let cmd = match choice {
            Some(c) => &self.subcommands[c],
            None => &self.root_command,
        };
        let ghost given = fp;
        let ghost chosen = match choice {
            Some(c) => Some(c as int),
            None => None::<int>,
        };
        assert(cmd.handler == self.command_of(chosen).handler);
        let outcome = (cmd.handler)(fp);
        match outcome {
            Ok(u) => {
                assert(u == ());
                assert(call_ensures(self.command_of(chosen).handler, (given,), Ok::<(), String>(())));
                Ok(())
            },
            Err(m) => Err(ArgParseError::UserError(m)),
        }
    }
}

} // verus!
