//! A small declarative command-line parser.
//!
//! A program describes itself with a [`Cli`] schema: a root command, named
//! subcommands, and for each command the flags it recognises. [`Cli::run`]
//! walks the raw argument list, resolves the command, collects flags (with
//! their values) and positional arguments, and hands the result to the
//! command's handler.

pub mod cli;
pub mod error;
pub mod flag;
pub mod laws;
pub mod parse;
pub mod token;

pub use cli::{Cli, Command};
pub use error::ArgParseError;
pub use flag::Flag;
pub use laws::{lemma_cli_round_trip, lemma_positionals_only, lemma_round_trip};
pub use parse::FlagParse;
pub use token::looks_like_flag;
