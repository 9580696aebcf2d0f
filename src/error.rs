use vstd::prelude::*;
use vstd::string::*;

verus! {

/// Why a run of the parser stopped.
#[derive(Debug)]
pub enum ArgParseError {
    /// The first argument named no known command. [`crate::Cli::run`] never
    /// reports it: an unknown command name falls back to the root command.
    InvalidCommand,
    /// A flag-shaped token matched no flag of the resolved command; carries the token.
    InvalidFlag(String),
    /// A flag that takes a value was the last token; carries the flag's token.
    MissingFlagValue(String),
    /// The command's handler reported a failure; carries its message.
    UserError(String),
}

/// An [`ArgParseError`] with its strings seen as character sequences.
pub enum ArgParseErrorView {
    InvalidCommand,
    InvalidFlag(Seq<char>),
    MissingFlagValue(Seq<char>),
    UserError(Seq<char>),
}

impl View for ArgParseError {
    type V = ArgParseErrorView;

    open spec fn view(&self) -> ArgParseErrorView {
        match self {
            ArgParseError::InvalidCommand => ArgParseErrorView::InvalidCommand,
            ArgParseError::InvalidFlag(t) => ArgParseErrorView::InvalidFlag(t@),
            ArgParseError::MissingFlagValue(t) => ArgParseErrorView::MissingFlagValue(t@),
            ArgParseError::UserError(m) => ArgParseErrorView::UserError(m@),
        }
    }
}

/// The human-readable text of an error.
pub open spec fn error_message(e: ArgParseErrorView) -> Seq<char> {
    match e {
        ArgParseErrorView::InvalidCommand => "invalid command"@,
        ArgParseErrorView::InvalidFlag(t) => "invalid flag: "@ + t,
        ArgParseErrorView::MissingFlagValue(t) => "missing flag value: "@ + t,
        ArgParseErrorView::UserError(m) => m,
    }
}

impl ArgParseError {
    /// The error as text: `invalid command`, `invalid flag: <token>`,
    /// `missing flag value: <token>`, or the handler's own message.
    pub fn message(&self) -> (r: String)
        ensures
            r@ == error_message(self@),
    {
        match self {
            ArgParseError::InvalidCommand => String::from_str("invalid command"),
            ArgParseError::InvalidFlag(t) => String::from_str("invalid flag: ").concat(t.as_str()),
            ArgParseError::MissingFlagValue(t) => String::from_str("missing flag value: ").concat(t.as_str()),
            ArgParseError::UserError(m) => m.clone(),
        }
    }
}

} // verus!
