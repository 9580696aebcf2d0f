use vstd::prelude::*;

verus! {

/// One flag a command recognises.
///
/// `long` is the name queries use; `short` is an optional one-character alias.
/// `required` is advisory: the parser records it but never enforces it.
pub struct Flag {
    pub desc: String,
    /// Whether the flag must be passed (documentation only).
    pub required: bool,
    /// Whether the token after the flag is taken as its value.
    pub parameter: bool,
    /// Short name, passed with one dash (`-v`).
    pub short: Option<char>,
    /// Long name, passed with two dashes (`--verbose`).
    pub long: String,
}

impl Clone for Flag {
    fn clone(&self) -> (r: Self)
        ensures
            r == *self,
    {
        Flag {
            desc: self.desc.clone(),
            required: self.required,
            parameter: self.parameter,
            short: self.short,
            long: self.long.clone(),
        }
    }
}

impl Flag {
    /// A flag with the given long name, no short name, no description, not
    /// required and taking no value.
    pub fn new(long: &str) -> (r: Flag)
        ensures
            r.long@ == long@,
            r.short is None,
            r.desc@ == Seq::<char>::empty(),
            !r.required,
            !r.parameter,
    {
        Flag { desc: String::new(), required: false, parameter: false, short: None, long: long.to_owned() }
    }

    /// Sets the description.
    pub fn desc(self, desc: &str) -> (r: Flag)
        ensures
            r.desc@ == desc@,
            r.required == self.required,
            r.parameter == self.parameter,
            r.short == self.short,
            r.long == self.long,
    {
        Flag { desc: desc.to_owned(), ..self }
    }

    /// Marks the flag as required.
    pub fn required(self) -> (r: Flag)
        ensures
            r.required,
            r.desc == self.desc,
            r.parameter == self.parameter,
            r.short == self.short,
            r.long == self.long,
    {
        Flag { required: true, ..self }
    }

    /// Marks the flag as taking a value.
    pub fn parameter(self) -> (r: Flag)
        ensures
            r.parameter,
            r.desc == self.desc,
            r.required == self.required,
            r.short == self.short,
            r.long == self.long,
    {
        Flag { parameter: true, ..self }
    }

    /// Sets the short name.
    pub fn short(self, short: char) -> (r: Flag)
        ensures
            r.short == Some(short),
            r.desc == self.desc,
            r.required == self.required,
            r.parameter == self.parameter,
            r.long == self.long,
    {
        Flag { short: Some(short), ..self }
    }

    /// Sets the long name.
    pub fn long(self, long: &str) -> (r: Flag)
        ensures
            r.long@ == long@,
            r.desc == self.desc,
            r.required == self.required,
            r.parameter == self.parameter,
            r.short == self.short,
    {
        Flag { long: long.to_owned(), ..self }
    }
}

} // verus!
