use vstd::prelude::*;

verus! {

/// How much diagnostic text goes to the error stream.
#[derive(Debug, Clone, Copy, PartialEq, Eq, Structural)]
pub enum Verbosity {
    Normal,
    Verbose,
    Debug,
}

/// The level chosen by how many times the verbose flag was given.
pub open spec fn level_of_count(count: u8) -> Verbosity {
    if count == 0 {
        Verbosity::Normal
    } else if count == 1 {
        Verbosity::Verbose
    } else {
        Verbosity::Debug
    }
}

impl From<u8> for Verbosity {
    fn from(count: u8) -> (r: Self)
        ensures
            r == level_of_count(count),
    {
        if count == 0 {
            Verbosity::Normal
        } else if count == 1 {
            Verbosity::Verbose
        } else {
            Verbosity::Debug
        }
    }
}

impl vstd::std_specs::convert::FromSpecImpl<u8> for Verbosity {
    open spec fn obeys_from_spec() -> bool {
        true
    }

    open spec fn from_spec(count: u8) -> Verbosity {
        level_of_count(count)
    }
}

impl Verbosity {
    /// Whether progress messages should be shown.
    pub fn is_verbose(self) -> (r: bool)
        ensures
            r == (self is Verbose || self is Debug),
    {
        match self {
            Verbosity::Normal => false,
            Verbosity::Verbose => true,
            Verbosity::Debug => true,
        }
    }

    /// Whether step-by-step debug messages should be shown.
    pub fn is_debug(self) -> (r: bool)
        ensures
            r == (self is Debug),
    {
        match self {
            Verbosity::Debug => true,
            _ => false,
        }
    }
}

} // verus!
