use vstd::prelude::*;

verus! {

/// What the command line asks for.
#[derive(Debug)]
pub enum Action {
    Default {
        enable: bool,
        disable: bool,
        ipv4: Option<String>,
        leak: bool,
        local: bool,
        print: bool,
    },
}

} // verus!
