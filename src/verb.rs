use crate::check::Check;
use crate::link::Link;
use crate::model::Model;
use vstd::prelude::*;

verus! {

/// The operations of the command line.
pub enum Operation {
    Link(Link),
    Model(Model),
    Check(Check),
}

/// The command line: a version request or one operation.
pub struct Verb {
    version: bool,
    subcommand: Option<Operation>,
}

impl Verb {
    pub fn new(version: bool, subcommand: Option<Operation>) -> (r: Verb)
        ensures
            r.wants_version() == version,
            r.operation() == subcommand,
    {
        Verb { version, subcommand }
    }

    pub closed spec fn wants_version(&self) -> bool {
        self.version
    }

    pub closed spec fn operation(&self) -> Option<Operation> {
        self.subcommand
    }

    /// Whether only the version is to be printed.
    pub fn is_version(&self) -> (r: bool)
        ensures
            r == self.wants_version(),
    {
        self.version
    }

    /// The operation to run, if one was named.
    pub fn into_subcommand(self) -> (r: Option<Operation>)
        ensures
            r == self.operation(),
    {
        self.subcommand
    }
}

} // verus!
