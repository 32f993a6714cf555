//! A subsystem together with its name, ready to be started.
use vstd::prelude::*;

verus! {

/// A subsystem `S` (the function that runs it) with the name it is started under.
pub struct SubsystemBuilder<S> {
    name: String,
    subsystem: S,
}

impl<S> SubsystemBuilder<S> {
    /// The name the subsystem is started under.
    pub closed spec fn name(self) -> Seq<char> {
        self.name@
    }

    /// The subsystem.
    pub closed spec fn subsystem(self) -> S {
        self.subsystem
    }

    /// Pairs a subsystem with its name.
    pub fn new(name: String, subsystem: S) -> (builder: Self)
        ensures
            builder.name() == name@,
            builder.subsystem() == subsystem,
    {
        SubsystemBuilder { name, subsystem }
    }

    /// The name and the subsystem, to start it with.
    pub fn into_parts(self) -> (parts: (String, S))
        ensures
            parts.0@ == self.name(),
            parts.1 == self.subsystem(),
    {
        (self.name, self.subsystem)
    }
}

} // verus!
