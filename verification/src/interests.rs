use vstd::prelude::*;

verus! {

/// Which readiness conditions a registration cares about: a closed set of
/// flags over {Readable, Writable}. An empty set is rejected by `register`;
/// Writable is representable but the readiness backend refuses to actuate it.
#[derive(Clone, Copy, Debug, PartialEq, Eq, Structural)]
pub struct Interests {
    readable: bool,
    writable: bool,
}

impl Interests {
    /// Whether the set contains the Readable flag.
    pub closed spec fn spec_readable(self) -> bool {
        self.readable
    }

    /// Whether the set contains the Writable flag.
    pub closed spec fn spec_writable(self) -> bool {
        self.writable
    }

    /// Whether the set contains no flag at all.
    pub open spec fn spec_is_empty(self) -> bool {
        !self.spec_readable() && !self.spec_writable()
    }

    /// A set holding exactly the requested flags.
    pub fn new(readable: bool, writable: bool) -> (r: Self)
        ensures
            r.spec_readable() == readable,
            r.spec_writable() == writable,
    {
        Interests { readable, writable }
    }

    /// The set {Readable}.
    pub fn readable() -> (r: Self)
        ensures
            r.spec_readable(),
            !r.spec_writable(),
    {
        Interests { readable: true, writable: false }
    }

    /// The set {Writable}.
    pub fn writable() -> (r: Self)
        ensures
            !r.spec_readable(),
            r.spec_writable(),
    {
        Interests { readable: false, writable: true }
    }

    /// The empty set, which `register` rejects.
    pub fn empty() -> (r: Self)
        ensures
            r.spec_is_empty(),
    {
        Interests { readable: false, writable: false }
    }

    pub fn is_readable(&self) -> (b: bool)
        ensures
            b == self.spec_readable(),
    {
        self.readable
    }

    pub fn is_writable(&self) -> (b: bool)
        ensures
            b == self.spec_writable(),
    {
        self.writable
    }

    pub fn is_empty(&self) -> (b: bool)
        ensures
            b == self.spec_is_empty(),
    {
        !self.readable && !self.writable
    }
}

} // verus!
