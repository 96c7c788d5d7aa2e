//! Unique identifiers of world entities.
use vstd::prelude::*;

verus! {

/// An entity identifier.
#[derive(Clone, Copy, Debug, Hash, PartialEq, Eq, Structural, PartialOrd, Ord)]
pub struct Id(pub u64);

/// A generator of fresh identifiers, counting up from zero.
#[derive(Clone, Debug)]
pub struct IdGen {
    next: Id,
}

impl View for IdGen {
    type V = u64;

    /// The identifier that the generator hands out next.
    closed spec fn view(&self) -> u64 {
        self.next.0
    }
}

impl IdGen {
    pub fn new() -> (g: IdGen)
        ensures
            g@ == 0,
    {
        Self::default()
    }

    pub fn default() -> (g: IdGen)
        ensures
            g@ == 0,
    {
        IdGen { next: Id(0) }
    }

    /// Hands out the next identifier.
    pub fn gen(&mut self) -> (id: Id)
        requires
            old(self)@ < u64::MAX,
        ensures
            id.0 == old(self)@,
            final(self)@ == old(self)@ + 1,
    {
        let id = self.next;
        self.next = Id(self.next.0 + 1);
        id
    }
}

} // verus!
