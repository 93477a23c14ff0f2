use vstd::prelude::*;

verus! {

/// Where the memory of a new object comes from.
#[derive(Clone, Copy, Debug, PartialEq, Eq, Structural)]
pub enum Allocator {
    /// The allocator that is used where none is named.
    Default,
    /// The allocator that never gives any memory: every creation call that is
    /// handed it fails.
    Null,
}

impl Allocator {
    /// The default allocator.
    #[inline]
    pub fn default() -> (a: Allocator)
        ensures
            a == Allocator::Default,
    {
        Allocator::Default
    }

    /// The allocator that allocates nothing.
    #[inline]
    pub fn null() -> (a: Allocator)
        ensures
            a == Allocator::Null,
    {
        Allocator::Null
    }

    /// Whether a creation call that is handed `allocator` can get memory from
    /// it; with none named, the default one is used.
    pub open spec fn spec_gives_memory(allocator: Option<&Allocator>) -> bool {
        match allocator {
            Some(a) => *a == Allocator::Default,
            None => true,
        }
    }

    /// Whether a creation call that is handed `allocator` can get memory from
    /// it.
    #[inline]
    pub fn gives_memory(allocator: Option<&Allocator>) -> (yes: bool)
        ensures
            yes == Self::spec_gives_memory(allocator),
    {
        match allocator {
            Some(a) => match a {
                Allocator::Default => true,
                Allocator::Null => false,
            },
            None => true,
        }
    }
}

} // verus!
