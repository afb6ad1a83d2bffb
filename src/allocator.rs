use vstd::prelude::*;

verus! {

/// Identifier of a script-created panel.
pub type PanelId = usize;

/// Hands out panel identifiers in strictly increasing order, starting at 0.
/// An identifier is never handed out twice: once the counter has reached
/// `usize::MAX` the allocator is exhausted and refuses further requests.
pub struct PanelIdAllocator {
    next: usize,
}

impl PanelIdAllocator {
    /// The identifier that the next successful request returns.
    pub closed spec fn spec_next(&self) -> nat {
        self.next as nat
    }

    /// Whether every identifier has been handed out.
    pub open spec fn is_exhausted(&self) -> bool {
        self.spec_next() == usize::MAX as nat
    }

    pub fn new() -> (r: Self)
        ensures
            r.spec_next() == 0,
    {
        PanelIdAllocator { next: 0 }
    }

    /// The identifier that the next successful request returns.
    pub fn peek(&self) -> (r: usize)
        ensures
            r as nat == self.spec_next(),
    {
        self.next
    }

    /// Returns a fresh identifier, or `None` once the allocator is exhausted.
    pub fn next_id(&mut self) -> (r: Option<PanelId>)
        ensures
            old(self).is_exhausted() ==> r.is_none() && final(self).spec_next() == old(self).spec_next(),
            !old(self).is_exhausted() ==> r.is_some() && r.unwrap() as nat == old(self).spec_next()
                && final(self).spec_next() == old(self).spec_next() + 1,
    {
        if self.next == usize::MAX {
            None
        } else {
            let id = self.next;
            self.next = self.next + 1;
            Some(id)
        }
    }
}

/// Identifiers returned by successive requests are strictly increasing, and
/// so pairwise distinct.
pub proof fn lemma_ids_increase(a0: PanelIdAllocator, a1: PanelIdAllocator, a2: PanelIdAllocator, x: PanelId, y: PanelId)
    requires
        !a0.is_exhausted() && x as nat == a0.spec_next() && a1.spec_next() == a0.spec_next() + 1,
        a1.spec_next() <= a2.spec_next(),
        !a2.is_exhausted() && y as nat == a2.spec_next(),
    ensures
        x < y,
        x != y,
{
}

} // verus!
