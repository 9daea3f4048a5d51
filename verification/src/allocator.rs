//! Small reusable identifiers.

use vstd::prelude::*;

verus! {

/// Hands out small numbers and takes them back, so that the numbers in use
/// stay small.
#[derive(Clone, Debug)]
pub struct IdAllocator {
    next: usize,
    recycled: Vec<usize>,
}

/// What an allocator holds: the next number never handed out, and the
/// numbers that came back, the latest last.
pub struct Ids {
    pub next: usize,
    pub recycled: Seq<usize>,
}

/// The number that the next allocation hands out: the one that came back
/// last, or else the next new one.
pub open spec fn alloc_id(s: Ids) -> usize {
    if s.recycled.len() > 0 {
        s.recycled.last()
    } else {
        s.next
    }
}

/// The allocator after one allocation. Once every number has been handed
/// out, the largest is handed out again.
pub open spec fn after_alloc(s: Ids) -> Ids {
    if s.recycled.len() > 0 {
        Ids { next: s.next, recycled: s.recycled.drop_last() }
    } else if s.next < usize::MAX {
        Ids { next: (s.next + 1) as usize, recycled: s.recycled }
    } else {
        s
    }
}

/// The allocator after `id` came back.
pub open spec fn after_free(s: Ids, id: usize) -> Ids {
    Ids { next: s.next, recycled: s.recycled.push(id) }
}

impl View for IdAllocator {
    type V = Ids;

    closed spec fn view(&self) -> Ids {
        Ids { next: self.next, recycled: self.recycled@ }
    }
}

impl IdAllocator {
    /// An allocator that has handed out nothing yet.
    pub fn new() -> (a: IdAllocator)
        ensures
            a@ == (Ids { next: 0, recycled: Seq::empty() }),
    {
        IdAllocator { next: 0, recycled: Vec::new() }
    }

    /// Hands out a number.
    pub fn allocate(&mut self) -> (id: usize)
        ensures
            id == alloc_id(old(self)@),
            final(self)@ == after_alloc(old(self)@),
    {
        match self.recycled.pop() {
            Some(id) => id,
            None => {
                let id: usize = self.next;
                if self.next < usize::MAX {
                    self.next = self.next + 1;
                }
                id
            },
        }
    }

    /// Takes a number back.
    pub fn free(&mut self, id: usize)
        ensures
            final(self)@ == after_free(old(self)@, id),
    {
        self.recycled.push(id);
    }
}

} // verus!
