//! The single-slot channel through which a search publishes its answer.

use vstd::prelude::*;
use crate::game::Movement;

verus! {

/// A cell that holds "no movement yet" or the latest movement published by
/// its single writer. Every write replaces the whole content, so a reader
/// sees the previous or the newest answer and never a mix of both.
pub struct MoveSlot {
    content: Option<Movement>,
    written: Ghost<Seq<Option<Movement>>>,
}

impl MoveSlot {
    /// What a reader sees now.
    pub closed spec fn current(self) -> Option<Movement> {
        self.content
    }

    /// Everything written so far, oldest first.
    pub closed spec fn published(self) -> Seq<Option<Movement>> {
        self.written@
    }

    #[verifier::type_invariant]
    spec fn latest_wins(self) -> bool {
        if self.written@.len() == 0 {
            self.content is None
        } else {
            self.content == self.written@.last()
        }
    }

    /// A fresh slot, holding no movement.
    pub fn connect() -> (r: MoveSlot)
        ensures
            r.current() is None,
            r.published().len() == 0,
    {
        MoveSlot { content: None, written: Ghost(Seq::empty()) }
    }

    /// Replaces the content of the slot.
    pub fn store(&mut self, movement: Option<Movement>)
        ensures
            final(self).current() == movement,
            final(self).published() == old(self).published().push(movement),
    {
        let ghost longer = self.written@.push(movement);
        *self = MoveSlot { content: movement, written: Ghost(longer) };
    }

    /// Reads the content of the slot: the last answer written, or no
    /// movement where nothing was written yet.
    pub fn load(&self) -> (r: Option<Movement>)
        ensures
            r == self.current(),
            self.published().len() == 0 ==> r is None,
            self.published().len() > 0 ==> r == self.published().last(),
    {
        proof {
            use_type_invariant(self);
        }
        self.content
    }
}

} // verus!
