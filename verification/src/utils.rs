//! One-shot latch that pairs a tag name with the value that follows it.

use vstd::prelude::*;

verus! {

/// Capture state of one tag inside one scope (a record, or the whole
/// document).
///
/// A tag name sets `found`; the next value is handed to the tag through
/// [`FoundCaptured::is_found`], which succeeds once and then never again.
#[derive(Clone, Copy, Debug, PartialEq, Eq, Structural)]
pub struct FoundCaptured {
    /// The tag name has been seen in this scope.
    pub found: bool,
    /// The value of the tag has already been handed out.
    pub captured: bool,
    /// Length that the document declared for the value, if any.
    pub length: Option<usize>,
}

impl FoundCaptured {
    /// The latch before anything has been seen.
    pub open spec fn fresh() -> FoundCaptured {
        FoundCaptured { found: false, captured: false, length: None }
    }

    /// The tag was named and its value has not been taken yet.
    pub open spec fn ready(self) -> bool {
        self.found && !self.captured
    }

    /// The latch after the tag name has been seen.
    pub open spec fn marked(self) -> FoundCaptured {
        FoundCaptured { found: true, ..self }
    }

    /// The latch after a length `len` has been announced.
    pub open spec fn declared(self, len: usize) -> FoundCaptured {
        if self.ready() {
            FoundCaptured { length: Some(len), ..self }
        } else {
            self
        }
    }

    /// The latch after a value has been offered to it.
    pub open spec fn taken(self) -> FoundCaptured {
        if self.ready() {
            FoundCaptured { captured: true, ..self }
        } else {
            self
        }
    }

    /// Records that the tag name was seen.
    pub fn set_found(&mut self)
        ensures
            *final(self) == old(self).marked(),
    {
        self.found = true;
    }

    /// Stores a declared length, but only between the tag name and its value.
    pub fn set_length(&mut self, len: usize)
        ensures
            *final(self) == old(self).declared(len),
    {
        if self.found && !self.captured {
            self.length = Some(len);
        }
    }

    /// Offers a value to the latch: `true` exactly when the tag name was seen
    /// and no value has been taken before.
    pub fn is_found(&mut self) -> (taken: bool)
        ensures
            taken == old(self).ready(),
            *final(self) == old(self).taken(),
    {
        if self.found && !self.captured {
            self.captured = true;
            return true;
        }
        false
    }
}

impl Default for FoundCaptured {
    fn default() -> (latch: FoundCaptured)
        ensures
            latch == FoundCaptured::fresh(),
    {
        FoundCaptured { found: false, captured: false, length: None }
    }
}

/// A latch hands out one value and no more: once it has taken a value it
/// is never ready again, whatever is done to it. Seeing the tag name twice
/// is the same as seeing it once, and a length is stored only while the
/// latch is ready.
pub proof fn lemma_latch_takes_once(latch: FoundCaptured, len: usize)
    ensures
        !latch.taken().ready(),
        latch.captured ==> latch.marked().captured && latch.declared(len).captured
            && latch.taken().captured,
        latch.captured ==> !latch.marked().ready() && !latch.declared(len).ready(),
        latch.marked().marked() == latch.marked(),
        !latch.ready() ==> latch.declared(len) == latch && latch.taken() == latch,
        latch.declared(len).ready() == latch.ready(),
{
}

} // verus!
