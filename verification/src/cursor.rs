//! The cursor: the id of the last event that was delivered.

use vstd::prelude::*;

verus! {

/// The highest event id that is known to be delivered. It never goes down.
#[derive(Clone, Copy, Debug, PartialEq, Eq)]
pub struct Cursor {
    last_id: i64,
}

impl View for Cursor {
    type V = i64;

    closed spec fn view(&self) -> i64 {
        self.last_id
    }
}

impl Cursor {
    /// The cursor at startup: the highest id the source holds, so that what is
    /// there already is not delivered again, and 0 for an empty source.
    pub fn initial(max_id: Option<i64>) -> (r: Cursor)
        ensures
            r@ == match max_id {
                Some(id) => id,
                None => 0i64,
            },
    {
        match max_id {
            Some(id) => Cursor { last_id: id },
            None => Cursor { last_id: 0 },
        }
    }

    /// The id of the last event delivered.
    pub fn current(&self) -> (r: i64)
        ensures
            r == self@,
    {
        self.last_id
    }

    /// Moves the cursor up to `id`; an id at or below the cursor changes
    /// nothing.
    pub fn advance_to(&mut self, id: i64)
        ensures
            final(self)@ == if id <= old(self)@ {
                old(self)@
            } else {
                id
            },
            final(self)@ >= old(self)@,
    {
        if id > self.last_id {
            self.last_id = id;
        }
    }
}

} // verus!
