//! The clock that stamps versions, with the record of every reading taken from it.
//! The record can only grow by a reading, because it is private to its type.

use vstd::prelude::*;

use crate::publisher::Timestamp;

verus! {

/// The system clock, with the record of every reading taken through this value.
pub struct Clock {
    readings: Ghost<Seq<Timestamp>>,
}

impl Clock {
    /// Every reading taken through this value, oldest first.
    pub closed spec fn readings(&self) -> Seq<Timestamp> {
        self.readings@
    }

    /// A clock from which nothing has been read yet.
    pub fn new() -> (c: Clock)
        ensures
            c.readings() == Seq::<Timestamp>::empty(),
    {
        Clock { readings: Ghost(Seq::empty()) }
    }

    /// Reads the current time (`Timestamp::now`) and adds the reading to the record.
    pub fn read(&mut self) -> (t: Timestamp)
        ensures
            final(self).readings() == old(self).readings().push(t),
            t.nanos < 1_000_000_000,
    {
        let t = Timestamp::now();
        self.readings = Ghost(self.readings@.push(t));
        t
    }
}

} // verus!
