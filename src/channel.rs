//! A single-slot, latest-value-wins channel: each publish overwrites the
//! slot, and each receiver sees the current value once per change.

use vstd::prelude::*;
use crate::text::{text_chars, text_clone};

verus! {

/// The characters of an optional text.
pub open spec fn opt_chars(v: Option<heapless::String<32>>) -> Option<Seq<char>> {
    match v {
        Some(t) => Some(text_chars(t)),
        None => None,
    }
}

/// The slot and the number of publishes so far.
pub struct ValueChannel {
    value: Option<heapless::String<32>>,
    generation: u64,
}

/// One consumer's record of the last publish it has seen.
pub struct Receiver {
    seen: u64,
}

impl ValueChannel {
    /// The value in the slot.
    pub closed spec fn value(&self) -> Option<Seq<char>> {
        opt_chars(self.value)
    }

    /// How many values have been published.
    pub closed spec fn generation(&self) -> int {
        self.generation as int
    }

    /// An empty channel on which nothing has been published.
    pub fn new() -> (r: ValueChannel)
        ensures
            r.value() is None,
            r.generation() == 0,
    {
        ValueChannel { value: None, generation: 0 }
    }

    /// A receiver that has seen nothing yet.
    pub fn receiver(&self) -> (r: Receiver)
        ensures
            r.seen() == 0,
    {
        Receiver { seen: 0 }
    }

    /// Overwrites the slot with `v` and marks it changed for every receiver.
    pub fn publish(&mut self, v: Option<heapless::String<32>>)
        requires
            old(self).generation() < u64::MAX,
        ensures
            final(self).value() == opt_chars(v),
            final(self).generation() == old(self).generation() + 1,
    {
        self.value = v;
        self.generation = self.generation + 1;
    }

    /// The current value if it changed since `rx` last looked, marking it
    /// seen; `None` if nothing was published since.
    pub fn try_changed(&self, rx: &mut Receiver) -> (r: Option<Option<heapless::String<32>>>)
        ensures
            old(rx).seen() != self.generation() ==> r is Some && opt_chars(r->Some_0)
                == self.value() && final(rx).seen() == self.generation(),
            old(rx).seen() == self.generation() ==> r is None && final(rx).seen() == old(rx).seen(),
    {
        if rx.seen == self.generation {
            None
        } else {
            rx.seen = self.generation;
            match &self.value {
                Some(t) => Some(Some(text_clone(t))),
                None => Some(None),
            }
        }
    }
}

impl Receiver {
    /// The generation this receiver has last seen.
    pub closed spec fn seen(&self) -> int {
        self.seen as int
    }
}

} // verus!
