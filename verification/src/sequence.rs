//! A cyclic source of pre-chosen sample offsets.
//!
//! Area lights jitter each shadow sample by the next value of a shared
//! `Sequence`, so a render is reproducible: the values are fixed up front
//! and handed out in a cycle. The cursor arithmetic is what matters here;
//! the element type is left open, and the numeric layer instantiates it
//! with its scalar type.

use vstd::prelude::*;

verus! {

/// A non-empty list of values handed out one at a time, wrapping around at
/// the end.
pub struct Sequence<T> {
    pub contents: Vec<T>,
    pub current_index: usize,
}

impl<T: Copy> Sequence<T> {
    /// The cursor always rests on a value.
    pub open spec fn wf(self) -> bool {
        self.current_index < self.contents.len()
    }

    /// Starts a sequence at the first of the given values.
    pub fn new(list: Vec<T>) -> (r: Sequence<T>)
        requires
            list.len() > 0,
        ensures
            r.wf(),
            r.contents == list,
            r.current_index == 0,
    {
        Sequence { contents: list, current_index: 0 }
    }

    /// Hands out the value under the cursor and moves the cursor forward,
    /// wrapping past the last value back to the first.
    pub fn next(&mut self) -> (r: T)
        requires
            old(self).wf(),
        ensures
            final(self).wf(),
            r == old(self).contents@[old(self).current_index as int],
            final(self).contents == old(self).contents,
            final(self).current_index == (old(self).current_index + 1) % (
            old(self).contents.len() as int),
    {
        let index = self.current_index;
        let value = self.contents[index];
        let len = self.contents.len();
        if self.current_index < len - 1 {
            self.current_index = self.current_index + 1;
            proof {
                let i = old(self).current_index as int;
                let n = len as int;
                assert((i + 1) % n == i + 1) by (nonlinear_arith)
                    requires
                        0 <= i,
                        i + 1 < n,
                ;
            }
        } else {
            self.current_index = 0;
            proof {
                assert(old(self).current_index == len - 1);
                assert((len as int) % (len as int) == 0);
            }
        }
        value
    }

    /// The value under the cursor, without moving it.
    pub fn get(&self) -> (r: T)
        requires
            self.wf(),
        ensures
            r == self.contents@[self.current_index as int],
    {
        self.contents[self.current_index]
    }
}

} // verus!
