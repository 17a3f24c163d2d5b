use vstd::prelude::*;

use crate::coordinate::{Coordinate, Integral};

verus! {

/// Span is a range of indices `[front, end)` over one axis, consumed from
/// either end. It keeps two cursors that converge and a flag that is set when
/// they meet, so that the back cursor never steps below the front one: an
/// unsigned coordinate is never decremented below zero.
pub struct Span<I> {
    forward: I,
    back: I,
    terminated: bool,
}

impl<I: Coordinate> Span<I> {
    /// The next index from the front.
    pub closed spec fn front(&self) -> int {
        self.forward.int_value()
    }

    /// One past the next index from the back.
    pub closed spec fn end(&self) -> int {
        if self.terminated {
            self.forward.int_value()
        } else {
            self.back.int_value() + 1
        }
    }

    /// The cursors lie within the axis and the remaining indices are `[front, end)`.
    pub closed spec fn wf(&self) -> bool {
        &&& 0 <= self.forward.int_value()
        &&& self.terminated ==> self.forward.int_value() <= I::max_int()
        &&& !self.terminated ==> {
            &&& self.forward.int_value() <= self.back.int_value()
            &&& self.back.int_value() < I::max_int()
        }
    }

    /// The remaining indices, front to back.
    pub open spec fn indices(&self) -> Seq<int> {
        Seq::new((self.end() - self.front()) as nat, |i: int| self.front() + i)
    }

    /// A span over the indices `[0, len)`; empty when `len` is zero.
    pub fn new(len: I) -> (r: Span<I>)
        requires
            0 <= len.int_value(),
        ensures
            r.wf(),
            r.front() == 0,
            r.end() == len.int_value(),
    {
        proof {
            I::lemma_bounds(len);
        }
        let zero = I::zero();
        if len.equals(&zero) {
            Span { forward: zero, back: zero, terminated: true }
        } else {
            Span { forward: zero, back: len.minus(I::unit()), terminated: false }
        }
    }

    /// Takes the next index from the front, if any remains.
    pub fn take_front(&mut self) -> (r: Option<I>)
        requires
            old(self).wf(),
        ensures
            final(self).wf(),
            r is Some <==> old(self).front() < old(self).end(),
            r is Some ==> {
                &&& r->0.int_value() == old(self).front()
                &&& final(self).front() == old(self).front() + 1
                &&& final(self).end() == old(self).end()
            },
            r is None ==> final(self).front() == old(self).front() && final(self).end() == old(
                self,
            ).end(),
    {
        proof {
            I::lemma_bounds(self.forward);
        }
        if self.terminated {
            None
        } else {
            let result = self.forward;
            if self.forward.equals(&self.back) {
                self.terminated = true;
            }
            self.forward = self.forward.plus(I::unit());
            Some(result)
        }
    }

    /// Takes the next index from the back, if any remains.
    pub fn take_back(&mut self) -> (r: Option<I>)
        requires
            old(self).wf(),
        ensures
            final(self).wf(),
            r is Some <==> old(self).front() < old(self).end(),
            r is Some ==> {
                &&& r->0.int_value() == old(self).end() - 1
                &&& final(self).front() == old(self).front()
                &&& final(self).end() == old(self).end() - 1
            },
            r is None ==> final(self).front() == old(self).front() && final(self).end() == old(
                self,
            ).end(),
    {
        proof {
            I::lemma_bounds(self.back);
        }
        if self.terminated {
            None
        } else {
            let result = self.back;
            if self.back.equals(&self.forward) {
                self.terminated = true;
            } else {
                self.back = self.back.minus(I::unit());
            }
            Some(result)
        }
    }
}

} // verus!
