//! Iteration over all events of a series.
use crate::event::Event;
use crate::series::range::{back_step, front_step, Range, RangeView};
use crate::Pattern;
use vstd::prelude::*;

verus! {

/// An iterator over the events of a [`Series`][crate::series::Series].
#[derive(Debug, Clone)]
pub struct Iter<'a, P> {
    iter: Range<'a, P>,
}

impl<'a, P> View for Iter<'a, P> {
    type V = RangeView<P>;

    closed spec fn view(&self) -> RangeView<P> {
        self.iter@
    }
}

impl<'a, P: Pattern> Iter<'a, P> {
    /// The underlying range iterator is well formed.
    pub open spec fn inv(&self) -> bool {
        &&& self@.pattern.wf()
        &&& self@.event_duration.wf()
        &&& self@.event_duration.sign() >= 0
        &&& self@.range.wf()
        &&& self@.front matches Some(c) ==> c.wf()
        &&& self@.back matches Some(c) ==> c.wf()
    }

    /// Wraps a range iterator.
    pub(crate) fn new(iter: Range<'a, P>) -> (r: Iter<'a, P>)
        requires
            iter.inv(),
        ensures
            r.inv(),
            r@ == iter@,
    {
        Iter { iter }
    }

    /// Takes the next event from the front, as [`Range::next`] does.
    pub fn next(&mut self) -> (r: Option<Event>)
        requires
            old(self).inv(),
        ensures
            final(self).inv(),
            front_step(old(self)@, final(self)@, r),
    {
        self.iter.next()
    }

    /// Takes the next event from the back, as [`Range::next_back`] does.
    pub fn next_back(&mut self) -> (r: Option<Event>)
        requires
            old(self).inv(),
        ensures
            final(self).inv(),
            back_step(old(self)@, final(self)@, r),
    {
        self.iter.next_back()
    }
}

} // verus!
