//! Combinations of two recurrence patterns.
use crate::civil::DateTime;
use crate::pattern::utils::{
    best_of,
    closest_of,
    earliest,
    latest,
    lemma_closest_of,
    pick_closest_to,
    pick_earliest,
    pick_latest,
};
use crate::private;
use crate::range::DateTimeRange;
use crate::Pattern;
use vstd::prelude::*;

verus! {

/// A combination of two recurrence patterns: its events are the events of both.
///
/// This type is returned by the `.and()` method of the [`Combine`][crate::Combine] trait.
#[derive(Debug, Clone, Copy)]
pub struct Combined<L, R> {
    left: L,
    right: R,
}

impl<L, R> View for Combined<L, R> {
    type V = (L, R);

    closed spec fn view(&self) -> (L, R) {
        (self.left, self.right)
    }
}

impl<L: Pattern, R: Pattern> Combined<L, R> {
    /// Creates a new `Combined` from two recurrence patterns.
    pub fn new(left: L, right: R) -> (r: Combined<L, R>)
        ensures
            r@ == (left, right),
    {
        Combined { left, right }
    }

    /// Returns the left pattern.
    pub fn left(&self) -> (r: &L)
        ensures
            *r == self@.0,
    {
        &self.left
    }

    /// Returns the right pattern.
    pub fn right(&self) -> (r: &R)
        ensures
            *r == self@.1,
    {
        &self.right
    }
}

impl<L, R> private::Sealed for Combined<L, R> {

}

impl<L: Pattern, R: Pattern> Pattern for Combined<L, R> {
    open spec fn wf(&self) -> bool {
        self@.0.wf() && self@.1.wf()
    }

    /// The earlier of what both patterns yield.
    open spec fn is_next_after(&self, instant: DateTime, range: DateTimeRange, r: Option<DateTime>) -> bool {
        exists|a: Option<DateTime>, b: Option<DateTime>|
            {
                &&& #[trigger] self@.0.is_next_after(instant, range, a)
                &&& #[trigger] self@.1.is_next_after(instant, range, b)
                &&& r == best_of(a, b, |x: DateTime, y: DateTime| earliest(x, y))
            }
    }

    /// The later of what both patterns yield.
    open spec fn is_previous_before(&self, instant: DateTime, range: DateTimeRange, r: Option<DateTime>) -> bool {
        exists|a: Option<DateTime>, b: Option<DateTime>|
            {
                &&& #[trigger] self@.0.is_previous_before(instant, range, a)
                &&& #[trigger] self@.1.is_previous_before(instant, range, b)
                &&& r == best_of(a, b, |x: DateTime, y: DateTime| latest(x, y))
            }
    }

    /// The closer to `instant` of what both patterns yield, the right one on ties.
    open spec fn is_closest_to(&self, instant: DateTime, range: DateTimeRange, r: Option<DateTime>) -> bool {
        exists|a: Option<DateTime>, b: Option<DateTime>|
            {
                &&& #[trigger] self@.0.is_closest_to(instant, range, a)
                &&& #[trigger] self@.1.is_closest_to(instant, range, b)
                &&& r == closest_of(instant, a, b)
            }
    }

    fn duplicate(&self) -> (r: Combined<L, R>) {
        let r = Combined { left: self.left.duplicate(), right: self.right.duplicate() };
        assert forall|i: DateTime, rg: DateTimeRange, x: Option<DateTime>|
            self.is_next_after(i, rg, x) == r.is_next_after(i, rg, x) by {
            if self.is_next_after(i, rg, x) {
                let (a, b) = choose|a: Option<DateTime>, b: Option<DateTime>|
                    {
                        &&& #[trigger] self@.0.is_next_after(i, rg, a)
                        &&& #[trigger] self@.1.is_next_after(i, rg, b)
                        &&& x == best_of(a, b, |p: DateTime, q: DateTime| earliest(p, q))
                    };
                assert(r@.0.is_next_after(i, rg, a) && r@.1.is_next_after(i, rg, b));
            }
            if r.is_next_after(i, rg, x) {
                let (a, b) = choose|a: Option<DateTime>, b: Option<DateTime>|
                    {
                        &&& #[trigger] r@.0.is_next_after(i, rg, a)
                        &&& #[trigger] r@.1.is_next_after(i, rg, b)
                        &&& x == best_of(a, b, |p: DateTime, q: DateTime| earliest(p, q))
                    };
                assert(self@.0.is_next_after(i, rg, a) && self@.1.is_next_after(i, rg, b));
            }
        }
        assert forall|i: DateTime, rg: DateTimeRange, x: Option<DateTime>|
            self.is_previous_before(i, rg, x) == r.is_previous_before(i, rg, x) by {
            if self.is_previous_before(i, rg, x) {
                let (a, b) = choose|a: Option<DateTime>, b: Option<DateTime>|
                    {
                        &&& #[trigger] self@.0.is_previous_before(i, rg, a)
                        &&& #[trigger] self@.1.is_previous_before(i, rg, b)
                        &&& x == best_of(a, b, |p: DateTime, q: DateTime| latest(p, q))
                    };
                assert(r@.0.is_previous_before(i, rg, a) && r@.1.is_previous_before(i, rg, b));
            }
            if r.is_previous_before(i, rg, x) {
                let (a, b) = choose|a: Option<DateTime>, b: Option<DateTime>|
                    {
                        &&& #[trigger] r@.0.is_previous_before(i, rg, a)
                        &&& #[trigger] r@.1.is_previous_before(i, rg, b)
                        &&& x == best_of(a, b, |p: DateTime, q: DateTime| latest(p, q))
                    };
                assert(self@.0.is_previous_before(i, rg, a) && self@.1.is_previous_before(i, rg, b));
            }
        }
        assert forall|i: DateTime, rg: DateTimeRange, x: Option<DateTime>|
            self.is_closest_to(i, rg, x) == r.is_closest_to(i, rg, x) by {
            if self.is_closest_to(i, rg, x) {
                let (a, b) = choose|a: Option<DateTime>, b: Option<DateTime>|
                    {
                        &&& #[trigger] self@.0.is_closest_to(i, rg, a)
                        &&& #[trigger] self@.1.is_closest_to(i, rg, b)
                        &&& x == closest_of(i, a, b)
                    };
                assert(r@.0.is_closest_to(i, rg, a) && r@.1.is_closest_to(i, rg, b));
            }
            if r.is_closest_to(i, rg, x) {
                let (a, b) = choose|a: Option<DateTime>, b: Option<DateTime>|
                    {
                        &&& #[trigger] r@.0.is_closest_to(i, rg, a)
                        &&& #[trigger] r@.1.is_closest_to(i, rg, b)
                        &&& x == closest_of(i, a, b)
                    };
                assert(self@.0.is_closest_to(i, rg, a) && self@.1.is_closest_to(i, rg, b));
            }
        }
        r
    }

    /// The earlier of the next events of both patterns.
    fn next_after(&self, instant: DateTime, range: DateTimeRange) -> (r: Option<DateTime>) {
        let left = self.left.next_after(instant, range);
        let right = self.right.next_after(instant, range);
        let r = pick_earliest(left, right);
        assert(self@.0.is_next_after(instant, range, left));
        assert(self@.1.is_next_after(instant, range, right));
        r
    }

    /// The later of the previous events of both patterns.
    fn previous_before(&self, instant: DateTime, range: DateTimeRange) -> (r: Option<DateTime>) {
        let left = self.left.previous_before(instant, range);
        let right = self.right.previous_before(instant, range);
        let r = pick_latest(left, right);
        assert(self@.0.is_previous_before(instant, range, left));
        assert(self@.1.is_previous_before(instant, range, right));
        r
    }

    /// The closer to `instant` of the closest events of both patterns (the right one on ties).
    fn closest_to(&self, instant: DateTime, range: DateTimeRange) -> (r: Option<DateTime>) {
        let left = self.left.closest_to(instant, range);
        let right = self.right.closest_to(instant, range);
        let r = pick_closest_to(instant, left, right);
        proof {
            lemma_closest_of(instant, left, right);
        }
        assert(self@.0.is_closest_to(instant, range, left));
        assert(self@.1.is_closest_to(instant, range, right));
        r
    }
}

/// A combination of patterns finds no closest event only when neither pattern does, and
/// otherwise finds the closest event of one of them.
pub proof fn lemma_combined_closest_none<L: Pattern, R: Pattern>(
    c: Combined<L, R>,
    instant: DateTime,
    range: DateTimeRange,
    r: Option<DateTime>,
)
    requires
        c.is_closest_to(instant, range, r),
    ensures
        exists|a: Option<DateTime>, b: Option<DateTime>|
            {
                &&& #[trigger] c@.0.is_closest_to(instant, range, a)
                &&& #[trigger] c@.1.is_closest_to(instant, range, b)
                &&& (r is None <==> a is None && b is None)
                &&& (r matches Some(x) ==> a == Some(x) || b == Some(x))
            },
{
    let (a, b) = choose|a: Option<DateTime>, b: Option<DateTime>|
        {
            &&& #[trigger] c@.0.is_closest_to(instant, range, a)
            &&& #[trigger] c@.1.is_closest_to(instant, range, b)
            &&& r == closest_of(instant, a, b)
        };
    lemma_closest_of(instant, a, b);
}

/// When each of two patterns yields one result per instant and range (as cron patterns do), the
/// next event of their combination is the earlier of the next events the two patterns yield on
/// their own, and its previous event the later of their previous events; `None` only when both
/// are `None`.
pub proof fn lemma_combined_next_and_previous<L: Pattern, R: Pattern>(
    c: Combined<L, R>,
    instant: DateTime,
    range: DateTimeRange,
    a: Option<DateTime>,
    b: Option<DateTime>,
    r: Option<DateTime>,
    p: Option<DateTime>,
    q: Option<DateTime>,
    s: Option<DateTime>,
)
    requires
        forall|x: Option<DateTime>, y: Option<DateTime>|
            c@.0.is_next_after(instant, range, x) && c@.0.is_next_after(instant, range, y) ==> x
                == y,
        forall|x: Option<DateTime>, y: Option<DateTime>|
            c@.1.is_next_after(instant, range, x) && c@.1.is_next_after(instant, range, y) ==> x
                == y,
        forall|x: Option<DateTime>, y: Option<DateTime>|
            c@.0.is_previous_before(instant, range, x) && c@.0.is_previous_before(instant, range, y)
                ==> x == y,
        forall|x: Option<DateTime>, y: Option<DateTime>|
            c@.1.is_previous_before(instant, range, x) && c@.1.is_previous_before(instant, range, y)
                ==> x == y,
        c@.0.is_next_after(instant, range, a),
        c@.1.is_next_after(instant, range, b),
        c.is_next_after(instant, range, r),
        c@.0.is_previous_before(instant, range, p),
        c@.1.is_previous_before(instant, range, q),
        c.is_previous_before(instant, range, s),
    ensures
        r == best_of(a, b, |x: DateTime, y: DateTime| earliest(x, y)),
        r is None <==> a is None && b is None,
        s == best_of(p, q, |x: DateTime, y: DateTime| latest(x, y)),
        s is None <==> p is None && q is None,
{
    let (a2, b2) = choose|a2: Option<DateTime>, b2: Option<DateTime>|
        {
            &&& #[trigger] c@.0.is_next_after(instant, range, a2)
            &&& #[trigger] c@.1.is_next_after(instant, range, b2)
            &&& r == best_of(a2, b2, |x: DateTime, y: DateTime| earliest(x, y))
        };
    assert(a2 == a && b2 == b);
    let (p2, q2) = choose|p2: Option<DateTime>, q2: Option<DateTime>|
        {
            &&& #[trigger] c@.0.is_previous_before(instant, range, p2)
            &&& #[trigger] c@.1.is_previous_before(instant, range, q2)
            &&& s == best_of(p2, q2, |x: DateTime, y: DateTime| latest(x, y))
        };
    assert(p2 == p && q2 == q);
}

} // verus!
