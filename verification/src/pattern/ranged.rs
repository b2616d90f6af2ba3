//! Bounded sets of calendar and clock units.
use crate::error::{Error, ErrorKind};
use std::collections::BTreeSet;
use vstd::prelude::*;

verus! {

broadcast use vstd::std_specs::btree::group_btree_axioms, vstd::laws_cmp::group_laws_cmp;

/// `v` is allowed by a unit whose explicitly chosen values are `stored` and whose bounds are
/// `min..=max`: no chosen values means every value within the bounds.
pub open spec fn unit_allows(stored: Set<int>, min: int, max: int, v: int) -> bool {
    min <= v <= max && (stored.is_empty() || stored.contains(v))
}

/// The `j`-th value of the progression starting at `start` with distance `step`.
pub open spec fn nth_step(start: int, step: int, j: int) -> int {
    start + j * step
}

/// The values `start + j * step` for `j >= 0` that do not exceed `max`.
pub open spec fn stepped(start: int, step: int, max: int) -> Set<int> {
    Set::new(|v: int| exists|j: int| 0 <= j && v == #[trigger] nth_step(start, step, j) && v <= max)
}

/// The values held by a sequence.
pub open spec fn values_of(s: Seq<int>) -> Set<int> {
    Set::new(|v: int| s.contains(v))
}

/// A sequence without values adds nothing to a set.
pub proof fn lemma_values_of_empty(base: Set<int>)
    ensures
        base + values_of(Seq::<int>::empty()) == base,
{
    assert(base + values_of(Seq::<int>::empty()) =~= base);
}

/// Adding the values of a sequence with one more value `x` is adding the values of the shorter
/// sequence and then inserting `x`: choosing several values at once is choosing them one by one.
pub proof fn lemma_values_of_push(base: Set<int>, s: Seq<int>, x: int)
    ensures
        base + values_of(s.push(x)) == (base + values_of(s)).insert(x),
{
    assert forall|v: int| values_of(s.push(x)).contains(v) <==> values_of(s).insert(x).contains(v) by {
        if s.push(x).contains(v) && v != x {
            let i = choose|i: int| 0 <= i < s.push(x).len() && s.push(x)[i] == v;
            assert(s[i] == v);
        }
        if s.contains(v) {
            let i = choose|i: int| 0 <= i < s.len() && s[i] == v;
            assert(s.push(x)[i] == v);
        }
        if v == x {
            assert(s.push(x)[s.len() as int] == x);
        }
    }
    assert(base + values_of(s.push(x)) =~= (base + values_of(s)).insert(x));
}

/// Choosing `a` and then `b` is choosing both at once.
pub proof fn lemma_two_choices(base: Set<int>, a: int, b: int)
    ensures
        base.insert(a).insert(b) == base + values_of(seq![a, b]),
{
    lemma_values_of_empty(base);
    lemma_values_of_push(base, Seq::<int>::empty(), a);
    lemma_values_of_push(base, seq![a], b);
    assert(Seq::<int>::empty().push(a) =~= seq![a]);
    assert(seq![a].push(b) =~= seq![a, b]);
}

/// The stepped values are exactly those from `start` to `max` that lie a whole number of steps
/// from `start`.
pub proof fn lemma_stepped_members(start: int, step: int, max: int, v: int)
    requires
        step > 0,
    ensures
        stepped(start, step, max).contains(v) <==> start <= v <= max && (v - start) % step == 0,
{
    if stepped(start, step, max).contains(v) {
        let j = choose|j: int| 0 <= j && v == #[trigger] nth_step(start, step, j) && v <= max;
        assert(j * step >= 0 && (j * step) % step == 0) by (nonlinear_arith)
            requires
                j >= 0,
                step > 0,
        ;
    }
    if start <= v <= max && (v - start) % step == 0 {
        let j = (v - start) / step;
        assert(j >= 0 && start + j * step == v) by (nonlinear_arith)
            requires
                start <= v,
                step > 0,
                (v - start) % step == 0,
                j == (v - start) / step,
        ;
        assert(v == nth_step(start, step, j));
    }
}

/// The index of the first value of `s` outside `min..=max`, or `s.len()` if there is none.
pub open spec fn first_outside(s: Seq<int>, min: int, max: int) -> int
    decreases s.len(),
{
    if s.len() == 0 {
        0
    } else if !(min <= s[0] <= max) {
        0
    } else {
        1 + first_outside(s.drop_first(), min, max)
    }
}

/// Without values outside the bounds, the first outside value is past the end.
pub proof fn lemma_first_outside_none(s: Seq<int>, min: int, max: int)
    requires
        forall|i: int| 0 <= i < s.len() ==> min <= #[trigger] s[i] <= max,
    ensures
        first_outside(s, min, max) == s.len(),
    decreases s.len(),
{
    if s.len() > 0 {
        assert(min <= s[0] <= max);
        assert forall|i: int| 0 <= i < s.drop_first().len() implies min <= #[trigger] s.drop_first()[i]
            <= max by {
            assert(s.drop_first()[i] == s[i + 1]);
        }
        lemma_first_outside_none(s.drop_first(), min, max);
    }
}

/// A set of values bounded by `min..=max` (inclusive).
///
/// An empty set stands for the full range of values between `min` and `max`.
#[derive(Debug, Clone)]
pub(crate) struct UnitSet {
    pub(crate) values: BTreeSet<i16>,
    pub(crate) min: i16,
    pub(crate) max: i16,
}

impl UnitSet {
    /// The bounds are ordered and every chosen value lies within them.
    pub(crate) closed spec fn inv(self) -> bool {
        &&& self.min <= self.max
        &&& forall|v: i16| #[trigger] self.values@.contains(v) ==> self.min <= v <= self.max
    }

    /// The explicitly chosen values.
    pub(crate) closed spec fn stored(self) -> Set<int> {
        Set::new(|v: int| self.min <= v <= self.max && self.values@.contains(v as i16))
    }

    /// The lower bound.
    pub(crate) closed spec fn lo(self) -> int {
        self.min as int
    }

    /// The upper bound.
    pub(crate) closed spec fn hi(self) -> int {
        self.max as int
    }

    /// `v` belongs to the set (all of `min..=max` when nothing was chosen).
    pub(crate) open spec fn has(self, v: int) -> bool {
        unit_allows(self.stored(), self.lo(), self.hi(), v)
    }

    /// Creates the set standing for all values in `min..=max`.
    pub(crate) fn full(min: i16, max: i16) -> (r: UnitSet)
        requires
            min <= max,
        ensures
            r.inv(),
            r.stored() == Set::<int>::empty(),
            r.lo() == min,
            r.hi() == max,
    {
        let r = UnitSet { values: BTreeSet::new(), min, max };
        assert(r.stored() =~= Set::<int>::empty());
        r
    }

    /// Returns a copy of the set.
    pub(crate) fn duplicate(&self) -> (r: UnitSet)
        ensures
            r.inv() == self.inv(),
            r.stored() == self.stored(),
            r.lo() == self.lo(),
            r.hi() == self.hi(),
    {
        let r = UnitSet { values: self.values.clone(), min: self.min, max: self.max };
        assert(r.stored() =~= self.stored());
        r
    }

    proof fn lemma_stored_empty(self)
        requires
            self.inv(),
        ensures
            self.stored().is_empty() <==> self.values@.is_empty(),
    {
        if !self.values@.is_empty() {
            let x = self.values@.choose();
            assert(self.values@.contains(x));
            assert(self.stored().contains(x as int));
        }
        if self.values@.is_empty() {
            assert(self.stored() =~= Set::<int>::empty());
        }
    }

    /// The set always has at least one member.
    pub(crate) proof fn lemma_nonempty(self)
        requires
            self.inv(),
        ensures
            exists|v: int| self.lo() <= v <= self.hi() && #[trigger] self.has(v),
    {
        self.lemma_stored_empty();
        if self.values@.is_empty() {
            assert(self.has(self.min as int));
        } else {
            let x = self.values@.choose();
            assert(self.values@.contains(x));
            assert(self.stored().contains(x as int));
            assert(self.has(x as int));
        }
    }

    /// Returns `true` if `value` is within the bounds.
    fn is_within_bounds(&self, value: i16) -> (r: bool)
        ensures
            r == (self.lo() <= value <= self.hi()),
    {
        self.min <= value && value <= self.max
    }

    /// Adds `value` to the chosen values.
    ///
    /// # Errors
    ///
    /// Returns a range error if `value` is not within `min..=max`; the set is then unchanged.
    pub(crate) fn try_insert(&mut self, value: i16) -> (r: Result<bool, Error>)
        requires
            old(self).inv(),
        ensures
            final(self).inv(),
            r is Ok <==> old(self).lo() <= value <= old(self).hi(),
            r is Ok ==> final(self).stored() == old(self).stored().insert(value as int),
            r is Err ==> final(self).stored() == old(self).stored(),
            r matches Err(e) ==> e.is_range(value as int, old(self).lo(), old(self).hi()),
            final(self).lo() == old(self).lo(),
            final(self).hi() == old(self).hi(),
    {
        if self.is_within_bounds(value) {
            let ghost before = self.values@;
            let inserted = self.values.insert(value);
            assert(self.stored() =~= old(self).stored().insert(value as int));
            Ok(inserted)
        } else {
            Err(Error::range(value as i64, self.min as i64, self.max as i64))
        }
    }

    /// Returns `true` if `value` belongs to the set.
    pub(crate) fn contains(&self, value: i16) -> (r: bool)
        requires
            self.inv(),
        ensures
            r == self.has(value as int),
    {
        proof {
            self.lemma_stored_empty();
        }
        if self.values.is_empty() {
            self.is_within_bounds(value)
        } else {
            let r = self.values.contains(&value);
            assert(r == self.stored().contains(value as int));
            r
        }
    }

    /// Returns the smallest member in `lo..=hi`.
    pub(crate) fn first_in(&self, lo: i16, hi: i16) -> (r: Option<i16>)
        requires
            self.inv(),
            hi < i16::MAX,
        ensures
            r matches Some(v) ==> lo <= v <= hi && self.has(v as int) && forall|w: int|
                lo <= w < v ==> !#[trigger] self.has(w),
            r is None ==> forall|w: int| lo <= w <= hi ==> !#[trigger] self.has(w),
    {
        if hi < lo {
            return None;
        }
        let mut v = lo;
        while v <= hi
            invariant
                lo <= v <= hi + 1,
                hi < i16::MAX,
                self.inv(),
                forall|w: int| lo <= w < v ==> !#[trigger] self.has(w),
            decreases hi + 1 - v,
        {
            if self.contains(v) {
                return Some(v);
            }
            v = v + 1;
        }
        None
    }

    /// Returns the smallest member.
    pub(crate) fn smallest(&self) -> (r: i16)
        requires
            self.inv(),
            self.hi() < i16::MAX,
        ensures
            self.has(r as int),
            forall|w: int| #[trigger] self.has(w) ==> r <= w,
    {
        proof {
            self.lemma_nonempty();
        }
        match self.first_in(self.min, self.max) {
            Some(v) => v,
            None => {
                proof {
                    let w = choose|v: int| self.lo() <= v <= self.hi() && #[trigger] self.has(v);
                    assert(!self.has(w));
                }
                self.min
            },
        }
    }

    /// Returns the largest member.
    pub(crate) fn largest(&self) -> (r: i16)
        requires
            self.inv(),
            self.lo() > i16::MIN,
        ensures
            self.has(r as int),
            forall|w: int| #[trigger] self.has(w) ==> w <= r,
    {
        proof {
            self.lemma_nonempty();
        }
        match self.last_in(self.min, self.max) {
            Some(v) => v,
            None => {
                proof {
                    let w = choose|v: int| self.lo() <= v <= self.hi() && #[trigger] self.has(v);
                    assert(!self.has(w));
                }
                self.max
            },
        }
    }

    /// Returns the largest member in `lo..=hi`.
    pub(crate) fn last_in(&self, lo: i16, hi: i16) -> (r: Option<i16>)
        requires
            self.inv(),
            lo > i16::MIN,
        ensures
            r matches Some(v) ==> lo <= v <= hi && self.has(v as int) && forall|w: int|
                v < w <= hi ==> !#[trigger] self.has(w),
            r is None ==> forall|w: int| lo <= w <= hi ==> !#[trigger] self.has(w),
    {
        if hi < lo {
            return None;
        }
        let mut v = hi;
        while v >= lo
            invariant
                lo - 1 <= v <= hi,
                lo > i16::MIN,
                self.inv(),
                forall|w: int| v < w <= hi ==> !#[trigger] self.has(w),
            decreases v + 1 - lo,
        {
            if self.contains(v) {
                return Some(v);
            }
            v = v - 1;
        }
        None
    }

    /// Adds `start`, `start + step`, `start + 2 * step`, ... as long as the values do not
    /// exceed the upper bound.
    ///
    /// # Errors
    ///
    /// Returns a range error for `start` if it is not within the bounds; the set is then
    /// unchanged.
    pub(crate) fn try_insert_stepped(&mut self, start: i16, step: usize) -> (r: Result<(), Error>)
        requires
            old(self).inv(),
            step > 0,
            old(self).hi() < 10000,
            old(self).lo() > -10000,
        ensures
            final(self).inv(),
            final(self).lo() == old(self).lo(),
            final(self).hi() == old(self).hi(),
            r is Ok <==> (old(self).lo() <= start <= old(self).hi()),
            r is Ok ==> final(self).stored() == old(self).stored() + stepped(
                start as int,
                step as int,
                old(self).hi(),
            ),
            r is Err ==> final(self).stored() == old(self).stored(),
            r matches Err(e) ==> e.is_range(start as int, old(self).lo(), old(self).hi()),
    {
        let ghost st = stepped(start as int, step as int, self.hi());
        if start < self.min || start > self.max {
            return Err(Error::range(start as i64, self.min as i64, self.max as i64));
        }
        let ghost base = self.stored();
        let mut v: i16 = start;
        let ghost mut k: int = 0;
        loop
            invariant
                self.inv(),
                self.lo() == old(self).lo(),
                self.hi() == old(self).hi(),
                self.hi() < 10000,
                self.lo() > -10000,
                base == old(self).stored(),
                st == stepped(start as int, step as int, self.hi()),
                self.lo() <= start <= v <= self.hi(),
                step > 0,
                k >= 0,
                v == nth_step(start as int, step as int, k),
                self.stored() == base + Set::new(
                    |w: int| exists|j: int| 0 <= j < k && w == #[trigger] nth_step(start as int, step as int, j),
                ),
            decreases self.hi() - v,
        {
            let ghost before = self.stored();
            let _ = self.try_insert(v);
            let ghost cur = Set::new(|w: int| exists|j: int| 0 <= j < k + 1 && w == #[trigger] nth_step(start as int, step as int, j));
            assert(self.stored() =~= base + cur) by {
                assert forall|w: int| #[trigger] cur.contains(w) implies (w == v || exists|j: int|
                    0 <= j < k && w == #[trigger] nth_step(start as int, step as int, j)) by {
                    let j = choose|j: int| 0 <= j < k + 1 && w == #[trigger] nth_step(start as int, step as int, j);
                    if j < k {
                    }
                }
                assert(cur.contains(v as int));
                assert forall|w: int| (exists|j: int| 0 <= j < k && w == #[trigger] nth_step(start as int, step as int, j))
                    implies #[trigger] cur.contains(w) by {
                    let j = choose|j: int| 0 <= j < k && w == #[trigger] nth_step(start as int, step as int, j);
                    assert(0 <= j < k + 1 && w == nth_step(start as int, step as int, j));
                }
            }
            if step > (self.max - v) as usize {
                proof {
                    assert(self.stored() =~= base + st) by {
                        assert forall|w: int| #[trigger] st.contains(w) implies cur.contains(w) by {
                            let j = choose|j: int| 0 <= j && w == #[trigger] nth_step(start as int, step as int, j) && w <= self.hi();
                            if j > k {
                                assert(j * step >= (k + 1) * step) by (nonlinear_arith)
                                    requires
                                        j >= k + 1,
                                        step > 0,
                                ;
                                assert((k + 1) * step == k * step + step) by (nonlinear_arith);
                            }
                            assert(0 <= j < k + 1 && w == nth_step(start as int, step as int, j));
                        }
                        assert forall|w: int| #[trigger] cur.contains(w) implies st.contains(w) by {
                            let j = choose|j: int| 0 <= j < k + 1 && w == #[trigger] nth_step(start as int, step as int, j);
                            assert(j * step <= k * step) by (nonlinear_arith)
                                requires
                                    j <= k,
                                    step > 0,
                            ;
                        }
                    }
                }
                return Ok(());
            }
            proof {
                assert((k + 1) * step == k * step + step) by (nonlinear_arith);
                k = k + 1;
            }
            v = v + step as i16;
        }
    }

    /// Adds all values of `values` in order.
    ///
    /// # Errors
    ///
    /// Returns a range error for the first value outside the bounds; the set is then unchanged.
    pub(crate) fn try_insert_all(&mut self, values: &[i16]) -> (r: Result<(), Error>)
        requires
            old(self).inv(),
        ensures
            final(self).inv(),
            final(self).lo() == old(self).lo(),
            final(self).hi() == old(self).hi(),
            ({
                let s = values@.map_values(|v: i16| v as int);
                let i = first_outside(s, old(self).lo(), old(self).hi());
                &&& r is Ok <==> i == s.len()
                &&& r is Ok ==> final(self).stored() == old(self).stored() + values_of(s)
                &&& r is Err ==> final(self).stored() == old(self).stored()
                &&& r matches Err(e) ==> e.is_range(s[i], old(self).lo(), old(self).hi())
            }),
    {
        let ghost s = values@.map_values(|v: i16| v as int);
        let ghost lo = self.lo();
        let ghost hi = self.hi();
        let ghost base = self.stored();
        let mut copy = UnitSet { values: self.values.clone(), min: self.min, max: self.max };
        assert(copy.stored() =~= self.stored());
        assert(s.skip(0) =~= s);
        assert(values_of(s.take(0)) =~= Set::<int>::empty());
        assert(copy.stored() =~= base + values_of(s.take(0)));
        let mut i: usize = 0;
        while i < values.len()
            invariant
                copy.inv(),
                copy.lo() == lo,
                copy.hi() == hi,
                self.inv(),
                self.lo() == lo,
                self.hi() == hi,
                self.stored() == base,
                s == values@.map_values(|v: i16| v as int),
                0 <= i <= values.len(),
                forall|j: int| 0 <= j < i ==> lo <= #[trigger] s[j] <= hi,
                copy.stored() == base + values_of(s.take(i as int)),
                first_outside(s, lo, hi) == i + first_outside(s.skip(i as int), lo, hi),
            decreases values.len() - i,
        {
            let ghost before = copy.stored();
            proof {
                assert(s.skip(i as int).drop_first() =~= s.skip(i + 1));
            }
            match copy.try_insert(values[i]) {
                Ok(_) => {},
                Err(e) => {
                    return Err(e);
                },
            }
            assert(values_of(s.take(i + 1)) =~= values_of(s.take(i as int)).insert(s[i as int]))
                by {
                assert forall|w: int| values_of(s.take(i + 1)).contains(w) implies values_of(
                    s.take(i as int),
                ).insert(s[i as int]).contains(w) by {
                    let j = choose|j: int| 0 <= j < i + 1 && #[trigger] s.take(i + 1)[j] == w;
                    if j < i {
                        assert(s.take(i as int)[j] == w);
                    }
                }
                assert forall|w: int| values_of(s.take(i as int)).insert(s[i as int]).contains(w)
                    implies values_of(s.take(i + 1)).contains(w) by {
                    if w == s[i as int] {
                        assert(s.take(i + 1)[i as int] == w);
                    } else {
                        let j = choose|j: int| 0 <= j < i && #[trigger] s.take(i as int)[j] == w;
                        assert(s.take(i + 1)[j] == w);
                    }
                }
            }
            assert(copy.stored() =~= base + values_of(s.take(i + 1)));
            i = i + 1;
        }
        assert(s.take(values.len() as int) =~= s);
        *self = copy;
        Ok(())
    }
}

} // verus!