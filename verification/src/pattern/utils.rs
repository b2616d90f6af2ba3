//! Helpers shared by the interval-based patterns.
use crate::calendar::{checked_add, civil_add, civil_nanos_until, nanos_until, span_checked_mul};
use crate::civil::DateTime;
use crate::span::{abs, lemma_times_one, lemma_times_positive, Span};
use vstd::prelude::*;

verus! {

/// The factor by which `advance_by_until` grows and shrinks the multiples of a span it adds.
const SPAN_MULTIPLIER: i64 = 10;

/// `m` is a power of ten.
pub open spec fn power_of_ten(m: int) -> bool
    decreases m,
{
    if m == 1 {
        true
    } else if m >= 10 && m % 10 == 0 {
        power_of_ten(m / 10)
    } else {
        false
    }
}

/// `path` leads from `start` by steps that each add a positive whole multiple of `span` (the
/// factors are `factors`).
pub open spec fn is_path(start: DateTime, span: Span, path: Seq<DateTime>, factors: Seq<int>) -> bool {
    &&& path.len() >= 1
    &&& path[0] == start
    &&& factors.len() + 1 == path.len()
    &&& forall|i: int|
        0 <= i < factors.len() ==> factors[i] >= 1 && civil_add(
            path[i],
            span.times(#[trigger] factors[i]),
        ) == Some(path[i + 1])
}

/// `r` is reached from `start` by adding positive whole multiples of `span`, one after another.
#[verifier::opaque]
pub open spec fn reached(start: DateTime, span: Span, r: DateTime) -> bool {
    exists|path: Seq<DateTime>, factors: Seq<int>|
        #[trigger] is_path(start, span, path, factors) && path.last() == r
}

/// Adding a positive multiple of `span` to the end of a path extends the path.
proof fn lemma_path_step(
    start: DateTime,
    span: Span,
    path: Seq<DateTime>,
    factors: Seq<int>,
    r: DateTime,
    k: int,
)
    requires
        k >= 1,
        is_path(start, span, path, factors),
        civil_add(path.last(), span.times(k)) == Some(r),
    ensures
        is_path(start, span, path.push(r), factors.push(k)),
{
    let p = path.push(r);
    let f = factors.push(k);
    assert forall|i: int| 0 <= i < f.len() implies f[i] >= 1 && civil_add(
        p[i],
        span.times(#[trigger] f[i]),
    ) == Some(p[i + 1]) by {
        if i < factors.len() {
            assert(factors[i] >= 1 && civil_add(path[i], span.times(factors[i])) == Some(
                path[i + 1],
            ));
        }
    }
}

/// Every datetime is reached from itself.
pub proof fn lemma_reached_self(start: DateTime, span: Span)
    ensures
        reached(start, span, start),
{
    reveal(reached);
    assert(is_path(start, span, seq![start], Seq::<int>::empty()));
}

/// Adding `span` once more to a reached datetime reaches the result.
pub proof fn lemma_reached_next(start: DateTime, span: Span, r: DateTime, n: DateTime)
    requires
        span.wf(),
        reached(start, span, r),
        civil_add(r, span) == Some(n),
    ensures
        reached(start, span, n),
{
    reveal(reached);
    let (path, factors) = choose|path: Seq<DateTime>, factors: Seq<int>|
        #[trigger] is_path(start, span, path, factors) && path.last() == r;
    lemma_times_one(span);
    lemma_path_step(start, span, path, factors, n, 1);
    assert(is_path(start, span, path.push(n), factors.push(1)) && path.push(n).last() == n);
}

/// What `advance_by_until(start, span, upper)` yields: a datetime `r` reached from `start` by
/// adding multiples of `span`, no later than `upper`, to which adding one more `span` either fails
/// or passes `upper`. When `start` is already later than `upper`, `r` is `start`.
pub open spec fn advanced_until(start: DateTime, span: Span, upper: DateTime, r: DateTime) -> bool {
    &&& r.wf()
    &&& reached(start, span, r)
    &&& start.rank() <= r.rank()
    &&& if start.rank() <= upper.rank() {
        &&& r.rank() <= upper.rank()
        &&& civil_add(r, span) matches Some(n) ==> upper.rank() < n.rank()
    } else {
        r == start
    }
}

/// Advances `start` by `span` until the addition of another `span` would pass `upper` or fail.
///
/// The result is never later than `upper`, which must not be earlier than `start`.
pub fn advance_by_until(start: DateTime, span: Span, upper: DateTime) -> (r: DateTime)
    requires
        start.wf(),
        upper.wf(),
        span.wf(),
        span.sign() > 0,
        start.rank() <= upper.rank(),
    ensures
        advanced_until(start, span, upper, r),
{
    let (advanced, multiplier, Ghost(path), Ghost(factors)) = advance_by_until_fast(
        start,
        span,
        upper,
    );
    let (r, Ghost(path), Ghost(factors)) = advance_by_until_slow(
        advanced,
        span,
        multiplier,
        upper,
        Ghost(start),
        Ghost(path),
        Ghost(factors),
    );
    assert(is_path(start, span, path, factors) && path.last() == r);
    assert(reached(start, span, r)) by {
        reveal(reached);
    }
    r
}

/// Advances `start` by `span` as [`advance_by_until`] does; a `start` later than `upper` stays as
/// it is.
pub(crate) fn advance_from(start: DateTime, span: Span, upper: DateTime) -> (r: DateTime)
    requires
        start.wf(),
        upper.wf(),
        span.wf(),
        span.sign() > 0,
    ensures
        advanced_until(start, span, upper, r),
{
    if upper.is_before(&start) {
        proof {
            lemma_reached_self(start, span);
        }
        start
    } else {
        advance_by_until(start, span, upper)
    }
}

/// Advances `start` by growing multiples of `span` (ten, a hundred, ...) while the result stays
/// within `upper`. Returns the datetime reached and the last multiplier that `span` could be
/// multiplied by.
fn advance_by_until_fast(start: DateTime, span: Span, upper: DateTime) -> (r: (
    DateTime,
    i64,
    Ghost<Seq<DateTime>>,
    Ghost<Seq<int>>,
))
    requires
        start.wf(),
        upper.wf(),
        span.wf(),
        span.sign() > 0,
        start.rank() <= upper.rank(),
    ensures
        r.0.wf(),
        start.rank() <= r.0.rank() <= upper.rank(),
        r.1 >= 1,
        power_of_ten(r.1 as int),
        is_path(start, span, r.2@, r.3@),
        r.2@.last() == r.0,
{
    let mut current = start;
    let mut multiplier: i64 = SPAN_MULTIPLIER;
    let ghost mut path: Seq<DateTime> = seq![start];
    let ghost mut factors: Seq<int> = Seq::empty();
    assert(power_of_ten(1));
    loop
        invariant
            current.wf(),
            upper.wf(),
            span.wf(),
            span.sign() > 0,
            start.rank() <= current.rank() <= upper.rank(),
            multiplier >= 10,
            power_of_ten(multiplier as int),
            is_path(start, span, path, factors),
            path.last() == current,
        decreases i64::MAX - multiplier,
    {
        match span_checked_mul(&span, multiplier) {
            Ok(multiple) => {
                proof {
                    lemma_times_positive(span, multiplier as int);
                }
                match checked_add(&current, &multiple) {
                    Ok(next) => {
                        if upper.is_before(&next) {
                            return (current, multiplier, Ghost(path), Ghost(factors));
                        }
                        proof {
                            lemma_path_step(start, span, path, factors, next, multiplier as int);
                            path = path.push(next);
                            factors = factors.push(multiplier as int);
                        }
                        current = next;
                        match multiplier.checked_mul(SPAN_MULTIPLIER) {
                            Some(m) => {
                                assert(m / 10 == multiplier);
                                multiplier = m;
                            },
                            None => {
                                return (current, multiplier, Ghost(path), Ghost(factors));
                            },
                        }
                    },
                    Err(_) => {
                        return (current, multiplier, Ghost(path), Ghost(factors));
                    },
                }
            },
            Err(_) => {
                return (current, multiplier / SPAN_MULTIPLIER, Ghost(path), Ghost(factors));
            },
        }
    }
}

/// Adds `multiple` to `current` as often as the result stays within `upper`.
fn advance_by_multiple(
    from: DateTime,
    multiple: Span,
    upper: DateTime,
    Ghost(start): Ghost<DateTime>,
    Ghost(span): Ghost<Span>,
    Ghost(k): Ghost<int>,
    Ghost(path): Ghost<Seq<DateTime>>,
    Ghost(factors): Ghost<Seq<int>>,
) -> (r: (DateTime, Ghost<Seq<DateTime>>, Ghost<Seq<int>>))
    requires
        from.wf(),
        upper.wf(),
        multiple.wf(),
        multiple.sign() > 0,
        from.rank() <= upper.rank(),
        k >= 1,
        multiple == span.times(k),
        is_path(start, span, path, factors),
        path.last() == from,
    ensures
        r.0.wf(),
        from.rank() <= r.0.rank() <= upper.rank(),
        civil_add(r.0, multiple) matches Some(x) ==> upper.rank() < x.rank(),
        is_path(start, span, r.1@, r.2@),
        r.1@.last() == r.0,
{
    let mut current = from;
    let ghost mut path = path;
    let ghost mut factors = factors;
    loop
        invariant
            current.wf(),
            upper.wf(),
            multiple.wf(),
            multiple.sign() > 0,
            from.rank() <= current.rank() <= upper.rank(),
            k >= 1,
            multiple == span.times(k),
            is_path(start, span, path, factors),
            path.last() == current,
        decreases upper.rank() - current.rank(),
    {
        match checked_add(&current, &multiple) {
            Ok(next) => {
                if upper.is_before(&next) {
                    return (current, Ghost(path), Ghost(factors));
                }
                proof {
                    lemma_path_step(start, span, path, factors, next, k);
                    path = path.push(next);
                    factors = factors.push(k);
                }
                current = next;
            },
            Err(_) => {
                return (current, Ghost(path), Ghost(factors));
            },
        }
    }
}

/// Adds multiples of `span`, from `multiplier` times `span` down to `span` itself, as long as the
/// result stays within `upper`.
fn advance_by_until_slow(
    from: DateTime,
    span: Span,
    multiplier: i64,
    upper: DateTime,
    Ghost(start): Ghost<DateTime>,
    Ghost(path): Ghost<Seq<DateTime>>,
    Ghost(factors): Ghost<Seq<int>>,
) -> (r: (DateTime, Ghost<Seq<DateTime>>, Ghost<Seq<int>>))
    requires
        from.wf(),
        upper.wf(),
        span.wf(),
        span.sign() > 0,
        from.rank() <= upper.rank(),
        multiplier >= 1,
        power_of_ten(multiplier as int),
        is_path(start, span, path, factors),
        path.last() == from,
    ensures
        r.0.wf(),
        from.rank() <= r.0.rank() <= upper.rank(),
        civil_add(r.0, span) matches Some(x) ==> upper.rank() < x.rank(),
        is_path(start, span, r.1@, r.2@),
        r.1@.last() == r.0,
{
    let mut current = from;
    let mut multiplier = multiplier;
    let ghost mut path = path;
    let ghost mut factors = factors;
    while multiplier > 0
        invariant
            current.wf(),
            upper.wf(),
            span.wf(),
            span.sign() > 0,
            from.rank() <= current.rank() <= upper.rank(),
            multiplier >= 0,
            multiplier > 0 ==> power_of_ten(multiplier as int),
            multiplier == 0 ==> (civil_add(current, span) matches Some(x) ==> upper.rank()
                < x.rank()),
            is_path(start, span, path, factors),
            path.last() == current,
        decreases multiplier,
    {
        if multiplier == 1 {
            proof {
                lemma_times_one(span);
            }
            let (c, Ghost(p), Ghost(f)) = advance_by_multiple(
                current,
                span,
                upper,
                Ghost(start),
                Ghost(span),
                Ghost(1),
                Ghost(path),
                Ghost(factors),
            );
            current = c;
            proof {
                path = p;
                factors = f;
            }
        } else {
            match span_checked_mul(&span, multiplier) {
                Ok(multiple) => {
                    proof {
                        lemma_times_positive(span, multiplier as int);
                    }
                    let (c, Ghost(p), Ghost(f)) = advance_by_multiple(
                        current,
                        multiple,
                        upper,
                        Ghost(start),
                        Ghost(span),
                        Ghost(multiplier as int),
                        Ghost(path),
                        Ghost(factors),
                    );
                    current = c;
                    proof {
                        path = p;
                        factors = f;
                    }
                },
                Err(_) => {},
            }
        }
        multiplier = multiplier / SPAN_MULTIPLIER;
    }
    (current, Ghost(path), Ghost(factors))
}

/// `|a| < |b|`, computed without negating either number.
fn abs_less(a: i128, b: i128) -> (r: bool)
    ensures
        r == (abs(a as int) < abs(b as int)),
{
    if a >= 0 && b >= 0 {
        a < b
    } else if a < 0 && b < 0 {
        a > b
    } else if a < 0 {
        a + b > 0
    } else {
        a + b < 0
    }
}

/// The one of `left` and `right` that is closer to `instant`; `right` when both are as close.
pub open spec fn closer(instant: DateTime, left: DateTime, right: DateTime) -> DateTime {
    if abs(civil_nanos_until(left, instant) as int) < abs(
        civil_nanos_until(right, instant) as int,
    ) {
        left
    } else {
        right
    }
}

/// Returns the closest datetime to `instant` from `left` and `right`.
///
/// If distances are equal, this favors `right`.
pub fn closest_to(instant: DateTime, left: DateTime, right: DateTime) -> (r: DateTime)
    requires
        instant.wf(),
        left.wf(),
        right.wf(),
    ensures
        r == closer(instant, left, right),
{
    let l = nanos_until(&left, &instant);
    let r = nanos_until(&right, &instant);
    if abs_less(l, r) {
        left
    } else {
        right
    }
}

/// The best of two optional datetimes: `choice` applied to both when both are present, otherwise
/// whichever is present.
pub open spec fn best_of(
    left: Option<DateTime>,
    right: Option<DateTime>,
    choice: spec_fn(DateTime, DateTime) -> DateTime,
) -> Option<DateTime> {
    match (left, right) {
        (Some(l), Some(r)) => Some(choice(l, r)),
        (Some(l), None) => Some(l),
        (None, r) => r,
    }
}

/// The earlier of two datetimes.
pub open spec fn earliest(a: DateTime, b: DateTime) -> DateTime {
    if b.rank() < a.rank() {
        b
    } else {
        a
    }
}

/// The later of two datetimes.
pub open spec fn latest(a: DateTime, b: DateTime) -> DateTime {
    if a.rank() < b.rank() {
        b
    } else {
        a
    }
}

/// Picks the earlier of `left` and `right`, or whichever is present.
pub fn pick_earliest(left: Option<DateTime>, right: Option<DateTime>) -> (r: Option<DateTime>)
    requires
        left matches Some(l) ==> l.wf(),
        right matches Some(x) ==> x.wf(),
    ensures
        r == best_of(left, right, |a: DateTime, b: DateTime| earliest(a, b)),
{
    match (left, right) {
        (Some(l), Some(x)) => Some(l.earlier(x)),
        (Some(l), None) => Some(l),
        (None, x) => x,
    }
}

/// Picks the later of `left` and `right`, or whichever is present.
pub fn pick_latest(left: Option<DateTime>, right: Option<DateTime>) -> (r: Option<DateTime>)
    requires
        left matches Some(l) ==> l.wf(),
        right matches Some(x) ==> x.wf(),
    ensures
        r == best_of(left, right, |a: DateTime, b: DateTime| latest(a, b)),
{
    match (left, right) {
        (Some(l), Some(x)) => Some(l.later(x)),
        (Some(l), None) => Some(l),
        (None, x) => x,
    }
}

/// The one of `left` and `right` closer to `instant` (favoring `right`), or whichever is present.
pub open spec fn closest_of(instant: DateTime, left: Option<DateTime>, right: Option<DateTime>) -> Option<
    DateTime,
> {
    best_of(left, right, |a: DateTime, b: DateTime| closer(instant, a, b))
}

/// The closest of two optional datetimes is one of them, and is absent only when both are.
pub proof fn lemma_closest_of(instant: DateTime, left: Option<DateTime>, right: Option<DateTime>)
    ensures
        closest_of(instant, left, right) matches Some(x) ==> left == Some(x) || right == Some(x),
        closest_of(instant, left, right) is None <==> left is None && right is None,
{
}

/// Picks the one of `left` and `right` closer to `instant` (favoring `right`), or whichever is
/// present.
pub fn pick_closest_to(instant: DateTime, left: Option<DateTime>, right: Option<DateTime>) -> (r:
    Option<DateTime>)
    requires
        instant.wf(),
        left matches Some(l) ==> l.wf(),
        right matches Some(x) ==> x.wf(),
    ensures
        r == closest_of(instant, left, right),
{
    match (left, right) {
        (Some(l), Some(x)) => Some(closest_to(instant, l, x)),
        (Some(l), None) => Some(l),
        (None, x) => x,
    }
}

} // verus!
