//! Paging among snap points: drag where movement is free, a spring where a
//! point attracts or bounds the motion.
//!
//! A pager has a row of points. Each is either one that the motion settles on
//! (it snaps) or a free boundary. Every position lies between two neighbouring
//! points or beyond the outermost one, and what happens when a gesture ends
//! depends on that neighbourhood alone.
use vstd::prelude::*;
use crate::friction::{Friction, SCROLL_DRAG_BITS, SCROLL_LN_DRAG_BITS};
use crate::motion::{in_spring, phase_at, spec_in_spring, spec_phase_at};
use crate::motion::{Crossing, Handover, Launch, MotionState, Phase};
use crate::scalar::Scalar;
use crate::spring::{Spring, SpringSolution};
use crate::spring::{SCROLL_DAMPING_BITS, SCROLL_DISCRIMINANT_BITS, SCROLL_MASS_BITS};
use crate::spring::SCROLL_STIFFNESS_BITS;

verus! {

/// An end point or a point of attraction.
#[derive(Clone, Copy, Debug)]
pub struct SnapPoint {
    /// Where the point is.
    pub value: Scalar,
    /// Whether the motion settles on this point. Between two points that
    /// snap it always settles on one of them; next to a point that does not,
    /// it moves freely.
    pub snap: bool,
}

/// Where a position lies among the snap points.
#[derive(Clone, Copy, Debug)]
pub enum SnapQuery {
    /// Between these two neighbours: the first is at or below the position,
    /// the second above it.
    Between(SnapPoint, SnapPoint),
    /// Beyond this outermost point.
    Beyond(SnapPoint),
}

/// None of the points is at NaN.
pub open spec fn all_numbers(points: Seq<SnapPoint>) -> bool {
    forall|i: int| 0 <= i < points.len() ==> !(#[trigger] points[i]).value.spec_is_nan()
}

/// The index of the neighbour below `x`: scanning the points in order, the
/// scan skips every point above `x`, takes the first of the others, and
/// replaces what it holds whenever it comes to a point above that.
pub open spec fn below_index(points: Seq<SnapPoint>, x: Scalar) -> Option<int>
    decreases points.len(),
{
    if points.len() == 0 {
        None
    } else {
        let before = below_index(points.drop_last(), x);
        let last = points.last();
        if last.value.spec_gt(x) {
            before
        } else {
            match before {
                None => Some(points.len() - 1),
                Some(i) => if last.value.spec_gt(points[i].value) {
                    Some(points.len() - 1)
                } else {
                    before
                },
            }
        }
    }
}

/// The index of the neighbour above `x`: scanning the points in order, the
/// scan looks at the points above `x` only, takes the first of them, and
/// replaces what it holds whenever it comes to a point below that.
pub open spec fn above_index(points: Seq<SnapPoint>, x: Scalar) -> Option<int>
    decreases points.len(),
{
    if points.len() == 0 {
        None
    } else {
        let before = above_index(points.drop_last(), x);
        let last = points.last();
        if last.value.spec_gt(x) {
            match before {
                None => Some(points.len() - 1),
                Some(i) => if points[i].value.spec_gt(last.value) {
                    Some(points.len() - 1)
                } else {
                    before
                },
            }
        } else {
            before
        }
    }
}

/// The point that is made up where there are no points at all: one at zero
/// that snaps.
pub open spec fn fallback_point() -> SnapPoint {
    SnapPoint { value: Scalar::spec_zero(), snap: true }
}

/// Where `x` lies among `points`.
pub open spec fn spec_query(points: Seq<SnapPoint>, x: Scalar) -> SnapQuery {
    match (below_index(points, x), above_index(points, x)) {
        (Some(i), Some(j)) => SnapQuery::Between(points[i], points[j]),
        (Some(i), None) => SnapQuery::Beyond(points[i]),
        (None, Some(j)) => SnapQuery::Beyond(points[j]),
        (None, None) => SnapQuery::Beyond(fallback_point()),
    }
}

/// The indices that the two scans give lie within the row.
pub proof fn lemma_indices_in_range(points: Seq<SnapPoint>, x: Scalar)
    ensures
        below_index(points, x) matches Some(i) ==> 0 <= i < points.len(),
        above_index(points, x) matches Some(j) ==> 0 <= j < points.len(),
    decreases points.len(),
{
    if points.len() > 0 {
        lemma_indices_in_range(points.drop_last(), x);
    }
}

/// The neighbour below is the greatest point that is not above `x`, and of
/// several such at one value the first. Said of points and a position that
/// are numbers.
pub proof fn lemma_below_is_greatest(points: Seq<SnapPoint>, x: Scalar)
    requires
        all_numbers(points),
        !x.spec_is_nan(),
    ensures
        match below_index(points, x) {
            None => forall|k: int| 0 <= k < points.len() ==> (#[trigger] points[k]).value.spec_gt(x),
            Some(i) => {
                &&& 0 <= i < points.len()
                &&& points[i].value.spec_le(x)
                &&& forall|k: int|
                    0 <= k < points.len() && (#[trigger] points[k]).value.spec_le(x)
                        ==> points[k].value.spec_le(points[i].value)
                &&& forall|k: int|
                    0 <= k < i && (#[trigger] points[k]).value.spec_le(x) ==> points[k].value.spec_lt(
                        points[i].value,
                    )
            },
        },
    decreases points.len(),
{
    if points.len() > 0 {
        let rest = points.drop_last();
        assert(all_numbers(rest)) by {
            assert forall|k: int| 0 <= k < rest.len() implies !(#[trigger] rest[k]).value.spec_is_nan() by {
                assert(rest[k] == points[k]);
            }
        }
        lemma_below_is_greatest(rest, x);
        assert forall|k: int| 0 <= k < rest.len() implies #[trigger] rest[k] == points[k] by {}
        let n = points.len() - 1;
        assert(points.last() == points[n]);
        assert(!points[n].value.spec_is_nan());
        match below_index(points, x) {
            None => {
                assert forall|k: int| 0 <= k < points.len() implies (#[trigger] points[k]).value.spec_gt(
                    x,
                ) by {
                    if k < n {
                        assert(rest[k].value.spec_gt(x));
                    }
                }
            },
            Some(i) => {
                assert forall|k: int|
                    0 <= k < points.len() && (#[trigger] points[k]).value.spec_le(
                        x,
                    ) implies points[k].value.spec_le(points[i].value) by {
                    if k < n {
                        assert(rest[k].value.spec_le(x));
                    }
                }
                assert forall|k: int|
                    0 <= k < i && (#[trigger] points[k]).value.spec_le(x) implies points[k].value.spec_lt(
                        points[i].value,
                    ) by {
                    if k < n {
                        assert(rest[k].value.spec_le(x));
                    }
                }
            },
        }
    }
}

/// The neighbour above is the least point above `x`, and of several such at
/// one value the first. Said of points and a position that are numbers.
pub proof fn lemma_above_is_least(points: Seq<SnapPoint>, x: Scalar)
    requires
        all_numbers(points),
        !x.spec_is_nan(),
    ensures
        match above_index(points, x) {
            None => forall|k: int| 0 <= k < points.len() ==> (#[trigger] points[k]).value.spec_le(x),
            Some(j) => {
                &&& 0 <= j < points.len()
                &&& points[j].value.spec_gt(x)
                &&& forall|k: int|
                    0 <= k < points.len() && (#[trigger] points[k]).value.spec_gt(x)
                        ==> points[k].value.spec_ge(points[j].value)
                &&& forall|k: int|
                    0 <= k < j && (#[trigger] points[k]).value.spec_gt(x) ==> points[k].value.spec_gt(
                        points[j].value,
                    )
            },
        },
    decreases points.len(),
{
    if points.len() > 0 {
        let rest = points.drop_last();
        assert(all_numbers(rest)) by {
            assert forall|k: int| 0 <= k < rest.len() implies !(#[trigger] rest[k]).value.spec_is_nan() by {
                assert(rest[k] == points[k]);
            }
        }
        lemma_above_is_least(rest, x);
        assert forall|k: int| 0 <= k < rest.len() implies #[trigger] rest[k] == points[k] by {}
        let n = points.len() - 1;
        assert(points.last() == points[n]);
        assert(!points[n].value.spec_is_nan());
        match above_index(points, x) {
            None => {
                assert forall|k: int| 0 <= k < points.len() implies (#[trigger] points[k]).value.spec_le(
                    x,
                ) by {
                    if k < n {
                        assert(rest[k].value.spec_le(x));
                    }
                }
            },
            Some(j) => {
                assert forall|k: int|
                    0 <= k < points.len() && (#[trigger] points[k]).value.spec_gt(
                        x,
                    ) implies points[k].value.spec_ge(points[j].value) by {
                    if k < n {
                        assert(rest[k].value.spec_gt(x));
                    }
                }
                assert forall|k: int|
                    0 <= k < j && (#[trigger] points[k]).value.spec_gt(x) implies points[k].value.spec_gt(
                        points[j].value,
                    ) by {
                    if k < n {
                        assert(rest[k].value.spec_gt(x));
                    }
                }
            },
        }
    }
}

/// The test that picks the points at the value `v`.
pub open spec fn at_value(v: Scalar) -> spec_fn(SnapPoint) -> bool {
    |p: SnapPoint| p.value.spec_same(v)
}

/// No point is above a later one.
pub open spec fn ascending(points: Seq<SnapPoint>) -> bool {
    forall|i: int, j: int|
        0 <= i < j < points.len() ==> !(#[trigger] points[i]).value.spec_gt(
            (#[trigger] points[j]).value,
        )
}

/// `sorted` holds the points of `points`, each as often. If they are all
/// numbers, it holds them in ascending order, and those at one value in the
/// order they have in `points`.
pub open spec fn is_stable_sort_of(sorted: Seq<SnapPoint>, points: Seq<SnapPoint>) -> bool {
    &&& sorted.to_multiset() == points.to_multiset()
    &&& all_numbers(points) ==> {
        &&& ascending(sorted)
        &&& forall|v: Scalar| #[trigger]
            sorted.filter(at_value(v)) == points.filter(at_value(v))
    }
}

/// What putting `p` in at `j` does to the points picked at `v`, where every
/// point from `j` on is above `p`.
proof fn lemma_insert_keeps_order_at(s: Seq<SnapPoint>, j: int, p: SnapPoint, v: Scalar)
    requires
        0 <= j <= s.len(),
        forall|k: int| j <= k < s.len() ==> (#[trigger] s[k]).value.spec_gt(p.value),
    ensures
        s.insert(j, p).filter(at_value(v)) == s.push(p).filter(at_value(v)),
{
    let pred = at_value(v);
    let head = s.subrange(0, j);
    let tail = s.subrange(j, s.len() as int);
    let one = seq![p];
    assert(s.insert(j, p) =~= head + one + tail);
    assert(s =~= head + tail);
    assert(s.push(p) =~= head + tail + one);
    Seq::filter_distributes_over_add(head + one, tail, pred);
    Seq::filter_distributes_over_add(head, one, pred);
    Seq::filter_distributes_over_add(head + tail, one, pred);
    Seq::filter_distributes_over_add(head, tail, pred);
    if pred(p) {
        assert(tail.all(|q: SnapPoint| !pred(q))) by {
            assert forall|k: int| 0 <= k < tail.len() implies !pred(#[trigger] tail[k]) by {
                assert(tail[k] == s[j + k]);
            }
        }
        tail.lemma_all_neg_filter_empty(pred);
        assert(tail.filter(pred) =~= Seq::<SnapPoint>::empty());
        assert(head.filter(pred) + one.filter(pred) + tail.filter(pred) =~= head.filter(pred)
            + tail.filter(pred) + one.filter(pred));
    } else {
        assert(one.all(|q: SnapPoint| !pred(q))) by {
            assert forall|k: int| 0 <= k < one.len() implies !pred(#[trigger] one[k]) by {}
        }
        one.lemma_all_neg_filter_empty(pred);
        assert(one.filter(pred) =~= Seq::<SnapPoint>::empty());
        assert(head.filter(pred) + one.filter(pred) + tail.filter(pred) =~= head.filter(pred)
            + tail.filter(pred) + one.filter(pred));
    }
}

/// A copy of the points in ascending order of their values, with those at
/// one value left in the order they came in. A point at NaN is in no order
/// with any other: such a point is not moved past, and with one among the
/// points the copy still holds every point, each as often as it came.
pub fn sort_points(points: &[SnapPoint]) -> (sorted: Vec<SnapPoint>)
    ensures
        is_stable_sort_of(sorted@, points@),
{
    let mut out: Vec<SnapPoint> = Vec::new();
    let mut i: usize = 0;
    proof {
        assert(points@.take(0) =~= Seq::<SnapPoint>::empty());
        assert(out@ =~= points@.take(0));
    }
    while i < points.len()
        invariant
            i <= points.len(),
            out.len() == i,
            is_stable_sort_of(out@, points@.take(i as int)),
            all_numbers(points@.take(i as int)) ==> all_numbers(out@),
        decreases points.len() - i,
    {
        let p = points[i];
        let mut j: usize = out.len();
        while j > 0 && out[j - 1].value.gt(p.value)
            invariant
                j <= out.len(),
                forall|k: int| j <= k < out.len() ==> (#[trigger] out@[k]).value.spec_gt(p.value),
            decreases j,
        {
            j = j - 1;
        }
        let ghost before = out@;
        let ghost taken = points@.take(i as int);
        out.insert(j, p);
        proof {
            let grown = points@.take(i + 1);
            assert(grown =~= taken.push(p));
            vstd::seq_lib::to_multiset_insert(before, j as int, p);
            vstd::seq_lib::to_multiset_build(taken, p);
            if all_numbers(grown) {
                assert(all_numbers(taken)) by {
                    assert forall|k: int| 0 <= k < taken.len() implies !(#[trigger] taken[k]).value.spec_is_nan() by {
                        assert(taken[k] == grown[k]);
                    }
                }
                assert(grown[i as int] == p);
                assert(!p.value.spec_is_nan());
                assert(all_numbers(out@)) by {
                    assert forall|k: int| 0 <= k < out@.len() implies !(#[trigger] out@[k]).value.spec_is_nan() by {
                        if k < j {
                            assert(out@[k] == before[k]);
                        } else if k > j {
                            assert(out@[k] == before[k - 1]);
                        }
                    }
                }
                assert(ascending(out@)) by {
                    assert forall|a: int, b: int| 0 <= a < b < out@.len() implies !(#[trigger] out@[a]).value.spec_gt(
                        (#[trigger] out@[b]).value,
                    ) by {
                        if b < j {
                            assert(out@[a] == before[a] && out@[b] == before[b]);
                        } else if b == j {
                            assert(out@[a] == before[a]);
                            if a < j - 1 {
                                assert(!before[a].value.spec_gt(before[j - 1].value));
                            }
                        } else if a < j {
                            assert(out@[a] == before[a] && out@[b] == before[b - 1]);
                        } else if a == j {
                            assert(out@[b] == before[b - 1]);
                        } else {
                            assert(out@[a] == before[a - 1] && out@[b] == before[b - 1]);
                        }
                    }
                }
                assert forall|v: Scalar| #[trigger]
                    out@.filter(at_value(v)) == grown.filter(at_value(v)) by {
                    lemma_insert_keeps_order_at(before, j as int, p, v);
                    before.lemma_filter_push(p, at_value(v));
                    taken.lemma_filter_push(p, at_value(v));
                    assert(before.filter(at_value(v)) == taken.filter(at_value(v)));
                }
            }
        }
        i = i + 1;
    }
    proof {
        assert(points@.take(points@.len() as int) =~= points@);
    }
    out
}

/// The pattern of `10000.0`, the time in seconds at which a fling counts as
/// having come to rest when two snapping points compete for it.
pub const HORIZON_BITS: u32 = 0x461c_4000;

/// What the caller has measured of the drag curve from the point of release,
/// against the neighbourhood that `query` gives for that point: `first` is
/// the point of a `Beyond`, or the first of a `Between`; `second` is the
/// second of a `Between`.
#[derive(Clone, Copy, Debug)]
pub struct Outlook {
    /// When and how fast the curve meets the first point.
    pub first: Crossing,
    /// When and how fast the curve meets the second point.
    pub second: Crossing,
    /// How far the first point is from where the curve is at the horizon.
    pub first_gap: Scalar,
    /// How far the second point is from where the curve is at the horizon.
    pub second_gap: Scalar,
}

/// A paging motion.
#[derive(Clone, Debug)]
pub struct Pager {
    /// The snap points, in ascending order.
    pub snap_points: Vec<SnapPoint>,
    /// The drag model, restarted by every `set`.
    pub friction: Friction,
    /// The spring model, anchored anew whenever a hand-over is planned.
    pub spring: Spring,
    /// The time at which the spring takes over; NaN while none is planned.
    pub spring_time: Scalar,
}

impl View for Pager {
    type V = Seq<SnapPoint>;

    /// The snap points, in the order in which they are kept.
    open spec fn view(&self) -> Seq<SnapPoint> {
        self.snap_points@
    }
}

impl Pager {
    /// What is decided when the motion is let go at `x` with velocity `v` in
    /// the neighbourhood `place`.
    ///
    /// - Beyond a free boundary: if drag brings the motion back to it at a
    ///   finite time above zero, drag keeps the motion; if not, the spring
    ///   takes over at once, to the boundary.
    /// - Beyond a point that snaps: the spring takes over at once, to the
    ///   point.
    /// - Between two points that snap: the spring takes over at once, to the
    ///   first point if that is strictly the nearer to where drag would come
    ///   to rest, else to the second.
    /// - Between two points otherwise: drag runs; if its curve meets the first
    ///   point at a finite time above zero, the spring takes over there and
    ///   then; if not, the same with the second point; if neither, drag keeps
    ///   the motion.
    ///
    /// At once means at time zero, from `x`, with `v`.
    pub open spec fn spec_handover(place: SnapQuery, x: Scalar, v: Scalar, outlook: Outlook) -> Handover {
        match place {
            SnapQuery::Beyond(p) => {
                if !p.snap && outlook.first.time.spec_is_ahead() {
                    Handover::Never
                } else {
                    Handover::spec_at_once(x, p.value, v)
                }
            },
            SnapQuery::Between(a, b) => {
                if a.snap && b.snap {
                    if outlook.first_gap.spec_lt(outlook.second_gap) {
                        Handover::spec_at_once(x, a.value, v)
                    } else {
                        Handover::spec_at_once(x, b.value, v)
                    }
                } else if outlook.first.time.spec_is_ahead() {
                    Handover::spec_on_reaching(a.value, outlook.first)
                } else if outlook.second.time.spec_is_ahead() {
                    Handover::spec_on_reaching(b.value, outlook.second)
                } else {
                    Handover::Never
                }
            },
        }
    }

    /// Is the spring in charge at `time`?
    pub open spec fn spec_in_spring(&self, time: Scalar) -> bool {
        spec_in_spring(self.spring_time, time)
    }

    /// The model in charge at `time`.
    pub open spec fn spec_phase(&self, time: Scalar) -> Phase {
        spec_phase_at(self.spring_time, time)
    }

    /// A pager over the given points, at rest at position zero: the points
    /// are kept in ascending order, drag is 0.01, the spring has mass 1,
    /// stiffness 90 and damping 20, and no hand-over is planned.
    pub fn new(snap_points: &[SnapPoint]) -> (r: Pager)
        ensures
            is_stable_sort_of(r@, snap_points@),
            r.friction == (Friction {
                x: Scalar::spec_zero(),
                v: Scalar::spec_zero(),
                drag: Scalar { bits: SCROLL_DRAG_BITS },
                ln_drag: Scalar { bits: SCROLL_LN_DRAG_BITS },
            }),
            r.spring == (Spring {
                mass: Scalar { bits: SCROLL_MASS_BITS },
                spring_constant: Scalar { bits: SCROLL_STIFFNESS_BITS },
                damping: Scalar { bits: SCROLL_DAMPING_BITS },
                discriminant: Scalar { bits: SCROLL_DISCRIMINANT_BITS },
                end: Scalar::spec_zero(),
                solution: SpringSolution::Snapped,
                start_time: Scalar::spec_zero(),
            }),
            r.spring_time == Scalar::spec_nan(),
    {
        Pager {
            snap_points: sort_points(snap_points),
            friction: Friction::new(
                Scalar::from_bits(SCROLL_DRAG_BITS),
                Scalar::from_bits(SCROLL_LN_DRAG_BITS),
            ),
            spring: Spring::new(
                Scalar::from_bits(SCROLL_MASS_BITS),
                Scalar::from_bits(SCROLL_STIFFNESS_BITS),
                Scalar::from_bits(SCROLL_DAMPING_BITS),
                Scalar::from_bits(SCROLL_DISCRIMINANT_BITS),
            ),
            spring_time: Scalar::nan(),
        }
    }

    /// Finds the snap points that `x` lies between, or the outermost one
    /// that it lies beyond. A caller can tell by this that a drag has gone
    /// past the last point and ought to be damped.
    ///
    /// The neighbour below is the greatest point that is not above `x`, the
    /// neighbour above the least point above `x`. With both, `x` is between
    /// them; with one, beyond it; with no points at all, beyond a made-up
    /// point at zero that snaps.
    pub fn query(&self, x: Scalar) -> (r: SnapQuery)
        ensures
            r == spec_query(self@, x),
    {
        let mut less_than: Option<SnapPoint> = None;
        let mut greater_than: Option<SnapPoint> = None;
        let mut i: usize = 0;
        proof {
            assert(self@.take(0) =~= Seq::<SnapPoint>::empty());
        }
        while i < self.snap_points.len()
            invariant
                i <= self.snap_points.len(),
                self@ == self.snap_points@,
                less_than == match below_index(self@.take(i as int), x) {
                    Some(k) => Some(self@[k]),
                    None => None,
                },
                greater_than == match above_index(self@.take(i as int), x) {
                    Some(k) => Some(self@[k]),
                    None => None,
                },
            decreases self.snap_points.len() - i,
        {
            let snap = self.snap_points[i];
            proof {
                let seen = self@.take(i as int);
                let grown = self@.take(i + 1);
                assert(grown.drop_last() =~= seen);
                assert(grown.last() == snap);
                lemma_indices_in_range(seen, x);
                assert forall|k: int| 0 <= k < seen.len() implies grown[k] == self@[k] by {}
            }
            if snap.value.gt(x) {
                greater_than = match greater_than {
                    None => Some(snap),
                    Some(s) => if s.value.gt(snap.value) {
                        Some(snap)
                    } else {
                        greater_than
                    },
                };
            } else {
                less_than = match less_than {
                    None => Some(snap),
                    Some(s) => if snap.value.gt(s.value) {
                        Some(snap)
                    } else {
                        less_than
                    },
                };
            }
            i = i + 1;
        }
        proof {
            assert(self@.take(self@.len() as int) =~= self@);
        }
        match (less_than, greater_than) {
            (Some(less), Some(more)) => SnapQuery::Between(less, more),
            (Some(extent), None) => SnapQuery::Beyond(extent),
            (None, Some(extent)) => SnapQuery::Beyond(extent),
            (None, None) => SnapQuery::Beyond(SnapPoint { value: Scalar::zero(), snap: true }),
        }
    }

    /// Decides the hand-over for a release at `x` with velocity `v` in the
    /// neighbourhood `place`.
    #[verifier::when_used_as_spec(spec_handover)]
    pub fn handover(place: SnapQuery, x: Scalar, v: Scalar, outlook: Outlook) -> (r: Handover)
        ensures
            r == Pager::spec_handover(place, x, v, outlook),
    {
        match place {
            SnapQuery::Beyond(p) => {
                if !p.snap && outlook.first.time.is_ahead() {
                    Handover::Never
                } else {
                    Handover::at_once(x, p.value, v)
                }
            },
            SnapQuery::Between(a, b) => {
                if a.snap && b.snap {
                    if outlook.first_gap.lt(outlook.second_gap) {
                        Handover::at_once(x, a.value, v)
                    } else {
                        Handover::at_once(x, b.value, v)
                    }
                } else if outlook.first.time.is_ahead() {
                    Handover::on_reaching(a.value, outlook.first)
                } else if outlook.second.time.is_ahead() {
                    Handover::on_reaching(b.value, outlook.second)
                } else {
                    Handover::Never
                }
            },
        }
    }

    /// Starts a gesture-driven motion from `x` with velocity `v`. `outlook`
    /// holds what the drag curve from `(x, v)` does at the points that
    /// `query(x)` names.
    ///
    /// Drag is restarted from `(x, v)` and the hand-over is decided. Where
    /// there is one, its time is recorded, the spring is put to rest where it
    /// starts, and the order to aim it is returned for the caller to carry
    /// out with `Spring::set`. Where there is none, the recorded time is NaN,
    /// the spring is left as it was and nothing is returned.
    pub fn set(&mut self, x: Scalar, v: Scalar, outlook: Outlook) -> (r: Option<Launch>)
        ensures
            ({
                let planned = Pager::spec_handover(spec_query(old(self)@, x), x, v, outlook);
                &&& final(self).snap_points == old(self).snap_points
                &&& final(self).friction == (Friction { x, v, ..old(self).friction })
                &&& final(self).spring == planned.spring_after(old(self).spring)
                &&& final(self).spring_time == planned.spring_time()
                &&& r == planned.launch()
            }),
    {
        self.friction.set(x, v);
        let place = self.query(x);
        let planned = Pager::handover(place, x, v, outlook);
        let (spring_time, launch) = planned.engage(&mut self.spring);
        self.spring_time = spring_time;
        launch
    }

    /// Leaves for `position` from wherever the motion is: the spring takes
    /// over at time zero, put to rest at the position that the motion has
    /// now; the order returned aims it at `position` with the velocity that
    /// the motion has now. `now` is the state of the model in charge at the
    /// time of the jump.
    pub fn jump_to(&mut self, position: Scalar, now: MotionState) -> (r: Launch)
        ensures
            final(self).snap_points == old(self).snap_points,
            final(self).friction == old(self).friction,
            final(self).spring_time == Scalar::spec_zero(),
            final(self).spring == (Spring {
                end: now.position,
                solution: SpringSolution::Snapped,
                start_time: Scalar::spec_zero(),
                ..old(self).spring
            }),
            r == (Launch { target: position, velocity: now.velocity, time: Scalar::spec_zero() }),
    {
        self.spring_time = Scalar::zero();
        self.spring.snap(now.position);
        Launch { target: position, velocity: now.velocity, time: Scalar::zero() }
    }

    /// Decides whether the spring is in charge at `time`.
    #[verifier::when_used_as_spec(spec_in_spring)]
    pub fn in_spring(&self, time: Scalar) -> (r: bool)
        ensures
            r == self.spec_in_spring(time),
    {
        in_spring(self.spring_time, time)
    }

    /// Picks the model whose position, velocity and rest are those of the
    /// pager at `time`.
    #[verifier::when_used_as_spec(spec_phase)]
    pub fn phase(&self, time: Scalar) -> (r: Phase)
        ensures
            r == self.spec_phase(time),
    {
        phase_at(self.spring_time, time)
    }
}

/// Among points that are numbers, a position that is a number lies between
/// its two neighbours with no point strictly inside the gap, or beyond the
/// outermost point on the side where it lies. With no points it lies beyond
/// the made-up point.
pub proof fn lemma_query_brackets(points: Seq<SnapPoint>, x: Scalar)
    requires
        all_numbers(points),
        !x.spec_is_nan(),
    ensures
        match spec_query(points, x) {
            SnapQuery::Between(a, b) => {
                &&& points.contains(a) && points.contains(b)
                &&& a.value.spec_le(x) && x.spec_lt(b.value)
                &&& forall|k: int|
                    0 <= k < points.len() ==> (#[trigger] points[k]).value.spec_le(a.value)
                        || points[k].value.spec_ge(b.value)
            },
            SnapQuery::Beyond(p) => {
                ||| points.len() == 0 && p == fallback_point()
                ||| {
                    &&& points.contains(p)
                    &&& p.value.spec_le(x)
                    &&& forall|k: int|
                        0 <= k < points.len() ==> (#[trigger] points[k]).value.spec_le(p.value)
                }
                ||| {
                    &&& points.contains(p)
                    &&& p.value.spec_gt(x)
                    &&& forall|k: int|
                        0 <= k < points.len() ==> (#[trigger] points[k]).value.spec_ge(p.value)
                }
            },
        },
{
    lemma_below_is_greatest(points, x);
    lemma_above_is_least(points, x);
    match (below_index(points, x), above_index(points, x)) {
        (Some(i), Some(j)) => {
            assert(points.contains(points[i]) && points.contains(points[j]));
            assert forall|k: int| 0 <= k < points.len() implies (#[trigger] points[k]).value.spec_le(
                points[i].value,
            ) || points[k].value.spec_ge(points[j].value) by {
                if points[k].value.spec_le(x) {
                } else {
                    assert(points[k].value.spec_gt(x));
                }
            }
        },
        (Some(i), None) => {
            assert(points.contains(points[i]));
        },
        (None, Some(j)) => {
            assert(points.contains(points[j]));
        },
        (None, None) => {
            if points.len() > 0 {
                assert(points[0].value.spec_gt(x) && points[0].value.spec_le(x));
            }
        },
    }
}

/// Let go beyond a free boundary with no return ahead, or beyond a point that
/// snaps whatever lies ahead, the motion is sprung at once from where it is
/// to that point, with the velocity it has. Beyond a free boundary with a
/// return ahead it is left to drag.
pub proof fn lemma_pager_beyond(p: SnapPoint, x: Scalar, v: Scalar, outlook: Outlook)
    ensures
        p.snap || !outlook.first.time.spec_is_ahead() ==> Pager::spec_handover(
            SnapQuery::Beyond(p),
            x,
            v,
            outlook,
        ) == Handover::spec_at_once(x, p.value, v),
        !p.snap && outlook.first.time.spec_is_ahead() ==> Pager::spec_handover(
            SnapQuery::Beyond(p),
            x,
            v,
            outlook,
        ) == Handover::Never,
{
}

/// Between two points that snap the motion never stays with drag: it is
/// sprung at once to one of the two.
pub proof fn lemma_pager_between_snapping(
    a: SnapPoint,
    b: SnapPoint,
    x: Scalar,
    v: Scalar,
    outlook: Outlook,
)
    requires
        a.snap,
        b.snap,
    ensures
        ({
            let h = Pager::spec_handover(SnapQuery::Between(a, b), x, v, outlook);
            h == Handover::spec_at_once(x, a.value, v) || h == Handover::spec_at_once(
                x,
                b.value,
                v,
            )
        }),
{
}

/// The hand-over never lies in the past: its time is zero or a finite time
/// above zero, and where none is planned it is the NaN that no time reaches.
pub proof fn lemma_pager_handover_time(place: SnapQuery, x: Scalar, v: Scalar, outlook: Outlook)
    ensures
        ({
            let h = Pager::spec_handover(place, x, v, outlook);
            &&& h is Never ==> h.spring_time() == Scalar::spec_nan()
            &&& h is Spring ==> h.spring_time() == Scalar::spec_zero()
                || h.spring_time().spec_is_ahead()
        }),
{
}

/// No jump at a hand-over that waits for a point: a hand-over is either at
/// time zero, from where the motion is and with the velocity it has, or at
/// the time drag meets one of the two neighbours; then the spring starts at
/// rest on that very point, is aimed at it, and is entered with the velocity
/// drag has at that time.
pub proof fn lemma_pager_handover_is_continuous(
    place: SnapQuery,
    x: Scalar,
    v: Scalar,
    outlook: Outlook,
)
    ensures
        match Pager::spec_handover(place, x, v, outlook) {
            Handover::Never => true,
            Handover::Spring { from, launch } => {
                ||| launch.time == Scalar::spec_zero() && from == x && launch.velocity == v
                ||| place matches SnapQuery::Between(a, _) && from == a.value && launch.target
                    == a.value && launch.time == outlook.first.time && launch.velocity
                    == outlook.first.velocity
                ||| place matches SnapQuery::Between(_, b) && from == b.value && launch.target
                    == b.value && launch.time == outlook.second.time && launch.velocity
                    == outlook.second.velocity
            },
        },
{
}

} // verus!
