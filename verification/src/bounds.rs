//! Axis bounds: the inclusive min/max of the steps and of the value
//! keys of a non-empty series, and the chart-or-no-data decision.

use vstd::prelude::*;

use crate::series::ScalarPoint;

verus! {

/// Inclusive axis bounds of a series: `x` spans the steps, `y` spans
/// the value keys. A zero-width axis (`min == max`) is a valid,
/// expected outcome for a single point or a constant series, not an
/// error; the renderer must cope with it.
#[derive(Clone, Copy, Debug, PartialEq, Eq, Structural)]
pub struct SeriesBounds {
    pub x_min: i64,
    pub x_max: i64,
    pub y_min: u64,
    pub y_max: u64,
}

/// The bounds are attained by some point and bound every point; this
/// pins each of the four fields down exactly, whatever the order of
/// the points.
pub open spec fn bounds_ok(b: SeriesBounds, pts: Seq<ScalarPoint>) -> bool {
    &&& exists|i: int| 0 <= i < pts.len() && pts[i].step == b.x_min
    &&& exists|i: int| 0 <= i < pts.len() && pts[i].step == b.x_max
    &&& exists|i: int| 0 <= i < pts.len() && pts[i].value == b.y_min
    &&& exists|i: int| 0 <= i < pts.len() && pts[i].value == b.y_max
    &&& forall|i: int| 0 <= i < pts.len() ==> b.x_min <= #[trigger] pts[i].step <= b.x_max
    &&& forall|i: int| 0 <= i < pts.len() ==> b.y_min <= #[trigger] pts[i].value <= b.y_max
}

/// Reduces a non-empty series to its axis bounds by a single fold
/// seeded with the first point. Callers must check for emptiness first
/// and short-circuit to the no-data message instead.
pub fn data_bounds(points: &Vec<ScalarPoint>) -> (b: SeriesBounds)
    requires
        points@.len() > 0,
    ensures
        bounds_ok(b, points@),
{
    let first = points[0];
    let mut b = SeriesBounds {
        x_min: first.step,
        x_max: first.step,
        y_min: first.value,
        y_max: first.value,
    };
    let n: usize = points.len();
    proof {
        assert(points@.take(1)[0] == points@[0]);
        assert(points@.take(1).len() == 1);
    }
    let mut i: usize = 1;
    while i < n
        invariant
            n == points@.len(),
            1 <= i <= n,
            bounds_ok(b, points@.take(i as int)),
        decreases n - i,
    {
        let ghost prev = b;
        let p = points[i];
        if p.step < b.x_min {
            b.x_min = p.step;
        }
        if p.step > b.x_max {
            b.x_max = p.step;
        }
        if p.value < b.y_min {
            b.y_min = p.value;
        }
        if p.value > b.y_max {
            b.y_max = p.value;
        }
        proof {
            let pre = points@.take(i as int);
            let cur = points@.take(i as int + 1);
            assert(forall|k: int| 0 <= k < cur.len() ==> cur[k] == points@[k]);
            assert(cur[i as int] == p);
            if b.x_min == prev.x_min {
                let w = choose|w: int| 0 <= w < pre.len() && pre[w].step == prev.x_min;
                assert(cur[w].step == b.x_min);
            } else {
                assert(cur[i as int].step == b.x_min);
            }
            if b.x_max == prev.x_max {
                let w = choose|w: int| 0 <= w < pre.len() && pre[w].step == prev.x_max;
                assert(cur[w].step == b.x_max);
            } else {
                assert(cur[i as int].step == b.x_max);
            }
            if b.y_min == prev.y_min {
                let w = choose|w: int| 0 <= w < pre.len() && pre[w].value == prev.y_min;
                assert(cur[w].value == b.y_min);
            } else {
                assert(cur[i as int].value == b.y_min);
            }
            if b.y_max == prev.y_max {
                let w = choose|w: int| 0 <= w < pre.len() && pre[w].value == prev.y_max;
                assert(cur[w].value == b.y_max);
            } else {
                assert(cur[i as int].value == b.y_max);
            }
            assert(bounds_ok(b, cur));
        }
        i += 1;
    }
    proof {
        assert(points@.take(n as int) =~= points@);
    }
    b
}

/// The chart-mode decision on an extracted series: an empty series is
/// the no-data outcome (a message, exit code zero — not an error);
/// anything else is charted with the bounds fixed once, here.
pub fn plan_chart(points: &Vec<ScalarPoint>) -> (r: Option<SeriesBounds>)
    ensures
        r is Some <==> points@.len() > 0,
        r matches Some(b) ==> bounds_ok(b, points@),
{
    if points.len() == 0 {
        None
    } else {
        Some(data_bounds(points))
    }
}

} // verus!
