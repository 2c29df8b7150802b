use vstd::prelude::*;
use crate::header::Bounds;
use crate::point::{Point, PointView};

verus! {

/// The largest return number that a header counts.
pub const MAX_RETURN: u8 = 15;

/// How many points of `points` have the return number `number`.
pub open spec fn count_with_return(points: Seq<PointView>, number: u8) -> nat
    decreases points.len(),
{
    if points.len() == 0 {
        0
    } else {
        count_with_return(points.drop_last(), number) + if points.last().return_number == number {
            1nat
        } else {
            0nat
        }
    }
}

/// The bounds of a single point.
pub open spec fn bounds_at(p: PointView) -> Bounds {
    Bounds { min_x: p.x, min_y: p.y, min_z: p.z, max_x: p.x, max_y: p.y, max_z: p.z }
}

/// The smaller of two stored coordinates.
pub open spec fn lower(a: i32, b: i32) -> i32 {
    if a <= b {
        a
    } else {
        b
    }
}

/// The larger of two stored coordinates.
pub open spec fn upper(a: i32, b: i32) -> i32 {
    if a >= b {
        a
    } else {
        b
    }
}

/// The bounds `b`, widened so that they hold `p`.
pub open spec fn widened(b: Bounds, p: PointView) -> Bounds {
    Bounds {
        min_x: lower(b.min_x, p.x),
        min_y: lower(b.min_y, p.y),
        min_z: lower(b.min_z, p.z),
        max_x: upper(b.max_x, p.x),
        max_y: upper(b.max_y, p.y),
        max_z: upper(b.max_z, p.z),
    }
}

/// The bounds of `points`: none for no points, else those of the first
/// point, widened by each later one.
pub open spec fn bounds_of(points: Seq<PointView>) -> Option<Bounds>
    decreases points.len(),
{
    if points.len() == 0 {
        None
    } else {
        match bounds_of(points.drop_last()) {
            None => Some(bounds_at(points.last())),
            Some(b) => Some(widened(b, points.last())),
        }
    }
}

/// Widens `b` so that it holds `p`.
pub fn widen(b: Bounds, p: &Point) -> (r: Bounds)
    ensures
        r == widened(b, p@),
{
    Bounds {
        min_x: if b.min_x <= p.x { b.min_x } else { p.x },
        min_y: if b.min_y <= p.y { b.min_y } else { p.y },
        min_z: if b.min_z <= p.z { b.min_z } else { p.z },
        max_x: if b.max_x >= p.x { b.max_x } else { p.x },
        max_y: if b.max_y >= p.y { b.max_y } else { p.y },
        max_z: if b.max_z >= p.z { b.max_z } else { p.z },
    }
}

/// The statistics of a single point: its own coordinates as bounds, and one
/// point counted under its return number and under no other.
pub proof fn lemma_single_point(p: PointView, number: u8)
    ensures
        bounds_of(seq![p]) == Some(bounds_at(p)),
        count_with_return(seq![p], number) == if p.return_number == number {
            1nat
        } else {
            0nat
        },
{
    let s = seq![p];
    assert(s.drop_last() =~= Seq::<PointView>::empty());
    assert(s.last() == p);
    assert(bounds_of(s.drop_last()) is None);
    assert(count_with_return(s.drop_last(), number) == 0);
}

/// No return number is counted more often than there are points.
pub proof fn lemma_count_is_bounded(points: Seq<PointView>, number: u8)
    ensures
        count_with_return(points, number) <= points.len(),
    decreases points.len(),
{
    if points.len() > 0 {
        lemma_count_is_bounded(points.drop_last(), number);
    }
}

/// The bounds of a sequence with at least one point exist, hold every point
/// of it, and each of the six is the coordinate of one of its points.
pub proof fn lemma_bounds_are_tight(points: Seq<PointView>)
    requires
        points.len() > 0,
    ensures
        bounds_of(points) is Some,
        forall|i: int|
            0 <= i < points.len() ==> {
                let b = bounds_of(points)->Some_0;
                let p = #[trigger] points[i];
                &&& b.min_x <= p.x <= b.max_x
                &&& b.min_y <= p.y <= b.max_y
                &&& b.min_z <= p.z <= b.max_z
            },
        exists|i: int| 0 <= i < points.len() && (#[trigger] points[i]).x == bounds_of(points)->Some_0.min_x,
        exists|i: int| 0 <= i < points.len() && (#[trigger] points[i]).y == bounds_of(points)->Some_0.min_y,
        exists|i: int| 0 <= i < points.len() && (#[trigger] points[i]).z == bounds_of(points)->Some_0.min_z,
        exists|i: int| 0 <= i < points.len() && (#[trigger] points[i]).x == bounds_of(points)->Some_0.max_x,
        exists|i: int| 0 <= i < points.len() && (#[trigger] points[i]).y == bounds_of(points)->Some_0.max_y,
        exists|i: int| 0 <= i < points.len() && (#[trigger] points[i]).z == bounds_of(points)->Some_0.max_z,
    decreases points.len(),
{
    let front = points.drop_last();
    let last = points.len() - 1;
    let b = bounds_of(points)->Some_0;
    if front.len() == 0 {
        assert(bounds_of(front) is None);
        assert(points[last] == points.last());
    } else {
        lemma_bounds_are_tight(front);
        let fb = bounds_of(front)->Some_0;
        assert forall|i: int| 0 <= i < front.len() implies front[i] == points[i] by {}
        let ix = choose|i: int| 0 <= i < front.len() && (#[trigger] front[i]).x == fb.min_x;
        let iy = choose|i: int| 0 <= i < front.len() && (#[trigger] front[i]).y == fb.min_y;
        let iz = choose|i: int| 0 <= i < front.len() && (#[trigger] front[i]).z == fb.min_z;
        let ax = choose|i: int| 0 <= i < front.len() && (#[trigger] front[i]).x == fb.max_x;
        let ay = choose|i: int| 0 <= i < front.len() && (#[trigger] front[i]).y == fb.max_y;
        let az = choose|i: int| 0 <= i < front.len() && (#[trigger] front[i]).z == fb.max_z;
        assert(points[ix] == front[ix] && points[iy] == front[iy] && points[iz] == front[iz]);
        assert(points[ax] == front[ax] && points[ay] == front[ay] && points[az] == front[az]);
        assert(points[last] == points.last());
        assert(points[if b.min_x == fb.min_x { ix } else { last }].x == b.min_x);
        assert(points[if b.min_y == fb.min_y { iy } else { last }].y == b.min_y);
        assert(points[if b.min_z == fb.min_z { iz } else { last }].z == b.min_z);
        assert(points[if b.max_x == fb.max_x { ax } else { last }].x == b.max_x);
        assert(points[if b.max_y == fb.max_y { ay } else { last }].y == b.max_y);
        assert(points[if b.max_z == fb.max_z { az } else { last }].z == b.max_z);
        assert forall|i: int| 0 <= i < points.len() implies {
            let p = #[trigger] points[i];
            &&& b.min_x <= p.x <= b.max_x
            &&& b.min_y <= p.y <= b.max_y
            &&& b.min_z <= p.z <= b.max_z
        } by {
            if i < last {
                assert(front[i] == points[i]);
            }
        }
    }
}

} // verus!
