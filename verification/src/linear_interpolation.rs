//! Piecewise-linear interpolation over an ordered set of anchor points.
//!
//! A query below the first anchor or above the last one clamps to the
//! respective endpoint; in between, the value is the exact linear blend of
//! the two bracketing anchors.  Anchor x coordinates are rational (the
//! estimators build them from integer confidences and block times), y values
//! are whole wei, and the result is an exact rational.
//!
//! Specifications speak about the ghost anchor sequence [`anchors`]: the
//! sequence of `(x value, y value)` pairs of the executable points.

use vstd::prelude::*;

use vstd::arithmetic::mul::{lemma_mul_inequality, lemma_mul_is_commutative, lemma_mul_upper_bound};

use crate::rational::{lemma_le_lt_trans, Rat, Ratio};
use crate::Error;

verus! {

/// Largest anchor x numerator the interpolator accepts (2^40; keeps `u128`
/// arithmetic overflow-free).
pub const MAX_X_NUM: u128 = 0x100_0000_0000;

/// Largest anchor x denominator the interpolator accepts (2^12).
pub const MAX_X_DEN: u128 = 0x1000;

/// Largest anchor y value, in whole wei, the interpolator accepts (2^61).
pub const MAX_Y: u128 = 0x2000_0000_0000_0000;

/// One anchor point: a rational x coordinate and a whole-wei y value.
#[derive(Clone, Copy, Debug)]
pub struct Point {
    pub x: Ratio,
    pub y: u128,
}

/// The ghost anchor sequence of a point list: each point as a pair of its
/// x value and its y value.
pub open spec fn anchors(pts: Seq<Point>) -> Seq<(Rat, int)> {
    Seq::new(pts.len(), |i: int| (pts[i].x@, pts[i].y as int))
}

/// The anchor's coordinates are within the interpolator's arithmetic range.
pub open spec fn anchor_bounded(p: (Rat, int)) -> bool {
    &&& p.0.wf()
    &&& 0 <= p.0.num <= MAX_X_NUM
    &&& p.0.den <= MAX_X_DEN
    &&& 0 <= p.1 <= MAX_Y
}

/// All anchors are within the interpolator's arithmetic range.
pub open spec fn anchors_bounded(pts: Seq<(Rat, int)>) -> bool {
    forall|i: int| 0 <= i < pts.len() ==> anchor_bounded(#[trigger] pts[i])
}

/// The anchors are ordered by ascending x coordinate.
pub open spec fn anchors_sorted(pts: Seq<(Rat, int)>) -> bool {
    forall|i: int, j: int|
        0 <= i <= j < pts.len() ==> (#[trigger] pts[i]).0.le((#[trigger] pts[j]).0)
}

/// The query is within the interpolator's arithmetic range.
pub open spec fn query_bounded(t: Rat) -> bool {
    &&& t.wf()
    &&& 0 <= t.num <= MAX_X_NUM
    &&& t.den <= MAX_X_DEN
}

/// The exact linear blend of `(x1, y1)` and `(x2, y2)` at `t`, written over
/// the common denominator `x1.den * x2.den * t.den`:
/// `y1 + (t - x1) * (y2 - y1) / (x2 - x1)`.
pub open spec fn interp_between(x1: Rat, y1: int, x2: Rat, y2: int, t: Rat) -> Rat {
    let rise = (t.num * x1.den - x1.num * t.den) * x2.den;
    let run = (x2.num * x1.den - x1.num * x2.den) * t.den;
    Rat { num: y1 * run + rise * (y2 - y1), den: run }
}

/// `v` is the interpolated value of `pts` at `t`: the first y below the
/// anchor range, the last y above it, and the exact linear blend of the
/// unique bracketing pair in between.
pub open spec fn is_interpolation(pts: Seq<(Rat, int)>, t: Rat, v: Rat) -> bool {
    &&& (t.le(pts[0].0) ==> v == Rat::from_int(pts[0].1))
    &&& (!t.le(pts[0].0) && pts[pts.len() - 1].0.le(t) ==> v == Rat::from_int(
        pts[pts.len() - 1].1,
    ))
    &&& (!t.le(pts[0].0) && !pts[pts.len() - 1].0.le(t) ==> exists|i: int|
        {
            &&& 0 <= i < pts.len() - 1
            &&& (#[trigger] pts[i]).0.le(t)
            &&& t.lt(pts[i + 1].0)
            &&& v == interp_between(pts[i].0, pts[i].1, pts[i + 1].0, pts[i + 1].1, t)
        })
}

/// Computes the piecewise-linear value of `pts` at `t`.
///
/// Succeeds exactly when at least two points are given; queries outside the
/// anchor range clamp to the nearest endpoint.
pub fn interpolate(t: &Ratio, pts: &Vec<Point>) -> (r: Result<Ratio, Error>)
    requires
        query_bounded(t@),
        anchors_bounded(anchors(pts@)),
        anchors_sorted(anchors(pts@)),
    ensures
        r is Ok <==> pts@.len() >= 2,
        r is Err ==> r->Err_0 is InvalidInput,
        r is Ok ==> {
            let v = r->Ok_0;
            &&& v@.wf()
            &&& v@.num >= 0
            &&& is_interpolation(anchors(pts@), t@, v@)
        },
{
    if pts.len() < 2 {
        return Err(Error::InvalidInput("interpolation requires at least two points".to_owned()));
    }
    let first = pts[0];
    assert(anchor_bounded(anchors(pts@)[0]));
    proof {
        lemma_le_bound_products(t@, first.x@);
    }
    if t.le(&first.x) {
        return Ok(Ratio::from_int(first.y));
    }
    let last = pts[pts.len() - 1];
    assert(anchor_bounded(anchors(pts@)[pts@.len() - 1]));
    proof {
        lemma_le_bound_products(t@, last.x@);
    }
    if last.x.le(t) {
        return Ok(Ratio::from_int(last.y));
    }
    // The query lies strictly between the first and the last anchor; find
    // the last anchor whose x is at most t.
    let np = pts.len();
    let mut i: usize = 0;
    loop
        invariant
            pts@.len() == np,
            np >= 2,
            0 <= i < np - 1,
            query_bounded(t@),
            anchors_bounded(anchors(pts@)),
            anchors_sorted(anchors(pts@)),
            pts@[i as int].x@.le(t@),
            t@.lt(pts@[np - 1].x@),
        ensures
            0 <= i < np - 1,
            pts@[i as int].x@.le(t@),
            t@.lt(pts@[i + 1].x@),
        decreases np - i,
    {
        assert(anchor_bounded(anchors(pts@)[i + 1]));
        proof {
            lemma_le_bound_products(t@, pts@[i + 1].x@);
        }
        if t.lt(&pts[i + 1].x) {
            break ;
        }
        // x_{i+1} <= t, so the bracket starts later; it cannot start at the
        // last anchor because t lies strictly below it.
        assert(i + 1 < np - 1) by {
            assert(pts@[i + 1].x@.le(t@));
            if i + 1 == np - 1 {
                assert(t@.lt(pts@[i + 1].x@));
            }
        }
        i = i + 1;
    }
    let p1 = pts[i];
    let p2 = pts[i + 1];
    assert(anchor_bounded(anchors(pts@)[i as int]));
    assert(anchor_bounded(anchors(pts@)[i + 1]));
    let x1n = p1.x.num_val();
    let x1d = p1.x.den_val();
    let x2n = p2.x.num_val();
    let x2d = p2.x.den_val();
    let tn = t.num_val();
    let td = t.den_val();
    proof {
        // The bracketing anchors are strictly ordered around t.
        lemma_le_lt_trans(p1.x@, t@, p2.x@);
        lemma_mul_upper_bound(tn as int, 0x100_0000_0000, x1d as int, 0x1000);
        lemma_mul_upper_bound(x2n as int, 0x100_0000_0000, x1d as int, 0x1000);
    }
    // t - x1, over the common denominator x1.den * t.den, scaled by x2.den.
    let a: u128 = tn * x1d - x1n * td;
    // x2 - x1, over the common denominator x1.den * x2.den, scaled by t.den.
    let c: u128 = x2n * x1d - x1n * x2d;
    proof {
        lemma_mul_upper_bound(a as int, 0x10_0000_0000_0000, x2d as int, 0x1000);
        lemma_mul_upper_bound(c as int, 0x10_0000_0000_0000, td as int, 0x1000);
    }
    let rise: u128 = a * x2d;
    let run: u128 = c * td;
    proof {
        assert(run >= 1) by (nonlinear_arith)
            requires
                run == c * td,
                c >= 1,
                td >= 1,
        ;
        lemma_rise_le_run(p1.x@, p2.x@, t@);
        lemma_mul_upper_bound(p1.y as int, 0x2000_0000_0000_0000, run as int, 0x1_0000_0000_0000_0000);
        if p2.y >= p1.y {
            lemma_mul_upper_bound(
                rise as int,
                0x1_0000_0000_0000_0000,
                (p2.y - p1.y) as int,
                0x2000_0000_0000_0000,
            );
        } else {
            // rise * (y1 - y2) <= run * (y1 - y2) <= run * y1 == y1 * run.
            lemma_mul_inequality(rise as int, run as int, (p1.y - p2.y) as int);
            lemma_mul_inequality((p1.y - p2.y) as int, p1.y as int, run as int);
            lemma_mul_is_commutative(run as int, (p1.y - p2.y) as int);
            lemma_mul_is_commutative(run as int, p1.y as int);
        }
    }
    let num: u128 = if p2.y >= p1.y {
        p1.y * run + rise * ((p2.y - p1.y) as u128)
    } else {
        p1.y * run - rise * ((p1.y - p2.y) as u128)
    };
    proof {
        lemma_blend_num(p1.x@, p1.y as int, p2.x@, p2.y as int, t@);
    }
    let v = Ratio::new(num, run);
    proof {
        let apts = anchors(pts@);
        assert(is_interpolation(apts, t@, v@)) by {
            assert(apts[i as int].0.le(t@) && t@.lt(apts[i + 1].0) && v@ == interp_between(
                apts[i as int].0,
                apts[i as int].1,
                apts[i + 1].0,
                apts[i + 1].1,
                t@,
            ));
        }
    }
    Ok(v)
}

/// Comparing two bounded rationals never overflows the cross products.
proof fn lemma_le_bound_products(a: Rat, b: Rat)
    by (nonlinear_arith)
    requires
        a.wf(),
        b.wf(),
        0 <= a.num <= 0x100_0000_0000,
        a.den <= 0x1000,
        0 <= b.num <= 0x100_0000_0000,
        b.den <= 0x1000,
    ensures
        a.num * b.den <= 0x10_0000_0000_0000,
        b.num * a.den <= 0x10_0000_0000_0000,
{
}

/// Because the query lies between the bracketing anchors, the scaled
/// distance to the left anchor (the rise's coefficient) is at most the
/// scaled width of the bracket (the run).
proof fn lemma_rise_le_run(x1: Rat, x2: Rat, t: Rat)
    by (nonlinear_arith)
    requires
        x1.wf(),
        x2.wf(),
        t.wf(),
        0 <= x1.num,
        0 <= x2.num,
        0 <= t.num,
        x1.le(t),
        t.lt(x2),
    ensures
        (t.num * x1.den - x1.num * t.den) * x2.den <= (x2.num * x1.den - x1.num * x2.den) * t.den,
{
}

/// The linear blend is monotone in the y coordinates: raising either
/// anchor's y value cannot lower the blended value.
proof fn lemma_blend_monotone(x1: Rat, y1: int, y1b: int, x2: Rat, y2: int, y2b: int, t: Rat)
    requires
        x1.wf(),
        x2.wf(),
        t.wf(),
        0 <= x1.num,
        0 <= x2.num,
        0 <= t.num,
        x1.le(t),
        t.lt(x2),
        0 <= y1 <= y1b,
        0 <= y2 <= y2b,
    ensures
        interp_between(x1, y1, x2, y2, t).le(interp_between(x1, y1b, x2, y2b, t)),
{
    let rise = (t.num * x1.den - x1.num * t.den) * x2.den;
    let run = (x2.num * x1.den - x1.num * x2.den) * t.den;
    lemma_le_lt_trans(x1, t, x2);
    assert(0 <= rise) by (nonlinear_arith)
        requires
            x1.le(t),
            x1.wf(),
            t.wf(),
            x2.wf(),
            rise == (t.num * x1.den - x1.num * t.den) * x2.den,
    ;
    assert(1 <= run) by (nonlinear_arith)
        requires
            x1.lt(x2),
            x1.wf(),
            t.wf(),
            x2.wf(),
            run == (x2.num * x1.den - x1.num * x2.den) * t.den,
    ;
    lemma_rise_le_run(x1, x2, t);
    let num = y1 * run + rise * (y2 - y1);
    let numb = y1b * run + rise * (y2b - y1b);
    assert(num <= numb) by (nonlinear_arith)
        requires
            0 <= rise <= run,
            0 <= y1 <= y1b,
            0 <= y2 <= y2b,
            num == y1 * run + rise * (y2 - y1),
            numb == y1b * run + rise * (y2b - y1b),
    ;
    assert(num * run <= numb * run) by (nonlinear_arith)
        requires
            num <= numb,
            1 <= run,
    ;
}

/// Raising the anchors' y values, with the x coordinates fixed, cannot
/// lower the interpolated value at any query: interpolation is monotone in
/// the y coordinate.
pub proof fn lemma_interpolation_monotone(
    pts1: Seq<(Rat, int)>,
    pts2: Seq<(Rat, int)>,
    t: Rat,
    v1: Rat,
    v2: Rat,
)
    requires
        pts1.len() == pts2.len(),
        pts1.len() >= 1,
        forall|i: int| 0 <= i < pts1.len() ==> (#[trigger] pts1[i]).0 == (#[trigger] pts2[i]).0,
        forall|i: int| 0 <= i < pts1.len() ==> (#[trigger] pts1[i]).1 <= (#[trigger] pts2[i]).1,
        anchors_bounded(pts1),
        anchors_bounded(pts2),
        anchors_sorted(pts1),
        query_bounded(t),
        is_interpolation(pts1, t, v1),
        is_interpolation(pts2, t, v2),
    ensures
        v1.le(v2),
{
    let n = pts1.len() as int;
    assert(pts2[0].0 == pts1[0].0);
    assert(pts2[n - 1].0 == pts1[n - 1].0);
    if t.le(pts1[0].0) {
        assert(v1 == Rat::from_int(pts1[0].1));
        assert(v2 == Rat::from_int(pts2[0].1));
        assert(pts1[0].1 <= pts2[0].1);
        crate::rational::lemma_from_int_le(pts1[0].1, pts2[0].1);
    } else if pts1[n - 1].0.le(t) {
        assert(v1 == Rat::from_int(pts1[n - 1].1));
        assert(v2 == Rat::from_int(pts2[n - 1].1));
        assert(pts1[n - 1].1 <= pts2[n - 1].1);
        crate::rational::lemma_from_int_le(pts1[n - 1].1, pts2[n - 1].1);
    } else {
        let i1 = choose|i: int|
            {
                &&& 0 <= i < pts1.len() - 1
                &&& (#[trigger] pts1[i]).0.le(t)
                &&& t.lt(pts1[i + 1].0)
                &&& v1 == interp_between(pts1[i].0, pts1[i].1, pts1[i + 1].0, pts1[i + 1].1, t)
            };
        let i2 = choose|i: int|
            {
                &&& 0 <= i < pts2.len() - 1
                &&& (#[trigger] pts2[i]).0.le(t)
                &&& t.lt(pts2[i + 1].0)
                &&& v2 == interp_between(pts2[i].0, pts2[i].1, pts2[i + 1].0, pts2[i + 1].1, t)
            };
        // The bracketing index is unique, so both values blend the same
        // pair of anchors.
        assert(pts2[i2].0 == pts1[i2].0 && pts2[i2 + 1].0 == pts1[i2 + 1].0);
        assert(i1 == i2) by {
            assert(anchor_bounded(pts1[i1]));
            assert(anchor_bounded(pts1[i1 + 1]));
            assert(anchor_bounded(pts1[i2]));
            assert(anchor_bounded(pts1[i2 + 1]));
            if i1 < i2 {
                assert(pts1[i1 + 1].0.le(pts1[i2].0));
                crate::rational::lemma_le_trans(pts1[i1 + 1].0, pts1[i2].0, t);
                lemma_le_lt_trans(pts1[i1 + 1].0, t, pts1[i1 + 1].0);
            }
            if i2 < i1 {
                assert(pts1[i2 + 1].0.le(pts1[i1].0));
                crate::rational::lemma_le_trans(pts1[i2 + 1].0, pts1[i1].0, t);
                lemma_le_lt_trans(pts1[i2 + 1].0, t, pts1[i2 + 1].0);
            }
        }
        assert(anchor_bounded(pts1[i1]));
        assert(anchor_bounded(pts1[i1 + 1]));
        assert(anchor_bounded(pts2[i1]));
        assert(anchor_bounded(pts2[i1 + 1]));
        lemma_blend_monotone(
            pts1[i1].0,
            pts1[i1].1,
            pts2[i1].1,
            pts1[i1 + 1].0,
            pts1[i1 + 1].1,
            pts2[i1 + 1].1,
            t,
        );
    }
}

/// The unsigned two-branch evaluation of the blend numerator equals the
/// signed formula in `interp_between`.
proof fn lemma_blend_num(x1: Rat, y1: int, x2: Rat, y2: int, t: Rat)
    by (nonlinear_arith)
    ensures
        ({
            let rise = (t.num * x1.den - x1.num * t.den) * x2.den;
            let run = (x2.num * x1.den - x1.num * x2.den) * t.den;
            &&& (y2 >= y1 ==> y1 * run + rise * (y2 - y1) == y1 * run + rise * ((y2 - y1) as int))
            &&& (y2 < y1 ==> y1 * run + rise * (y2 - y1) == y1 * run - rise * (y1 - y2))
        }),
{
}

} // verus!
