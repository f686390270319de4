//! Clipping of line segments to an axis-aligned world rectangle, in the
//! manner of Cohen and Sutherland, with at most four boundary projections.
use vstd::prelude::*;
use vstd::arithmetic::div_mod::{lemma_div_is_ordered, lemma_div_multiples_vanish, lemma_div_pos_is_pos};
use crate::draw::{Range, Range2d, VIEW_LIMIT};

verus! {

/// A segment endpoint that the clipper accepts.
pub open spec fn in_limit(p: (i64, i64)) -> bool {
    -VIEW_LIMIT <= p.0 <= VIEW_LIMIT && -VIEW_LIMIT <= p.1 <= VIEW_LIMIT
}

pub open spec fn abs(v: int) -> int {
    if v < 0 {
        -v
    } else {
        v
    }
}

/// `x` lies on the closed interval between `p` and `q`, in either order.
pub open spec fn between(x: int, p: int, q: int) -> bool {
    (p <= x <= q) || (q <= x <= p)
}

/// The second coordinate of the point where the line through `(au, av)`
/// and `(bu, bv)` has first coordinate `target`, rounded toward `av`.
pub open spec fn interp(au: int, bu: int, av: int, bv: int, target: int) -> int {
    let off = (abs(target - au) * abs(bv - av)) / abs(bu - au);
    if bv >= av {
        av + off
    } else {
        av - off
    }
}

/// Both endpoints lie beyond one and the same boundary of `v`.
pub open spec fn outside_together(a: (i64, i64), b: (i64, i64), v: Range2d) -> bool {
    ||| (a.0 < v.0.min && b.0 < v.0.min)
    ||| (a.0 > v.0.max && b.0 > v.0.max)
    ||| (a.1 < v.1.min && b.1 < v.1.min)
    ||| (a.1 > v.1.max && b.1 > v.1.max)
}

/// Moves `a` along the segment toward `b` onto the first boundary of `v`
/// that it lies beyond: left, right, bottom, then top.
pub open spec fn project(a: (i64, i64), b: (i64, i64), v: Range2d) -> (i64, i64) {
    if a.0 < v.0.min {
        (v.0.min, interp(a.0 as int, b.0 as int, a.1 as int, b.1 as int, v.0.min as int) as i64)
    } else if a.0 > v.0.max {
        (v.0.max, interp(a.0 as int, b.0 as int, a.1 as int, b.1 as int, v.0.max as int) as i64)
    } else if a.1 < v.1.min {
        (interp(a.1 as int, b.1 as int, a.0 as int, b.0 as int, v.1.min as int) as i64, v.1.min)
    } else {
        (interp(a.1 as int, b.1 as int, a.0 as int, b.0 as int, v.1.max as int) as i64, v.1.max)
    }
}

pub open spec fn clamp_value(x: i64, r: Range) -> i64 {
    if x > r.max {
        r.max
    } else if x < r.min {
        r.min
    } else {
        x
    }
}

pub open spec fn clamp_point(p: (i64, i64), v: Range2d) -> (i64, i64) {
    (clamp_value(p.0, v.0), clamp_value(p.1, v.1))
}

/// The clipping procedure with `fuel` projections left: accept when both
/// endpoints are inside, reject when both lie beyond one boundary, else
/// project the first endpoint that is outside; with no projections left,
/// clamp both endpoints into the rectangle.
pub open spec fn clip_steps(a: (i64, i64), b: (i64, i64), v: Range2d, fuel: nat) -> Option<
    ((i64, i64), (i64, i64)),
>
    decreases fuel,
{
    if v.spec_contains(a) && v.spec_contains(b) {
        Some((a, b))
    } else if outside_together(a, b, v) {
        None
    } else if fuel == 0 {
        Some((clamp_point(a, v), clamp_point(b, v)))
    } else if !v.spec_contains(a) {
        clip_steps(project(a, b, v), b, v, (fuel - 1) as nat)
    } else {
        clip_steps(a, project(b, a, v), v, (fuel - 1) as nat)
    }
}

/// The visible part of the segment from `a` to `b` within `v`.
pub open spec fn clip_spec(a: (i64, i64), b: (i64, i64), v: Range2d) -> Option<
    ((i64, i64), (i64, i64)),
> {
    clip_steps(a, b, v, 4)
}

pub proof fn lemma_interp_between(au: int, bu: int, av: int, bv: int, target: int)
    requires
        au != bu,
        between(target, au, bu),
    ensures
        between(interp(au, bu, av, bv, target), av, bv),
{
    let n = abs(target - au);
    let d = abs(bu - au);
    let m = abs(bv - av);
    assert(0 <= n * m <= d * m) by (nonlinear_arith)
        requires
            0 <= n <= d,
            0 <= m,
    ;
    lemma_div_is_ordered(n * m, d * m, d);
    lemma_div_multiples_vanish(m, d);
    lemma_div_pos_is_pos(n * m, d);
}

proof fn lemma_project_in_limit(a: (i64, i64), b: (i64, i64), v: Range2d)
    requires
        v.is_view(),
        in_limit(a),
        in_limit(b),
        !v.spec_contains(a),
        !outside_together(a, b, v),
    ensures
        in_limit(project(a, b, v)),
{
    if a.0 < v.0.min {
        lemma_interp_between(a.0 as int, b.0 as int, a.1 as int, b.1 as int, v.0.min as int);
    } else if a.0 > v.0.max {
        lemma_interp_between(a.0 as int, b.0 as int, a.1 as int, b.1 as int, v.0.max as int);
    } else if a.1 < v.1.min {
        lemma_interp_between(a.1 as int, b.1 as int, a.0 as int, b.0 as int, v.1.min as int);
    } else {
        lemma_interp_between(a.1 as int, b.1 as int, a.0 as int, b.0 as int, v.1.max as int);
    }
}

proof fn lemma_clip_steps_inside(a: (i64, i64), b: (i64, i64), v: Range2d, fuel: nat)
    requires
        v.0.min <= v.0.max,
        v.1.min <= v.1.max,
    ensures
        clip_steps(a, b, v, fuel) matches Some((p, q)) ==> v.spec_contains(p) && v.spec_contains(
            q,
        ),
    decreases fuel,
{
    if v.spec_contains(a) && v.spec_contains(b) {
    } else if outside_together(a, b, v) {
    } else if fuel == 0 {
    } else if !v.spec_contains(a) {
        lemma_clip_steps_inside(project(a, b, v), b, v, (fuel - 1) as nat);
    } else {
        lemma_clip_steps_inside(a, project(b, a, v), v, (fuel - 1) as nat);
    }
}

proof fn lemma_clip_steps_keeps_visible(a: (i64, i64), b: (i64, i64), v: Range2d, fuel: nat)
    ensures
        clip_steps(a, b, v, fuel) is None ==> !v.spec_contains(a) && !v.spec_contains(b),
        clip_steps(a, b, v, fuel) matches Some((p, q)) ==> (v.spec_contains(a) ==> p == a) && (
        v.spec_contains(b) ==> q == b),
    decreases fuel,
{
    if v.spec_contains(a) && v.spec_contains(b) {
    } else if outside_together(a, b, v) {
    } else if fuel == 0 {
    } else if !v.spec_contains(a) {
        lemma_clip_steps_keeps_visible(project(a, b, v), b, v, (fuel - 1) as nat);
    } else {
        lemma_clip_steps_keeps_visible(a, project(b, a, v), v, (fuel - 1) as nat);
    }
}

/// A segment whose endpoints both lie inside the rectangle is drawn whole.
pub proof fn lemma_clip_keeps_inside_segment(a: (i64, i64), b: (i64, i64), v: Range2d)
    requires
        v.spec_contains(a),
        v.spec_contains(b),
    ensures
        clip_spec(a, b, v) == Some((a, b)),
{
}

/// A segment whose endpoints both lie beyond the same boundary of the
/// rectangle has nothing to draw.
pub proof fn lemma_clip_rejects_shared_outside(a: (i64, i64), b: (i64, i64), v: Range2d)
    requires
        outside_together(a, b, v),
    ensures
        clip_spec(a, b, v) is None,
{
}

/// `p` lies outside the rectangle along exactly one axis.
pub open spec fn beyond_one_axis(p: (i64, i64), v: Range2d) -> bool {
    (v.0.min <= p.0 <= v.0.max) != (v.1.min <= p.1 <= v.1.max)
}

/// A segment from a point beyond exactly one boundary to a point inside is
/// cut at that boundary: the outer endpoint moves onto the boundary, its
/// other coordinate interpolated along the segment, and the inner endpoint
/// stays.
pub proof fn lemma_clip_cuts_at_one_boundary(a: (i64, i64), b: (i64, i64), v: Range2d)
    requires
        v.is_view(),
        in_limit(a),
        in_limit(b),
        v.spec_contains(b),
        beyond_one_axis(a, v),
    ensures
        clip_spec(a, b, v) == Some((project(a, b, v), b)),
        v.spec_contains(project(a, b, v)),
        a.0 < v.0.min ==> project(a, b, v) == (
            v.0.min,
            interp(a.0 as int, b.0 as int, a.1 as int, b.1 as int, v.0.min as int) as i64,
        ),
        a.0 > v.0.max ==> project(a, b, v) == (
            v.0.max,
            interp(a.0 as int, b.0 as int, a.1 as int, b.1 as int, v.0.max as int) as i64,
        ),
        a.1 < v.1.min ==> project(a, b, v) == (
            interp(a.1 as int, b.1 as int, a.0 as int, b.0 as int, v.1.min as int) as i64,
            v.1.min,
        ),
        a.1 > v.1.max ==> project(a, b, v) == (
            interp(a.1 as int, b.1 as int, a.0 as int, b.0 as int, v.1.max as int) as i64,
            v.1.max,
        ),
{
    lemma_project_in_limit(a, b, v);
    if a.0 < v.0.min {
        lemma_interp_between(a.0 as int, b.0 as int, a.1 as int, b.1 as int, v.0.min as int);
    } else if a.0 > v.0.max {
        lemma_interp_between(a.0 as int, b.0 as int, a.1 as int, b.1 as int, v.0.max as int);
    } else if a.1 < v.1.min {
        lemma_interp_between(a.1 as int, b.1 as int, a.0 as int, b.0 as int, v.1.min as int);
    } else {
        lemma_interp_between(a.1 as int, b.1 as int, a.0 as int, b.0 as int, v.1.max as int);
    }
    assert(v.spec_contains(project(a, b, v)));
    assert(clip_steps(project(a, b, v), b, v, 3) == Some((project(a, b, v), b)));
}

/// The same cut when the second endpoint is the one outside.
pub proof fn lemma_clip_cuts_second_at_one_boundary(a: (i64, i64), b: (i64, i64), v: Range2d)
    requires
        v.is_view(),
        in_limit(a),
        in_limit(b),
        v.spec_contains(a),
        beyond_one_axis(b, v),
    ensures
        clip_spec(a, b, v) == Some((a, project(b, a, v))),
{
    lemma_clip_cuts_at_one_boundary(b, a, v);
    assert(clip_steps(a, project(b, a, v), v, 3) == Some((a, project(b, a, v))));
}

/// The coordinate of `interp`, computed without overflow.
fn interp_exec(au: i64, bu: i64, av: i64, bv: i64, target: i64) -> (r: i64)
    requires
        au != bu,
        between(target as int, au as int, bu as int),
        -VIEW_LIMIT <= au <= VIEW_LIMIT,
        -VIEW_LIMIT <= bu <= VIEW_LIMIT,
        -VIEW_LIMIT <= av <= VIEW_LIMIT,
        -VIEW_LIMIT <= bv <= VIEW_LIMIT,
    ensures
        r == interp(au as int, bu as int, av as int, bv as int, target as int),
{
    let n: i128 = if target >= au {
        target as i128 - au as i128
    } else {
        au as i128 - target as i128
    };
    let d: i128 = if bu >= au {
        bu as i128 - au as i128
    } else {
        au as i128 - bu as i128
    };
    let m: i128 = if bv >= av {
        bv as i128 - av as i128
    } else {
        av as i128 - bv as i128
    };
    assert(0 <= n * m <= 0x10_0000_0000_0000_0000_0000) by (nonlinear_arith)
        requires
            0 <= n <= 0x200_0000_0000,
            0 <= m <= 0x200_0000_0000,
    ;
    let off: i128 = n * m / d;
    proof {
        lemma_interp_between(au as int, bu as int, av as int, bv as int, target as int);
    }
    if bv >= av {
        (av as i128 + off) as i64
    } else {
        (av as i128 - off) as i64
    }
}

fn project_exec(a: (i64, i64), b: (i64, i64), v: Range2d) -> (r: (i64, i64))
    requires
        v.is_view(),
        in_limit(a),
        in_limit(b),
        !v.spec_contains(a),
        !outside_together(a, b, v),
    ensures
        r == project(a, b, v),
        in_limit(r),
{
    proof {
        lemma_project_in_limit(a, b, v);
    }
    if a.0 < v.0.min {
        (v.0.min, interp_exec(a.0, b.0, a.1, b.1, v.0.min))
    } else if a.0 > v.0.max {
        (v.0.max, interp_exec(a.0, b.0, a.1, b.1, v.0.max))
    } else if a.1 < v.1.min {
        (interp_exec(a.1, b.1, a.0, b.0, v.1.min), v.1.min)
    } else {
        (interp_exec(a.1, b.1, a.0, b.0, v.1.max), v.1.max)
    }
}

/// Clamps `v` into the range `r`.
pub fn simple_clamp(v: i64, r: Range) -> (res: i64)
    ensures
        res == clamp_value(v, r),
{
    if v > r.max {
        r.max
    } else if v < r.min {
        r.min
    } else {
        v
    }
}

/// The visible part of the segment from `a` to `b` within `view`, or `None`
/// when nothing of it is to be drawn.
pub fn clamp(a: (i64, i64), b: (i64, i64), view: Range2d) -> (r: Option<((i64, i64), (i64, i64))>)
    requires
        view.is_view(),
        in_limit(a),
        in_limit(b),
    ensures
        r == clip_spec(a, b, view),
        r matches Some((p, q)) ==> view.spec_contains(p) && view.spec_contains(q),
        r matches Some((p, q)) ==> (view.spec_contains(a) ==> p == a) && (view.spec_contains(b)
            ==> q == b),
        r is None ==> !view.spec_contains(a) && !view.spec_contains(b),
{
    proof {
        lemma_clip_steps_inside(a, b, view, 4);
        lemma_clip_steps_keeps_visible(a, b, view, 4);
    }
    let mut p = a;
    let mut q = b;
    let mut fuel: u32 = 4;
    loop
        invariant
            view.is_view(),
            in_limit(p),
            in_limit(q),
            fuel <= 4,
            clip_steps(p, q, view, fuel as nat) == clip_spec(a, b, view),
            clip_spec(a, b, view) matches Some((c, d)) ==> view.spec_contains(c)
                && view.spec_contains(d) && (view.spec_contains(a) ==> c == a) && (
            view.spec_contains(b) ==> d == b),
            clip_spec(a, b, view) is None ==> !view.spec_contains(a) && !view.spec_contains(b),
        decreases fuel,
    {
        let p_in = view.contains(p);
        let q_in = view.contains(q);
        if p_in && q_in {
            return Some((p, q));
        }
        let together = (p.0 < view.0.min && q.0 < view.0.min) || (p.0 > view.0.max && q.0
            > view.0.max) || (p.1 < view.1.min && q.1 < view.1.min) || (p.1 > view.1.max && q.1
            > view.1.max);
        if together {
            return None;
        }
        if fuel == 0 {
            let pc = (simple_clamp(p.0, view.0), simple_clamp(p.1, view.1));
            let qc = (simple_clamp(q.0, view.0), simple_clamp(q.1, view.1));
            return Some((pc, qc));
        }
        if !p_in {
            p = project_exec(p, q, view);
        } else {
            q = project_exec(q, p, view);
        }
        fuel = fuel - 1;
    }
}

} // verus!
