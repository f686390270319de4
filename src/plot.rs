//! The render loop's logic: the bounds of a plot, the drawing commands of
//! one frame, and the reaction to input.
use vstd::prelude::*;
use crate::clip::{abs, clamp, clip_spec};
use crate::draw::{execute, DrawCmd, Drawable, Event, Range, Range2d, ESCAPE_KEY, VIEW_LIMIT};
use crate::plotbuilder::{PlotBuilder2D, PlotVals2D};

verus! {

/// Why a plot cannot be drawn or kept on screen.
#[derive(Copy, Clone, Debug, PartialEq, Eq, Structural)]
pub enum PlotError {
    /// A series has no points, or no series gives a bound that was not set.
    EmptySeries,
    /// The plot's rectangle has no width or no height.
    DegenerateRange,
    /// The render target failed.
    BackendFailure,
}

/// The world rectangle of a plot, bound by bound.
#[derive(Copy, Clone, Debug, PartialEq, Eq, Structural)]
pub struct PlotBounds {
    pub max_x: i32,
    pub max_y: i32,
    pub min_x: i32,
    pub min_y: i32,
}

pub open spec fn coord(p: (i32, i32), y_axis: bool) -> i32 {
    if y_axis {
        p.1
    } else {
        p.0
    }
}

/// The point sequences of the series.
pub open spec fn series_points(pvs: Seq<PlotVals2D>) -> Seq<Seq<(i32, i32)>> {
    pvs.map_values(|pv: PlotVals2D| pv.points())
}

/// `r` is the largest coordinate on the axis among all points.
pub open spec fn is_greatest(r: int, ss: Seq<Seq<(i32, i32)>>, y_axis: bool) -> bool {
    &&& exists|i: int, j: int|
        0 <= i < ss.len() && 0 <= j < ss[i].len() && coord(#[trigger] ss[i][j], y_axis) == r
    &&& forall|i: int, j: int|
        0 <= i < ss.len() && 0 <= j < ss[i].len() ==> coord(#[trigger] ss[i][j], y_axis) <= r
}

/// `r` is the smallest coordinate on the axis among all points.
pub open spec fn is_least(r: int, ss: Seq<Seq<(i32, i32)>>, y_axis: bool) -> bool {
    &&& exists|i: int, j: int|
        0 <= i < ss.len() && 0 <= j < ss[i].len() && coord(#[trigger] ss[i][j], y_axis) == r
    &&& forall|i: int, j: int|
        0 <= i < ss.len() && 0 <= j < ss[i].len() ==> r <= coord(#[trigger] ss[i][j], y_axis)
}

/// `r` is the override when there is one, else the extreme of the data.
pub open spec fn bound_holds(
    user: Option<i32>,
    r: int,
    ss: Seq<Seq<(i32, i32)>>,
    y_axis: bool,
    upper: bool,
) -> bool {
    match user {
        Some(m) => r == m,
        None => if upper {
            is_greatest(r, ss, y_axis)
        } else {
            is_least(r, ss, y_axis)
        },
    }
}

pub open spec fn has_empty_series(ss: Seq<Seq<(i32, i32)>>) -> bool {
    exists|i: int| 0 <= i < ss.len() && #[trigger] ss[i].len() == 0
}

/// Every bound of the builder is either given or found in its data.
pub open spec fn bounds_defined(pb: PlotBuilder2D) -> bool {
    let ss = series_points(pb.pvs@);
    &&& !has_empty_series(ss)
    &&& ss.len() > 0 || (pb.min_x is Some && pb.max_x is Some && pb.min_y is Some
        && pb.max_y is Some)
}

pub open spec fn bounds_hold(pb: PlotBuilder2D, b: PlotBounds) -> bool {
    let ss = series_points(pb.pvs@);
    &&& bound_holds(pb.max_x, b.max_x as int, ss, false, true)
    &&& bound_holds(pb.max_y, b.max_y as int, ss, true, true)
    &&& bound_holds(pb.min_x, b.min_x as int, ss, false, false)
    &&& bound_holds(pb.min_y, b.min_y as int, ss, true, false)
}

/// The bounds of the builder's plot: the override of each bound where there
/// is one, else the largest or smallest coordinate over all series.
pub open spec fn plot_bounds_spec(pb: PlotBuilder2D) -> PlotBounds {
    choose|b: PlotBounds| bounds_hold(pb, b)
}

proof fn lemma_bound_unique(
    user: Option<i32>,
    r1: int,
    r2: int,
    ss: Seq<Seq<(i32, i32)>>,
    y_axis: bool,
    upper: bool,
)
    requires
        bound_holds(user, r1, ss, y_axis, upper),
        bound_holds(user, r2, ss, y_axis, upper),
    ensures
        r1 == r2,
{
    if user is None {
        let (i1, j1) = choose|i: int, j: int|
            0 <= i < ss.len() && 0 <= j < ss[i].len() && coord(#[trigger] ss[i][j], y_axis) == r1;
        let (i2, j2) = choose|i: int, j: int|
            0 <= i < ss.len() && 0 <= j < ss[i].len() && coord(#[trigger] ss[i][j], y_axis) == r2;
        assert(coord(ss[i1][j1], y_axis) == r1);
        assert(coord(ss[i2][j2], y_axis) == r2);
    }
}

proof fn lemma_plot_bounds_spec(pb: PlotBuilder2D, b: PlotBounds)
    requires
        bounds_hold(pb, b),
    ensures
        plot_bounds_spec(pb) == b,
{
    let c = plot_bounds_spec(pb);
    assert(bounds_hold(pb, c));
    let ss = series_points(pb.pvs@);
    lemma_bound_unique(pb.max_x, b.max_x as int, c.max_x as int, ss, false, true);
    lemma_bound_unique(pb.max_y, b.max_y as int, c.max_y as int, ss, true, true);
    lemma_bound_unique(pb.min_x, b.min_x as int, c.min_x as int, ss, false, false);
    lemma_bound_unique(pb.min_y, b.min_y as int, c.min_y as int, ss, true, false);
}

/// The largest coordinate on the axis in `values`, or `user_max` when set.
fn get_max(user_max: Option<i32>, values: &Vec<(i32, i32)>, y_axis: bool) -> (r: i32)
    requires
        user_max is Some || values@.len() > 0,
    ensures
        user_max matches Some(m) ==> r == m,
        user_max is None ==> is_greatest(r as int, seq![values@], y_axis),
{
    if let Some(max) = user_max {
        return max;
    }
    let ghost s = seq![values@];
    let mut max: i32 = if y_axis { values[0].1 } else { values[0].0 };
    let mut k: usize = 1;
    let ghost mut wk: int = 0;
    while k < values.len()
        invariant
            s == seq![values@],
            1 <= k <= values@.len(),
            0 <= wk < k,
            coord(values@[wk], y_axis) == max,
            forall|j: int| 0 <= j < k ==> coord(#[trigger] values@[j], y_axis) <= max,
        decreases values@.len() - k,
    {
        let v = if y_axis { values[k].1 } else { values[k].0 };
        if v > max {
            max = v;
            proof {
                wk = k as int;
            }
        }
        k = k + 1;
    }
    assert(s[0] == values@);
    assert(coord(s[0][wk], y_axis) == max);
    max
}

/// The smallest coordinate on the axis in `values`, or `user_min` when set.
fn get_min(user_min: Option<i32>, values: &Vec<(i32, i32)>, y_axis: bool) -> (r: i32)
    requires
        user_min is Some || values@.len() > 0,
    ensures
        user_min matches Some(m) ==> r == m,
        user_min is None ==> is_least(r as int, seq![values@], y_axis),
{
    if let Some(min) = user_min {
        return min;
    }
    let ghost s = seq![values@];
    let mut min: i32 = if y_axis { values[0].1 } else { values[0].0 };
    let mut k: usize = 1;
    let ghost mut wk: int = 0;
    while k < values.len()
        invariant
            s == seq![values@],
            1 <= k <= values@.len(),
            0 <= wk < k,
            coord(values@[wk], y_axis) == min,
            forall|j: int| 0 <= j < k ==> min <= coord(#[trigger] values@[j], y_axis),
        decreases values@.len() - k,
    {
        let v = if y_axis { values[k].1 } else { values[k].0 };
        if v < min {
            min = v;
            proof {
                wk = k as int;
            }
        }
        k = k + 1;
    }
    assert(s[0] == values@);
    assert(coord(s[0][wk], y_axis) == min);
    min
}

/// The bound of one axis over all series: the override when set, else the
/// largest (`upper`) or smallest coordinate of every series.
fn axis_bound(user: Option<i32>, pvs: &Vec<PlotVals2D>, y_axis: bool, upper: bool) -> (r: i32)
    requires
        user is Some || (pvs@.len() > 0 && !has_empty_series(series_points(pvs@))),
    ensures
        bound_holds(user, r as int, series_points(pvs@), y_axis, upper),
{
    if let Some(b) = user {
        return b;
    }
    let ghost ss = series_points(pvs@);
    assert(ss[0].len() != 0);
    let mut acc: i32 = match &pvs[0] {
        PlotVals2D::XyColor(_, xy) => if upper {
            get_max(None, xy, y_axis)
        } else {
            get_min(None, xy, y_axis)
        },
    };
    let ghost mut wi: int = 0;
    let ghost mut wj: int = 0;
    proof {
        let s0 = seq![ss[0]];
        if upper {
            assert(is_greatest(acc as int, s0, y_axis));
        } else {
            assert(is_least(acc as int, s0, y_axis));
        }
        let (i0, j0) = choose|i: int, j: int|
            0 <= i < s0.len() && 0 <= j < s0[i].len() && coord(#[trigger] s0[i][j], y_axis)
                == acc;
        wj = j0;
        assert(s0[i0] == ss[0]);
    }
    let mut i: usize = 1;
    while i < pvs.len()
        invariant
            ss == series_points(pvs@),
            !has_empty_series(ss),
            1 <= i <= pvs@.len(),
            0 <= wi < i,
            0 <= wj < ss[wi].len(),
            coord(ss[wi][wj], y_axis) == acc,
            upper ==> forall|k: int, j: int|
                0 <= k < i && 0 <= j < ss[k].len() ==> coord(#[trigger] ss[k][j], y_axis) <= acc,
            !upper ==> forall|k: int, j: int|
                0 <= k < i && 0 <= j < ss[k].len() ==> acc <= coord(#[trigger] ss[k][j], y_axis),
        decreases pvs@.len() - i,
    {
        assert(ss[i as int].len() != 0);
        let ghost si = seq![ss[i as int]];
        let m: i32 = match &pvs[i] {
            PlotVals2D::XyColor(_, xy) => if upper {
                get_max(None, xy, y_axis)
            } else {
                get_min(None, xy, y_axis)
            },
        };
        proof {
            if upper {
                assert(is_greatest(m as int, si, y_axis));
            } else {
                assert(is_least(m as int, si, y_axis));
            }
            assert(forall|j: int| 0 <= j < ss[i as int].len() ==> #[trigger] ss[i as int][j] == si[0][j]);
        }
        if (upper && m > acc) || (!upper && m < acc) {
            acc = m;
            proof {
                let (i0, j0) = choose|a: int, j: int|
                    0 <= a < si.len() && 0 <= j < si[a].len() && coord(#[trigger] si[a][j], y_axis)
                        == m;
                wi = i as int;
                wj = j0;
            }
        }
        i = i + 1;
    }
    proof {
        if upper {
            assert(is_greatest(acc as int, ss, y_axis));
        } else {
            assert(is_least(acc as int, ss, y_axis));
        }
    }
    acc
}

/// The bounds of the builder's plot, or `EmptySeries` where a bound
/// cannot be found.
pub fn get_plot_bounds(plot_builder: &PlotBuilder2D) -> (r: Result<PlotBounds, PlotError>)
    ensures
        r == if bounds_defined(*plot_builder) {
            Ok::<PlotBounds, PlotError>(plot_bounds_spec(*plot_builder))
        } else {
            Err::<PlotBounds, PlotError>(PlotError::EmptySeries)
        },
        bounds_defined(*plot_builder) ==> bounds_hold(*plot_builder, plot_bounds_spec(*plot_builder)),
{
    let ghost ss = series_points(plot_builder.pvs@);
    let pvs = &plot_builder.pvs;
    let mut i: usize = 0;
    while i < pvs.len()
        invariant
            ss == series_points(pvs@),
            pvs@ == plot_builder.pvs@,
            i <= pvs@.len(),
            forall|k: int| 0 <= k < i ==> #[trigger] ss[k].len() != 0,
        decreases pvs@.len() - i,
    {
        let empty = match &pvs[i] {
            PlotVals2D::XyColor(_, xy) => xy.len() == 0,
        };
        if empty {
            assert(ss[i as int] == pvs@[i as int].points());
            assert(ss[i as int].len() == 0);
            assert(has_empty_series(ss));
            return Err(PlotError::EmptySeries);
        }
        i = i + 1;
    }
    if pvs.len() == 0 && (plot_builder.min_x.is_none() || plot_builder.max_x.is_none()
        || plot_builder.min_y.is_none() || plot_builder.max_y.is_none()) {
        return Err(PlotError::EmptySeries);
    }
    let b = PlotBounds {
        max_x: axis_bound(plot_builder.max_x, pvs, false, true),
        max_y: axis_bound(plot_builder.max_y, pvs, true, true),
        min_x: axis_bound(plot_builder.min_x, pvs, false, false),
        min_y: axis_bound(plot_builder.min_y, pvs, true, false),
    };
    proof {
        lemma_plot_bounds_spec(*plot_builder, b);
    }
    Ok(b)
}

/// Share of each axis added on both sides of the frame, in percent.
pub const MARGIN_PERCENT: i128 = 5;

/// Thickness in pixels of a series' line.
pub const LINE_THICKNESS: u16 = 2;

/// Color around the plot's frame.
pub const BORDER_COLOR: [u8; 4] = [242, 242, 242, 255];

/// Color inside the plot's frame.
pub const BACKGROUND_COLOR: [u8; 4] = [255, 255, 255, 255];

/// Color of the frame's outline.
pub const OUTLINE_COLOR: [u8; 4] = [0, 0, 255, 255];

pub open spec fn margin(r: Range) -> int {
    r.spec_size() * MARGIN_PERCENT / 100
}

/// `r` grown by its margin at both ends.
pub open spec fn expanded(r: Range) -> Range {
    Range { min: (r.min - margin(r)) as i64, max: (r.max + margin(r)) as i64 }
}

/// Sets the view `v` on the target, clears the surface and draws the frame
/// of `v` with room around it, then returns to the view `v` itself.
pub open spec fn border_cmds(v: Range2d) -> Seq<DrawCmd> {
    let lo = (v.0.min, v.1.min);
    let hi = (v.0.max, v.1.max);
    seq![
        DrawCmd::SetView(v),
        DrawCmd::SetView(Range2d(expanded(v.0), expanded(v.1))),
        DrawCmd::SetColor(BORDER_COLOR),
        DrawCmd::Clear,
        DrawCmd::SetColor(BACKGROUND_COLOR),
        DrawCmd::Rectangle(lo, hi),
        DrawCmd::SetColor(OUTLINE_COLOR),
        DrawCmd::UnfilledRectangle(lo, hi),
        DrawCmd::SetView(v),
    ]
}

pub open spec fn widen(p: (i32, i32)) -> (i64, i64) {
    (p.0 as i64, p.1 as i64)
}

/// The line, if any, that shows the segment from point `j` to point `j + 1`.
pub open spec fn segment_cmds(pts: Seq<(i32, i32)>, v: Range2d, j: int) -> Seq<DrawCmd> {
    match clip_spec(widen(pts[j]), widen(pts[j + 1]), v) {
        Some((p, q)) => seq![DrawCmd::ThickLine(p, q, LINE_THICKNESS)],
        None => seq![],
    }
}

/// The lines of the first `k` segments of a series.
pub open spec fn segments_upto(pts: Seq<(i32, i32)>, v: Range2d, k: nat) -> Seq<DrawCmd>
    decreases k,
{
    if k == 0 {
        seq![]
    } else {
        segments_upto(pts, v, (k - 1) as nat) + segment_cmds(pts, v, k - 1)
    }
}

pub open spec fn segment_count(pts: Seq<(i32, i32)>) -> nat {
    if pts.len() > 0 {
        (pts.len() - 1) as nat
    } else {
        0
    }
}

/// A series: its color, then the visible part of each of its segments.
pub open spec fn series_cmds(pv: PlotVals2D, v: Range2d) -> Seq<DrawCmd> {
    seq![DrawCmd::SetColor(pv.color())] + segments_upto(pv.points(), v, segment_count(pv.points()))
}

pub open spec fn all_series_upto(pvs: Seq<PlotVals2D>, v: Range2d, i: nat) -> Seq<DrawCmd>
    decreases i,
{
    if i == 0 {
        seq![]
    } else {
        all_series_upto(pvs, v, (i - 1) as nat) + series_cmds(pvs[i - 1], v)
    }
}

/// One render pass over the world rectangle `v`: the frame, every series
/// clipped to `v`, then the present.
pub open spec fn frame_spec(v: Range2d, pvs: Seq<PlotVals2D>) -> Seq<DrawCmd> {
    border_cmds(v) + all_series_upto(pvs, v, pvs.len()) + seq![DrawCmd::Present]
}

/// How far a scroll of `dy` moves each end of `r` outward: `dy / 10` of
/// its size, rounded toward zero (inward when `dy` is negative).
pub open spec fn zoom_offset(r: Range, dy: i32) -> int {
    let m = (r.spec_size() * abs(dy as int)) / 10;
    if dy >= 0 {
        m
    } else {
        -m
    }
}

/// The scrolled range is still a range that can be shown.
pub open spec fn zoom_fits(r: Range, dy: i32) -> bool {
    -VIEW_LIMIT <= r.min - zoom_offset(r, dy) < r.max + zoom_offset(r, dy) <= VIEW_LIMIT
}

pub open spec fn zoomed(r: Range, dy: i32) -> Range {
    Range { min: (r.min - zoom_offset(r, dy)) as i64, max: (r.max + zoom_offset(r, dy)) as i64 }
}

/// The view after a scroll of `dy`, or `None` when it could not be shown.
pub open spec fn zoom_spec(v: Range2d, dy: i32) -> Option<Range2d> {
    if zoom_fits(v.0, dy) && zoom_fits(v.1, dy) {
        Some(Range2d(zoomed(v.0, dy), zoomed(v.1, dy)))
    } else {
        None
    }
}

/// The effect of one event on the view: the new view, whether it must be
/// drawn again, and whether the plot closes.
pub open spec fn step_event(v: Range2d, e: Event) -> (Range2d, bool, bool) {
    match e {
        Event::Quit => (v, false, true),
        Event::KeyDown(code) => (v, false, code == ESCAPE_KEY),
        Event::MouseScroll(_, dy) => match zoom_spec(v, dy) {
            Some(n) => (n, true, false),
            None => (v, false, false),
        },
        Event::Resize(_, _) => (v, true, false),
        _ => (v, false, false),
    }
}

/// The effect of the first `k` events, in order; nothing after a close
/// counts.
pub open spec fn events_upto(v: Range2d, evs: Seq<Event>, k: nat) -> (Range2d, bool, bool)
    decreases k,
{
    if k == 0 {
        (v, false, false)
    } else {
        let s = events_upto(v, evs, (k - 1) as nat);
        if s.2 {
            s
        } else {
            let t = step_event(s.0, evs[k - 1]);
            (t.0, s.1 || t.1, t.2)
        }
    }
}

/// The effect of one poll's events on the view `v`.
pub open spec fn after_events(v: Range2d, evs: Seq<Event>) -> (Range2d, bool, bool) {
    events_upto(v, evs, evs.len())
}

proof fn lemma_closed_stays(v: Range2d, evs: Seq<Event>, k: nat)
    requires
        1 <= k,
        evs.len() > 0,
        evs[0] == Event::Quit,
    ensures
        events_upto(v, evs, k) == (v, false, true),
    decreases k,
{
    if k > 1 {
        lemma_closed_stays(v, evs, (k - 1) as nat);
    } else {
        assert(events_upto(v, evs, 0) == (v, false, false));
    }
}

/// A poll whose first event is Quit closes the plot at once: the view stays
/// as it was and no render pass is asked for, whatever follows.
pub proof fn lemma_quit_first_closes(v: Range2d, evs: Seq<Event>)
    requires
        evs.len() > 0,
        evs[0] == Event::Quit,
    ensures
        after_events(v, evs) == (v, false, true),
{
    lemma_closed_stays(v, evs, evs.len());
}

pub open spec fn view_of(b: PlotBounds) -> Range2d {
    Range2d(
        Range { min: b.min_x as i64, max: b.max_x as i64 },
        Range { min: b.min_y as i64, max: b.max_y as i64 },
    )
}

/// The first view of the builder's plot, or why it cannot be drawn.
pub open spec fn initial_view(pb: PlotBuilder2D) -> Result<Range2d, PlotError> {
    if !bounds_defined(pb) {
        Err(PlotError::EmptySeries)
    } else {
        let b = plot_bounds_spec(pb);
        if b.min_x < b.max_x && b.min_y < b.max_y {
            Ok(view_of(b))
        } else {
            Err(PlotError::DegenerateRange)
        }
    }
}

fn zoom_range(r: Range, dy: i32) -> (z: Option<Range>)
    requires
        r.is_view(),
    ensures
        z == if zoom_fits(r, dy) {
            Some(zoomed(r, dy))
        } else {
            None::<Range>
        },
{
    let size = r.size();
    let mag: i128 = if dy >= 0 {
        dy as i128
    } else {
        -(dy as i128)
    };
    assert(0 <= size * mag <= 0x1_0000_0000_0000_0000_0000) by (nonlinear_arith)
        requires
            0 < size <= 0x200_0000_0000,
            0 <= mag <= 0x8000_0000,
    ;
    let m: i128 = size * mag / 10;
    let off: i128 = if dy >= 0 {
        m
    } else {
        -m
    };
    let lo = r.min as i128 - off;
    let hi = r.max as i128 + off;
    if -(VIEW_LIMIT as i128) <= lo && lo < hi && hi <= VIEW_LIMIT as i128 {
        Some(Range { min: lo as i64, max: hi as i64 })
    } else {
        None
    }
}

fn zoom(v: Range2d, dy: i32) -> (z: Option<Range2d>)
    requires
        v.is_view(),
    ensures
        z == zoom_spec(v, dy),
{
    match (zoom_range(v.0, dy), zoom_range(v.1, dy)) {
        (Some(w), Some(h)) => Some(Range2d(w, h)),
        _ => None,
    }
}

fn expand(r: Range) -> (e: Range)
    requires
        r.is_view(),
    ensures
        e == expanded(r),
{
    let size = r.size();
    let m: i128 = size * MARGIN_PERCENT / 100;
    Range { min: (r.min as i128 - m) as i64, max: (r.max as i128 + m) as i64 }
}

fn draw_borders(
    bordercol: [u8; 4],
    bgcol: [u8; 4],
    space: (i64, i64),
    m: (i64, i64),
    cmds: &mut Vec<DrawCmd>,
)
    ensures
        final(cmds)@ == old(cmds)@ + seq![
            DrawCmd::SetColor(bordercol),
            DrawCmd::Clear,
            DrawCmd::SetColor(bgcol),
            DrawCmd::Rectangle(space, m),
            DrawCmd::SetColor(OUTLINE_COLOR),
            DrawCmd::UnfilledRectangle(space, m),
        ],
{
    cmds.push(DrawCmd::SetColor(bordercol));
    cmds.push(DrawCmd::Clear);
    cmds.push(DrawCmd::SetColor(bgcol));
    cmds.push(DrawCmd::Rectangle(space, m));
    cmds.push(DrawCmd::SetColor(OUTLINE_COLOR));
    cmds.push(DrawCmd::UnfilledRectangle(space, m));
}

/// Appends the visible parts of the segments of `xy`, clipped to `view`.
fn draw_series(xy: &Vec<(i32, i32)>, view: Range2d, cmds: &mut Vec<DrawCmd>)
    requires
        view.is_view(),
    ensures
        final(cmds)@ == old(cmds)@ + segments_upto(xy@, view, segment_count(xy@)),
{
    if xy.len() == 0 {
        return;
    }
    let ghost start = cmds@;
    let mut j: usize = 0;
    while j < xy.len() - 1
        invariant
            view.is_view(),
            xy@.len() > 0,
            j + 1 <= xy@.len(),
            cmds@ == start + segments_upto(xy@, view, j as nat),
        decreases xy@.len() - j,
    {
        let a = (xy[j].0 as i64, xy[j].1 as i64);
        let b = (xy[j + 1].0 as i64, xy[j + 1].1 as i64);
        let clipped = clamp(a, b, view);
        let ghost before = cmds@;
        if let Some((p, q)) = clipped {
            cmds.push(DrawCmd::ThickLine(p, q, LINE_THICKNESS));
        }
        assert(cmds@ == before + segment_cmds(xy@, view, j as int));
        assert(segments_upto(xy@, view, (j + 1) as nat) == segments_upto(xy@, view, j as nat)
            + segment_cmds(xy@, view, j as int));
        j = j + 1;
    }
}

/// A plot on screen: its series, the world rectangle in view, and whether
/// it was closed.
pub struct Plot {
    pvs: Vec<PlotVals2D>,
    view: Range2d,
    closed: bool,
}

impl Plot {
    pub closed spec fn spec_view(&self) -> Range2d {
        self.view
    }

    pub closed spec fn spec_series(&self) -> Seq<PlotVals2D> {
        self.pvs@
    }

    pub closed spec fn spec_closed(&self) -> bool {
        self.closed
    }

    /// The view is a rectangle that can be drawn.
    pub closed spec fn wf(&self) -> bool {
        self.view.is_view()
    }

    /// The world rectangle in view.
    pub fn view(&self) -> (r: Range2d)
        ensures
            r == self.spec_view(),
            self.wf() ==> r.is_view(),
    {
        self.view
    }

    /// Whether the plot was closed.
    pub fn is_closed(&self) -> (r: bool)
        ensures
            r == self.spec_closed(),
    {
        self.closed
    }

    /// Starts a plot of the builder's series, framed by their bounds.
    pub fn new2d(plot_builder: PlotBuilder2D) -> (r: Result<Plot, PlotError>)
        ensures
            r matches Ok(p) ==> {
                &&& initial_view(plot_builder) == Ok::<Range2d, PlotError>(p.spec_view())
                &&& p.wf()
                &&& p.spec_series() == plot_builder.pvs@
                &&& !p.spec_closed()
            },
            r matches Err(e) ==> initial_view(plot_builder) == Err::<Range2d, PlotError>(e),
    {
        let b = match get_plot_bounds(&plot_builder) {
            Ok(b) => b,
            Err(e) => {
                return Err(e);
            },
        };
        if b.min_x >= b.max_x || b.min_y >= b.max_y {
            return Err(PlotError::DegenerateRange);
        }
        let view = Range2d(
            Range { min: b.min_x as i64, max: b.max_x as i64 },
            Range { min: b.min_y as i64, max: b.max_y as i64 },
        );
        Ok(Plot { pvs: plot_builder.pvs, view, closed: false })
    }

    /// Reacts to one poll's events: Quit or the escape key closes the plot,
    /// a scroll zooms the view, a resize asks for a new frame. Returns
    /// whether the plot must be drawn again.
    pub fn handle_events(&mut self, events: &Vec<Event>) -> (redraw: bool)
        requires
            old(self).wf(),
        ensures
            final(self).wf(),
            final(self).spec_series() == old(self).spec_series(),
            old(self).spec_closed() ==> {
                &&& final(self).spec_view() == old(self).spec_view()
                &&& final(self).spec_closed()
                &&& !redraw
            },
            !old(self).spec_closed() ==> {
                let s = after_events(old(self).spec_view(), events@);
                &&& final(self).spec_view() == s.0
                &&& final(self).spec_closed() == s.2
                &&& redraw == (s.1 && !s.2)
            },
    {
        if self.closed {
            return false;
        }
        let ghost v0 = self.view;
        let ghost pvs0 = self.pvs@;
        let mut dirty = false;
        let mut i: usize = 0;
        while i < events.len()
            invariant
                self.view.is_view(),
                self.pvs@ == pvs0,
                i <= events@.len(),
                events_upto(v0, events@, i as nat) == (self.view, dirty, self.closed),
            decreases events@.len() - i,
        {
            if !self.closed {
                match events[i] {
                    Event::Quit => {
                        self.closed = true;
                    },
                    Event::KeyDown(code) => {
                        if code == ESCAPE_KEY {
                            self.closed = true;
                        }
                    },
                    Event::MouseScroll(_, dy) => {
                        if let Some(n) = zoom(self.view, dy) {
                            self.view = n;
                            dirty = true;
                        }
                    },
                    Event::Resize(_, _) => {
                        dirty = true;
                    },
                    _ => {},
                }
            }
            i = i + 1;
        }
        dirty && !self.closed
    }

    /// Draws one frame of the current view on `target`.
    pub fn render<D: Drawable>(&self, target: &mut D) -> (r: Result<(), PlotError>)
        requires
            self.wf(),
        ensures
            r matches Err(e) ==> e == PlotError::BackendFailure,
    {
        let cmds = self.frame();
        if execute(target, &cmds) {
            Ok(())
        } else {
            Err(PlotError::BackendFailure)
        }
    }

    /// Takes the pending input of `target`, reacts to it, and draws a new
    /// frame where the view asks for one. A failed frame closes the plot; a
    /// closed plot makes no more calls on `target`.
    pub fn poll<D: Drawable>(&mut self, target: &mut D) -> (r: Result<(), PlotError>)
        requires
            old(self).wf(),
        ensures
            final(self).wf(),
            final(self).spec_series() == old(self).spec_series(),
            old(self).spec_closed() ==> r is Ok && *final(self) == *old(self),
            r matches Err(e) ==> e == PlotError::BackendFailure && final(self).spec_closed(),
    {
        if self.closed {
            return Ok(());
        }
        let events = target.get_events();
        if self.handle_events(&events) {
            let drawn = self.render(target);
            if drawn.is_err() {
                self.closed = true;
            }
            return drawn;
        }
        Ok(())
    }

    /// The drawing commands of one render pass over the current view.
    pub fn frame(&self) -> (cmds: Vec<DrawCmd>)
        requires
            self.wf(),
        ensures
            cmds@ == frame_spec(self.spec_view(), self.spec_series()),
    {
        let view = self.view;
        let w = view.0;
        let h = view.1;
        let mut cmds: Vec<DrawCmd> = Vec::new();
        cmds.push(DrawCmd::SetView(view));
        cmds.push(DrawCmd::SetView(Range2d(expand(w), expand(h))));
        draw_borders(BORDER_COLOR, BACKGROUND_COLOR, (w.min, h.min), (w.max, h.max), &mut cmds);
        cmds.push(DrawCmd::SetView(view));
        assert(cmds@ == border_cmds(view));
        let mut i: usize = 0;
        while i < self.pvs.len()
            invariant
                view == self.view,
                view.is_view(),
                i <= self.pvs@.len(),
                cmds@ == border_cmds(view) + all_series_upto(self.pvs@, view, i as nat),
            decreases self.pvs@.len() - i,
        {
            let ghost before = cmds@;
            match &self.pvs[i] {
                PlotVals2D::XyColor(color, xy) => {
                    cmds.push(DrawCmd::SetColor(*color));
                    draw_series(xy, view, &mut cmds);
                },
            }
            assert(cmds@ == before + series_cmds(self.pvs@[i as int], view));
            assert(all_series_upto(self.pvs@, view, (i + 1) as nat) == all_series_upto(
                self.pvs@,
                view,
                i as nat,
            ) + series_cmds(self.pvs@[i as int], view));
            i = i + 1;
        }
        cmds.push(DrawCmd::Present);
        cmds
    }
}

} // verus!
