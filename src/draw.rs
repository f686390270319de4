//! World-space ranges, input events, the coordinate mapper and the drawing
//! capability that every render target implements.
use vstd::prelude::*;
use vstd::arithmetic::div_mod::lemma_div_multiples_vanish;

verus! {

/// Largest magnitude of a coordinate in a plot's visible world rectangle.
pub const VIEW_LIMIT: i64 = 0x100_0000_0000;

/// Largest magnitude of any value handed to the coordinate mapper.
pub const MAP_LIMIT: i64 = 0x400_0000_0000;

/// Key code that closes a plot window.
pub const ESCAPE_KEY: i32 = 27;

#[derive(Copy, Clone, Debug, PartialEq, Eq, Structural)]
pub enum MouseButton {
    Left,
    Middle,
    Right,
}

/// Input reported by a drawing target. Positions are in window pixels.
#[derive(Copy, Clone, Debug, PartialEq, Eq, Structural)]
pub enum Event {
    Quit,
    Resize(u32, u32),
    KeyDown(i32),
    KeyUp(i32),
    MouseDown(MouseButton, i32, i32),
    MouseUp(MouseButton, i32, i32),
    MouseMove(MouseButton, i32, i32),
    MouseScroll(i32, i32),
}

/// A closed interval `[min, max]` along one axis.
#[derive(Copy, Clone, Debug, PartialEq, Eq, Structural)]
pub struct Range {
    pub min: i64,
    pub max: i64,
}

impl Range {
    pub open spec fn spec_size(self) -> int {
        self.max - self.min
    }

    /// A range that a plot may show: ordered, with a positive size, and
    /// inside the coordinate limits.
    pub open spec fn is_view(self) -> bool {
        -VIEW_LIMIT <= self.min < self.max <= VIEW_LIMIT
    }

    pub fn size(&self) -> (r: i128)
        ensures
            r == self.spec_size(),
    {
        self.max as i128 - self.min as i128
    }

    pub fn contains(&self, pt: i64) -> (r: bool)
        ensures
            r == (self.min <= pt <= self.max),
    {
        pt <= self.max && pt >= self.min
    }
}

/// An axis-aligned rectangle: the x range and the y range.
#[derive(Copy, Clone, Debug, PartialEq, Eq, Structural)]
pub struct Range2d(pub Range, pub Range);

impl Range2d {
    pub open spec fn is_view(self) -> bool {
        self.0.is_view() && self.1.is_view()
    }

    pub open spec fn spec_contains(self, pt: (i64, i64)) -> bool {
        self.0.min <= pt.0 <= self.0.max && self.1.min <= pt.1 <= self.1.max
    }

    pub fn contains(&self, pt: (i64, i64)) -> (r: bool)
        ensures
            r == self.spec_contains(pt),
    {
        self.0.contains(pt.0) && self.1.contains(pt.1)
    }
}

impl From<(Range, Range)> for Range2d {
    fn from(ranges: (Range, Range)) -> (r: Range2d) {
        Range2d(ranges.0, ranges.1)
    }
}

impl vstd::std_specs::convert::FromSpecImpl<(Range, Range)> for Range2d {
    open spec fn obeys_from_spec() -> bool {
        true
    }

    open spec fn from_spec(ranges: (Range, Range)) -> Range2d {
        Range2d(ranges.0, ranges.1)
    }
}

/// Floor of `n / d` for a positive `d`.
pub open spec fn floor_div(n: int, d: int) -> int
    recommends
        d > 0,
{
    if n >= 0 {
        n / d
    } else {
        -((-n + d - 1) / d)
    }
}

/// Where `pt` of the world range `view` lands in the range `window`:
/// its offset from `view.min` (from `view.max` when inverted), scaled by
/// `window.size() / view.size()` and rounded down, then moved to `window.min`.
pub open spec fn map_spec(pt: int, view: Range, window: Range, invert: bool) -> int {
    let moved = if invert {
        view.max - pt
    } else {
        pt - view.min
    };
    floor_div(moved * window.spec_size(), view.spec_size()) + window.min
}

pub open spec fn within_map_limit(v: int) -> bool {
    -MAP_LIMIT <= v <= MAP_LIMIT
}

/// The ends of a world range land on the ends of the window range: `min`
/// on the window's `min` and `max` on its `max`, the other way round when
/// the axis is inverted.
pub proof fn lemma_map_boundaries(view: Range, window: Range)
    requires
        view.min < view.max,
        window.min <= window.max,
    ensures
        map_spec(view.min as int, view, window, false) == window.min,
        map_spec(view.max as int, view, window, false) == window.max,
        map_spec(view.max as int, view, window, true) == window.min,
        map_spec(view.min as int, view, window, true) == window.max,
{
    let s = view.spec_size();
    let w = window.spec_size();
    assert(s * w >= 0) by (nonlinear_arith)
        requires
            s > 0,
            w >= 0,
    ;
    lemma_div_multiples_vanish(w, s);
    assert(0int / s == 0);
    assert(0 * w == 0);
}

/// Maps a world coordinate onto a window coordinate.
pub fn point2window(pt: i64, view: Range, window: Range, invert: bool) -> (r: i128)
    requires
        view.min < view.max,
        within_map_limit(pt as int),
        within_map_limit(view.min as int),
        within_map_limit(view.max as int),
        within_map_limit(window.min as int),
        within_map_limit(window.max as int),
    ensures
        r == map_spec(pt as int, view, window, invert),
{
    let moved: i128 = if invert {
        view.max as i128 - pt as i128
    } else {
        pt as i128 - view.min as i128
    };
    let wsize = window.size();
    let vsize = view.size();
    assert(-0x1_0000_0000_0000_0000_0000_0000 <= moved * wsize <= 0x1_0000_0000_0000_0000_0000_0000)
        by (nonlinear_arith)
        requires
            -0x800_0000_0000 <= moved <= 0x800_0000_0000,
            -0x800_0000_0000 <= wsize <= 0x800_0000_0000,
    ;
    let n: i128 = moved * wsize;
    let q: i128 = if n >= 0 {
        n / vsize
    } else {
        -((-n + vsize - 1) / vsize)
    };
    q + window.min as i128
}

/// One call on a drawing target, with points in world coordinates.
#[derive(Copy, Clone, Debug, PartialEq, Eq)]
pub enum DrawCmd {
    SetView(Range2d),
    SetColor([u8; 4]),
    Clear,
    Line((i64, i64), (i64, i64)),
    ThickLine((i64, i64), (i64, i64), u16),
    Rectangle((i64, i64), (i64, i64)),
    UnfilledRectangle((i64, i64), (i64, i64)),
    Present,
}

/// A render target: it maps the world rectangle of its view onto its
/// surface and reports input.
pub trait Drawable {
    /// Sets the visible range of world space.
    fn set_view(&mut self, view: Range2d);

    /// The visible range of world space.
    fn get_view(&self) -> Range2d;

    /// Sets the RGBA color of the drawing calls that follow.
    fn set_color(&mut self, color: [u8; 4]);

    /// Fills the whole surface with the current color.
    fn clear(&mut self);

    /// Draws a line between two world points.
    fn line(&mut self, a: (i64, i64), b: (i64, i64));

    /// Draws a line of the given thickness in pixels between two world points.
    fn thick_line(&mut self, a: (i64, i64), b: (i64, i64), thickness: u16);

    /// Draws a filled rectangle bounded by two world corners.
    fn rectangle(&mut self, a: (i64, i64), b: (i64, i64));

    /// Draws the outline of a rectangle bounded by two world corners.
    fn unfilled_rectangle(&mut self, a: (i64, i64), b: (i64, i64));

    /// Shows what was drawn; `false` when the surface is gone.
    fn present(&mut self) -> bool;

    /// The input that arrived since the last call, without waiting.
    fn get_events(&mut self) -> Vec<Event>;

    /// Stops the target's work and releases it.
    fn close(&mut self) {
    }
}

/// Performs the commands on `target` in order; stops at a failed present.
/// Only a present can fail, so a list without one always succeeds.
pub fn execute<D: Drawable>(target: &mut D, cmds: &Vec<DrawCmd>) -> (r: bool)
    ensures
        !r ==> exists|k: int| 0 <= k < cmds@.len() && cmds@[k] is Present,
{
    let mut i: usize = 0;
    while i < cmds.len()
        invariant
            i <= cmds@.len(),
        decreases cmds@.len() - i,
    {
        match cmds[i] {
            DrawCmd::SetView(v) => target.set_view(v),
            DrawCmd::SetColor(c) => target.set_color(c),
            DrawCmd::Clear => target.clear(),
            DrawCmd::Line(a, b) => target.line(a, b),
            DrawCmd::ThickLine(a, b, t) => target.thick_line(a, b, t),
            DrawCmd::Rectangle(a, b) => target.rectangle(a, b),
            DrawCmd::UnfilledRectangle(a, b) => target.unfilled_rectangle(a, b),
            DrawCmd::Present => {
                if !target.present() {
                    assert(cmds@[i as int] is Present);
                    return false;
                }
            },
        }
        i = i + 1;
    }
    true
}

} // verus!
