//! The values that describe one plot: its series and optional bounds.
use vstd::prelude::*;

verus! {

/// Font used for text, once text is drawn.
pub const DEFAULT_FONT: &'static str = "/usr/share/fonts/truetype/freefont/FreeSans.ttf";

/// Color of a series added without one: opaque red, as RGBA bytes.
pub const DEFAULT_SERIES_COLOR: [u8; 4] = [255, 0, 0, 255];

/// The values of one series of a plot.
#[derive(Clone, Debug)]
pub enum PlotVals2D {
    /// An x-y line plot in an RGBA color.
    XyColor([u8; 4], Vec<(i32, i32)>),
}

impl PlotVals2D {
    pub open spec fn points(self) -> Seq<(i32, i32)> {
        match self {
            PlotVals2D::XyColor(_, xy) => xy@,
        }
    }

    pub open spec fn color(self) -> [u8; 4] {
        match self {
            PlotVals2D::XyColor(c, _) => c,
        }
    }
}

/// Everything needed to draw a set of stacked 2-D series.
#[derive(Clone, Debug)]
pub struct PlotBuilder2D {
    /// The series, in drawing order.
    pub pvs: Vec<PlotVals2D>,
    /// Lower x bound; found from the data when `None`.
    pub min_x: Option<i32>,
    /// Upper x bound; found from the data when `None`.
    pub max_x: Option<i32>,
    /// Lower y bound; found from the data when `None`.
    pub min_y: Option<i32>,
    /// Upper y bound; found from the data when `None`.
    pub max_y: Option<i32>,
    /// Label of the x axis (not drawn yet).
    pub x_label: Option<String>,
    /// Label of the y axis (not drawn yet).
    pub y_label: Option<String>,
    /// Title of the chart (not drawn yet).
    pub title: Option<String>,
    /// Whether to draw the y axis (not drawn yet).
    pub y_axis: bool,
    /// Whether to draw gridlines along the y axis (not drawn yet).
    pub y_gridlines: bool,
    /// Whether to draw the x axis (not drawn yet).
    pub x_axis: bool,
    /// Whether to draw gridlines along the x axis (not drawn yet).
    pub x_gridlines: bool,
    /// Font file for any text.
    pub font_path: String,
}

impl PlotBuilder2D {
    /// A builder with no series, no bound overrides and the default options.
    pub fn new() -> (r: PlotBuilder2D)
        ensures
            r.pvs@.len() == 0,
            r.min_x is None,
            r.max_x is None,
            r.min_y is None,
            r.max_y is None,
            r.x_label is None,
            r.y_label is None,
            r.title is None,
            r.y_axis && r.y_gridlines && r.x_axis && r.x_gridlines,
            r.font_path@ == DEFAULT_FONT@,
    {
        PlotBuilder2D {
            pvs: Vec::new(),
            min_x: None,
            max_x: None,
            min_y: None,
            max_y: None,
            x_label: None,
            y_label: None,
            title: None,
            y_axis: true,
            y_gridlines: true,
            x_axis: true,
            x_gridlines: true,
            font_path: DEFAULT_FONT.to_owned(),
        }
    }

    /// Adds a series of points in the default color.
    pub fn add_simple_xy(&mut self, xy: Vec<(i32, i32)>)
        ensures
            final(self).pvs@ == old(self).pvs@.push(PlotVals2D::XyColor(DEFAULT_SERIES_COLOR, xy)),
            final(self).min_x == old(self).min_x,
            final(self).max_x == old(self).max_x,
            final(self).min_y == old(self).min_y,
            final(self).max_y == old(self).max_y,
            final(self).x_label == old(self).x_label,
            final(self).y_label == old(self).y_label,
            final(self).title == old(self).title,
            final(self).y_axis == old(self).y_axis,
            final(self).y_gridlines == old(self).y_gridlines,
            final(self).x_axis == old(self).x_axis,
            final(self).x_gridlines == old(self).x_gridlines,
            final(self).font_path == old(self).font_path,
    {
        self.pvs.push(PlotVals2D::XyColor(DEFAULT_SERIES_COLOR, xy));
    }

    /// Adds a series of points in the RGBA color `color`.
    pub fn add_color_xy(&mut self, xy: Vec<(i32, i32)>, color: [u8; 4])
        ensures
            final(self).pvs@ == old(self).pvs@.push(PlotVals2D::XyColor(color, xy)),
            final(self).min_x == old(self).min_x,
            final(self).max_x == old(self).max_x,
            final(self).min_y == old(self).min_y,
            final(self).max_y == old(self).max_y,
            final(self).x_label == old(self).x_label,
            final(self).y_label == old(self).y_label,
            final(self).title == old(self).title,
            final(self).y_axis == old(self).y_axis,
            final(self).y_gridlines == old(self).y_gridlines,
            final(self).x_axis == old(self).x_axis,
            final(self).x_gridlines == old(self).x_gridlines,
            final(self).font_path == old(self).font_path,
    {
        self.pvs.push(PlotVals2D::XyColor(color, xy));
    }
}

} // verus!
