use dataplotlib::draw::{execute, DrawCmd, Drawable, Event, MouseButton, Range, Range2d, ESCAPE_KEY};
use dataplotlib::plot::{get_plot_bounds, Plot, PlotBounds, PlotError};
use dataplotlib::plotbuilder::{PlotBuilder2D, PlotVals2D, DEFAULT_FONT};

fn r(min: i64, max: i64) -> Range {
    Range { min, max }
}

fn builder(series: Vec<Vec<(i32, i32)>>) -> PlotBuilder2D {
    let mut pb = PlotBuilder2D::new();
    for s in series {
        pb.add_simple_xy(s);
    }
    pb
}

#[test]
fn builder_defaults() {
    let mut pb = PlotBuilder2D::new();
    assert!(pb.pvs.is_empty());
    assert_eq!(pb.min_x, None);
    assert_eq!(pb.max_y, None);
    assert!(pb.x_axis && pb.y_axis && pb.x_gridlines && pb.y_gridlines);
    assert_eq!(pb.font_path, DEFAULT_FONT);
    pb.add_simple_xy(vec![(1, 2)]);
    pb.add_color_xy(vec![(3, 4)], [0, 0, 255, 255]);
    match &pb.pvs[0] {
        PlotVals2D::XyColor(c, xy) => {
            assert_eq!(*c, [255, 0, 0, 255]);
            assert_eq!(*xy, vec![(1, 2)]);
        }
    }
    match &pb.pvs[1] {
        PlotVals2D::XyColor(c, _) => assert_eq!(*c, [0, 0, 255, 255]),
    }
}

#[test]
fn bounds_of_one_series() {
    let pb = builder(vec![vec![(0, 0), (1, 5), (2, -3)]]);
    assert_eq!(
        get_plot_bounds(&pb),
        Ok(PlotBounds { max_x: 2, max_y: 5, min_x: 0, min_y: -3 })
    );
}

#[test]
fn bounds_override_wins() {
    let mut pb = builder(vec![vec![(0, 0), (1, 5), (2, -3)]]);
    pb.max_y = Some(100);
    assert_eq!(
        get_plot_bounds(&pb),
        Ok(PlotBounds { max_x: 2, max_y: 100, min_x: 0, min_y: -3 })
    );
}

#[test]
fn bounds_cover_every_series() {
    let pb = builder(vec![vec![(0, 1), (4, 2)], vec![(-7, 9), (3, -8)]]);
    assert_eq!(
        get_plot_bounds(&pb),
        Ok(PlotBounds { max_x: 4, max_y: 9, min_x: -7, min_y: -8 })
    );
}

#[test]
fn bounds_fail_on_empty_series() {
    let pb = builder(vec![vec![(0, 1), (4, 2)], vec![]]);
    assert_eq!(get_plot_bounds(&pb), Err(PlotError::EmptySeries));
    let none = builder(vec![]);
    assert_eq!(get_plot_bounds(&none), Err(PlotError::EmptySeries));
}

#[test]
fn bounds_from_overrides_alone() {
    let mut pb = builder(vec![]);
    pb.min_x = Some(-1);
    pb.max_x = Some(1);
    pb.min_y = Some(-2);
    pb.max_y = Some(2);
    assert_eq!(
        get_plot_bounds(&pb),
        Ok(PlotBounds { max_x: 1, max_y: 2, min_x: -1, min_y: -2 })
    );
}

#[test]
fn new_plot_views_the_bounds() {
    let plot = Plot::new2d(builder(vec![vec![(0, 0), (1, 5), (2, -3)]])).unwrap();
    assert_eq!(plot.view(), Range2d(r(0, 2), r(-3, 5)));
    assert!(!plot.is_closed());
}

#[test]
fn new_plot_rejects_degenerate_range() {
    let single = Plot::new2d(builder(vec![vec![(3, 4)]]));
    assert!(matches!(single, Err(PlotError::DegenerateRange)));
    let flat = Plot::new2d(builder(vec![vec![(0, 4), (5, 4)]]));
    assert!(matches!(flat, Err(PlotError::DegenerateRange)));
    let empty = Plot::new2d(builder(vec![vec![]]));
    assert!(matches!(empty, Err(PlotError::EmptySeries)));
}

#[test]
fn frame_draws_border_then_clipped_series() {
    let mut pb = PlotBuilder2D::new();
    pb.add_color_xy(vec![(0, 0), (100, 100), (200, 50)], [1, 2, 3, 4]);
    pb.max_x = Some(100);
    let plot = Plot::new2d(pb).unwrap();
    let view = Range2d(r(0, 100), r(0, 100));
    assert_eq!(plot.view(), view);
    let cmds = plot.frame();
    let expected = vec![
        DrawCmd::SetView(view),
        DrawCmd::SetView(Range2d(r(-5, 105), r(-5, 105))),
        DrawCmd::SetColor([242, 242, 242, 255]),
        DrawCmd::Clear,
        DrawCmd::SetColor([255, 255, 255, 255]),
        DrawCmd::Rectangle((0, 0), (100, 100)),
        DrawCmd::SetColor([0, 0, 255, 255]),
        DrawCmd::UnfilledRectangle((0, 0), (100, 100)),
        DrawCmd::SetView(view),
        DrawCmd::SetColor([1, 2, 3, 4]),
        DrawCmd::ThickLine((0, 0), (100, 100), 2),
        DrawCmd::ThickLine((100, 100), (100, 100), 2),
        DrawCmd::Present,
    ];
    assert_eq!(cmds, expected);
}

#[test]
fn frame_skips_invisible_segment() {
    let mut pb = builder(vec![vec![(0, 0), (10, 10), (20, 30), (30, 40)]]);
    pb.max_x = Some(10);
    pb.max_y = Some(10);
    let plot = Plot::new2d(pb).unwrap();
    let lines: Vec<DrawCmd> = plot
        .frame()
        .into_iter()
        .filter(|c| matches!(c, DrawCmd::ThickLine(..)))
        .collect();
    assert_eq!(
        lines,
        vec![DrawCmd::ThickLine((0, 0), (10, 10), 2), DrawCmd::ThickLine((10, 10), (10, 10), 2)]
    );
}

fn square_plot() -> Plot {
    Plot::new2d(builder(vec![vec![(0, 0), (10, 10)]])).unwrap()
}

#[test]
fn scroll_zooms_out_by_its_multiplier() {
    let mut plot = square_plot();
    assert!(plot.handle_events(&vec![Event::MouseScroll(0, 10)]));
    assert_eq!(plot.view(), Range2d(r(-10, 20), r(-10, 20)));
}

#[test]
fn scroll_back_zooms_in() {
    let mut plot = square_plot();
    assert!(plot.handle_events(&vec![Event::MouseScroll(0, -2)]));
    assert_eq!(plot.view(), Range2d(r(2, 8), r(2, 8)));
}

#[test]
fn scroll_that_collapses_view_is_ignored() {
    let mut plot = square_plot();
    assert!(!plot.handle_events(&vec![Event::MouseScroll(0, -5)]));
    assert_eq!(plot.view(), Range2d(r(0, 10), r(0, 10)));
}

#[test]
fn resize_asks_for_frame_and_others_do_not() {
    let mut plot = square_plot();
    assert!(plot.handle_events(&vec![Event::Resize(800, 600)]));
    let quiet = vec![
        Event::KeyDown(5),
        Event::KeyUp(ESCAPE_KEY),
        Event::MouseMove(MouseButton::Left, 3, 4),
        Event::MouseDown(MouseButton::Right, 1, 1),
    ];
    assert!(!plot.handle_events(&quiet));
    assert_eq!(plot.view(), Range2d(r(0, 10), r(0, 10)));
    assert!(!plot.is_closed());
}

#[test]
fn escape_closes() {
    let mut plot = square_plot();
    assert!(!plot.handle_events(&vec![Event::Resize(1, 1), Event::KeyDown(ESCAPE_KEY)]));
    assert!(plot.is_closed());
}

#[test]
fn quit_first_closes_without_redraw() {
    let mut plot = square_plot();
    let evs = vec![Event::Quit, Event::MouseScroll(0, 10), Event::Resize(3, 3)];
    assert!(!plot.handle_events(&evs));
    assert!(plot.is_closed());
    assert_eq!(plot.view(), Range2d(r(0, 10), r(0, 10)));
    assert!(!plot.handle_events(&vec![Event::Resize(3, 3)]));
}

#[derive(Default)]
struct Recorder {
    view: Option<Range2d>,
    pending: Vec<Vec<Event>>,
    draws: usize,
    presents: usize,
    polls: usize,
    broken: bool,
}

impl Drawable for Recorder {
    fn set_view(&mut self, view: Range2d) {
        self.view = Some(view);
    }
    fn get_view(&self) -> Range2d {
        self.view.unwrap()
    }
    fn set_color(&mut self, _color: [u8; 4]) {}
    fn clear(&mut self) {
        self.draws += 1;
    }
    fn line(&mut self, _a: (i64, i64), _b: (i64, i64)) {
        self.draws += 1;
    }
    fn thick_line(&mut self, _a: (i64, i64), _b: (i64, i64), _t: u16) {
        self.draws += 1;
    }
    fn rectangle(&mut self, _a: (i64, i64), _b: (i64, i64)) {
        self.draws += 1;
    }
    fn unfilled_rectangle(&mut self, _a: (i64, i64), _b: (i64, i64)) {
        self.draws += 1;
    }
    fn present(&mut self) -> bool {
        self.presents += 1;
        !self.broken
    }
    fn get_events(&mut self) -> Vec<Event> {
        self.polls += 1;
        if self.pending.is_empty() {
            Vec::new()
        } else {
            self.pending.remove(0)
        }
    }
}

#[test]
fn loop_fed_quit_closes_after_one_frame() {
    let mut plot = square_plot();
    let mut target = Recorder::default();
    target.pending.push(vec![Event::Quit]);
    plot.render(&mut target).unwrap();
    let draws = target.draws;
    assert_eq!(draws, 4);
    assert_eq!(target.presents, 1);
    assert_eq!(target.get_view(), Range2d(r(0, 10), r(0, 10)));
    plot.poll(&mut target).unwrap();
    assert!(plot.is_closed());
    assert_eq!(target.draws, draws);
    assert_eq!(target.presents, 1);
}

#[test]
fn loop_redraws_after_scroll() {
    let mut plot = square_plot();
    let mut target = Recorder::default();
    target.pending.push(vec![Event::MouseScroll(0, 10)]);
    plot.render(&mut target).unwrap();
    plot.poll(&mut target).unwrap();
    assert_eq!(target.presents, 2);
    assert_eq!(target.get_view(), Range2d(r(-10, 20), r(-10, 20)));
    plot.poll(&mut target).unwrap();
    assert_eq!(target.presents, 2);
}

#[test]
fn failed_present_closes_plot() {
    let mut plot = square_plot();
    let mut target = Recorder::default();
    target.broken = true;
    assert_eq!(plot.render(&mut target), Err(PlotError::BackendFailure));
    target.pending.push(vec![Event::Resize(5, 5)]);
    assert_eq!(plot.poll(&mut target), Err(PlotError::BackendFailure));
    assert!(plot.is_closed());
}

#[test]
fn closed_plot_polls_no_more() {
    let mut plot = square_plot();
    let mut target = Recorder::default();
    target.pending.push(vec![Event::Quit]);
    target.pending.push(vec![Event::Resize(2, 2)]);
    plot.poll(&mut target).unwrap();
    assert!(plot.is_closed());
    assert_eq!(target.polls, 1);
    assert_eq!(plot.poll(&mut target), Ok(()));
    assert_eq!(target.polls, 1);
    assert_eq!(target.draws, 0);
}

#[test]
fn execute_fails_only_at_present() {
    let mut target = Recorder::default();
    target.broken = true;
    let no_present = vec![DrawCmd::Clear, DrawCmd::SetView(Range2d(r(0, 1), r(0, 1)))];
    assert!(execute(&mut target, &no_present));
    assert_eq!(target.draws, 1);
    let with_present = vec![DrawCmd::Present, DrawCmd::Clear];
    assert!(!execute(&mut target, &with_present));
    assert_eq!(target.draws, 1);
}

#[test]
fn adding_series_keeps_options() {
    let mut pb = PlotBuilder2D::new();
    pb.title = Some("t".to_string());
    pb.x_axis = false;
    pb.font_path = "f.ttf".to_string();
    pb.add_color_xy(vec![(0, 0)], [1, 1, 1, 1]);
    pb.add_simple_xy(vec![(1, 1)]);
    assert_eq!(pb.title, Some("t".to_string()));
    assert!(!pb.x_axis);
    assert_eq!(pb.font_path, "f.ttf");
    assert_eq!(pb.pvs.len(), 2);
}
