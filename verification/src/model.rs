//! The declarative description of a chart: traces and layout, as the renderer
//! reads them. Coordinates are a type parameter; the model arranges them and
//! never computes with them.

use crate::palette::{decimal, line_color, line_color_of, push_decimal, Rgba};
use vstd::prelude::*;
use vstd::string::StringExecFns;

verus! {

/// How a trace draws its coordinates.
#[derive(Clone, Copy, Debug, PartialEq, Eq, Structural)]
pub enum Mode {
    Markers,
    Lines,
    LinesMarkers,
}

/// One series of a chart: its kind, its coordinates and its display style.
#[derive(Debug, PartialEq)]
pub struct Trace<C> {
    pub mode: Mode,
    pub name: String,
    pub color: Option<Rgba>,
    pub xs: Vec<C>,
    pub ys: Vec<C>,
}

/// What a trace holds.
pub struct TraceView<C> {
    pub mode: Mode,
    pub name: Seq<char>,
    pub color: Option<Rgba>,
    pub xs: Seq<C>,
    pub ys: Seq<C>,
}

impl<C> View for Trace<C> {
    type V = TraceView<C>;

    open spec fn view(&self) -> TraceView<C> {
        TraceView {
            mode: self.mode,
            name: self.name@,
            color: self.color,
            xs: self.xs@,
            ys: self.ys@,
        }
    }
}

/// Title, legend and axis ranges of a chart. An unset entry is left to the
/// renderer.
#[derive(Debug, PartialEq)]
pub struct Layout<C> {
    pub title: String,
    pub show_legend: Option<bool>,
    pub auto_size: Option<bool>,
    pub x_range: Option<(C, C)>,
    pub y_range: Option<(C, C)>,
}

/// What a layout holds.
pub struct LayoutView<C> {
    pub title: Seq<char>,
    pub show_legend: Option<bool>,
    pub auto_size: Option<bool>,
    pub x_range: Option<(C, C)>,
    pub y_range: Option<(C, C)>,
}

impl<C> View for Layout<C> {
    type V = LayoutView<C>;

    open spec fn view(&self) -> LayoutView<C> {
        LayoutView {
            title: self.title@,
            show_legend: self.show_legend,
            auto_size: self.auto_size,
            x_range: self.x_range,
            y_range: self.y_range,
        }
    }
}

/// A chart: its traces in drawing order, and its layout.
#[derive(Debug, PartialEq)]
pub struct PlotModel<C> {
    pub traces: Vec<Trace<C>>,
    pub layout: Layout<C>,
}

/// What a chart holds.
pub struct PlotView<C> {
    pub traces: Seq<TraceView<C>>,
    pub layout: LayoutView<C>,
}

/// The contents of a list of traces, in order.
pub open spec fn trace_views<C>(traces: Seq<Trace<C>>) -> Seq<TraceView<C>> {
    Seq::new(traces.len(), |i: int| traces[i]@)
}

impl<C> View for PlotModel<C> {
    type V = PlotView<C>;

    open spec fn view(&self) -> PlotView<C> {
        PlotView { traces: trace_views(self.traces@), layout: self.layout@ }
    }
}

/// A fresh vector with the same values in the same order.
pub fn copy_values<C: Copy>(values: &Vec<C>) -> (copy: Vec<C>)
    ensures
        copy@ == values@,
{
    let mut copy: Vec<C> = Vec::new();
    let mut i: usize = 0;
    while i < values.len()
        invariant
            i <= values.len(),
            copy@ == values@.subrange(0, i as int),
        decreases values.len() - i,
    {
        copy.push(values[i]);
        i = i + 1;
        assert(copy@ =~= values@.subrange(0, i as int));
    }
    assert(values@.subrange(0, values.len() as int) =~= values@);
    copy
}

impl<C: Copy> Trace<C> {
    /// A second trace with the same contents.
    pub fn duplicate(&self) -> (copy: Trace<C>)
        ensures
            copy@ == self@,
    {
        Trace {
            mode: self.mode,
            name: self.name.clone(),
            color: self.color,
            xs: copy_values(&self.xs),
            ys: copy_values(&self.ys),
        }
    }
}

impl<C: Copy> Layout<C> {
    /// A second layout with the same contents.
    pub fn duplicate(&self) -> (copy: Layout<C>)
        ensures
            copy@ == self@,
    {
        Layout {
            title: self.title.clone(),
            show_legend: self.show_legend,
            auto_size: self.auto_size,
            x_range: self.x_range,
            y_range: self.y_range,
        }
    }
}

/// The trace of the candidate line at `index` among `count` lines, drawn
/// from `x_min` to `x_max` through the two heights in `ends`. Lines are named
/// from "Line 1" on, and coloured by their place among the lines.
pub open spec fn line_trace_of<C>(
    index: nat,
    count: nat,
    x_min: C,
    x_max: C,
    ends: (C, C),
) -> TraceView<C> {
    TraceView {
        mode: Mode::Lines,
        name: "Line "@ + decimal(index + 1),
        color: Some(line_color_of(index, count)),
        xs: seq![x_min, x_max],
        ys: seq![ends.0, ends.1],
    }
}

/// Builds the trace of one candidate line.
pub fn line_trace<C: Copy>(
    index: usize,
    count: usize,
    x_min: C,
    x_max: C,
    ends: (C, C),
) -> (trace: Trace<C>)
    requires
        index < count,
    ensures
        trace@ == line_trace_of(index as nat, count as nat, x_min, x_max, ends),
{
    let mut name = String::from_str("Line ");
    push_decimal(&mut name, index + 1);
    let mut xs: Vec<C> = Vec::new();
    xs.push(x_min);
    xs.push(x_max);
    let mut ys: Vec<C> = Vec::new();
    ys.push(ends.0);
    ys.push(ends.1);
    assert(xs@ =~= seq![x_min, x_max]);
    assert(ys@ =~= seq![ends.0, ends.1]);
    Trace { mode: Mode::Lines, name, color: Some(line_color(index, count)), xs, ys }
}

/// The point cloud of a data set.
pub open spec fn data_trace_of<C>(x_values: Seq<C>, y_values: Seq<C>) -> TraceView<C> {
    TraceView {
        mode: Mode::Markers,
        name: "Data Points"@,
        color: None,
        xs: x_values,
        ys: y_values,
    }
}

/// The layout of the scatter plot: no legend, sized by its surface, with the
/// given range on the vertical axis.
pub open spec fn scatter_layout_of<C>(y_range: (C, C)) -> LayoutView<C> {
    LayoutView {
        title: Seq::empty(),
        show_legend: Some(false),
        auto_size: Some(true),
        x_range: None,
        y_range: Some(y_range),
    }
}

/// Builds the scatter plot and the traces that are revealed on it later.
///
/// The plot starts with the point cloud alone. Of each candidate line
/// `line_ends` gives the two heights, at `x_min` and at `x_max`; the traces of
/// the lines come back in the same order, ready to be appended one by one.
pub fn create_scatterplot<C: Copy>(
    x_min: C,
    x_max: C,
    x_values: Vec<C>,
    y_values: Vec<C>,
    y_range: (C, C),
    line_ends: &Vec<(C, C)>,
) -> (made: (PlotModel<C>, Vec<Trace<C>>))
    ensures
        made.0@.traces == seq![data_trace_of(x_values@, y_values@)],
        made.0@.layout == scatter_layout_of(y_range),
        made.1@.len() == line_ends@.len(),
        forall|i: int|
            0 <= i < line_ends@.len() ==> (#[trigger] made.1@[i])@ == line_trace_of(
                i as nat,
                line_ends@.len(),
                x_min,
                x_max,
                line_ends@[i],
            ),
{
    let data = Trace {
        mode: Mode::Markers,
        name: String::from_str("Data Points"),
        color: None,
        xs: x_values,
        ys: y_values,
    };
    let mut traces: Vec<Trace<C>> = Vec::new();
    traces.push(data);
    let layout = Layout {
        title: String::new(),
        show_legend: Some(false),
        auto_size: Some(true),
        x_range: None,
        y_range: Some(y_range),
    };
    let plot = PlotModel { traces, layout };
    assert(plot@.traces =~= seq![data_trace_of(x_values@, y_values@)]);

    let count = line_ends.len();
    let mut lines: Vec<Trace<C>> = Vec::new();
    let mut i: usize = 0;
    while i < count
        invariant
            i <= count,
            count == line_ends@.len(),
            lines@.len() == i,
            forall|k: int|
                0 <= k < i ==> (#[trigger] lines@[k])@ == line_trace_of(
                    k as nat,
                    count as nat,
                    x_min,
                    x_max,
                    line_ends@[k],
                ),
        decreases count - i,
    {
        lines.push(line_trace(i, count, x_min, x_max, line_ends[i]));
        i = i + 1;
    }
    (plot, lines)
}

/// The running series of the error plot before its first point.
pub open spec fn empty_series_of<C>() -> TraceView<C> {
    TraceView {
        mode: Mode::LinesMarkers,
        name: "MSE Values"@,
        color: None,
        xs: Seq::empty(),
        ys: Seq::empty(),
    }
}

/// The layout of the error plot: both axes fixed to the given ranges.
pub open spec fn fixed_layout_of<C>(x_range: (C, C), y_range: (C, C)) -> LayoutView<C> {
    LayoutView {
        title: Seq::empty(),
        show_legend: None,
        auto_size: None,
        x_range: Some(x_range),
        y_range: Some(y_range),
    }
}

/// Builds the error plot, still without a trace, and the empty series that
/// its animation fills point by point.
pub fn create_mse_plot<C: Copy>(x_range: (C, C), y_range: (C, C)) -> (made: (
    PlotModel<C>,
    Trace<C>,
))
    ensures
        made.0@.traces == Seq::<TraceView<C>>::empty(),
        made.0@.layout == fixed_layout_of(x_range, y_range),
        made.1@ == empty_series_of::<C>(),
{
    let layout = Layout {
        title: String::new(),
        show_legend: None,
        auto_size: None,
        x_range: Some(x_range),
        y_range: Some(y_range),
    };
    let plot = PlotModel { traces: Vec::new(), layout };
    let series = Trace {
        mode: Mode::LinesMarkers,
        name: String::from_str("MSE Values"),
        color: None,
        xs: Vec::new(),
        ys: Vec::new(),
    };
    assert(plot@.traces =~= Seq::<TraceView<C>>::empty());
    (plot, series)
}

} // verus!
