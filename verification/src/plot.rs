//! The plot of a whole run: the loop that gathers it and the charts that it shows.
use vstd::prelude::*;

use crate::chart::{SeriesColor, Unit};
use crate::column::Column;
use crate::report::Metrics;

verus! {

/// The picture's width in pixels.
pub const PLOT_WIDTH: u32 = 1920;

/// The picture's height in pixels.
pub const PLOT_HEIGHT: u32 = 1080;

/// The size of a chart's caption.
pub const CAPTION_SIZE: u32 = 20;

/// The margin around a chart.
pub const CHART_MARGIN: u32 = 10;

/// The room for the labels below a chart.
pub const X_LABEL_AREA: u32 = 20;

/// The room for the labels beside a chart.
pub const Y_LABEL_AREA: u32 = 30;

/// The length of a line in a chart's legend.
pub const LEGEND_LENGTH: i32 = 20;

/// Where the gathering loop stands, by what it waits for.
#[derive(Debug, Clone, Copy, PartialEq, Eq, Structural)]
pub enum PlotPhase {
    Waiting,
    Draining,
    Closed,
}

/// What happened outside.
#[derive(Debug, Clone, Copy, PartialEq, Eq, Structural)]
pub enum PlotEvent {
    /// One second's metrics came.
    Received(Metrics),
    /// None came for a while; the stop flag reads so.
    Timeout { stop: bool },
    /// No more metrics were waiting.
    QueueEmpty,
}

/// What is to be done outside next.
#[derive(Debug, Clone, Copy, PartialEq, Eq, Structural)]
pub enum PlotAction {
    /// Wait for metrics, but not for long.
    Wait,
    /// Take metrics that are waiting.
    Receive,
    /// Leave the loop.
    Close,
}

/// The gathering loop: its phase and what it has gathered.
#[derive(Debug)]
pub struct PlotLoop {
    pub phase: PlotPhase,
    pub gathered: Vec<Metrics>,
}

/// The gathering loop as mathematical values.
#[verifier::ext_equal]
pub struct PlotView {
    pub phase: PlotPhase,
    pub gathered: Seq<Metrics>,
}

impl View for PlotLoop {
    type V = PlotView;

    open spec fn view(&self) -> PlotView {
        PlotView { phase: self.phase, gathered: self.gathered@ }
    }
}

impl PlotView {
    /// What the loop waits for.
    pub open spec fn pending(self) -> PlotAction {
        match self.phase {
            PlotPhase::Waiting => PlotAction::Wait,
            PlotPhase::Draining => PlotAction::Receive,
            PlotPhase::Closed => PlotAction::Close,
        }
    }

    /// The loop after `event`. An event that answers nothing leaves it as it is.
    pub open spec fn after(self, event: PlotEvent) -> PlotView {
        match (self.phase, event) {
            (PlotPhase::Waiting, PlotEvent::Received(m)) | (
                PlotPhase::Draining,
                PlotEvent::Received(m),
            ) => PlotView { gathered: self.gathered.push(m), ..self },
            (PlotPhase::Waiting, PlotEvent::Timeout { stop }) => PlotView {
                phase: if stop {
                    PlotPhase::Draining
                } else {
                    PlotPhase::Waiting
                },
                ..self
            },
            (PlotPhase::Draining, PlotEvent::QueueEmpty) => PlotView {
                phase: PlotPhase::Closed,
                ..self
            },
            _ => self,
        }
    }
}

impl PlotLoop {
    /// A loop that has gathered nothing.
    pub fn new() -> (plot: Self)
        ensures
            plot@ == (PlotView { phase: PlotPhase::Waiting, gathered: Seq::empty() }),
    {
        PlotLoop { phase: PlotPhase::Waiting, gathered: Vec::new() }
    }

    /// What the loop waits for.
    pub fn pending(&self) -> (action: PlotAction)
        ensures
            action == self@.pending(),
    {
        match self.phase {
            PlotPhase::Waiting => PlotAction::Wait,
            PlotPhase::Draining => PlotAction::Receive,
            PlotPhase::Closed => PlotAction::Close,
        }
    }

    /// Takes in `event` and says what is to be done next.
    pub fn step(&mut self, event: PlotEvent) -> (action: PlotAction)
        ensures
            final(self)@ == old(self)@.after(event),
            action == final(self)@.pending(),
    {
        match (self.phase, event) {
            (PlotPhase::Waiting, PlotEvent::Received(m))
            | (PlotPhase::Draining, PlotEvent::Received(m)) => {
                self.gathered.push(m);
            },
            (PlotPhase::Waiting, PlotEvent::Timeout { stop }) => {
                if stop {
                    self.phase = PlotPhase::Draining;
                }
            },
            (PlotPhase::Draining, PlotEvent::QueueEmpty) => {
                self.phase = PlotPhase::Closed;
            },
            _ => {},
        }
        self.pending()
    }
}

/// One chart of the plot.
#[derive(Debug)]
pub struct PlotChart {
    pub caption: &'static str,
    pub label: &'static str,
    pub color: SeriesColor,
    pub unit: Unit,
    /// The end of the horizontal axis, which starts at zero.
    pub x_end: usize,
    /// The vertical axis, which starts at zero, ends a tenth above this integer's axis number.
    pub y_peak: u64,
    pub points: Vec<(usize, u64)>,
}

impl PlotChart {
    /// Whether this is the chart of one quantity of a whole run.
    pub open spec fn shows(&self, column: Column, metrics: Seq<Metrics>) -> bool {
        &&& self.caption@ == column.caption_spec()
        &&& self.label@ == column.label_spec()
        &&& self.color == column.color_spec()
        &&& self.unit == column.unit_spec()
        &&& self.x_end == metrics.len()
        &&& self.y_peak == crate::chart::plot_peak_of(column.of_all(metrics), column.unit_spec())
        &&& self.points@ == crate::chart::points_of(column.of_all(metrics))
    }

    /// The chart of one quantity of a whole run.
    pub fn new(column: Column, metrics: &[Metrics]) -> (chart: PlotChart)
        ensures
            chart.shows(column, metrics@),
    {
        let ghost values = column.of_all(metrics@);
        let mut points: Vec<(usize, u64)> = Vec::new();
        let unit = column.unit();
        let mut peak: u64 = 0;
        let mut i: usize = 0;
        while i < metrics.len()
            invariant
                i <= metrics@.len(),
                values == column.of_all(metrics@),
                points@ == crate::chart::points_of(values).take(i as int),
                unit == column.unit_spec(),
                peak == crate::chart::peak_of(values.take(i as int), unit),
            decreases metrics@.len() - i,
        {
            let value: u64 = column.value(&metrics[i]);
            assert(values.take(i + 1).drop_last() =~= values.take(i as int));
            let rank: u64 = unit.rank(value);
            if peak < rank {
                peak = rank;
            }
            points.push((i, value));
            i = i + 1;
        }
        assert(values.take(i as int) =~= values);
        assert(crate::chart::points_of(values).take(i as int) =~= crate::chart::points_of(values));
        let one: u64 = unit.one();
        PlotChart {
            caption: column.caption(),
            label: column.label(),
            color: column.color(),
            unit,
            x_end: metrics.len(),
            y_peak: if peak < one {
                one
            } else {
                peak
            },
            points,
        }
    }
}

/// The charts of a plot, in the order of its quarters: across, then down.
#[derive(Debug)]
pub struct PlotCharts {
    pub latency: PlotChart,
    pub throughput: PlotChart,
    pub rx: PlotChart,
    pub tx: PlotChart,
}

/// The charts of a whole run.
pub fn plot_charts(metrics: &[Metrics]) -> (charts: PlotCharts)
    ensures
        charts.latency.shows(Column::Latency, metrics@),
        charts.throughput.shows(Column::Throughput, metrics@),
        charts.rx.shows(Column::Rx, metrics@),
        charts.tx.shows(Column::Tx, metrics@),
{
    PlotCharts {
        latency: PlotChart::new(Column::Latency, metrics),
        throughput: PlotChart::new(Column::Throughput, metrics),
        rx: PlotChart::new(Column::Rx, metrics),
        tx: PlotChart::new(Column::Tx, metrics),
    }
}

/// The file to which a plot is saved.
pub fn plot_path(output: &str) -> (path: String)
    ensures
        path@ == output@ + ".png"@,
{
    let mut path = String::new();
    path.append(output);
    path.append(".png");
    assert(path@ =~= output@ + ".png"@);
    path
}

/// What is said once the plot has been saved to `path`.
pub fn saved_message(path: &str) -> (text: String)
    ensures
        text@ == "Plot saved to "@ + path@,
{
    let mut text = String::new();
    text.append("Plot saved to ");
    text.append(path);
    assert(text@ =~= "Plot saved to "@ + path@);
    text
}

/// The line that stands for a series in the legend, from the point at which it starts. Its end
/// must be a coordinate too.
pub fn legend_line(x: i32, y: i32) -> (line: Vec<(i32, i32)>)
    requires
        x + LEGEND_LENGTH <= i32::MAX,
    ensures
        line@ == seq![(x, y), ((x + LEGEND_LENGTH) as i32, y)],
        line@.len() == 2,
        line@[0].0 == x && line@[0].1 == y,
        line@[1].0 - line@[0].0 == 20 && line@[1].1 == y,
{
    vec![(x, y), (x + LEGEND_LENGTH, y)]
}

/// The gathering loop after a series of events.
pub open spec fn plot_after(plot: PlotView, events: Seq<PlotEvent>) -> PlotView
    decreases events.len(),
{
    if events.len() == 0 {
        plot
    } else {
        plot_after(plot, events.drop_last()).after(events.last())
    }
}

/// The metrics that come in a series of events.
pub open spec fn metrics_in(events: Seq<PlotEvent>) -> Seq<Metrics>
    decreases events.len(),
{
    if events.len() == 0 {
        Seq::empty()
    } else {
        match events.last() {
            PlotEvent::Received(m) => metrics_in(events.drop_last()).push(m),
            _ => metrics_in(events.drop_last()),
        }
    }
}

/// A loop that has gathered nothing.
pub open spec fn plot_start() -> PlotView {
    PlotView { phase: PlotPhase::Waiting, gathered: Seq::empty() }
}

/// Until the loop is over, it has gathered all metrics that came, each once and in order.
pub proof fn law_everything_received_is_gathered(events: Seq<PlotEvent>)
    requires
        events.len() > 0 ==> plot_after(plot_start(), events.drop_last()).phase
            != PlotPhase::Closed,
    ensures
        plot_after(plot_start(), events).gathered == metrics_in(events),
    decreases events.len(),
{
    if events.len() > 0 {
        let before = events.drop_last();
        if before.len() > 0 && plot_after(plot_start(), before.drop_last()).phase
            == PlotPhase::Closed {
            assert(plot_after(plot_start(), before).phase == PlotPhase::Closed);
        }
        law_everything_received_is_gathered(before);
    }
}

/// The loop ends only after the stop flag was seen up in a quiet moment and no metrics were left.
pub proof fn law_gathering_ends_only_on_stop(events: Seq<PlotEvent>)
    requires
        plot_after(plot_start(), events).phase == PlotPhase::Closed,
    ensures
        exists|i: int, j: int|
            0 <= i < j < events.len() && #[trigger] events[i] == (PlotEvent::Timeout { stop: true })
                && #[trigger] events[j] == PlotEvent::QueueEmpty,
    decreases events.len(),
{
    let before = events.drop_last();
    let was = plot_after(plot_start(), before);
    if was.phase == PlotPhase::Closed {
        law_gathering_ends_only_on_stop(before);
        let (i, j) = choose|i: int, j: int|
            0 <= i < j < before.len() && #[trigger] before[i] == (PlotEvent::Timeout { stop: true })
                && #[trigger] before[j] == PlotEvent::QueueEmpty;
        assert(events[i] == before[i] && events[j] == before[j]);
    } else {
        assert(was.phase == PlotPhase::Draining);
        lemma_draining_follows_stop(before);
        let i = choose|i: int|
            0 <= i < before.len() && #[trigger] before[i] == (PlotEvent::Timeout { stop: true });
        assert(events[i] == before[i]);
        assert(events[events.len() - 1] == PlotEvent::QueueEmpty);
    }
}

proof fn lemma_draining_follows_stop(events: Seq<PlotEvent>)
    requires
        plot_after(plot_start(), events).phase == PlotPhase::Draining,
    ensures
        exists|i: int|
            0 <= i < events.len() && #[trigger] events[i] == (PlotEvent::Timeout { stop: true }),
    decreases events.len(),
{
    let before = events.drop_last();
    if plot_after(plot_start(), before).phase == PlotPhase::Draining {
        lemma_draining_follows_stop(before);
        let i = choose|i: int|
            0 <= i < before.len() && #[trigger] before[i] == (PlotEvent::Timeout { stop: true });
        assert(events[i] == before[i]);
    } else {
        assert(events[events.len() - 1] == (PlotEvent::Timeout { stop: true }));
    }
}

/// Once the loop is over, what it has gathered no longer changes.
pub proof fn law_a_closed_loop_keeps_what_it_gathered(plot: PlotView, events: Seq<PlotEvent>)
    requires
        plot.phase == PlotPhase::Closed,
    ensures
        plot_after(plot, events) == plot,
    decreases events.len(),
{
    if events.len() > 0 {
        law_a_closed_loop_keeps_what_it_gathered(plot, events.drop_last());
    }
}

/// Every point of a chart lies inside its axes: left of the end of the horizontal one and not
/// above the peak, which is never below the axis number one.
pub proof fn law_points_stay_inside_the_axes(column: Column, metrics: Seq<Metrics>)
    requires
        metrics.len() <= usize::MAX,
    ensures
        ({
            let unit = column.unit_spec();
            let points = crate::chart::points_of(column.of_all(metrics));
            let peak = crate::chart::plot_peak_of(column.of_all(metrics), unit);
            &&& points.len() == metrics.len()
            &&& peak >= unit.one_spec()
            &&& forall|i: int|
                0 <= i < points.len() ==> (#[trigger] points[i]).0 == i && points[i].0
                    < metrics.len() && points[i].1 == column.of(metrics[i]) && unit.rank_spec(
                    points[i].1,
                ) <= peak
        }),
{
    let unit = column.unit_spec();
    let values = column.of_all(metrics);
    crate::chart::law_peak_is_the_maximum(values, unit);
    assert forall|i: int| 0 <= i < values.len() implies unit.rank_spec(values[i])
        <= crate::chart::plot_peak_of(values, unit)
        && #[trigger] crate::chart::points_of(values)[i].1 == values[i] by {
        assert(unit.rank_spec(values[i]) <= crate::chart::peak_of(values, unit));
    }
}

/// The chart of a run that goes on begins with the points of the shorter run, and its peak is no
/// lower; where no new value ranks above the old peak, the peak is the same.
pub proof fn law_a_longer_run_extends_the_chart(
    column: Column,
    run: Seq<Metrics>,
    more: Seq<Metrics>,
)
    ensures
        ({
            let unit = column.unit_spec();
            let points = crate::chart::points_of(column.of_all(run));
            let all_points = crate::chart::points_of(column.of_all(run + more));
            let peak = crate::chart::plot_peak_of(column.of_all(run), unit);
            let all_peak = crate::chart::plot_peak_of(column.of_all(run + more), unit);
            &&& all_points.len() == run.len() + more.len()
            &&& all_points.take(run.len() as int) == points
            &&& peak <= all_peak
            &&& (forall|i: int|
                0 <= i < more.len() ==> unit.rank_spec(column.of(#[trigger] more[i])) <= peak)
                ==> all_peak == peak
        }),
{
    let unit = column.unit_spec();
    let old_values = column.of_all(run);
    let new_values = column.of_all(more);
    let all = column.of_all(run + more);
    let peak = crate::chart::plot_peak_of(old_values, unit);
    assert(all =~= old_values + new_values);
    assert(crate::chart::points_of(all).take(run.len() as int) =~= crate::chart::points_of(
        old_values,
    ));
    crate::chart::law_more_values_never_lower_the_peak(old_values, new_values, unit);
    crate::chart::law_peak_is_the_maximum(all, unit);
    crate::chart::law_peak_is_the_maximum(old_values, unit);
    if (forall|i: int|
        0 <= i < more.len() ==> unit.rank_spec(column.of(#[trigger] more[i])) <= peak)
        && crate::chart::peak_of(all, unit) != 0 {
        let k = choose|k: int|
            0 <= k < all.len() && unit.rank_spec(#[trigger] all[k]) == crate::chart::peak_of(
                all,
                unit,
            );
        if k < run.len() {
            assert(all[k] == old_values[k]);
        } else {
            assert(all[k] == column.of(more[k - run.len()]));
        }
    }
}

/// What a chart of a plot says of the run that it shows: one point for each second, at the
/// second's position and at the height of its quantity, and axes that fit them, the vertical one
/// by the highest value or by one.
pub proof fn law_a_plot_chart_shows_every_second(
    chart: PlotChart,
    column: Column,
    metrics: Seq<Metrics>,
)
    requires
        chart.shows(column, metrics),
    ensures
        chart.caption@ == column.caption_spec(),
        chart.label@ == column.label_spec(),
        chart.color == column.color_spec(),
        chart.unit == column.unit_spec(),
        chart.x_end == metrics.len(),
        chart.points@.len() == metrics.len(),
        forall|i: int|
            0 <= i < metrics.len() ==> (#[trigger] chart.points@[i]).0 == i && chart.points@[i].1
                == column.of(metrics[i]),
        chart.y_peak >= column.unit_spec().one_spec(),
        forall|i: int|
            0 <= i < metrics.len() ==> column.unit_spec().rank_spec(
                column.of(#[trigger] metrics[i]),
            ) <= chart.y_peak,
        chart.y_peak == column.unit_spec().one_spec() || exists|i: int|
            0 <= i < metrics.len() && column.unit_spec().rank_spec(
                column.of(#[trigger] metrics[i]),
            ) == chart.y_peak,
{
    let unit = column.unit_spec();
    let values = column.of_all(metrics);
    crate::chart::law_plot_axis_fits_the_values(values, unit);
    crate::chart::law_lines_join_neighbouring_values(values);
    assert forall|i: int| 0 <= i < metrics.len() implies unit.rank_spec(
        column.of(#[trigger] metrics[i]),
    ) <= chart.y_peak by {
        assert(unit.rank_spec(values[i]) <= chart.y_peak);
    }
    if chart.y_peak != unit.one_spec() {
        let k = choose|k: int|
            0 <= k < values.len() && unit.rank_spec(#[trigger] values[k]) == chart.y_peak;
        assert(unit.rank_spec(column.of(metrics[k])) == chart.y_peak);
    }
    assert forall|i: int| 0 <= i < metrics.len() implies (#[trigger] chart.points@[i]).0 == i
        && chart.points@[i].1 == column.of(metrics[i]) by {
        assert(crate::chart::points_of(values)[i].1 == values[i]);
    }
}

/// Quiet moments in which the stop flag is down.
pub open spec fn quiet_moments(n: nat) -> Seq<PlotEvent> {
    Seq::new(n, |i: int| PlotEvent::Timeout { stop: false })
}

/// The arrival of each of a series of metrics, after `quiet` moments each.
pub open spec fn plot_arrivals(metrics: Seq<Metrics>, quiet: nat) -> Seq<PlotEvent>
    decreases metrics.len(),
{
    if metrics.len() == 0 {
        quiet_moments(quiet)
    } else {
        plot_arrivals(metrics.drop_last(), quiet).push(PlotEvent::Received(metrics.last()))
            + quiet_moments(quiet)
    }
}

proof fn lemma_quiet(plot: PlotView, n: nat)
    requires
        plot.phase == PlotPhase::Waiting,
    ensures
        plot_after(plot, quiet_moments(n)) == plot,
    decreases n,
{
    if n > 0 {
        lemma_quiet(plot, (n - 1) as nat);
        assert(quiet_moments(n).drop_last() =~= quiet_moments((n - 1) as nat));
    }
}

proof fn lemma_plot_concatenated(plot: PlotView, first: Seq<PlotEvent>, next: Seq<PlotEvent>)
    ensures
        plot_after(plot, first + next) == plot_after(plot_after(plot, first), next),
    decreases next.len(),
{
    if next.len() == 0 {
        assert(first + next =~= first);
    } else {
        lemma_plot_concatenated(plot, first, next.drop_last());
        assert((first + next).drop_last() =~= first + next.drop_last());
    }
}

/// A loop that waits gathers every arrival and goes on waiting, however many quiet moments lie
/// between.
pub proof fn law_waiting_gathers_every_arrival(
    plot: PlotView,
    metrics: Seq<Metrics>,
    quiet: nat,
)
    requires
        plot.phase == PlotPhase::Waiting,
    ensures
        ({
            let now = plot_after(plot, plot_arrivals(metrics, quiet));
            &&& now.phase == PlotPhase::Waiting
            &&& now.pending() == PlotAction::Wait
            &&& now.gathered == plot.gathered + metrics
        }),
    decreases metrics.len(),
{
    lemma_quiet(plot, quiet);
    if metrics.len() == 0 {
        assert(plot.gathered + metrics =~= plot.gathered);
    } else {
        let before = plot_arrivals(metrics.drop_last(), quiet);
        law_waiting_gathers_every_arrival(plot, metrics.drop_last(), quiet);
        let arrived = before.push(PlotEvent::Received(metrics.last()));
        assert(arrived.drop_last() =~= before);
        let now = plot_after(plot, arrived);
        assert(now.gathered =~= plot.gathered + metrics);
        lemma_quiet(now, quiet);
        lemma_plot_concatenated(plot, arrived, quiet_moments(quiet));
    }
}

/// Once the stop flag is seen up in a quiet moment, the loop takes everything that is still
/// waiting and then closes; what it has gathered is everything, in order.
pub proof fn law_stopping_takes_what_is_left(
    plot: PlotView,
    rest: Seq<Metrics>,
)
    requires
        plot.phase == PlotPhase::Waiting,
    ensures
        ({
            let stopped = plot.after(PlotEvent::Timeout { stop: true });
            let drained = plot_after(
                stopped,
                rest.map_values(|m: Metrics| PlotEvent::Received(m)),
            );
            &&& stopped.pending() == PlotAction::Receive
            &&& stopped.gathered == plot.gathered
            &&& drained.pending() == PlotAction::Receive
            &&& drained.gathered == plot.gathered + rest
            &&& drained.after(PlotEvent::QueueEmpty).pending() == PlotAction::Close
            &&& drained.after(PlotEvent::QueueEmpty).gathered == plot.gathered + rest
        }),
    decreases rest.len(),
{
    let f = |m: Metrics| PlotEvent::Received(m);
    let stopped = plot.after(PlotEvent::Timeout { stop: true });
    if rest.len() == 0 {
        assert(rest.map_values(f) =~= Seq::empty());
        assert(plot.gathered + rest =~= plot.gathered);
    } else {
        law_stopping_takes_what_is_left(plot, rest.drop_last());
        assert(rest.map_values(f).drop_last() =~= rest.drop_last().map_values(f));
        assert(rest.map_values(f).last() == PlotEvent::Received(rest.last()));
        assert(plot_after(stopped, rest.map_values(f)).gathered =~= plot.gathered + rest);
    }
}

/// What the loop does not wait for changes nothing: an empty queue while it waits, a timeout
/// while it drains, and anything once it has closed.
pub proof fn law_other_events_change_nothing(plot: PlotView, stop: bool, m: Metrics)
    ensures
        plot.phase == PlotPhase::Waiting ==> plot.after(PlotEvent::QueueEmpty) == plot,
        plot.phase == PlotPhase::Draining ==> plot.after(PlotEvent::Timeout { stop }) == plot,
        plot.phase == PlotPhase::Closed ==> {
            &&& plot.pending() == PlotAction::Close
            &&& plot.after(PlotEvent::QueueEmpty) == plot
            &&& plot.after(PlotEvent::Timeout { stop }) == plot
            &&& plot.after(PlotEvent::Received(m)) == plot
        },
{
}

/// The loop that the laws speak of is the one at hand.
pub proof fn law_the_view_is_the_loop(plot: &PlotLoop)
    ensures
        plot@.phase == plot.phase,
        plot@.gathered == plot.gathered@,
{
}

} // verus!
