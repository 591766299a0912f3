use efbench_client::chart::{
    make_canvas, series_peak, series_points, Segment, SeriesColor, Unit, YBound, MAX_POINTS,
};
use efbench_client::column::Column;
use efbench_client::dashboard::{header, Dashboard, Readouts};
use efbench_client::live::AppData;
use efbench_client::plot::{
    legend_line, plot_charts, plot_path, saved_message, PlotAction, PlotEvent, PlotLoop, PlotPhase,
};
use efbench_client::report::{Latency, Metrics};
use std::collections::VecDeque;

fn second(latency: f64, req_count: u64, rx_bytes: u64, tx_bytes: u64) -> Metrics {
    Metrics { avg_latency_us: Latency { bits: latency.to_bits() }, req_count, rx_bytes, tx_bytes }
}

#[test]
fn points_and_peak_of_a_series() {
    let series = VecDeque::from(vec![3, 9, 4]);
    assert_eq!(series_points(&series), [(0, 3), (1, 9), (2, 4)]);
    assert_eq!(series_peak(&series, Unit::Count), 9);
    let empty = VecDeque::new();
    assert!(series_points(&empty).is_empty());
    assert_eq!(series_peak(&empty, Unit::Count), 0);
}

#[test]
fn the_peak_of_latency_bits_is_the_peak_of_the_numbers() {
    let series = [
        vec![0.0, 3.25, 1e9, 17.5, 999_999_999.5],
        vec![-5.0, 2.0, -1e300],
        vec![-5.0, -0.0],
        vec![f64::NAN, 4.0, -f64::NAN],
        vec![1.0, f64::INFINITY, f64::NEG_INFINITY],
        vec![f64::MIN_POSITIVE, 5e-324],
        vec![],
    ];
    for numbers in series {
        let bits: VecDeque<u64> = numbers.iter().map(|n: &f64| n.to_bits()).collect();
        let expected = numbers.iter().cloned().fold(0.0_f64, f64::max);
        assert_eq!(f64::from_bits(series_peak(&bits, Unit::Latency)), expected, "{numbers:?}");
    }
    assert_eq!(series_peak(&VecDeque::from(vec![u64::MAX]), Unit::Mebibytes), u64::MAX);
}

#[test]
fn only_numbers_above_zero_rank_above_zero() {
    for number in [0.0f64, -0.0, -5.0, f64::NEG_INFINITY, f64::NAN, -f64::NAN] {
        assert_eq!(Unit::Latency.rank(number.to_bits()), 0);
        assert_eq!(Unit::Latency.at_most_zero(number.to_bits()), number <= 0.0);
    }
    for number in [5e-324f64, 1.0, f64::MAX, f64::INFINITY] {
        assert_eq!(Unit::Latency.rank(number.to_bits()), number.to_bits());
        assert!(!Unit::Latency.at_most_zero(number.to_bits()));
    }
    assert_eq!(Unit::Count.rank(u64::MAX), u64::MAX);
    assert!(Unit::Count.at_most_zero(0) && !Unit::Count.at_most_zero(u64::MAX));
    assert!(Unit::Mebibytes.at_most_zero(0) && !Unit::Mebibytes.at_most_zero(1 << 63));
}

#[test]
fn a_negative_latency_leaves_the_axes_at_one() {
    let bits = (-5.0f64).to_bits();
    let plan = make_canvas(String::new(), vec![(0, bits)], bits, Unit::Latency, SeriesColor::Cyan);
    assert_eq!(plan.y_bound, YBound::One);
    let charts = plot_charts(&[second(-5.0, 0, 0, 0)]);
    assert_eq!(f64::from_bits(charts.latency.y_peak), 1.0);
    assert_eq!(charts.latency.points, [(0, bits)]);
    let mut app = AppData::new(String::new(), 1);
    app.push_metrics(second(-5.0, 0, 0, 0));
    let readouts = Readouts { latency: String::new(), rx: String::new(), tx: String::new() };
    assert_eq!(Dashboard::new(&app, &readouts).latency.y_bound, YBound::One);
}

#[test]
fn a_longer_run_extends_the_charts() {
    let short = [second(20.0, 5, 3 << 20, 1), second(10.0, 9, 1 << 20, 1)];
    let long = [short[0], short[1], second(15.0, 30, 3 << 20, 0)];
    let old = plot_charts(&short);
    let new = plot_charts(&long);
    assert_eq!(new.latency.points[..2], old.latency.points[..]);
    assert_eq!(new.throughput.points[..2], old.throughput.points[..]);
    assert_eq!(new.rx.points[..2], old.rx.points[..]);
    assert_eq!(new.tx.points[..2], old.tx.points[..]);
    assert_eq!(new.latency.y_peak, old.latency.y_peak);
    assert_eq!((old.throughput.y_peak, new.throughput.y_peak), (9, 30));
    assert_eq!(new.rx.y_peak, old.rx.y_peak);
    assert_eq!(new.tx.y_peak, old.tx.y_peak);
}

#[test]
fn a_canvas_joins_its_points() {
    let plan = make_canvas(String::from("t"), vec![(0, 3), (1, 9), (2, 4)], 9, Unit::Count, SeriesColor::Green);
    assert_eq!(plan.title, "t");
    assert_eq!(plan.color, SeriesColor::Green);
    assert_eq!(plan.unit, Unit::Count);
    assert_eq!(plan.x_max, MAX_POINTS);
    assert_eq!(plan.y_bound, YBound::TenthAbove(9));
    assert_eq!(
        plan.segments,
        [Segment { x1: 0, y1: 3, x2: 1, y2: 9 }, Segment { x1: 1, y1: 9, x2: 2, y2: 4 }]
    );
}

#[test]
fn a_flat_canvas_ends_at_one_and_a_short_one_has_no_lines() {
    let plan = make_canvas(String::new(), vec![(0, 0)], 0, Unit::Mebibytes, SeriesColor::Cyan);
    assert_eq!(plan.y_bound, YBound::One);
    assert!(plan.segments.is_empty());
    let plan = make_canvas(String::new(), vec![], 0, Unit::Mebibytes, SeriesColor::Cyan);
    assert!(plan.segments.is_empty());
}

#[test]
fn units_know_their_one() {
    assert_eq!(f64::from_bits(Unit::Latency.one()), 1.0);
    assert_eq!(Unit::Count.one(), 1);
    assert_eq!(Unit::Mebibytes.one() as f64 / (1024.0 * 1024.0), 1.0);
}

#[test]
fn columns_read_their_quantity() {
    let m = second(1.5, 2, 3, 4);
    assert_eq!(Column::Latency.value(&m), 1.5f64.to_bits());
    assert_eq!(Column::Throughput.value(&m), 2);
    assert_eq!(Column::Rx.value(&m), 3);
    assert_eq!(Column::Tx.value(&m), 4);
    assert_eq!(Column::Tx.title("0.5"), "TX (MiB/s)  [cur: 0.5]");
}

#[test]
fn the_header_in_words() {
    let mut app = AppData::new(String::from("10.0.0.1"), 50051);
    app.push_metrics(second(123.4, 8100, 1_572_864, 0));
    let readouts =
        Readouts { latency: String::from("123"), rx: String::from("1.5"), tx: String::from("0.0") };
    assert_eq!(
        header(&app, &readouts),
        " 10.0.0.1:50051  |  Latency: 123μs  |  Throughput: 8100 req/s  |  RX: 1.5 MiB/s  TX: 0.0 MiB/s"
    );
}

#[test]
fn the_dashboard_shows_all_series() {
    let mut app = AppData::new(String::from("h"), 1);
    app.push_metrics(second(100.0, 5, 10, 0));
    app.push_metrics(second(50.0, 7, 30, 0));
    let readouts =
        Readouts { latency: String::from("50"), rx: String::from("0.0"), tx: String::from("0.1") };
    let screen = Dashboard::new(&app, &readouts);
    assert_eq!(screen.title, " efbench - Live Benchmark ");
    assert_eq!(screen.footer, " Press 'q' to quit ");
    assert_eq!(screen.header, header(&app, &readouts));
    assert_eq!(screen.latency.title, "Latency (μs)  [cur: 50]");
    assert_eq!(screen.latency.color, SeriesColor::Cyan);
    assert_eq!(screen.latency.unit, Unit::Latency);
    assert_eq!(screen.latency.y_bound, YBound::TenthAbove(100.0f64.to_bits()));
    assert_eq!(
        screen.latency.segments,
        [Segment { x1: 0, y1: 100.0f64.to_bits(), x2: 1, y2: 50.0f64.to_bits() }]
    );
    assert_eq!(screen.throughput.title, "Throughput (req/s)  [cur: 7]");
    assert_eq!(screen.throughput.color, SeriesColor::Green);
    assert_eq!(screen.throughput.y_bound, YBound::TenthAbove(7));
    assert_eq!(screen.rx.title, "RX (MiB/s)  [cur: 0.0]");
    assert_eq!(screen.rx.color, SeriesColor::Yellow);
    assert_eq!(screen.rx.segments, [Segment { x1: 0, y1: 10, x2: 1, y2: 30 }]);
    assert_eq!(screen.tx.title, "TX (MiB/s)  [cur: 0.1]");
    assert_eq!(screen.tx.color, SeriesColor::Magenta);
    assert_eq!(screen.tx.y_bound, YBound::One);
}

#[test]
fn the_charts_of_a_run() {
    let run = [second(250.0, 10, 5 << 20, 1), second(300.5, 0, 2 << 20, 2)];
    let charts = plot_charts(&run);
    assert_eq!(charts.latency.caption, "Latency (μs)");
    assert_eq!(charts.latency.label, "latency");
    assert_eq!(charts.latency.color, SeriesColor::Cyan);
    assert_eq!(charts.latency.x_end, 2);
    assert_eq!(f64::from_bits(charts.latency.y_peak), 300.5);
    assert_eq!(charts.latency.points, [(0, 250.0f64.to_bits()), (1, 300.5f64.to_bits())]);
    assert_eq!(charts.throughput.caption, "Throughput (req/s)");
    assert_eq!(charts.throughput.label, "throughput");
    assert_eq!(charts.throughput.y_peak, 10);
    assert_eq!(charts.rx.caption, "RX (MiB/s)");
    assert_eq!(charts.rx.label, "RX");
    assert_eq!(charts.rx.y_peak, 5 << 20);
    assert_eq!(charts.rx.points, [(0, 5 << 20), (1, 2 << 20)]);
    assert_eq!(charts.tx.caption, "TX (MiB/s)");
    assert_eq!(charts.tx.label, "TX");
    assert_eq!(charts.tx.color, SeriesColor::Magenta);
    assert_eq!(charts.tx.y_peak, 1 << 20);
}

#[test]
fn an_empty_run_has_axes_up_to_one() {
    let charts = plot_charts(&[]);
    assert_eq!(f64::from_bits(charts.latency.y_peak), 1.0);
    assert_eq!(charts.throughput.y_peak, 1);
    assert_eq!(charts.rx.y_peak, 1 << 20);
    assert_eq!(charts.tx.x_end, 0);
    assert!(charts.tx.points.is_empty());
}

#[test]
fn integer_peaks_are_the_peaks_of_the_drawn_numbers() {
    let run = [second(0.4, 3, 700, 9_000_000), second(0.9, 1, 800, 12), second(0.0, 2, 0, 8_999_999)];
    let charts = plot_charts(&run);
    let latency = run.iter().map(|m| f64::from_bits(m.avg_latency_us.bits)).fold(0.0, f64::max).max(1.0);
    assert_eq!(f64::from_bits(charts.latency.y_peak), latency);
    let requests = run.iter().map(|m| m.req_count as f64).fold(0.0, f64::max).max(1.0);
    assert_eq!(charts.throughput.y_peak as f64, requests);
    let rx = run.iter().map(|m| m.rx_bytes as f64 / (1024.0 * 1024.0)).fold(0.0, f64::max).max(1.0);
    assert_eq!(charts.rx.y_peak as f64 / (1024.0 * 1024.0), rx);
    let tx = run.iter().map(|m| m.tx_bytes as f64 / (1024.0 * 1024.0)).fold(0.0, f64::max).max(1.0);
    assert_eq!(charts.tx.y_peak as f64 / (1024.0 * 1024.0), tx);
}

#[test]
fn plot_texts_and_legend() {
    assert_eq!(plot_path("benchmark_output"), "benchmark_output.png");
    assert_eq!(saved_message("out.png"), "Plot saved to out.png");
    assert_eq!(legend_line(5, -2), [(5, -2), (25, -2)]);
}

#[test]
fn gathering_keeps_everything_until_stopped() {
    let a = second(1.0, 1, 1, 1);
    let b = second(2.0, 2, 2, 2);
    let c = second(3.0, 3, 3, 3);
    let mut plot = PlotLoop::new();
    assert_eq!(plot.pending(), PlotAction::Wait);
    assert_eq!(plot.step(PlotEvent::Received(a)), PlotAction::Wait);
    assert_eq!(plot.step(PlotEvent::Timeout { stop: false }), PlotAction::Wait);
    assert_eq!(plot.step(PlotEvent::QueueEmpty), PlotAction::Wait);
    assert_eq!(plot.step(PlotEvent::Received(b)), PlotAction::Wait);
    assert_eq!(plot.step(PlotEvent::Timeout { stop: true }), PlotAction::Receive);
    assert_eq!(plot.step(PlotEvent::Received(c)), PlotAction::Receive);
    assert_eq!(plot.step(PlotEvent::QueueEmpty), PlotAction::Close);
    assert_eq!(plot.step(PlotEvent::Received(a)), PlotAction::Close);
    assert_eq!(plot.phase, PlotPhase::Closed);
    assert_eq!(plot.gathered, [a, b, c]);
}

#[test]
fn lines_and_points_stay_inside_their_axes() {
    let mut app = AppData::new(String::new(), 1);
    let mut run = Vec::new();
    for n in 0..200u64 {
        let m = second((n % 17) as f64, n * 31 % 101, n * n, 7);
        app.push_metrics(m);
        run.push(m);
    }
    let readouts = Readouts { latency: String::new(), rx: String::new(), tx: String::new() };
    let screen = Dashboard::new(&app, &readouts);
    for plan in [&screen.latency, &screen.throughput, &screen.rx, &screen.tx] {
        let peak = match plan.y_bound {
            YBound::TenthAbove(peak) => peak,
            YBound::One => panic!("a peak of zero"),
        };
        assert_eq!(plan.segments.len(), 119);
        for (i, line) in plan.segments.iter().enumerate() {
            assert_eq!((line.x1, line.x2), (i, i + 1));
            assert!(line.x2 < plan.x_max && line.y1 <= peak && line.y2 <= peak);
        }
    }
    let charts = plot_charts(&run);
    for chart in [&charts.latency, &charts.throughput, &charts.rx, &charts.tx] {
        assert_eq!(chart.points.len(), 200);
        assert!(chart.y_peak >= chart.unit.one());
        for (i, &(x, y)) in chart.points.iter().enumerate() {
            assert!(x == i && x < chart.x_end && y <= chart.y_peak);
        }
    }
}
