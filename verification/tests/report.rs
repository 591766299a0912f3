use efbench_client::bench::BenchState;
use efbench_client::report::{
    Latency, Metrics, Reporter, ReporterAction, ReporterEvent, ReporterPhase, Sample,
};

fn report(reporter: &mut Reporter, state: &mut BenchState, rx: u64, tx: u64) -> Sample {
    assert_eq!(reporter.step(ReporterEvent::Tick { stop: false }, state), ReporterAction::ReadCounters);
    match reporter.step(ReporterEvent::Counters { rx, tx }, state) {
        ReporterAction::Send(sample) => sample,
        other => panic!("{other:?}"),
    }
}

#[test]
fn a_report_drains_the_counters_and_measures_traffic() {
    let mut state = BenchState { total_latency_us: 900, req_count: 3 };
    let mut reporter = Reporter::new(1000, 2000);
    assert_eq!(reporter.pending(), ReporterAction::AwaitTick);
    let sample = report(&mut reporter, &mut state, 1500, 2001);
    assert_eq!(sample, Sample { total_latency_us: 900, req_count: 3, rx_bytes: 500, tx_bytes: 1 });
    assert_eq!(state, BenchState::default());
    let sample = report(&mut reporter, &mut state, 1600, 2001);
    assert_eq!(sample, Sample { total_latency_us: 0, req_count: 0, rx_bytes: 100, tx_bytes: 0 });
}

#[test]
fn a_fallen_counter_is_no_traffic() {
    let mut state = BenchState::default();
    let mut reporter = Reporter::new(1000, 2000);
    let sample = report(&mut reporter, &mut state, 10, 2500);
    assert_eq!((sample.rx_bytes, sample.tx_bytes), (0, 500));
    let sample = report(&mut reporter, &mut state, 15, 2500);
    assert_eq!((sample.rx_bytes, sample.tx_bytes), (5, 0));
}

#[test]
fn reported_bytes_sum_to_the_distance() {
    let mut state = BenchState::default();
    let mut reporter = Reporter::new(100, 7);
    let mut rx = 0;
    let mut tx = 0;
    for (now_rx, now_tx) in [(120, 7), (120, 9), (500, 100)] {
        let sample = report(&mut reporter, &mut state, now_rx, now_tx);
        rx += sample.rx_bytes;
        tx += sample.tx_bytes;
    }
    assert_eq!((rx, tx), (400, 93));
}

#[test]
fn every_reply_is_reported_once() {
    let mut state = BenchState::default();
    let mut reporter = Reporter::new(0, 0);
    let mut count = 0;
    let mut latency = 0;
    for (second, replies) in [3u64, 0, 5].into_iter().enumerate() {
        for _ in 0..replies {
            state.record(10);
        }
        let sample = report(&mut reporter, &mut state, second as u64, 0);
        count += sample.req_count;
        latency += sample.total_latency_us;
    }
    state.record(4);
    assert_eq!((count + state.req_count, latency + state.total_latency_us), (9, 84));
}

#[test]
fn stop_closes_the_reporter() {
    let mut state = BenchState { total_latency_us: 1, req_count: 1 };
    let mut reporter = Reporter::new(0, 0);
    assert_eq!(reporter.step(ReporterEvent::Tick { stop: true }, &mut state), ReporterAction::Close);
    assert_eq!(reporter.step(ReporterEvent::Counters { rx: 5, tx: 5 }, &mut state), ReporterAction::Close);
    assert_eq!(reporter.phase, ReporterPhase::Closed);
    assert_eq!(state.req_count, 1);
}

#[test]
fn the_mean_is_a_quotient_only_with_requests() {
    let sample = Sample { total_latency_us: 900, req_count: 3, rx_bytes: 5, tx_bytes: 6 };
    assert_eq!(sample.mean_latency(), Some((900, 3)));
    let metrics = sample.metrics(Latency { bits: 300.0f64.to_bits() });
    assert_eq!(
        metrics,
        Metrics { avg_latency_us: Latency { bits: 300.0f64.to_bits() }, req_count: 3, rx_bytes: 5, tx_bytes: 6 }
    );
    assert_eq!(Sample { req_count: 0, ..sample }.mean_latency(), None);
}

#[test]
fn latency_bits_order_as_the_numbers() {
    let numbers = [0.0f64, 0.25, 0.5, 1.0, 1.5, 99.9, 100.0, 1e6, 1.8e19];
    for pair in numbers.windows(2) {
        assert!(pair[0].to_bits() < pair[1].to_bits());
    }
}

#[test]
fn one_fallen_counter_does_not_spoil_the_other() {
    let mut state = BenchState::default();
    let mut reporter = Reporter::new(100, 100);
    let mut rx = 0;
    let mut tx = 0;
    for (now_rx, now_tx) in [(150, 10), (150, 70), (400, 80)] {
        let sample = report(&mut reporter, &mut state, now_rx, now_tx);
        rx += sample.rx_bytes;
        tx += sample.tx_bytes;
    }
    assert_eq!(rx, 400 - 100);
    assert_eq!(tx, 70);
}

#[test]
fn counts_stay_exact_where_latencies_wrap() {
    let mut state = BenchState::default();
    let mut reporter = Reporter::new(0, 0);
    state.record(u64::MAX);
    state.record(3);
    let sample = report(&mut reporter, &mut state, 0, 0);
    state.record(1);
    assert_eq!(sample.req_count + state.req_count, 3);
    assert_eq!(sample.total_latency_us, 2);
}
