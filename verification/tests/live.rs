use efbench_client::live::AppData;
use efbench_client::report::{Latency, Metrics};
use efbench_client::tui::{quit_requested, KeyInput, TuiAction, TuiEvent, TuiLoop, TuiPhase};

fn second(n: u64) -> Metrics {
    Metrics { avg_latency_us: Latency { bits: n }, req_count: 2 * n, rx_bytes: 3 * n, tx_bytes: 4 * n }
}

#[test]
fn a_new_view_is_empty() {
    let app = AppData::new(String::from("10.0.0.1"), 50051);
    assert_eq!(app.ip, "10.0.0.1");
    assert_eq!(app.port, 50051);
    assert!(app.latencies.is_empty() && app.throughputs.is_empty());
    assert!(app.rx_rates.is_empty() && app.tx_rates.is_empty());
    assert_eq!(app.current_latency, Latency { bits: 0 });
    assert_eq!((app.current_throughput, app.current_rx, app.current_tx), (0, 0, 0));
    assert_eq!((app.total_reqs, app.elapsed, app.connected), (0, 0, false));
}

#[test]
fn a_second_is_taken_in() {
    let mut app = AppData::new(String::new(), 1);
    app.push_metrics(second(5));
    app.push_metrics(second(7));
    assert_eq!(app.latencies, [5, 7]);
    assert_eq!(app.throughputs, [10, 14]);
    assert_eq!(app.rx_rates, [15, 21]);
    assert_eq!(app.tx_rates, [20, 28]);
    assert_eq!(app.current_latency, Latency { bits: 7 });
    assert_eq!((app.current_throughput, app.current_rx, app.current_tx), (14, 21, 28));
    assert_eq!((app.total_reqs, app.elapsed), (24, 2));
    assert!(!app.connected);
}

#[test]
fn only_the_newest_seconds_are_kept() {
    let mut app = AppData::new(String::new(), 1);
    for n in 0..120 {
        app.push_metrics(second(n));
    }
    assert_eq!(app.latencies.len(), 120);
    assert_eq!(app.latencies[0], 0);
    for n in 120..300 {
        app.push_metrics(second(n));
    }
    assert_eq!(app.latencies, (180..300).collect::<Vec<u64>>());
    assert_eq!(app.throughputs, (180..300).map(|n| 2 * n).collect::<Vec<u64>>());
    assert_eq!(app.rx_rates, (180..300).map(|n| 3 * n).collect::<Vec<u64>>());
    assert_eq!(app.tx_rates, (180..300).map(|n| 4 * n).collect::<Vec<u64>>());
    assert_eq!(app.elapsed, 300);
    assert_eq!(app.total_reqs, 2 * (299 * 300 / 2));
}

#[test]
fn receiving_marks_the_view_connected() {
    let mut app = AppData::new(String::new(), 1);
    app.receive(second(1));
    assert!(app.connected);
    app.push_metrics(second(2));
    assert!(app.connected);
    assert_eq!(app.latencies, [1, 2]);
}

#[test]
fn only_a_pressed_q_quits() {
    let q = KeyInput { pressed: true, character: Some('q') };
    assert!(quit_requested(Some(q)));
    assert!(!quit_requested(Some(KeyInput { pressed: false, ..q })));
    assert!(!quit_requested(Some(KeyInput { character: Some('Q'), ..q })));
    assert!(!quit_requested(Some(KeyInput { character: None, ..q })));
    assert!(!quit_requested(None));
}

#[test]
fn a_round_delivers_then_draws() {
    let mut tui = TuiLoop::new();
    assert_eq!(tui.pending(), TuiAction::Poll);
    assert_eq!(tui.step(TuiEvent::Polled(None)), TuiAction::Receive);
    assert_eq!(tui.step(TuiEvent::Received(second(1))), TuiAction::Deliver(second(1)));
    assert_eq!(tui.step(TuiEvent::Received(second(2))), TuiAction::Deliver(second(2)));
    assert_eq!(tui.step(TuiEvent::QueueEmpty), TuiAction::Draw);
    assert_eq!(tui.step(TuiEvent::Drawn), TuiAction::ReadStop);
    assert_eq!(tui.step(TuiEvent::StopFlag(false)), TuiAction::Poll);
}

#[test]
fn the_quit_key_raises_stop_without_drawing() {
    let mut tui = TuiLoop::new();
    let q = KeyInput { pressed: true, character: Some('q') };
    assert_eq!(tui.step(TuiEvent::Polled(Some(q))), TuiAction::StopAndClose);
    assert_eq!(tui.phase, TuiPhase::Closed);
    assert_eq!(tui.step(TuiEvent::Received(second(1))), TuiAction::Close);
    assert_eq!(tui.step(TuiEvent::Drawn), TuiAction::Close);
}

#[test]
fn the_stop_flag_ends_the_round_after_drawing() {
    let mut tui = TuiLoop::new();
    let other = KeyInput { pressed: true, character: Some('x') };
    tui.step(TuiEvent::Polled(Some(other)));
    tui.step(TuiEvent::QueueEmpty);
    tui.step(TuiEvent::Drawn);
    assert_eq!(tui.step(TuiEvent::StopFlag(true)), TuiAction::Close);
    assert_eq!(tui.pending(), TuiAction::Close);
}

#[test]
fn rounds_deliver_everything_in_order() {
    let mut tui = TuiLoop::new();
    let mut delivered = Vec::new();
    let mut draws = 0;
    for waiting in [vec![1, 2], vec![], vec![3]] {
        tui.step(TuiEvent::Polled(None));
        for n in waiting {
            if let TuiAction::Deliver(m) = tui.step(TuiEvent::Received(second(n))) {
                delivered.push(m);
            }
        }
        if tui.step(TuiEvent::QueueEmpty) == TuiAction::Draw {
            draws += 1;
        }
        tui.step(TuiEvent::Drawn);
        tui.step(TuiEvent::StopFlag(false));
    }
    let q = KeyInput { pressed: true, character: Some('q') };
    assert_eq!(tui.step(TuiEvent::Polled(Some(q))), TuiAction::StopAndClose);
    assert_eq!(tui.step(TuiEvent::Received(second(4))), TuiAction::Close);
    assert_eq!(delivered, [second(1), second(2), second(3)]);
    assert_eq!(draws, 3);
}
