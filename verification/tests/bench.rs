use efbench_client::bench::{BenchAction, BenchEvent, BenchLoop, BenchPhase, BenchState, Ping};

fn open_loop(state: &mut BenchState) -> BenchLoop {
    let mut bench = BenchLoop::new();
    assert_eq!(bench.pending(), BenchAction::Connect);
    assert_eq!(bench.step(BenchEvent::Connected, state), BenchAction::OpenStream);
    assert_eq!(bench.step(BenchEvent::StreamOpened, state), BenchAction::ReadStop);
    bench
}

fn ping(bench: &mut BenchLoop, state: &mut BenchState, seq: u64, micros: u128) {
    assert_eq!(bench.step(BenchEvent::StopFlag(false), state), BenchAction::Send(Ping { seq, sent_ns: 0 }));
    assert_eq!(bench.step(BenchEvent::Sent, state), BenchAction::AwaitReply);
    assert_eq!(bench.step(BenchEvent::Reply { micros }, state), BenchAction::ReadStop);
}

#[test]
fn replies_are_counted_and_pings_numbered() {
    let mut state = BenchState::default();
    let mut bench = open_loop(&mut state);
    ping(&mut bench, &mut state, 0, 100);
    ping(&mut bench, &mut state, 1, 250);
    ping(&mut bench, &mut state, 2, 7);
    assert_eq!(state, BenchState { total_latency_us: 357, req_count: 3 });
    assert_eq!(bench.seq, 3);
    assert_eq!(bench.step(BenchEvent::StopFlag(true), &mut state), BenchAction::Close);
    assert_eq!(bench.phase, BenchPhase::Closed);
}

#[test]
fn a_finished_loop_ignores_everything() {
    let mut state = BenchState::default();
    let mut bench = open_loop(&mut state);
    bench.step(BenchEvent::StopFlag(true), &mut state);
    assert_eq!(bench.step(BenchEvent::StopFlag(false), &mut state), BenchAction::Close);
    assert_eq!(bench.step(BenchEvent::Reply { micros: 9 }, &mut state), BenchAction::Close);
    assert_eq!(state, BenchState { total_latency_us: 0, req_count: 0 });
}

#[test]
fn an_event_that_answers_nothing_changes_nothing() {
    let mut state = BenchState::default();
    let mut bench = open_loop(&mut state);
    assert_eq!(bench.step(BenchEvent::Reply { micros: 9 }, &mut state), BenchAction::ReadStop);
    assert_eq!(bench.seq, 0);
    assert_eq!(state.req_count, 0);
}

#[test]
fn each_failure_before_a_reply_fails_the_loop() {
    let mut state = BenchState::default();
    let mut bench = BenchLoop::new();
    assert_eq!(bench.step(BenchEvent::ConnectFailed, &mut state), BenchAction::Fail);

    let mut bench = BenchLoop::new();
    bench.step(BenchEvent::Connected, &mut state);
    assert_eq!(bench.step(BenchEvent::OpenFailed, &mut state), BenchAction::Fail);

    let mut bench = open_loop(&mut state);
    bench.step(BenchEvent::StopFlag(false), &mut state);
    assert_eq!(bench.step(BenchEvent::SendFailed, &mut state), BenchAction::Fail);
    assert_eq!(bench.phase, BenchPhase::Failed);
    assert_eq!(bench.pending(), BenchAction::Fail);
}

#[test]
fn the_end_of_the_stream_closes_and_an_error_is_reported() {
    let mut state = BenchState::default();
    let mut bench = open_loop(&mut state);
    bench.step(BenchEvent::StopFlag(false), &mut state);
    bench.step(BenchEvent::Sent, &mut state);
    let mut other = bench;
    assert_eq!(bench.step(BenchEvent::EndOfStream, &mut state), BenchAction::Close);
    assert_eq!(other.step(BenchEvent::StreamError, &mut state), BenchAction::ReportAndClose);
    assert_eq!(other.phase, BenchPhase::Closed);
    assert_eq!(state.req_count, 0);
}

#[test]
fn counters_wrap_and_drain() {
    let mut state = BenchState { total_latency_us: u64::MAX, req_count: u64::MAX };
    state.record(5);
    assert_eq!(state, BenchState { total_latency_us: 4, req_count: 0 });
    state.record(6);
    assert_eq!(state.drain(), BenchState { total_latency_us: 10, req_count: 1 });
    assert_eq!(state, BenchState::default());
}

#[test]
fn an_elapsed_time_keeps_its_low_bits() {
    let mut state = BenchState::default();
    let mut bench = open_loop(&mut state);
    ping(&mut bench, &mut state, 0, (1u128 << 64) + 3);
    assert_eq!(state.total_latency_us, 3);
}

#[test]
fn counters_add_to_what_they_held() {
    let mut state = BenchState { total_latency_us: u64::MAX - 10, req_count: 40 };
    let mut bench = open_loop(&mut state);
    ping(&mut bench, &mut state, 0, 10);
    ping(&mut bench, &mut state, 1, 5);
    assert_eq!(state, BenchState { total_latency_us: 4, req_count: 42 });
}

#[test]
fn the_final_tally_of_pings_and_replies() {
    for (end, unanswered) in
        [(BenchEvent::StopFlag(true), 0), (BenchEvent::EndOfStream, 1), (BenchEvent::StreamError, 1)]
    {
        let mut state = BenchState::default();
        let mut bench = open_loop(&mut state);
        ping(&mut bench, &mut state, 0, 10);
        ping(&mut bench, &mut state, 1, 10);
        let mut pings = 2;
        if unanswered == 1 {
            bench.step(BenchEvent::StopFlag(false), &mut state);
            bench.step(BenchEvent::Sent, &mut state);
            pings += 1;
        }
        bench.step(end, &mut state);
        assert_eq!(bench.phase, BenchPhase::Closed);
        bench.step(BenchEvent::Reply { micros: 10 }, &mut state);
        assert_eq!(pings, state.req_count + unanswered);
    }
}
