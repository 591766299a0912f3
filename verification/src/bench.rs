//! The ping loop: one ping at a time is sent, and the time to its reply is added to the
//! counters that the reporter drains.
use vstd::prelude::*;

verus! {

/// How many values a `u64` can hold.
pub open spec fn u64_modulus() -> int {
    0x1_0000_0000_0000_0000
}

/// What has been measured since the counters were last drained.
#[derive(Debug, Clone, Copy, PartialEq, Eq, Structural)]
pub struct BenchState {
    pub total_latency_us: u64,
    pub req_count: u64,
}

impl Default for BenchState {
    /// Counters at zero.
    fn default() -> (state: Self)
        ensures
            state == (BenchState { total_latency_us: 0, req_count: 0 }),
    {
        BenchState { total_latency_us: 0, req_count: 0 }
    }
}

impl BenchState {
    /// The counters after one more reply. Both wrap around.
    pub open spec fn recorded(self, latency_us: u64) -> Self {
        BenchState {
            total_latency_us: ((self.total_latency_us + latency_us) % u64_modulus()) as u64,
            req_count: ((self.req_count + 1) % u64_modulus()) as u64,
        }
    }

    /// Counts one reply that took `latency_us`.
    pub fn record(&mut self, latency_us: u64)
        ensures
            *final(self) == old(self).recorded(latency_us),
    {
        self.total_latency_us = self.total_latency_us.wrapping_add(latency_us);
        self.req_count = self.req_count.wrapping_add(1);
    }

    /// Takes what has been measured and sets the counters back to zero.
    pub fn drain(&mut self) -> (taken: BenchState)
        ensures
            taken == *old(self),
            *final(self) == (BenchState { total_latency_us: 0, req_count: 0 }),
    {
        let taken = BenchState {
            total_latency_us: self.total_latency_us,
            req_count: self.req_count,
        };
        self.total_latency_us = 0;
        self.req_count = 0;
        taken
    }
}

/// A message to the server.
#[derive(Debug, Clone, Copy, PartialEq, Eq, Structural)]
pub struct Ping {
    pub seq: u64,
    pub sent_ns: u64,
}

/// Where the loop stands, by what it waits for.
#[derive(Debug, Clone, Copy, PartialEq, Eq, Structural)]
pub enum BenchPhase {
    Connecting,
    Opening,
    Checking,
    Sending,
    Awaiting,
    /// Over, without an error.
    Closed,
    /// Over, with the error that the last event brought.
    Failed,
}

/// What happened outside.
#[derive(Debug, Clone, Copy, PartialEq, Eq, Structural)]
pub enum BenchEvent {
    Connected,
    ConnectFailed,
    StreamOpened,
    OpenFailed,
    /// The stop flag was read.
    StopFlag(bool),
    Sent,
    SendFailed,
    /// A reply came, this many microseconds after its ping was sent.
    Reply { micros: u128 },
    /// The server ended the stream.
    EndOfStream,
    /// The stream broke.
    StreamError,
}

/// What is to be done outside next.
#[derive(Debug, Clone, Copy, PartialEq, Eq, Structural)]
pub enum BenchAction {
    Connect,
    OpenStream,
    ReadStop,
    Send(Ping),
    AwaitReply,
    /// Leave the loop without an error.
    Close,
    /// Print the stream's error and leave the loop without an error.
    ReportAndClose,
    /// Leave the loop with the error at hand.
    Fail,
}

/// The loop's own state: its phase and the number of the next ping.
#[derive(Debug, Clone, Copy, PartialEq, Eq, Structural)]
pub struct BenchLoop {
    pub phase: BenchPhase,
    pub seq: u64,
}

/// The microseconds that the counters take for an elapsed time: its low 64 bits.
pub open spec fn latency_of(micros: u128) -> u64 {
    (micros as int % u64_modulus()) as u64
}

impl BenchLoop {
    /// What the loop waits for in its present phase.
    pub open spec fn pending_spec(self) -> BenchAction {
        match self.phase {
            BenchPhase::Connecting => BenchAction::Connect,
            BenchPhase::Opening => BenchAction::OpenStream,
            BenchPhase::Checking => BenchAction::ReadStop,
            BenchPhase::Sending => BenchAction::Send(Ping { seq: self.seq, sent_ns: 0 }),
            BenchPhase::Awaiting => BenchAction::AwaitReply,
            BenchPhase::Closed => BenchAction::Close,
            BenchPhase::Failed => BenchAction::Fail,
        }
    }

    /// Whether `event` is an answer to what the loop waits for.
    pub open spec fn accepts(self, event: BenchEvent) -> bool {
        match self.phase {
            BenchPhase::Connecting => event is Connected || event is ConnectFailed,
            BenchPhase::Opening => event is StreamOpened || event is OpenFailed,
            BenchPhase::Checking => event is StopFlag,
            BenchPhase::Sending => event is Sent || event is SendFailed,
            BenchPhase::Awaiting => event is Reply || event is EndOfStream || event is StreamError,
            BenchPhase::Closed | BenchPhase::Failed => false,
        }
    }

    /// Whether `event` is a reply to the ping that is on its way.
    pub open spec fn takes_reply(self, event: BenchEvent) -> bool {
        self.phase == BenchPhase::Awaiting && event is Reply
    }

    /// The loop after `event`. An event that answers nothing leaves it as it is.
    pub open spec fn after(self, event: BenchEvent) -> BenchLoop {
        if !self.accepts(event) {
            self
        } else {
            match event {
                BenchEvent::Connected => BenchLoop { phase: BenchPhase::Opening, ..self },
                BenchEvent::StreamOpened => BenchLoop { phase: BenchPhase::Checking, ..self },
                BenchEvent::StopFlag(stop) => BenchLoop {
                    phase: if stop {
                        BenchPhase::Closed
                    } else {
                        BenchPhase::Sending
                    },
                    ..self
                },
                BenchEvent::Sent => BenchLoop { phase: BenchPhase::Awaiting, ..self },
                BenchEvent::Reply { micros } => BenchLoop {
                    phase: BenchPhase::Checking,
                    seq: (self.seq + 1) as u64,
                },
                BenchEvent::EndOfStream | BenchEvent::StreamError => BenchLoop {
                    phase: BenchPhase::Closed,
                    ..self
                },
                BenchEvent::ConnectFailed | BenchEvent::OpenFailed | BenchEvent::SendFailed =>
                BenchLoop { phase: BenchPhase::Failed, ..self },
            }
        }
    }

    /// What is to be done once `event` has been taken in.
    pub open spec fn action_after(self, event: BenchEvent) -> BenchAction {
        if self.phase == BenchPhase::Awaiting && event == BenchEvent::StreamError {
            BenchAction::ReportAndClose
        } else {
            self.after(event).pending_spec()
        }
    }

    /// The counters after `event`: only a reply changes them.
    pub open spec fn counters_after(self, event: BenchEvent, state: BenchState) -> BenchState {
        if self.takes_reply(event) {
            state.recorded(latency_of(event->micros))
        } else {
            state
        }
    }

    /// A loop that has yet to connect.
    pub fn new() -> (bench: Self)
        ensures
            bench == (BenchLoop { phase: BenchPhase::Connecting, seq: 0 }),
    {
        BenchLoop { phase: BenchPhase::Connecting, seq: 0 }
    }

    /// What the loop waits for.
    pub fn pending(&self) -> (action: BenchAction)
        ensures
            action == self.pending_spec(),
    {
        match self.phase {
            BenchPhase::Connecting => BenchAction::Connect,
            BenchPhase::Opening => BenchAction::OpenStream,
            BenchPhase::Checking => BenchAction::ReadStop,
            BenchPhase::Sending => BenchAction::Send(Ping { seq: self.seq, sent_ns: 0 }),
            BenchPhase::Awaiting => BenchAction::AwaitReply,
            BenchPhase::Closed => BenchAction::Close,
            BenchPhase::Failed => BenchAction::Fail,
        }
    }

    /// Takes in `event`, counts a reply in `state` and says what is to be done next.
    ///
    /// The pings are numbered by a `u64`, so a reply cannot be taken once the number is at its
    /// largest.
    pub fn step(&mut self, event: BenchEvent, state: &mut BenchState) -> (action: BenchAction)
        requires
            old(self).takes_reply(event) ==> old(self).seq < u64::MAX,
        ensures
            *final(self) == old(self).after(event),
            *final(state) == old(self).counters_after(event, *old(state)),
            action == old(self).action_after(event),
            old(self).phase == BenchPhase::Awaiting ==> (event matches BenchEvent::Reply { micros }
                ==> final(state).total_latency_us == (old(state).total_latency_us + micros)
                % 0x1_0000_0000_0000_0000 && final(state).req_count == (old(state).req_count + 1)
                % 0x1_0000_0000_0000_0000),
    {
        proof {
            if let BenchEvent::Reply { micros } = event {
                law_a_reply_adds_its_microseconds(*state, micros);
            }
        }
        match (self.phase, event) {
            (BenchPhase::Connecting, BenchEvent::Connected) => {
                self.phase = BenchPhase::Opening;
            },
            (BenchPhase::Connecting, BenchEvent::ConnectFailed)
            | (BenchPhase::Opening, BenchEvent::OpenFailed)
            | (BenchPhase::Sending, BenchEvent::SendFailed) => {
                self.phase = BenchPhase::Failed;
            },
            (BenchPhase::Opening, BenchEvent::StreamOpened) => {
                self.phase = BenchPhase::Checking;
            },
            (BenchPhase::Checking, BenchEvent::StopFlag(stop)) => {
                self.phase = if stop {
                    BenchPhase::Closed
                } else {
                    BenchPhase::Sending
                };
            },
            (BenchPhase::Sending, BenchEvent::Sent) => {
                self.phase = BenchPhase::Awaiting;
            },
            (BenchPhase::Awaiting, BenchEvent::Reply { micros }) => {
                assert(micros as u64 == micros % 0x1_0000_0000_0000_0000u128) by (bit_vector);
                state.record(#[verifier::truncate] (micros as u64));
                self.seq = self.seq + 1;
                self.phase = BenchPhase::Checking;
            },
            (BenchPhase::Awaiting, BenchEvent::EndOfStream) => {
                self.phase = BenchPhase::Closed;
            },
            (BenchPhase::Awaiting, BenchEvent::StreamError) => {
                self.phase = BenchPhase::Closed;
                return BenchAction::ReportAndClose;
            },
            _ => {},
        }
        self.pending()
    }
}

/// The loop after a series of events.
pub open spec fn bench_after(bench: BenchLoop, events: Seq<BenchEvent>) -> BenchLoop
    decreases events.len(),
{
    if events.len() == 0 {
        bench
    } else {
        bench_after(bench, events.drop_last()).after(events.last())
    }
}

/// The counters after a series of events between two drains.
pub open spec fn counters_after(
    bench: BenchLoop,
    events: Seq<BenchEvent>,
    state: BenchState,
) -> BenchState
    decreases events.len(),
{
    if events.len() == 0 {
        state
    } else {
        bench_after(bench, events.drop_last()).counters_after(
            events.last(),
            counters_after(bench, events.drop_last(), state),
        )
    }
}

/// The latencies of the replies that the loop takes from a series of events.
pub open spec fn latencies_taken(bench: BenchLoop, events: Seq<BenchEvent>) -> Seq<u64>
    decreases events.len(),
{
    if events.len() == 0 {
        Seq::empty()
    } else if bench_after(bench, events.drop_last()).takes_reply(events.last()) {
        latencies_taken(bench, events.drop_last()).push(latency_of(events.last()->micros))
    } else {
        latencies_taken(bench, events.drop_last())
    }
}

/// The pings that go out in the course of a series of events.
pub open spec fn pings_sent(bench: BenchLoop, events: Seq<BenchEvent>) -> Seq<Ping>
    decreases events.len(),
{
    if events.len() == 0 {
        Seq::empty()
    } else {
        let before = bench_after(bench, events.drop_last());
        if before.phase == BenchPhase::Sending && events.last() == BenchEvent::Sent {
            pings_sent(bench, events.drop_last()).push(Ping { seq: before.seq, sent_ns: 0 })
        } else {
            pings_sent(bench, events.drop_last())
        }
    }
}

/// The sum of a series of latencies.
pub open spec fn sum_of(latencies: Seq<u64>) -> nat
    decreases latencies.len(),
{
    if latencies.len() == 0 {
        0
    } else {
        sum_of(latencies.drop_last()) + latencies.last() as nat
    }
}

/// A new loop.
pub open spec fn bench_start() -> BenchLoop {
    BenchLoop { phase: BenchPhase::Connecting, seq: 0 }
}

/// The counters hold what they held before plus the number and the sum of the latencies of the
/// replies taken since, each modulo two to the 64th.
pub proof fn law_counters_sum_the_replies(
    bench: BenchLoop,
    events: Seq<BenchEvent>,
    state: BenchState,
)
    ensures
        ({
            let taken = latencies_taken(bench, events);
            let now = counters_after(bench, events, state);
            &&& now.req_count == (state.req_count + taken.len()) % u64_modulus()
            &&& now.total_latency_us == (state.total_latency_us + sum_of(taken)) % u64_modulus()
        }),
    decreases events.len(),
{
    let m = u64_modulus();
    if events.len() == 0 {
        vstd::arithmetic::div_mod::lemma_small_mod(state.req_count as nat, m as nat);
        vstd::arithmetic::div_mod::lemma_small_mod(state.total_latency_us as nat, m as nat);
    } else {
        let before = events.drop_last();
        law_counters_sum_the_replies(bench, before, state);
        let taken = latencies_taken(bench, events);
        if bench_after(bench, before).takes_reply(events.last()) {
            assert(taken.drop_last() =~= latencies_taken(bench, before));
            let l = taken.last() as int;
            let s = state.total_latency_us + sum_of(taken.drop_last());
            let n = state.req_count + taken.drop_last().len();
            vstd::arithmetic::div_mod::lemma_add_mod_noop(s, l, m);
            vstd::arithmetic::div_mod::lemma_add_mod_noop(n, 1, m);
            vstd::arithmetic::div_mod::lemma_small_mod(l as nat, m as nat);
            vstd::arithmetic::div_mod::lemma_small_mod(1, m as nat);
        }
    }
}

/// The pings of a loop carry the numbers zero, one, two and so on, as long as the number has
/// room, and the next number is that of the replies taken.
pub proof fn law_pings_are_numbered_in_order(events: Seq<BenchEvent>)
    requires
        latencies_taken(bench_start(), events).len() <= u64::MAX,
    ensures
        forall|i: int|
            0 <= i < pings_sent(bench_start(), events).len() ==> #[trigger] pings_sent(
                bench_start(),
                events,
            )[i] == (Ping { seq: i as u64, sent_ns: 0 }),
        bench_after(bench_start(), events).seq == latencies_taken(bench_start(), events).len(),
    decreases events.len(),
{
    if events.len() > 0 {
        law_pings_are_numbered_in_order(events.drop_last());
        law_at_most_one_ping_is_unanswered(events.drop_last());
    }
}

/// At any time a loop has sent as many pings as it has taken replies, or one more. It is one more
/// while a reply is awaited, and as many before that and after a failure.
pub proof fn law_at_most_one_ping_is_unanswered(events: Seq<BenchEvent>)
    ensures
        ({
            let pings = pings_sent(bench_start(), events).len();
            let replies = latencies_taken(bench_start(), events).len();
            let phase = bench_after(bench_start(), events).phase;
            &&& replies <= pings <= replies + 1
            &&& phase == BenchPhase::Awaiting ==> pings == replies + 1
            &&& phase != BenchPhase::Awaiting && phase != BenchPhase::Closed ==> pings == replies
        }),
    decreases events.len(),
{
    if events.len() > 0 {
        law_at_most_one_ping_is_unanswered(events.drop_last());
    }
}

/// What a loop has sent and taken in once `end` has closed it, whatever comes `later`: as many
/// replies as pings where the stop flag closed it, and one ping more where the stream ended or
/// broke.
pub proof fn law_final_tally(
    events: Seq<BenchEvent>,
    end: BenchEvent,
    later: Seq<BenchEvent>,
)
    requires
        bench_after(bench_start(), events).phase != BenchPhase::Closed,
        bench_after(bench_start(), events.push(end)).phase == BenchPhase::Closed,
    ensures
        ({
            let all = events.push(end) + later;
            let pings = pings_sent(bench_start(), all).len();
            let replies = latencies_taken(bench_start(), all).len();
            &&& bench_after(bench_start(), all).phase == BenchPhase::Closed
            &&& end == BenchEvent::StopFlag(true) || end == BenchEvent::EndOfStream || end
                == BenchEvent::StreamError
            &&& end == BenchEvent::StopFlag(true) ==> pings == replies
            &&& end == BenchEvent::EndOfStream || end == BenchEvent::StreamError ==> pings
                == replies + 1
            &&& pings_sent(bench_start(), all) == pings_sent(bench_start(), events)
            &&& latencies_taken(bench_start(), all) == latencies_taken(bench_start(), events)
        }),
    decreases later.len(),
{
    let all = events.push(end) + later;
    if later.len() == 0 {
        assert(all =~= events.push(end));
        assert(all.drop_last() =~= events);
        law_at_most_one_ping_is_unanswered(events);
    } else {
        law_final_tally(events, end, later.drop_last());
        assert(all.drop_last() =~= events.push(end) + later.drop_last());
    }
}

/// Once the loop is over it sends nothing and counts nothing, whatever happens.
pub proof fn law_a_finished_loop_is_inert(bench: BenchLoop, events: Seq<BenchEvent>)
    requires
        bench.phase == BenchPhase::Closed || bench.phase == BenchPhase::Failed,
    ensures
        bench_after(bench, events) == bench,
        pings_sent(bench, events).len() == 0,
        forall|state: BenchState| #[trigger] counters_after(bench, events, state) == state,
    decreases events.len(),
{
    if events.len() > 0 {
        law_a_finished_loop_is_inert(bench, events.drop_last());
        assert forall|state: BenchState| #[trigger]
            counters_after(bench, events, state) == state by {
            assert(counters_after(bench, events.drop_last(), state) == state);
        }
    }
}

/// A raised stop flag, once read, ends the loop without an error and without another ping.
pub proof fn law_stop_ends_the_loop(bench: BenchLoop)
    requires
        bench.phase == BenchPhase::Checking,
    ensures
        bench.after(BenchEvent::StopFlag(true)).phase == BenchPhase::Closed,
        bench.action_after(BenchEvent::StopFlag(true)) == BenchAction::Close,
        bench.action_after(BenchEvent::StopFlag(false)) == BenchAction::Send(
            Ping { seq: bench.seq, sent_ns: 0 },
        ),
{
}

/// A reply adds its microseconds to the total, all of them, and one to the count; both totals are
/// kept modulo two to the 64th. A time that has room in a `u64` is taken as it is.
pub proof fn law_a_reply_adds_its_microseconds(state: BenchState, micros: u128)
    ensures
        micros <= u64::MAX ==> latency_of(micros) == micros,
        state.recorded(latency_of(micros)).total_latency_us == (state.total_latency_us + micros)
            % 0x1_0000_0000_0000_0000,
        state.recorded(latency_of(micros)).req_count == (state.req_count + 1)
            % 0x1_0000_0000_0000_0000,
        state.total_latency_us + micros <= u64::MAX ==> state.recorded(
            latency_of(micros),
        ).total_latency_us - state.total_latency_us == micros,
        state.req_count < u64::MAX ==> state.recorded(latency_of(micros)).req_count
            - state.req_count == 1,
{
    let m = 0x1_0000_0000_0000_0000int;
    vstd::arithmetic::div_mod::lemma_add_mod_noop_right(
        state.total_latency_us as int,
        micros as int,
        m,
    );
}

/// A recorded latency goes into the total whole, whatever it is.
pub proof fn law_recording_adds_the_latency(state: BenchState, latency_us: u64)
    ensures
        state.recorded(latency_us).total_latency_us == (state.total_latency_us + latency_us)
            % 0x1_0000_0000_0000_0000,
        state.recorded(latency_us).req_count == (state.req_count + 1) % 0x1_0000_0000_0000_0000,
{
}

/// The sum of a series of times.
pub open spec fn sum_of_micros(micros: Seq<u128>) -> nat
    decreases micros.len(),
{
    if micros.len() == 0 {
        0
    } else {
        sum_of_micros(micros.drop_last()) + micros.last() as nat
    }
}

/// The times of the replies that come while one is awaited, as the events give them.
pub open spec fn reply_times(bench: BenchLoop, events: Seq<BenchEvent>) -> Seq<u128>
    decreases events.len(),
{
    if events.len() == 0 {
        Seq::empty()
    } else {
        let before = reply_times(bench, events.drop_last());
        match events.last() {
            BenchEvent::Reply { micros } => if bench_after(bench, events.drop_last()).phase
                == BenchPhase::Awaiting {
                before.push(micros)
            } else {
                before
            },
            _ => before,
        }
    }
}

/// The counters grow by exactly the microseconds that the events give for the awaited replies,
/// and by their number, each modulo two to the 64th.
pub proof fn law_counters_sum_the_microseconds(
    bench: BenchLoop,
    events: Seq<BenchEvent>,
    state: BenchState,
)
    ensures
        ({
            let times = reply_times(bench, events);
            let now = counters_after(bench, events, state);
            &&& now.total_latency_us == (state.total_latency_us + sum_of_micros(times))
                % 0x1_0000_0000_0000_0000
            &&& now.req_count == (state.req_count + times.len()) % 0x1_0000_0000_0000_0000
        }),
    decreases events.len(),
{
    let m = 0x1_0000_0000_0000_0000int;
    if events.len() > 0 {
        let before = events.drop_last();
        law_counters_sum_the_microseconds(bench, before, state);
        let times = reply_times(bench, events);
        if let BenchEvent::Reply { micros } = events.last() {
            if bench_after(bench, before).phase == BenchPhase::Awaiting {
                let held = counters_after(bench, before, state);
                assert(times.drop_last() =~= reply_times(bench, before));
                law_a_reply_adds_its_microseconds(held, micros);
                vstd::arithmetic::div_mod::lemma_add_mod_noop(
                    state.total_latency_us + sum_of_micros(times.drop_last()),
                    micros as int,
                    m,
                );
                vstd::arithmetic::div_mod::lemma_add_mod_noop(
                    held.total_latency_us as int,
                    micros as int,
                    m,
                );
                vstd::arithmetic::div_mod::lemma_mod_twice(
                    state.total_latency_us + sum_of_micros(times.drop_last()),
                    m,
                );
            }
        }
    }
}

/// The events of a connection that is opened and of a ping and its reply for each time.
pub open spec fn exchanges(micros: Seq<u128>) -> Seq<BenchEvent>
    decreases micros.len(),
{
    if micros.len() == 0 {
        seq![BenchEvent::Connected, BenchEvent::StreamOpened]
    } else {
        exchanges(micros.drop_last()).push(BenchEvent::StopFlag(false)).push(
            BenchEvent::Sent,
        ).push(BenchEvent::Reply { micros: micros.last() })
    }
}

/// After any number of exchanges the loop is about to look at the stop flag, its next ping is
/// numbered by them, and the counters hold their times and their number.
pub proof fn law_exchanges_are_counted(micros: Seq<u128>, state: BenchState)
    requires
        micros.len() <= u64::MAX,
    ensures
        ({
            let bench = bench_after(bench_start(), exchanges(micros));
            let now = counters_after(bench_start(), exchanges(micros), state);
            &&& bench.phase == BenchPhase::Checking
            &&& bench.seq == micros.len()
            &&& bench.pending_spec() == BenchAction::ReadStop
            &&& now.total_latency_us == (state.total_latency_us + sum_of_micros(micros))
                % 0x1_0000_0000_0000_0000
            &&& now.req_count == (state.req_count + micros.len()) % 0x1_0000_0000_0000_0000
        }),
    decreases micros.len(),
{
    let events = exchanges(micros);
    lemma_exchange_times(micros);
    law_counters_sum_the_microseconds(bench_start(), events, state);
}

proof fn lemma_exchange_times(micros: Seq<u128>)
    requires
        micros.len() <= u64::MAX,
    ensures
        ({
            let bench = bench_after(bench_start(), exchanges(micros));
            &&& bench.phase == BenchPhase::Checking
            &&& bench.seq == micros.len()
            &&& reply_times(bench_start(), exchanges(micros)) == micros
        }),
    decreases micros.len(),
{
    let events = exchanges(micros);
    if micros.len() == 0 {
        assert(events.drop_last() =~= seq![BenchEvent::Connected]);
        assert(seq![BenchEvent::Connected].drop_last() =~= Seq::empty());
        reveal_with_fuel(bench_after, 3);
        reveal_with_fuel(reply_times, 3);
        assert(reply_times(bench_start(), events) =~= micros);
    } else {
        lemma_exchange_times(micros.drop_last());
        let e0 = exchanges(micros.drop_last());
        let e1 = e0.push(BenchEvent::StopFlag(false));
        let e2 = e1.push(BenchEvent::Sent);
        assert(e1.drop_last() =~= e0);
        assert(e2.drop_last() =~= e1);
        assert(events.drop_last() =~= e2);
        assert(bench_after(bench_start(), e1).phase == BenchPhase::Sending);
        assert(bench_after(bench_start(), e2).phase == BenchPhase::Awaiting);
        assert(reply_times(bench_start(), e1) == micros.drop_last());
        assert(reply_times(bench_start(), e2) == micros.drop_last());
        assert(reply_times(bench_start(), events) =~= micros);
    }
}

/// What the loop asks for along the way: to connect, to open the stream, and then in turn to look
/// at the stop flag, to send the next ping and to await its reply. A raised flag and the end of
/// the stream close it, a broken stream is reported first, and a failure before a reply fails it.
pub proof fn law_the_loop_asks_in_turn(micros: Seq<u128>, next: u128)
    requires
        micros.len() < u64::MAX,
    ensures
        ({
            let start = bench_start();
            let connected = start.after(BenchEvent::Connected);
            let checking = bench_after(start, exchanges(micros));
            let sending = checking.after(BenchEvent::StopFlag(false));
            let awaiting = sending.after(BenchEvent::Sent);
            let ping = Ping { seq: micros.len() as u64, sent_ns: 0 };
            &&& start.pending_spec() == BenchAction::Connect
            &&& start.action_after(BenchEvent::ConnectFailed) == BenchAction::Fail
            &&& start.action_after(BenchEvent::Connected) == BenchAction::OpenStream
            &&& connected.action_after(BenchEvent::OpenFailed) == BenchAction::Fail
            &&& connected.action_after(BenchEvent::StreamOpened) == BenchAction::ReadStop
            &&& checking.action_after(BenchEvent::StopFlag(true)) == BenchAction::Close
            &&& checking.action_after(BenchEvent::StopFlag(false)) == BenchAction::Send(ping)
            &&& sending.action_after(BenchEvent::SendFailed) == BenchAction::Fail
            &&& sending.action_after(BenchEvent::Sent) == BenchAction::AwaitReply
            &&& awaiting.action_after(BenchEvent::Reply { micros: next }) == BenchAction::ReadStop
            &&& awaiting.action_after(BenchEvent::EndOfStream) == BenchAction::Close
            &&& awaiting.action_after(BenchEvent::StreamError) == BenchAction::ReportAndClose
            &&& connected.pending_spec() == BenchAction::OpenStream
            &&& checking.pending_spec() == BenchAction::ReadStop
            &&& sending.pending_spec() == BenchAction::Send(ping)
            &&& awaiting.pending_spec() == BenchAction::AwaitReply
            &&& checking.after(BenchEvent::StopFlag(true)).pending_spec() == BenchAction::Close
            &&& awaiting.after(BenchEvent::EndOfStream).pending_spec() == BenchAction::Close
            &&& awaiting.after(BenchEvent::StreamError).pending_spec() == BenchAction::Close
            &&& sending.after(BenchEvent::SendFailed).pending_spec() == BenchAction::Fail
            &&& connected.after(BenchEvent::OpenFailed).pending_spec() == BenchAction::Fail
            &&& start.after(BenchEvent::ConnectFailed).pending_spec() == BenchAction::Fail
        }),
{
    lemma_exchange_times(micros);
}

/// What the loop did not ask for changes neither it nor the counters, and it asks again.
pub proof fn law_unasked_events_change_nothing(
    bench: BenchLoop,
    event: BenchEvent,
    state: BenchState,
)
    requires
        bench.phase == BenchPhase::Connecting ==> !(event is Connected || event is ConnectFailed),
        bench.phase == BenchPhase::Opening ==> !(event is StreamOpened || event is OpenFailed),
        bench.phase == BenchPhase::Checking ==> !(event is StopFlag),
        bench.phase == BenchPhase::Sending ==> !(event is Sent || event is SendFailed),
        bench.phase == BenchPhase::Awaiting ==> !(event is Reply || event is EndOfStream
            || event is StreamError),
    ensures
        bench.after(event) == bench,
        bench.action_after(event) == bench.pending_spec(),
        bench.counters_after(event, state) == state,
{
}

/// Only a reply changes the counters.
pub proof fn law_only_replies_change_the_counters(
    bench: BenchLoop,
    event: BenchEvent,
    state: BenchState,
)
    ensures
        bench.counters_after(event, state) != state ==> bench.phase == BenchPhase::Awaiting
            && event is Reply,
{
}

} // verus!
