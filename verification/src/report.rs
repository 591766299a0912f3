//! The once-a-second report: what the counters measured since the last one, and how far the
//! interface's byte counters moved.
use vstd::prelude::*;

use crate::bench::{BenchEvent, BenchLoop, BenchState};

verus! {

/// A mean latency in microseconds, as the bits of a double.
#[derive(Debug, Clone, Copy, PartialEq, Eq, Structural)]
pub struct Latency {
    pub bits: u64,
}

/// One second of the benchmark.
#[derive(Debug, Clone, Copy, PartialEq, Eq, Structural)]
pub struct Metrics {
    pub avg_latency_us: Latency,
    pub req_count: u64,
    pub rx_bytes: u64,
    pub tx_bytes: u64,
}

/// What goes into one second's metrics, with the mean latency still a quotient.
#[derive(Debug, Clone, Copy, PartialEq, Eq, Structural)]
pub struct Sample {
    pub total_latency_us: u64,
    pub req_count: u64,
    pub rx_bytes: u64,
    pub tx_bytes: u64,
}

impl Sample {
    /// The total and the count whose quotient is the mean latency; nothing where there was no
    /// request, and the mean is then zero.
    pub fn mean_latency(&self) -> (quotient: Option<(u64, u64)>)
        ensures
            self.req_count == 0 ==> quotient is None,
            self.req_count > 0 ==> quotient == Some((self.total_latency_us, self.req_count)),
    {
        if self.req_count > 0 {
            Some((self.total_latency_us, self.req_count))
        } else {
            None
        }
    }

    /// The metrics, given the mean latency as a double.
    pub fn metrics(&self, avg_latency_us: Latency) -> (metrics: Metrics)
        ensures
            metrics == (Metrics {
                avg_latency_us,
                req_count: self.req_count,
                rx_bytes: self.rx_bytes,
                tx_bytes: self.tx_bytes,
            }),
    {
        Metrics {
            avg_latency_us,
            req_count: self.req_count,
            rx_bytes: self.rx_bytes,
            tx_bytes: self.tx_bytes,
        }
    }
}

/// How far a byte counter moved forward; zero where it moved back.
pub open spec fn moved(last: u64, now: u64) -> u64 {
    if now >= last {
        (now - last) as u64
    } else {
        0
    }
}

/// Where the reporter stands, by what it waits for.
#[derive(Debug, Clone, Copy, PartialEq, Eq, Structural)]
pub enum ReporterPhase {
    Waiting,
    Reading,
    Closed,
}

/// What happened outside.
#[derive(Debug, Clone, Copy, PartialEq, Eq, Structural)]
pub enum ReporterEvent {
    /// A second has passed; the stop flag reads so.
    Tick { stop: bool },
    /// The interface's byte counters read so.
    Counters { rx: u64, tx: u64 },
}

/// What is to be done outside next.
#[derive(Debug, Clone, Copy, PartialEq, Eq, Structural)]
pub enum ReporterAction {
    AwaitTick,
    ReadCounters,
    /// Send this on, then wait for the next tick.
    Send(Sample),
    Close,
}

/// The reporter's own state: its phase and the byte counters at its last reading.
#[derive(Debug, Clone, Copy, PartialEq, Eq, Structural)]
pub struct Reporter {
    pub phase: ReporterPhase,
    pub last_rx: u64,
    pub last_tx: u64,
}

impl Reporter {
    /// The reporter after `event`. An event that answers nothing leaves it as it is.
    pub open spec fn after(self, event: ReporterEvent) -> Reporter {
        match (self.phase, event) {
            (ReporterPhase::Waiting, ReporterEvent::Tick { stop }) => Reporter {
                phase: if stop {
                    ReporterPhase::Closed
                } else {
                    ReporterPhase::Reading
                },
                ..self
            },
            (ReporterPhase::Reading, ReporterEvent::Counters { rx, tx }) => Reporter {
                phase: ReporterPhase::Waiting,
                last_rx: rx,
                last_tx: tx,
            },
            _ => self,
        }
    }

    /// The sample that `event` completes, if it completes one.
    pub open spec fn sample_on(self, event: ReporterEvent, state: BenchState) -> Option<Sample> {
        match (self.phase, event) {
            (ReporterPhase::Reading, ReporterEvent::Counters { rx, tx }) => Some(
                Sample {
                    total_latency_us: state.total_latency_us,
                    req_count: state.req_count,
                    rx_bytes: moved(self.last_rx, rx),
                    tx_bytes: moved(self.last_tx, tx),
                },
            ),
            _ => None,
        }
    }

    /// What the reporter waits for.
    pub open spec fn pending_spec(self) -> ReporterAction {
        match self.phase {
            ReporterPhase::Waiting => ReporterAction::AwaitTick,
            ReporterPhase::Reading => ReporterAction::ReadCounters,
            ReporterPhase::Closed => ReporterAction::Close,
        }
    }

    /// What is to be done once `event` has been taken in.
    pub open spec fn action_after(self, event: ReporterEvent, state: BenchState) -> ReporterAction {
        match self.sample_on(event, state) {
            Some(sample) => ReporterAction::Send(sample),
            None => self.after(event).pending_spec(),
        }
    }

    /// A reporter that starts from these readings of the byte counters.
    pub fn new(rx: u64, tx: u64) -> (reporter: Self)
        ensures
            reporter == (Reporter { phase: ReporterPhase::Waiting, last_rx: rx, last_tx: tx }),
    {
        Reporter { phase: ReporterPhase::Waiting, last_rx: rx, last_tx: tx }
    }

    /// What the reporter waits for.
    pub fn pending(&self) -> (action: ReporterAction)
        ensures
            action == self.pending_spec(),
    {
        match self.phase {
            ReporterPhase::Waiting => ReporterAction::AwaitTick,
            ReporterPhase::Reading => ReporterAction::ReadCounters,
            ReporterPhase::Closed => ReporterAction::Close,
        }
    }

    /// Takes in `event`, drains `state` where a sample is complete and says what is to be done
    /// next.
    pub fn step(&mut self, event: ReporterEvent, state: &mut BenchState) -> (action: ReporterAction)
        ensures
            *final(self) == old(self).after(event),
            action == old(self).action_after(event, *old(state)),
            *final(state) == (if old(self).sample_on(event, *old(state)) is Some {
                BenchState { total_latency_us: 0, req_count: 0 }
            } else {
                *old(state)
            }),
            old(self).phase == ReporterPhase::Reading ==> (event matches ReporterEvent::Counters {
                rx,
                tx,
            } ==> (action matches ReporterAction::Send(sample) && {
                &&& sample.total_latency_us == old(state).total_latency_us
                &&& sample.req_count == old(state).req_count
                &&& rx >= old(self).last_rx ==> old(self).last_rx + sample.rx_bytes == rx
                &&& rx < old(self).last_rx ==> sample.rx_bytes == 0
                &&& tx >= old(self).last_tx ==> old(self).last_tx + sample.tx_bytes == tx
                &&& tx < old(self).last_tx ==> sample.tx_bytes == 0
                &&& final(self).last_rx == rx
                &&& final(self).last_tx == tx
            })),
    {
        match (self.phase, event) {
            (ReporterPhase::Waiting, ReporterEvent::Tick { stop }) => {
                self.phase = if stop {
                    ReporterPhase::Closed
                } else {
                    ReporterPhase::Reading
                };
            },
            (ReporterPhase::Reading, ReporterEvent::Counters { rx, tx }) => {
                let taken = state.drain();
                let sample = Sample {
                    total_latency_us: taken.total_latency_us,
                    req_count: taken.req_count,
                    rx_bytes: rx.saturating_sub(self.last_rx),
                    tx_bytes: tx.saturating_sub(self.last_tx),
                };
                self.last_rx = rx;
                self.last_tx = tx;
                self.phase = ReporterPhase::Waiting;
                return ReporterAction::Send(sample);
            },
            _ => {},
        }
        self.pending()
    }
}

/// The reporter after a series of events.
pub open spec fn reporter_after(reporter: Reporter, events: Seq<ReporterEvent>) -> Reporter
    decreases events.len(),
{
    if events.len() == 0 {
        reporter
    } else {
        reporter_after(reporter, events.drop_last()).after(events.last())
    }
}

/// How many bytes the samples of a series of events report as received.
pub open spec fn rx_reported(reporter: Reporter, events: Seq<ReporterEvent>) -> nat
    decreases events.len(),
{
    if events.len() == 0 {
        0
    } else {
        let before = reporter_after(reporter, events.drop_last());
        rx_reported(reporter, events.drop_last()) + match (before.phase, events.last()) {
            (ReporterPhase::Reading, ReporterEvent::Counters { rx, tx }) => moved(
                before.last_rx,
                rx,
            ) as nat,
            _ => 0,
        }
    }
}

/// How many bytes the samples of a series of events report as sent.
pub open spec fn tx_reported(reporter: Reporter, events: Seq<ReporterEvent>) -> nat
    decreases events.len(),
{
    if events.len() == 0 {
        0
    } else {
        let before = reporter_after(reporter, events.drop_last());
        tx_reported(reporter, events.drop_last()) + match (before.phase, events.last()) {
            (ReporterPhase::Reading, ReporterEvent::Counters { rx, tx }) => moved(
                before.last_tx,
                tx,
            ) as nat,
            _ => 0,
        }
    }
}

/// Whether no reading of the received bytes that the reporter takes lies below the one before.
pub open spec fn rx_never_falls(reporter: Reporter, events: Seq<ReporterEvent>) -> bool
    decreases events.len(),
{
    events.len() == 0 || {
        let before = reporter_after(reporter, events.drop_last());
        &&& rx_never_falls(reporter, events.drop_last())
        &&& before.last_rx <= before.after(events.last()).last_rx
    }
}

/// Whether no reading of the sent bytes that the reporter takes lies below the one before.
pub open spec fn tx_never_falls(reporter: Reporter, events: Seq<ReporterEvent>) -> bool
    decreases events.len(),
{
    events.len() == 0 || {
        let before = reporter_after(reporter, events.drop_last());
        &&& tx_never_falls(reporter, events.drop_last())
        &&& before.last_tx <= before.after(events.last()).last_tx
    }
}

/// The reports leave out no byte and count none twice: while a byte counter does not fall, its
/// reported bytes sum to the distance from its first reading to its last. Where it falls, they
/// sum to more, never to less.
pub proof fn law_reports_cover_every_byte(reporter: Reporter, events: Seq<ReporterEvent>)
    ensures
        ({
            let now = reporter_after(reporter, events);
            let rx = reporter.last_rx + rx_reported(reporter, events);
            let tx = reporter.last_tx + tx_reported(reporter, events);
            &&& rx >= now.last_rx
            &&& tx >= now.last_tx
            &&& rx_never_falls(reporter, events) <==> rx == now.last_rx
            &&& tx_never_falls(reporter, events) <==> tx == now.last_tx
        }),
    decreases events.len(),
{
    if events.len() > 0 {
        law_reports_cover_every_byte(reporter, events.drop_last());
    }
}

/// A byte counter that fell, as after a reset, is reported as no traffic.
pub proof fn law_a_fallen_counter_reports_nothing(
    reporter: Reporter,
    rx: u64,
    tx: u64,
    state: BenchState,
)
    requires
        reporter.phase == ReporterPhase::Reading,
    ensures
        ({
            let sample = reporter.sample_on(ReporterEvent::Counters { rx, tx }, state)->0;
            &&& rx <= reporter.last_rx ==> sample.rx_bytes == 0
            &&& tx <= reporter.last_tx ==> sample.tx_bytes == 0
        }),
{
}

/// A reporter that has closed sends nothing more and leaves the counters alone.
pub proof fn law_a_closed_reporter_is_inert(reporter: Reporter, events: Seq<ReporterEvent>)
    requires
        reporter.phase == ReporterPhase::Closed,
    ensures
        reporter_after(reporter, events) == reporter,
        rx_reported(reporter, events) == 0,
        tx_reported(reporter, events) == 0,
        forall|event: ReporterEvent, state: BenchState|
            #[trigger] reporter.sample_on(event, state) is None,
    decreases events.len(),
{
    if events.len() > 0 {
        law_a_closed_reporter_is_inert(reporter, events.drop_last());
    }
}

/// Something that happens to the ping loop or to the reporter, which share the counters.
pub enum SharedEvent {
    Ping(BenchEvent),
    Report(ReporterEvent),
}

/// The ping loop, the reporter and the counters between them.
pub struct Session {
    pub bench: BenchLoop,
    pub reporter: Reporter,
    pub state: BenchState,
}

impl Session {
    /// The session after one event, as the two loops' steps leave it.
    pub open spec fn after(self, event: SharedEvent) -> Session {
        match event {
            SharedEvent::Ping(ping) => Session {
                bench: self.bench.after(ping),
                state: self.bench.counters_after(ping, self.state),
                ..self
            },
            SharedEvent::Report(report) => Session {
                reporter: self.reporter.after(report),
                state: if self.reporter.sample_on(report, self.state) is Some {
                    BenchState { total_latency_us: 0, req_count: 0 }
                } else {
                    self.state
                },
                ..self
            },
        }
    }

    /// The session after a series of events.
    pub open spec fn after_all(self, events: Seq<SharedEvent>) -> Session
        decreases events.len(),
    {
        if events.len() == 0 {
            self
        } else {
            self.after_all(events.drop_last()).after(events.last())
        }
    }

    /// The samples that the reporter sends in the course of a series of events.
    pub open spec fn samples_sent(self, events: Seq<SharedEvent>) -> Seq<Sample>
        decreases events.len(),
    {
        if events.len() == 0 {
            Seq::empty()
        } else {
            let before = self.after_all(events.drop_last());
            let sent = self.samples_sent(events.drop_last());
            match events.last() {
                SharedEvent::Ping(_) => sent,
                SharedEvent::Report(report) => match before.reporter.sample_on(
                    report,
                    before.state,
                ) {
                    Some(sample) => sent.push(sample),
                    None => sent,
                },
            }
        }
    }

    /// The latencies of the replies that the ping loop takes in the course of a series of events.
    pub open spec fn latencies_taken(self, events: Seq<SharedEvent>) -> Seq<u64>
        decreases events.len(),
    {
        if events.len() == 0 {
            Seq::empty()
        } else {
            let before = self.after_all(events.drop_last());
            let taken = self.latencies_taken(events.drop_last());
            match events.last() {
                SharedEvent::Ping(ping) => if before.bench.takes_reply(ping) {
                    taken.push(crate::bench::latency_of(ping->micros))
                } else {
                    taken
                },
                SharedEvent::Report(_) => taken,
            }
        }
    }
}

/// How many replies a series of samples reports.
pub open spec fn replies_in(samples: Seq<Sample>) -> nat
    decreases samples.len(),
{
    if samples.len() == 0 {
        0
    } else {
        replies_in(samples.drop_last()) + samples.last().req_count as nat
    }
}

/// How much latency a series of samples reports.
pub open spec fn latency_in(samples: Seq<Sample>) -> nat
    decreases samples.len(),
{
    if samples.len() == 0 {
        0
    } else {
        latency_in(samples.drop_last()) + samples.last().total_latency_us as nat
    }
}

/// However replies and reports interleave, every reply and its latency is either reported or
/// still in the counters, and none of it twice: the two together are what the counters held at
/// first plus what was taken since. For the number and for the latency alike this holds modulo
/// two to the 64th, and exactly where it has room in a `u64`.
pub proof fn law_every_reply_is_reported_once(start: Session, events: Seq<SharedEvent>)
    ensures
        ({
            let m = crate::bench::u64_modulus();
            let sent = start.samples_sent(events);
            let left = start.after_all(events).state;
            let taken = start.latencies_taken(events);
            let replies = start.state.req_count + taken.len();
            let latency = start.state.total_latency_us + crate::bench::sum_of(taken);
            &&& (replies_in(sent) + left.req_count) % m == replies % m
            &&& (latency_in(sent) + left.total_latency_us) % m == latency % m
            &&& replies <= u64::MAX ==> replies_in(sent) + left.req_count == replies
            &&& latency <= u64::MAX ==> latency_in(sent) + left.total_latency_us == latency
        }),
    decreases events.len(),
{
    if events.len() > 0 {
        let before = events.drop_last();
        law_every_reply_is_reported_once(start, before);
        let was = start.after_all(before);
        let sent = start.samples_sent(events);
        let taken = start.latencies_taken(events);
        match events.last() {
            SharedEvent::Ping(ping) => {
                if was.bench.takes_reply(ping) {
                    assert(taken.drop_last() =~= start.latencies_taken(before));
                    lemma_counted(
                        replies_in(sent) as int,
                        was.state.req_count as int,
                        start.state.req_count + taken.drop_last().len(),
                        1,
                    );
                    lemma_counted(
                        latency_in(sent) as int,
                        was.state.total_latency_us as int,
                        start.state.total_latency_us + crate::bench::sum_of(taken.drop_last()),
                        taken.last() as int,
                    );
                }
            },
            SharedEvent::Report(report) => {
                if was.reporter.sample_on(report, was.state) is Some {
                    assert(sent.drop_last() =~= start.samples_sent(before));
                }
            },
        }
    }
}

/// Adding to a wrapping counter adds to the sum of it and what was reported before.
proof fn lemma_counted(reported: int, held: int, total: int, more: int)
    requires
        0 <= reported,
        0 <= held,
        0 <= more,
        (reported + held) % crate::bench::u64_modulus() == total % crate::bench::u64_modulus(),
    ensures
        (reported + (held + more) % crate::bench::u64_modulus()) % crate::bench::u64_modulus() == (
        total + more) % crate::bench::u64_modulus(),
        total + more <= u64::MAX && reported + held == total ==> reported + (held + more)
            % crate::bench::u64_modulus() == total + more,
{
    let m = crate::bench::u64_modulus();
    vstd::arithmetic::div_mod::lemma_add_mod_noop_right(reported, held + more, m);
    vstd::arithmetic::div_mod::lemma_add_mod_noop(reported + held, more, m);
    vstd::arithmetic::div_mod::lemma_add_mod_noop(total, more, m);
    if total + more <= u64::MAX && reported + held == total {
        vstd::arithmetic::div_mod::lemma_small_mod((held + more) as nat, m as nat);
    }
}

/// What a second brings: on a tick the reporter closes if the stop flag is up and reads the byte
/// counters if not. The sample that it then sends holds what the counters hold; added to the last
/// reading, its bytes give the new one, and they are zero where that is lower. The new reading is
/// the next one's base.
pub proof fn law_each_second_is_reported(
    reporter: Reporter,
    rx: u64,
    tx: u64,
    state: BenchState,
)
    requires
        reporter.phase == ReporterPhase::Waiting,
    ensures
        reporter.pending_spec() == ReporterAction::AwaitTick,
        reporter.action_after(ReporterEvent::Tick { stop: true }, state) == ReporterAction::Close,
        reporter.after(ReporterEvent::Tick { stop: true }).pending_spec() == ReporterAction::Close,
        reporter.action_after(ReporterEvent::Tick { stop: false }, state)
            == ReporterAction::ReadCounters,
        ({
            let reading = reporter.after(ReporterEvent::Tick { stop: false });
            let event = ReporterEvent::Counters { rx, tx };
            let next = reading.after(event);
            &&& reading.action_after(event, state) matches ReporterAction::Send(sample) && {
                &&& reading.sample_on(event, state) == Some(sample)
                &&& rx >= reporter.last_rx ==> reporter.last_rx + sample.rx_bytes == rx
                &&& rx < reporter.last_rx ==> sample.rx_bytes == 0
                &&& tx >= reporter.last_tx ==> reporter.last_tx + sample.tx_bytes == tx
                &&& tx < reporter.last_tx ==> sample.tx_bytes == 0
                &&& sample.req_count == state.req_count
                &&& sample.total_latency_us == state.total_latency_us
            }
            &&& reading.pending_spec() == ReporterAction::ReadCounters
            &&& next.phase == ReporterPhase::Waiting
            &&& next.last_rx == rx
            &&& next.last_tx == tx
        }),
{
}

/// What the reporter does not wait for changes nothing, and it asks again.
pub proof fn law_unasked_reports_change_nothing(
    reporter: Reporter,
    event: ReporterEvent,
    state: BenchState,
)
    requires
        reporter.phase == ReporterPhase::Waiting ==> !(event is Tick),
        reporter.phase == ReporterPhase::Reading ==> !(event is Counters),
    ensures
        reporter.after(event) == reporter,
        reporter.sample_on(event, state) is None,
        reporter.action_after(event, state) == reporter.pending_spec(),
{
}

/// The received bytes that a series of samples reports.
pub open spec fn rx_in(samples: Seq<Sample>) -> nat
    decreases samples.len(),
{
    if samples.len() == 0 {
        0
    } else {
        rx_in(samples.drop_last()) + samples.last().rx_bytes as nat
    }
}

/// The sent bytes that a series of samples reports.
pub open spec fn tx_in(samples: Seq<Sample>) -> nat
    decreases samples.len(),
{
    if samples.len() == 0 {
        0
    } else {
        tx_in(samples.drop_last()) + samples.last().tx_bytes as nat
    }
}

/// The readings of the byte counters that the reporter asks for in the course of a series of
/// events, as the events give them, behind those that it started from.
pub open spec fn readings(start: Session, events: Seq<SharedEvent>) -> Seq<(u64, u64)>
    decreases events.len(),
{
    if events.len() == 0 {
        seq![(start.reporter.last_rx, start.reporter.last_tx)]
    } else {
        let before = readings(start, events.drop_last());
        match events.last() {
            SharedEvent::Report(ReporterEvent::Counters { rx, tx }) => if start.after_all(
                events.drop_last(),
            ).reporter.phase == ReporterPhase::Reading {
                before.push((rx, tx))
            } else {
                before
            },
            _ => before,
        }
    }
}

/// One sample is sent for each reading, and the bytes of the samples that are sent cover the
/// distance from the first reading to the last: exactly, while the byte counter does not fall
/// from one reading to the next, and never less.
pub proof fn law_sent_samples_cover_every_byte(start: Session, events: Seq<SharedEvent>)
    ensures
        ({
            let read = readings(start, events);
            let sent = start.samples_sent(events);
            &&& read.len() == sent.len() + 1
            &&& read[0].0 + rx_in(sent) >= read.last().0
            &&& read[0].1 + tx_in(sent) >= read.last().1
            &&& (forall|i: int, j: int|
                0 <= i && j == i + 1 && j < read.len() ==> (#[trigger] read[i]).0 <= (
                #[trigger] read[j]).0) ==> read[0].0 + rx_in(sent) == read.last().0
            &&& (forall|i: int, j: int|
                0 <= i && j == i + 1 && j < read.len() ==> (#[trigger] read[i]).1 <= (
                #[trigger] read[j]).1) ==> read[0].1 + tx_in(sent) == read.last().1
        }),
    decreases events.len(),
{
    lemma_readings(start, events);
}

proof fn lemma_readings(start: Session, events: Seq<SharedEvent>)
    ensures
        ({
            let read = readings(start, events);
            let sent = start.samples_sent(events);
            let now = start.after_all(events).reporter;
            &&& read.len() == sent.len() + 1
            &&& read[0] == (start.reporter.last_rx, start.reporter.last_tx)
            &&& read.last() == (now.last_rx, now.last_tx)
            &&& read[0].0 + rx_in(sent) >= read.last().0
            &&& read[0].1 + tx_in(sent) >= read.last().1
            &&& (forall|i: int, j: int|
                0 <= i && j == i + 1 && j < read.len() ==> (#[trigger] read[i]).0 <= (
                #[trigger] read[j]).0) ==> read[0].0 + rx_in(sent) == read.last().0
            &&& (forall|i: int, j: int|
                0 <= i && j == i + 1 && j < read.len() ==> (#[trigger] read[i]).1 <= (
                #[trigger] read[j]).1) ==> read[0].1 + tx_in(sent) == read.last().1
        }),
    decreases events.len(),
{
    let read = readings(start, events);
    let sent = start.samples_sent(events);
    if events.len() > 0 {
        let before = events.drop_last();
        lemma_readings(start, before);
        let was = readings(start, before);
        if sent.len() != start.samples_sent(before).len() {
            assert(sent.drop_last() =~= start.samples_sent(before));
            assert(read.drop_last() =~= was);
            assert(read[was.len() - 1] == was.last());
            assert(read[was.len() as int] == read.last());
            assert(read[0] == was[0]);
            assert forall|i: int| 0 <= i < was.len() implies #[trigger] was[i] == read[i] by {}
        }
    }
}

} // verus!
