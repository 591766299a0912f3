//! The live view: the state that it shows.
use std::collections::VecDeque;
use vstd::prelude::*;

use crate::chart::MAX_POINTS;
use crate::column::Column;
use crate::report::{Latency, Metrics};

verus! {

/// What the live view shows.
#[derive(Debug, Clone)]
pub struct AppData {
    pub ip: String,
    pub port: u16,
    pub latencies: VecDeque<u64>,
    pub throughputs: VecDeque<u64>,
    pub rx_rates: VecDeque<u64>,
    pub tx_rates: VecDeque<u64>,
    pub current_latency: Latency,
    pub current_throughput: u64,
    pub current_rx: u64,
    pub current_tx: u64,
    pub total_reqs: u64,
    pub elapsed: u64,
    pub connected: bool,
}

/// The live view's state as mathematical values.
#[verifier::ext_equal]
pub struct AppView {
    pub ip: Seq<char>,
    pub port: u16,
    /// The mean latencies of the last seconds, as bits.
    pub latencies: Seq<u64>,
    /// The requests of each of the last seconds.
    pub throughputs: Seq<u64>,
    /// The bytes received in each of the last seconds.
    pub rx_rates: Seq<u64>,
    /// The bytes sent in each of the last seconds.
    pub tx_rates: Seq<u64>,
    pub current_latency: Latency,
    pub current_throughput: u64,
    pub current_rx: u64,
    pub current_tx: u64,
    pub total_reqs: nat,
    pub elapsed: nat,
    pub connected: bool,
}

/// A series after one more value: a full one first loses its oldest.
pub open spec fn window_push(series: Seq<u64>, value: u64) -> Seq<u64> {
    if series.len() >= MAX_POINTS {
        series.subrange(1, series.len() as int).push(value)
    } else {
        series.push(value)
    }
}

/// The newest values of a history, as many as a live chart shows.
pub open spec fn newest(history: Seq<u64>) -> Seq<u64> {
    if history.len() <= MAX_POINTS {
        history
    } else {
        history.subrange(history.len() - MAX_POINTS, history.len() as int)
    }
}

impl AppView {
    /// A view to which nothing has been reported.
    pub open spec fn empty(ip: Seq<char>, port: u16) -> AppView {
        AppView {
            ip,
            port,
            latencies: Seq::empty(),
            throughputs: Seq::empty(),
            rx_rates: Seq::empty(),
            tx_rates: Seq::empty(),
            current_latency: Latency { bits: 0 },
            current_throughput: 0,
            current_rx: 0,
            current_tx: 0,
            total_reqs: 0,
            elapsed: 0,
            connected: false,
        }
    }

    /// The view after one more second.
    pub open spec fn pushed(self, m: Metrics) -> AppView {
        AppView {
            ip: self.ip,
            port: self.port,
            latencies: window_push(self.latencies, m.avg_latency_us.bits),
            throughputs: window_push(self.throughputs, m.req_count),
            rx_rates: window_push(self.rx_rates, m.rx_bytes),
            tx_rates: window_push(self.tx_rates, m.tx_bytes),
            current_latency: m.avg_latency_us,
            current_throughput: m.req_count,
            current_rx: m.rx_bytes,
            current_tx: m.tx_bytes,
            total_reqs: self.total_reqs + m.req_count as nat,
            elapsed: self.elapsed + 1,
            connected: self.connected,
        }
    }

    /// The view after a series of seconds.
    pub open spec fn pushed_all(self, history: Seq<Metrics>) -> AppView
        decreases history.len(),
    {
        if history.len() == 0 {
            self
        } else {
            self.pushed_all(history.drop_last()).pushed(history.last())
        }
    }

    /// The view after one more second that came over the live connection.
    pub open spec fn received(self, m: Metrics) -> AppView {
        AppView { connected: true, ..self.pushed(m) }
    }

    /// The view after a series of seconds that came over the live connection.
    pub open spec fn received_all(self, history: Seq<Metrics>) -> AppView
        decreases history.len(),
    {
        if history.len() == 0 {
            self
        } else {
            self.received_all(history.drop_last()).received(history.last())
        }
    }

    /// The series of one quantity.
    pub open spec fn series(self, column: Column) -> Seq<u64> {
        match column {
            Column::Latency => self.latencies,
            Column::Throughput => self.throughputs,
            Column::Rx => self.rx_rates,
            Column::Tx => self.tx_rates,
        }
    }

    /// Whether no series is longer than a live chart and all are equally long.
    pub open spec fn wf(self) -> bool {
        &&& self.latencies.len() <= MAX_POINTS
        &&& self.throughputs.len() == self.latencies.len()
        &&& self.rx_rates.len() == self.latencies.len()
        &&& self.tx_rates.len() == self.latencies.len()
    }
}

impl View for AppData {
    type V = AppView;

    open spec fn view(&self) -> AppView {
        AppView {
            ip: self.ip@,
            port: self.port,
            latencies: self.latencies@,
            throughputs: self.throughputs@,
            rx_rates: self.rx_rates@,
            tx_rates: self.tx_rates@,
            current_latency: self.current_latency,
            current_throughput: self.current_throughput,
            current_rx: self.current_rx,
            current_tx: self.current_tx,
            total_reqs: self.total_reqs as nat,
            elapsed: self.elapsed as nat,
            connected: self.connected,
        }
    }
}

/// Appends `value` to a series, of which a full one first loses its oldest value.
fn push_value(series: &mut VecDeque<u64>, value: u64)
    ensures
        final(series)@ == window_push(old(series)@, value),
{
    if series.len() >= MAX_POINTS {
        series.pop_front();
    }
    series.push_back(value);
}

impl AppData {
    /// A view of the server at `ip` and `port`, to which nothing has been reported yet.
    pub fn new(ip: String, port: u16) -> (app: Self)
        ensures
            app@ == AppView::empty(ip@, port),
            app@.wf(),
    {
        AppData {
            ip,
            port,
            latencies: VecDeque::with_capacity(MAX_POINTS),
            throughputs: VecDeque::with_capacity(MAX_POINTS),
            rx_rates: VecDeque::with_capacity(MAX_POINTS),
            tx_rates: VecDeque::with_capacity(MAX_POINTS),
            current_latency: Latency { bits: 0 },
            current_throughput: 0,
            current_rx: 0,
            current_tx: 0,
            total_reqs: 0,
            elapsed: 0,
            connected: false,
        }
    }

    /// Takes in one more second. Both totals are `u64`s and must have room.
    pub fn push_metrics(&mut self, m: Metrics)
        requires
            old(self).total_reqs + m.req_count <= u64::MAX,
            old(self).elapsed < u64::MAX,
        ensures
            final(self)@ == old(self)@.pushed(m),
            old(self)@.wf() ==> final(self)@.wf(),
    {
        self.current_latency = m.avg_latency_us;
        self.current_throughput = m.req_count;
        self.current_rx = m.rx_bytes;
        self.current_tx = m.tx_bytes;
        push_value(&mut self.latencies, m.avg_latency_us.bits);
        push_value(&mut self.throughputs, m.req_count);
        push_value(&mut self.rx_rates, m.rx_bytes);
        push_value(&mut self.tx_rates, m.tx_bytes);
        self.total_reqs = self.total_reqs + m.req_count;
        self.elapsed = self.elapsed + 1;
    }

    /// Takes in one more second that came over the live connection.
    pub fn receive(&mut self, m: Metrics)
        requires
            old(self).total_reqs + m.req_count <= u64::MAX,
            old(self).elapsed < u64::MAX,
        ensures
            final(self)@ == old(self)@.received(m),
            old(self)@.wf() ==> final(self)@.wf(),
    {
        self.push_metrics(m);
        self.connected = true;
    }
}

/// The sum of the requests of a series of seconds.
pub open spec fn requests_in(history: Seq<Metrics>) -> nat
    decreases history.len(),
{
    if history.len() == 0 {
        0
    } else {
        requests_in(history.drop_last()) + history.last().req_count as nat
    }
}

/// Pushing onto the newest values of a history gives the newest values of the longer history.
proof fn lemma_window(history: Seq<u64>, value: u64)
    ensures
        window_push(newest(history), value) == newest(history.push(value)),
{
    assert(window_push(newest(history), value) =~= newest(history.push(value)));
}

/// After any number of seconds the view shows, of each quantity, exactly the newest values in
/// the order in which they came, and the totals cover all of them.
pub proof fn law_view_shows_the_newest_seconds(ip: Seq<char>, port: u16, history: Seq<Metrics>)
    ensures
        ({
            let view = AppView::empty(ip, port).pushed_all(history);
            &&& view.ip == ip
            &&& view.port == port
            &&& forall|column: Column| #[trigger]
                view.series(column) == newest(column.of_all(history))
            &&& view.total_reqs == requests_in(history)
            &&& view.elapsed == history.len()
            &&& !view.connected
        }),
    decreases history.len(),
{
    let view = AppView::empty(ip, port).pushed_all(history);
    if history.len() > 0 {
        law_view_shows_the_newest_seconds(ip, port, history.drop_last());
    }
    assert forall|column: Column| #[trigger]
        view.series(column) == newest(column.of_all(history)) by {
        if history.len() == 0 {
            assert(column.of_all(history) =~= Seq::empty());
        } else {
            let before = history.drop_last();
            assert(AppView::empty(ip, port).pushed_all(before).series(column) == newest(
                column.of_all(before),
            ));
            assert(column.of_all(history) =~= column.of_all(before).push(
                column.of(history.last()),
            ));
            lemma_window(column.of_all(before), column.of(history.last()));
        }
    }
}

/// Seconds that come over the live connection show like any others; the first of them marks the
/// view as connected, and it stays so.
pub proof fn law_receiving_marks_the_view_connected(view: AppView, history: Seq<Metrics>)
    ensures
        view.received_all(history) == (AppView {
            connected: view.connected || history.len() > 0,
            ..view.pushed_all(history)
        }),
    decreases history.len(),
{
    lemma_pushing_keeps_connected(view, history);
    if history.len() > 0 {
        law_receiving_marks_the_view_connected(view, history.drop_last());
    }
}

proof fn lemma_pushing_keeps_connected(view: AppView, history: Seq<Metrics>)
    ensures
        view.pushed_all(history).connected == view.connected,
    decreases history.len(),
{
    if history.len() > 0 {
        lemma_pushing_keeps_connected(view, history.drop_last());
    }
}

/// The series stay equally long and never outgrow a live chart.
pub proof fn law_series_are_bounded(view: AppView, history: Seq<Metrics>)
    requires
        view.wf(),
    ensures
        view.pushed_all(history).wf(),
    decreases history.len(),
{
    if history.len() > 0 {
        law_series_are_bounded(view, history.drop_last());
    }
}

/// The current readings are those of the newest second, and they end their series.
pub proof fn law_current_readings_end_the_series(view: AppView, m: Metrics)
    ensures
        ({
            let now = view.pushed(m);
            &&& now.latencies.last() == now.current_latency.bits
            &&& now.throughputs.last() == now.current_throughput
            &&& now.rx_rates.last() == now.current_rx
            &&& now.tx_rates.last() == now.current_tx
            &&& now.current_latency == m.avg_latency_us
            &&& now.current_throughput == m.req_count
            &&& now.current_rx == m.rx_bytes
            &&& now.current_tx == m.tx_bytes
        }),
{
}

/// One more second moves each series by one value: its own value of the second comes last, and
/// the values before it stay in order, of which the oldest is lost once there are 120. Address
/// and connection stay as they are, and the totals grow by the requests and by one second.
pub proof fn law_a_second_moves_the_window(view: AppView, m: Metrics)
    ensures
        ({
            let now = view.pushed(m);
            &&& now.ip == view.ip
            &&& now.port == view.port
            &&& now.connected == view.connected
            &&& now.total_reqs == view.total_reqs + m.req_count
            &&& now.elapsed == view.elapsed + 1
            &&& now.latencies.len() > 0 && now.latencies.last() == m.avg_latency_us.bits
            &&& now.throughputs.len() > 0 && now.throughputs.last() == m.req_count
            &&& now.rx_rates.len() > 0 && now.rx_rates.last() == m.rx_bytes
            &&& now.tx_rates.len() > 0 && now.tx_rates.last() == m.tx_bytes
        }),
        forall|column: Column|
            {
                let was = view.series(column);
                let now = #[trigger] view.pushed(m).series(column);
                &&& was.len() < 120 ==> now.len() == was.len() + 1 && forall|i: int|
                    0 <= i < was.len() ==> #[trigger] now[i] == was[i]
                &&& was.len() >= 120 ==> now.len() == was.len() && forall|i: int|
                    0 <= i < was.len() - 1 ==> #[trigger] now[i] == was[i + 1]
            },
{
    assert forall|column: Column|
        {
            let was = view.series(column);
            let now = #[trigger] view.pushed(m).series(column);
            &&& was.len() < 120 ==> now.len() == was.len() + 1 && forall|i: int|
                0 <= i < was.len() ==> #[trigger] now[i] == was[i]
            &&& was.len() >= 120 ==> now.len() == was.len() && forall|i: int|
                0 <= i < was.len() - 1 ==> #[trigger] now[i] == was[i + 1]
        } by {
        match column {
            Column::Latency => {},
            Column::Throughput => {},
            Column::Rx => {},
            Column::Tx => {},
        }
    }
}

/// After any number of seconds the series hold the newest 120 of them, or all where there are
/// fewer, each value as its second gave it.
pub proof fn law_each_second_is_shown(ip: Seq<char>, port: u16, history: Seq<Metrics>)
    ensures
        ({
            let view = AppView::empty(ip, port).pushed_all(history);
            let shown = view.latencies.len() as int;
            let first = history.len() - shown;
            &&& shown == if history.len() < 120 {
                history.len() as int
            } else {
                120
            }
            &&& view.throughputs.len() == shown
            &&& view.rx_rates.len() == shown
            &&& view.tx_rates.len() == shown
            &&& forall|i: int|
                0 <= i < shown ==> #[trigger] view.latencies[i] == history[first
                    + i].avg_latency_us.bits
            &&& forall|i: int|
                0 <= i < shown ==> #[trigger] view.throughputs[i] == history[first + i].req_count
            &&& forall|i: int|
                0 <= i < shown ==> #[trigger] view.rx_rates[i] == history[first + i].rx_bytes
            &&& forall|i: int|
                0 <= i < shown ==> #[trigger] view.tx_rates[i] == history[first + i].tx_bytes
            &&& view.elapsed == history.len()
            &&& view.total_reqs == requests_in(history)
            &&& history.len() > 0 ==> {
                &&& view.current_latency == history.last().avg_latency_us
                &&& view.current_throughput == history.last().req_count
                &&& view.current_rx == history.last().rx_bytes
                &&& view.current_tx == history.last().tx_bytes
            }
            &&& history.len() == 0 ==> {
                &&& view.current_latency.bits == 0
                &&& view.current_throughput == 0
                &&& view.current_rx == 0
                &&& view.current_tx == 0
            }
            &&& view.ip == ip
            &&& view.port == port
            &&& !view.connected
        }),
{
    let view = AppView::empty(ip, port).pushed_all(history);
    law_view_shows_the_newest_seconds(ip, port, history);
    assert(view.series(Column::Latency) == view.latencies);
    assert(view.series(Column::Throughput) == view.throughputs);
    assert(view.series(Column::Rx) == view.rx_rates);
    assert(view.series(Column::Tx) == view.tx_rates);
}

/// What came over the live connection is shown as any other second is, and the view knows that
/// it is connected.
pub proof fn law_a_received_second_is_shown(view: AppView, m: Metrics)
    ensures
        view.received(m).connected,
        view.received(m).ip == view.ip,
        view.received(m).port == view.port,
        view.received(m).latencies == view.pushed(m).latencies,
        view.received(m).throughputs == view.pushed(m).throughputs,
        view.received(m).rx_rates == view.pushed(m).rx_rates,
        view.received(m).tx_rates == view.pushed(m).tx_rates,
        view.received(m).current_latency == m.avg_latency_us,
        view.received(m).current_throughput == m.req_count,
        view.received(m).current_rx == m.rx_bytes,
        view.received(m).current_tx == m.tx_bytes,
        view.received(m).total_reqs == view.total_reqs + m.req_count,
        view.received(m).elapsed == view.elapsed + 1,
{
}

/// The view holds what the live view's data holds, field by field.
pub proof fn law_the_view_is_the_data(app: AppData)
    ensures
        app@.ip == app.ip@,
        app@.port == app.port,
        app@.latencies == app.latencies@,
        app@.throughputs == app.throughputs@,
        app@.rx_rates == app.rx_rates@,
        app@.tx_rates == app.tx_rates@,
        app@.current_latency == app.current_latency,
        app@.current_throughput == app.current_throughput,
        app@.current_rx == app.current_rx,
        app@.current_tx == app.current_tx,
        app@.total_reqs == app.total_reqs,
        app@.elapsed == app.elapsed,
        app@.connected == app.connected,
{
}

} // verus!
