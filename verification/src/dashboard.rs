//! What the live view puts on the screen.
use std::collections::VecDeque;
use vstd::prelude::*;

use crate::chart::{make_canvas, series_peak, series_points, CanvasPlan, YBound};
use crate::column::Column;
use crate::live::AppData;
use crate::text::push_decimal;

verus! {

/// The current readings that are fractions, in words.
#[derive(Debug)]
pub struct Readouts {
    /// The latency in whole microseconds.
    pub latency: String,
    /// The received mebibytes, to one decimal place.
    pub rx: String,
    /// The sent mebibytes, to one decimal place.
    pub tx: String,
}

/// Everything on the screen.
#[derive(Debug)]
pub struct Dashboard {
    pub title: &'static str,
    pub header: String,
    pub latency: CanvasPlan,
    pub throughput: CanvasPlan,
    pub rx: CanvasPlan,
    pub tx: CanvasPlan,
    pub footer: &'static str,
}

/// The line at the top of the screen.
pub open spec fn header_of(
    ip: Seq<char>,
    port: u16,
    latency: Seq<char>,
    throughput: u64,
    rx: Seq<char>,
    tx: Seq<char>,
) -> Seq<char> {
    " "@ + ip + ":"@ + crate::text::decimal(port as nat) + "  |  Latency: "@ + latency
        + "μs  |  Throughput: "@ + crate::text::decimal(throughput as nat) + " req/s  |  RX: "@ + rx
        + " MiB/s  TX: "@ + tx + " MiB/s"@
}

/// The line at the top of the screen, with the fractions already in words.
pub fn header(app: &AppData, readouts: &Readouts) -> (text: String)
    ensures
        text@ == header_of(
            app.ip@,
            app.port,
            readouts.latency@,
            app.current_throughput,
            readouts.rx@,
            readouts.tx@,
        ),
        exists|port: Seq<char>, throughput: Seq<char>|
            {
                &&& #[trigger] crate::text::writes(port, app.port as nat)
                &&& #[trigger] crate::text::writes(throughput, app.current_throughput as nat)
                &&& text@ == " "@ + app.ip@ + ":"@ + port + "  |  Latency: "@ + readouts.latency@
                    + "μs  |  Throughput: "@ + throughput + " req/s  |  RX: "@ + readouts.rx@
                    + " MiB/s  TX: "@ + readouts.tx@ + " MiB/s"@
            },
{
    proof {
        let (port, throughput) = law_the_header_reads_back(
            app.ip@,
            app.port,
            readouts.latency@,
            app.current_throughput,
            readouts.rx@,
            readouts.tx@,
        );
    }
    let mut text = String::new();
    text.append(" ");
    assert(text@ =~= " "@);
    text.append(app.ip.as_str());
    text.append(":");
    push_decimal(&mut text, app.port as u64);
    text.append("  |  Latency: ");
    text.append(readouts.latency.as_str());
    text.append("μs  |  Throughput: ");
    push_decimal(&mut text, app.current_throughput);
    text.append(" req/s  |  RX: ");
    text.append(readouts.rx.as_str());
    text.append(" MiB/s  TX: ");
    text.append(readouts.tx.as_str());
    text.append(" MiB/s");
    text
}

/// The live chart of one quantity, whose newest value in words is `current`.
fn live_chart(column: Column, values: &VecDeque<u64>, current: &str) -> (plan: CanvasPlan)
    ensures
        plan.shows(
            column.title_spec(current@),
            values@,
            column.unit_spec(),
            column.color_spec(),
        ),
{
    make_canvas(
        column.title(current),
        series_points(values),
        series_peak(values, column.unit()),
        column.unit(),
        column.color(),
    )
}

impl Dashboard {
    /// Whether `plan` is the live chart of `column` over `values`.
    pub open spec fn charts(
        plan: CanvasPlan,
        column: Column,
        values: Seq<u64>,
        current: Seq<char>,
    ) -> bool {
        plan.shows(column.title_spec(current), values, column.unit_spec(), column.color_spec())
    }

    /// Everything that the screen shows of `app`, with its fractional readings already in words.
    pub fn new(app: &AppData, readouts: &Readouts) -> (screen: Dashboard)
        ensures
            screen.title@ == " efbench - Live Benchmark "@,
            screen.header@ == header_of(
                app.ip@,
                app.port,
                readouts.latency@,
                app.current_throughput,
                readouts.rx@,
                readouts.tx@,
            ),
            Self::charts(screen.latency, Column::Latency, app@.latencies, readouts.latency@),
            Self::charts(
                screen.throughput,
                Column::Throughput,
                app@.throughputs,
                crate::text::decimal(app.current_throughput as nat),
            ),
            Self::charts(screen.rx, Column::Rx, app@.rx_rates, readouts.rx@),
            Self::charts(screen.tx, Column::Tx, app@.tx_rates, readouts.tx@),
            screen.footer@ == " Press 'q' to quit "@,
            exists|throughput: Seq<char>|
                {
                    &&& #[trigger] crate::text::writes(throughput, app.current_throughput as nat)
                    &&& screen.throughput.title@ == "Throughput (req/s)"@ + "  [cur: "@ + throughput
                        + "]"@
                },
    {
        proof {
            crate::text::law_one_text_writes_a_number(
                crate::text::decimal(app.current_throughput as nat),
                app.current_throughput as nat,
            );
        }
        let mut throughput = String::new();
        push_decimal(&mut throughput, app.current_throughput);
        assert(throughput@ =~= crate::text::decimal(app.current_throughput as nat));
        Dashboard {
            title: " efbench - Live Benchmark ",
            header: header(app, readouts),
            latency: live_chart(Column::Latency, &app.latencies, readouts.latency.as_str()),
            throughput: live_chart(Column::Throughput, &app.throughputs, throughput.as_str()),
            rx: live_chart(Column::Rx, &app.rx_rates, readouts.rx.as_str()),
            tx: live_chart(Column::Tx, &app.tx_rates, readouts.tx.as_str()),
            footer: " Press 'q' to quit ",
        }
    }
}

/// The header's numbers read back: where the address and the throughput stand in it are digits
/// that write exactly the port and exactly the throughput, and all else is as it was given.
pub proof fn law_the_header_reads_back(
    ip: Seq<char>,
    port: u16,
    latency: Seq<char>,
    throughput: u64,
    rx: Seq<char>,
    tx: Seq<char>,
) -> (numbers: (Seq<char>, Seq<char>))
    ensures
        crate::text::writes(numbers.0, port as nat),
        crate::text::writes(numbers.1, throughput as nat),
        crate::text::digits_value(numbers.0) == port,
        crate::text::digits_value(numbers.1) == throughput,
        header_of(ip, port, latency, throughput, rx, tx) == " "@ + ip + ":"@ + numbers.0
            + "  |  Latency: "@ + latency + "μs  |  Throughput: "@ + numbers.1
            + " req/s  |  RX: "@ + rx + " MiB/s  TX: "@ + tx + " MiB/s"@,
{
    let p = crate::text::decimal(port as nat);
    let t = crate::text::decimal(throughput as nat);
    crate::text::law_one_text_writes_a_number(p, port as nat);
    crate::text::law_one_text_writes_a_number(t, throughput as nat);
    (p, t)
}

/// The throughput stands between `Throughput: ` and ` req/s`, and what stands there has its value.
pub proof fn law_the_header_holds_the_throughput(
    ip: Seq<char>,
    port: u16,
    latency: Seq<char>,
    throughput: u64,
    rx: Seq<char>,
    tx: Seq<char>,
)
    ensures
        ({
            let text = header_of(ip, port, latency, throughput, rx, tx);
            exists|i: int, j: int|
                {
                    &&& 12 <= i < j <= text.len() - 6
                    &&& text.subrange(i - 12, i) == "Throughput: "@
                    &&& text.subrange(j, j + 6) == " req/s"@
                    &&& crate::text::writes(#[trigger] text.subrange(i, j), throughput as nat)
                }
        }),
{
    let (p, t) = law_the_header_reads_back(ip, port, latency, throughput, rx, tx);
    let text = header_of(ip, port, latency, throughput, rx, tx);
    reveal_strlit("μs  |  Throughput: ");
    reveal_strlit("Throughput: ");
    reveal_strlit(" req/s  |  RX: ");
    reveal_strlit(" req/s");
    let front = " "@ + ip + ":"@ + p + "  |  Latency: "@ + latency;
    let i = (front.len() + 19) as int;
    let j = (i + t.len()) as int;
    assert(text.subrange(i, j) =~= t);
    assert(text.subrange(i - 12, i) =~= "Throughput: "@);
    assert(text.subrange(j, j + 6) =~= " req/s"@);
}

/// A change of any one reading, or of the address, shows in the header.
pub proof fn law_headers_tell_readings_apart(
    ip: Seq<char>,
    port: u16,
    latency: Seq<char>,
    throughput: u64,
    rx: Seq<char>,
    tx: Seq<char>,
)
    ensures
        forall|other: Seq<char>|
            header_of(ip, port, latency, throughput, rx, tx) == #[trigger] header_of(
                other,
                port,
                latency,
                throughput,
                rx,
                tx,
            ) ==> ip == other,
        forall|other: u16|
            header_of(ip, port, latency, throughput, rx, tx) == #[trigger] header_of(
                ip,
                other,
                latency,
                throughput,
                rx,
                tx,
            ) ==> port == other,
        forall|other: Seq<char>|
            header_of(ip, port, latency, throughput, rx, tx) == #[trigger] header_of(
                ip,
                port,
                other,
                throughput,
                rx,
                tx,
            ) ==> latency == other,
        forall|other: u64|
            header_of(ip, port, latency, throughput, rx, tx) == #[trigger] header_of(
                ip,
                port,
                latency,
                other,
                rx,
                tx,
            ) ==> throughput == other,
        forall|other: Seq<char>|
            header_of(ip, port, latency, throughput, rx, tx) == #[trigger] header_of(
                ip,
                port,
                latency,
                throughput,
                other,
                tx,
            ) ==> rx == other,
        forall|other: Seq<char>|
            header_of(ip, port, latency, throughput, rx, tx) == #[trigger] header_of(
                ip,
                port,
                latency,
                throughput,
                rx,
                other,
            ) ==> tx == other,
{
    let p = crate::text::decimal(port as nat);
    let t = crate::text::decimal(throughput as nat);
    let end6 = " MiB/s"@;
    let end5 = " MiB/s  TX: "@ + tx + end6;
    let end4 = " req/s  |  RX: "@ + rx + end5;
    let end3 = "μs  |  Throughput: "@ + t + end4;
    let end2 = "  |  Latency: "@ + latency + end3;
    let end1 = ":"@ + p + end2;
    let front1 = " "@;
    let front2 = front1 + ip + ":"@;
    let front3 = front2 + p + "  |  Latency: "@;
    let front4 = front3 + latency + "μs  |  Throughput: "@;
    let front5 = front4 + t + " req/s  |  RX: "@;
    let front6 = front5 + rx + " MiB/s  TX: "@;
    let text = header_of(ip, port, latency, throughput, rx, tx);
    assert(text =~= front1 + ip + end1);
    assert(text =~= front2 + p + end2);
    assert(text =~= front3 + latency + end3);
    assert(text =~= front4 + t + end4);
    assert(text =~= front5 + rx + end5);
    assert(text =~= front6 + tx + end6);
    assert forall|other: Seq<char>|
        text == #[trigger] header_of(other, port, latency, throughput, rx, tx) implies ip
        == other by {
        assert(header_of(other, port, latency, throughput, rx, tx) =~= front1 + other + end1);
        lemma_same_middle(front1, ip, other, end1);
    }
    assert forall|other: u16|
        text == #[trigger] header_of(ip, other, latency, throughput, rx, tx) implies port
        == other by {
        let o = crate::text::decimal(other as nat);
        assert(header_of(ip, other, latency, throughput, rx, tx) =~= front2 + o + end2);
        lemma_same_middle(front2, p, o, end2);
        crate::text::law_decimal_is_injective(port as nat, other as nat);
    }
    assert forall|other: Seq<char>|
        text == #[trigger] header_of(ip, port, other, throughput, rx, tx) implies latency
        == other by {
        assert(header_of(ip, port, other, throughput, rx, tx) =~= front3 + other + end3);
        lemma_same_middle(front3, latency, other, end3);
    }
    assert forall|other: u64|
        text == #[trigger] header_of(ip, port, latency, other, rx, tx) implies throughput
        == other by {
        let o = crate::text::decimal(other as nat);
        assert(header_of(ip, port, latency, other, rx, tx) =~= front4 + o + end4);
        lemma_same_middle(front4, t, o, end4);
        crate::text::law_decimal_is_injective(throughput as nat, other as nat);
    }
    assert forall|other: Seq<char>|
        text == #[trigger] header_of(ip, port, latency, throughput, other, tx) implies rx
        == other by {
        assert(header_of(ip, port, latency, throughput, other, tx) =~= front5 + other + end5);
        lemma_same_middle(front5, rx, other, end5);
    }
    assert forall|other: Seq<char>|
        text == #[trigger] header_of(ip, port, latency, throughput, rx, other) implies tx
        == other by {
        assert(header_of(ip, port, latency, throughput, rx, other) =~= front6 + other + end6);
        lemma_same_middle(front6, tx, other, end6);
    }
}

proof fn lemma_same_middle(front: Seq<char>, a: Seq<char>, b: Seq<char>, back: Seq<char>)
    requires
        front + a + back == front + b + back,
    ensures
        a == b,
{
    let text = front + a + back;
    assert(text.len() == front.len() + b.len() + back.len());
    assert(a =~= text.subrange(front.len() as int, (front.len() + a.len()) as int));
    assert(b =~= text.subrange(front.len() as int, (front.len() + b.len()) as int));
}

/// A chart on the screen shows its own quantity's series under its own title, value by value.
pub proof fn law_charts_on_the_screen_show_their_series(
    plan: CanvasPlan,
    column: Column,
    values: Seq<u64>,
    current: Seq<char>,
)
    requires
        values.len() <= usize::MAX,
        Dashboard::charts(plan, column, values, current),
    ensures
        column == Column::Latency ==> plan.title@ == "Latency (μs)"@ + "  [cur: "@ + current + "]"@,
        column == Column::Throughput ==> plan.title@ == "Throughput (req/s)"@ + "  [cur: "@
            + current + "]"@,
        column == Column::Rx ==> plan.title@ == "RX (MiB/s)"@ + "  [cur: "@ + current + "]"@,
        column == Column::Tx ==> plan.title@ == "TX (MiB/s)"@ + "  [cur: "@ + current + "]"@,
        plan.unit == column.unit_spec(),
        plan.color == column.color_spec(),
        plan.x_max == 120,
        values.len() > 0 ==> plan.segments@.len() == values.len() - 1,
        values.len() == 0 ==> plan.segments@.len() == 0,
        forall|i: int|
            0 <= i < plan.segments@.len() ==> {
                let line = #[trigger] plan.segments@[i];
                &&& line.x1 == i
                &&& line.y1 == values[i]
                &&& line.x2 == i + 1
                &&& line.y2 == values[i + 1]
            },
        match plan.y_bound {
            YBound::One => forall|i: int|
                0 <= i < values.len() ==> column.unit_spec().rank_spec(#[trigger] values[i]) == 0,
            YBound::TenthAbove(top) => {
                &&& top > 0
                &&& forall|i: int|
                    0 <= i < values.len() ==> column.unit_spec().rank_spec(#[trigger] values[i])
                        <= top
                &&& exists|i: int|
                    0 <= i < values.len() && column.unit_spec().rank_spec(#[trigger] values[i])
                        == top
            },
        },
{
    crate::chart::law_a_live_chart_shows_its_values(
        plan,
        column.title_spec(current),
        values,
        column.unit_spec(),
        column.color_spec(),
    );
}

} // verus!
