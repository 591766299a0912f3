//! The four quantities that are shown, and how each of them is shown.
use vstd::prelude::*;

use crate::chart::{SeriesColor, Unit};
use crate::report::Metrics;

verus! {

/// A quantity of one second's metrics.
#[derive(Debug, Clone, Copy, PartialEq, Eq, Structural)]
pub enum Column {
    Latency,
    Throughput,
    Rx,
    Tx,
}

impl Column {
    /// This quantity of `m`, as an integer of the column's unit.
    pub open spec fn of(self, m: Metrics) -> u64 {
        match self {
            Column::Latency => m.avg_latency_us.bits,
            Column::Throughput => m.req_count,
            Column::Rx => m.rx_bytes,
            Column::Tx => m.tx_bytes,
        }
    }

    /// This quantity of each of a series of seconds.
    pub open spec fn of_all(self, history: Seq<Metrics>) -> Seq<u64> {
        history.map_values(|m: Metrics| self.of(m))
    }

    pub open spec fn unit_spec(self) -> Unit {
        match self {
            Column::Latency => Unit::Latency,
            Column::Throughput => Unit::Count,
            Column::Rx | Column::Tx => Unit::Mebibytes,
        }
    }

    pub open spec fn color_spec(self) -> SeriesColor {
        match self {
            Column::Latency => SeriesColor::Cyan,
            Column::Throughput => SeriesColor::Green,
            Column::Rx => SeriesColor::Yellow,
            Column::Tx => SeriesColor::Magenta,
        }
    }

    pub open spec fn caption_spec(self) -> Seq<char> {
        match self {
            Column::Latency => "Latency (μs)"@,
            Column::Throughput => "Throughput (req/s)"@,
            Column::Rx => "RX (MiB/s)"@,
            Column::Tx => "TX (MiB/s)"@,
        }
    }

    pub open spec fn label_spec(self) -> Seq<char> {
        match self {
            Column::Latency => "latency"@,
            Column::Throughput => "throughput"@,
            Column::Rx => "RX"@,
            Column::Tx => "TX"@,
        }
    }

    /// The title of the quantity's live chart, where `current` is its newest value in words.
    pub open spec fn title_spec(self, current: Seq<char>) -> Seq<char> {
        self.caption_spec() + "  [cur: "@ + current + "]"@
    }

    /// This quantity of `m`, as an integer of the column's unit.
    pub fn value(self, m: &Metrics) -> (value: u64)
        ensures
            value == self.of(*m),
    {
        match self {
            Column::Latency => m.avg_latency_us.bits,
            Column::Throughput => m.req_count,
            Column::Rx => m.rx_bytes,
            Column::Tx => m.tx_bytes,
        }
    }

    /// What the integers of this quantity stand for.
    pub fn unit(self) -> (unit: Unit)
        ensures
            unit == self.unit_spec(),
    {
        match self {
            Column::Latency => Unit::Latency,
            Column::Throughput => Unit::Count,
            Column::Rx | Column::Tx => Unit::Mebibytes,
        }
    }

    /// The color of this quantity's line.
    pub fn color(self) -> (color: SeriesColor)
        ensures
            color == self.color_spec(),
    {
        match self {
            Column::Latency => SeriesColor::Cyan,
            Column::Throughput => SeriesColor::Green,
            Column::Rx => SeriesColor::Yellow,
            Column::Tx => SeriesColor::Magenta,
        }
    }

    /// What this quantity is called over its chart.
    pub fn caption(self) -> (caption: &'static str)
        ensures
            caption@ == self.caption_spec(),
    {
        match self {
            Column::Latency => "Latency (μs)",
            Column::Throughput => "Throughput (req/s)",
            Column::Rx => "RX (MiB/s)",
            Column::Tx => "TX (MiB/s)",
        }
    }

    /// What this quantity is called in a plot's legend.
    pub fn label(self) -> (label: &'static str)
        ensures
            label@ == self.label_spec(),
    {
        match self {
            Column::Latency => "latency",
            Column::Throughput => "throughput",
            Column::Rx => "RX",
            Column::Tx => "TX",
        }
    }

    /// The title of this quantity's live chart, where `current` is its newest value in words.
    pub fn title(self, current: &str) -> (title: String)
        ensures
            title@ == self.title_spec(current@),
    {
        let mut title = String::new();
        title.append(self.caption());
        title.append("  [cur: ");
        title.append(current);
        title.append("]");
        assert(title@ =~= self.title_spec(current@));
        title
    }
}

/// Each quantity is read from its own field of the metrics, and is shown in its own unit and
/// under its own name and color.
pub proof fn law_columns_read_their_fields(m: Metrics, history: Seq<Metrics>)
    ensures
        Column::Latency.of(m) == m.avg_latency_us.bits,
        Column::Throughput.of(m) == m.req_count,
        Column::Rx.of(m) == m.rx_bytes,
        Column::Tx.of(m) == m.tx_bytes,
        forall|column: Column|
            {
                &&& (#[trigger] column.of_all(history)).len() == history.len()
                &&& forall|i: int|
                    0 <= i < history.len() ==> #[trigger] column.of_all(history)[i] == column.of(
                        history[i],
                    )
            },
        Column::Latency.unit_spec() == Unit::Latency,
        Column::Throughput.unit_spec() == Unit::Count,
        Column::Rx.unit_spec() == Unit::Mebibytes,
        Column::Tx.unit_spec() == Unit::Mebibytes,
        Column::Latency.color_spec() == SeriesColor::Cyan,
        Column::Throughput.color_spec() == SeriesColor::Green,
        Column::Rx.color_spec() == SeriesColor::Yellow,
        Column::Tx.color_spec() == SeriesColor::Magenta,
        Column::Latency.caption_spec() == "Latency (μs)"@,
        Column::Throughput.caption_spec() == "Throughput (req/s)"@,
        Column::Rx.caption_spec() == "RX (MiB/s)"@,
        Column::Tx.caption_spec() == "TX (MiB/s)"@,
        Column::Latency.label_spec() == "latency"@,
        Column::Throughput.label_spec() == "throughput"@,
        Column::Rx.label_spec() == "RX"@,
        Column::Tx.label_spec() == "TX"@,
{
}

/// A live chart's title begins with the caption and shows the newest value whole: it stands
/// between its brackets, and titles of different values differ.
pub proof fn law_titles_show_the_newest_value(
    column: Column,
    current: Seq<char>,
    other: Seq<char>,
)
    ensures
        ({
            let title = column.title_spec(current);
            let at = column.caption_spec().len() + 8;
            &&& title.len() == at + current.len() + 1
            &&& title.subrange(0, column.caption_spec().len() as int) == column.caption_spec()
            &&& title.subrange(column.caption_spec().len() as int, at as int) == "  [cur: "@
            &&& title.subrange(at as int, (at + current.len()) as int) == current
            &&& title.last() == ']'
        }),
        column.title_spec(current) == column.title_spec(other) ==> current == other,
{
    reveal_strlit("  [cur: ");
    reveal_strlit("]");
    let at = column.caption_spec().len() + 8;
    let title = column.title_spec(current);
    assert(title.subrange(0, column.caption_spec().len() as int) =~= column.caption_spec());
    assert(title.subrange(column.caption_spec().len() as int, at as int) =~= "  [cur: "@);
    assert(title.subrange(at as int, (at + current.len()) as int) =~= current);
    let title2 = column.title_spec(other);
    assert(title2.subrange(at as int, (at + other.len()) as int) =~= other);
    assert(title2.len() == at + other.len() + 1);
}

} // verus!
