//! Series of samples as lines: their points, the segments that join them and the bounds of the
//! axes that show them.
use std::collections::VecDeque;
use vstd::prelude::*;

verus! {

/// How many samples a live chart shows, which is also the right end of its horizontal axis.
pub const MAX_POINTS: usize = 120;

/// The pattern of the double `1.0`.
pub const ONE_AS_LATENCY: u64 = 0x3ff0_0000_0000_0000;

/// One mebibyte in bytes.
pub const BYTES_PER_MEBIBYTE: u64 = 1_048_576;

/// The bits of the double infinity, above which the bits of no number lie until the sign is set.
pub const INFINITY_BITS: u64 = 0x7ff0_0000_0000_0000;

/// The bits of the double minus zero, from which on the sign is set.
pub const MINUS_ZERO_BITS: u64 = 0x8000_0000_0000_0000;

/// The bits of the double minus infinity, above which the bits of no number lie.
pub const MINUS_INFINITY_BITS: u64 = 0xfff0_0000_0000_0000;

/// What the stored integers of a series stand for.
#[derive(Debug, Clone, Copy, PartialEq, Eq, Structural)]
pub enum Unit {
    /// The bits of a double, in microseconds.
    Latency,
    /// The number itself.
    Count,
    /// Bytes, shown in mebibytes.
    Mebibytes,
}

impl Unit {
    /// The integer that stands for the axis number one.
    pub open spec fn one_spec(self) -> u64 {
        match self {
            Unit::Latency => ONE_AS_LATENCY,
            Unit::Count => 1,
            Unit::Mebibytes => BYTES_PER_MEBIBYTE,
        }
    }

    /// How high an integer stands on its axis, from zero up.
    ///
    /// Integers above zero rank as their axis numbers do: the bits of positive doubles order as
    /// the doubles, and neither of the other units turns a larger integer into a smaller number.
    /// Bits of a double that is not above zero, or not a number, rank at zero.
    pub open spec fn rank_spec(self, raw: u64) -> u64 {
        if self == Unit::Latency && raw > INFINITY_BITS {
            0
        } else {
            raw
        }
    }

    /// Whether an integer stands for an axis number of zero or less.
    pub open spec fn at_most_zero_spec(self, raw: u64) -> bool {
        raw == 0 || (self == Unit::Latency && MINUS_ZERO_BITS <= raw <= MINUS_INFINITY_BITS)
    }

    /// The integer that stands for the axis number one.
    pub fn one(self) -> (raw: u64)
        ensures
            raw == self.one_spec(),
    {
        match self {
            Unit::Latency => ONE_AS_LATENCY,
            Unit::Count => 1,
            Unit::Mebibytes => BYTES_PER_MEBIBYTE,
        }
    }

    /// How high an integer stands on its axis, from zero up.
    pub fn rank(self, raw: u64) -> (rank: u64)
        ensures
            rank == self.rank_spec(raw),
    {
        match self {
            Unit::Latency => if raw > INFINITY_BITS {
                0
            } else {
                raw
            },
            Unit::Count | Unit::Mebibytes => raw,
        }
    }

    /// Whether an integer stands for an axis number of zero or less.
    pub fn at_most_zero(self, raw: u64) -> (yes: bool)
        ensures
            yes == self.at_most_zero_spec(raw),
    {
        match self {
            Unit::Latency => raw == 0 || (MINUS_ZERO_BITS <= raw && raw <= MINUS_INFINITY_BITS),
            Unit::Count | Unit::Mebibytes => raw == 0,
        }
    }
}

/// The color of a line.
#[derive(Debug, Clone, Copy, PartialEq, Eq, Structural)]
pub enum SeriesColor {
    Cyan,
    Green,
    Yellow,
    Magenta,
}

/// A straight line between two neighbouring samples.
#[derive(Debug, Clone, Copy, PartialEq, Eq, Structural)]
pub struct Segment {
    pub x1: usize,
    pub y1: u64,
    pub x2: usize,
    pub y2: u64,
}

/// The upper end of a live chart's vertical axis.
#[derive(Debug, Clone, Copy, PartialEq, Eq, Structural)]
pub enum YBound {
    /// The axis number one, for a series that holds nothing above zero.
    One,
    /// A tenth above this integer's axis number.
    TenthAbove(u64),
}

/// The highest rank among `values`, and zero where there are none.
pub open spec fn peak_of(values: Seq<u64>, unit: Unit) -> u64
    decreases values.len(),
{
    if values.len() == 0 {
        0
    } else if peak_of(values.drop_last(), unit) < unit.rank_spec(values.last()) {
        unit.rank_spec(values.last())
    } else {
        peak_of(values.drop_last(), unit)
    }
}

/// Each value at its position.
pub open spec fn points_of(values: Seq<u64>) -> Seq<(usize, u64)> {
    Seq::new(values.len(), |i: int| (i as usize, values[i]))
}

/// The line from point `i` to the next.
pub open spec fn segment_at(points: Seq<(usize, u64)>, i: int) -> Segment {
    Segment { x1: points[i].0, y1: points[i].1, x2: points[i + 1].0, y2: points[i + 1].1 }
}

/// The lines that join neighbouring points.
pub open spec fn segments_of(points: Seq<(usize, u64)>) -> Seq<Segment> {
    Seq::new(
        if points.len() < 2 {
            0
        } else {
            (points.len() - 1) as nat
        },
        |i: int| segment_at(points, i),
    )
}

/// The upper end of the vertical axis of a chart whose largest axis number this integer gives.
pub open spec fn y_bound_of(y_max: u64, unit: Unit) -> YBound {
    if unit.at_most_zero_spec(y_max) {
        YBound::One
    } else {
        YBound::TenthAbove(y_max)
    }
}

/// The peak of a plotted axis: never below the axis number one.
pub open spec fn plot_peak_of(values: Seq<u64>, unit: Unit) -> u64 {
    if peak_of(values, unit) < unit.one_spec() {
        unit.one_spec()
    } else {
        peak_of(values, unit)
    }
}

/// One live chart, ready to be painted.
#[derive(Debug, Clone)]
pub struct CanvasPlan {
    pub title: String,
    pub color: SeriesColor,
    pub unit: Unit,
    /// The right end of the horizontal axis, which starts at zero.
    pub x_max: usize,
    /// The upper end of the vertical axis, which starts at zero.
    pub y_bound: YBound,
    pub segments: Vec<Segment>,
}

impl CanvasPlan {
    /// Whether this is the chart of `values`.
    pub open spec fn shows(
        &self,
        title: Seq<char>,
        values: Seq<u64>,
        unit: Unit,
        color: SeriesColor,
    ) -> bool {
        &&& self.title@ == title
        &&& self.color == color
        &&& self.unit == unit
        &&& self.x_max == MAX_POINTS
        &&& self.y_bound == y_bound_of(peak_of(values, unit), unit)
        &&& self.segments@ == segments_of(points_of(values))
    }
}

/// The values of a live series at their positions.
pub fn series_points(values: &VecDeque<u64>) -> (points: Vec<(usize, u64)>)
    ensures
        points@ == points_of(values@),
{
    let mut points: Vec<(usize, u64)> = Vec::new();
    let mut i: usize = 0;
    while i < values.len()
        invariant
            i <= values@.len(),
            points@ == points_of(values@).take(i as int),
        decreases values@.len() - i,
    {
        points.push((i, values[i]));
        i = i + 1;
    }
    points
}

/// The highest rank in a live series, and zero where it is empty.
pub fn series_peak(values: &VecDeque<u64>, unit: Unit) -> (peak: u64)
    ensures
        peak == peak_of(values@, unit),
{
    let mut peak: u64 = 0;
    let mut i: usize = 0;
    while i < values.len()
        invariant
            i <= values@.len(),
            peak == peak_of(values@.take(i as int), unit),
        decreases values@.len() - i,
    {
        assert(values@.take(i + 1).drop_last() =~= values@.take(i as int));
        let rank: u64 = unit.rank(values[i]);
        if peak < rank {
            peak = rank;
        }
        i = i + 1;
    }
    assert(values@.take(i as int) =~= values@);
    peak
}

/// Plans a live chart: the lines through `data`, and a vertical axis that ends a tenth above
/// `y_max`, or at one where `y_max` stands for zero or less.
pub fn make_canvas(
    title: String,
    data: Vec<(usize, u64)>,
    y_max: u64,
    unit: Unit,
    color: SeriesColor,
) -> (plan: CanvasPlan)
    ensures
        plan.title@ == title@,
        plan.color == color,
        plan.unit == unit,
        plan.x_max == MAX_POINTS,
        plan.y_bound == y_bound_of(y_max, unit),
        plan.segments@ == segments_of(data@),
        data@.len() > 0 ==> plan.segments@.len() == data@.len() - 1,
        forall|i: int|
            0 <= i < plan.segments@.len() ==> {
                let line = #[trigger] plan.segments@[i];
                (line.x1, line.y1) == data@[i] && (line.x2, line.y2) == data@[i + 1]
            },
{
    let y_bound = if unit.at_most_zero(y_max) {
        YBound::One
    } else {
        YBound::TenthAbove(y_max)
    };
    let mut segments: Vec<Segment> = Vec::new();
    let mut i: usize = 1;
    while i < data.len()
        invariant
            1 <= i,
            i <= data@.len() || (data@.len() == 0 && i == 1),
            segments@ == segments_of(data@).take(i - 1),
        decreases data@.len() - i,
    {
        segments.push(
            Segment { x1: data[i - 1].0, y1: data[i - 1].1, x2: data[i].0, y2: data[i].1 },
        );
        i = i + 1;
    }
    assert(segments_of(data@).take(i - 1) =~= segments_of(data@));
    CanvasPlan { title, color, unit, x_max: MAX_POINTS, y_bound, segments }
}

/// No value ranks above the peak, and the peak is zero or the rank of one of the values.
pub proof fn law_peak_is_the_maximum(values: Seq<u64>, unit: Unit)
    ensures
        forall|i: int|
            0 <= i < values.len() ==> unit.rank_spec(#[trigger] values[i]) <= peak_of(values, unit),
        peak_of(values, unit) == 0 || exists|i: int|
            0 <= i < values.len() && unit.rank_spec(#[trigger] values[i]) == peak_of(values, unit),
    decreases values.len(),
{
    if values.len() > 0 {
        let rest = values.drop_last();
        law_peak_is_the_maximum(rest, unit);
        assert forall|i: int| 0 <= i < values.len() implies unit.rank_spec(
            #[trigger] values[i],
        ) <= peak_of(values, unit) by {
            if i < rest.len() {
                assert(rest[i] == values[i]);
            }
        }
        if peak_of(values, unit) == unit.rank_spec(values.last()) {
            assert(unit.rank_spec(values[values.len() - 1]) == peak_of(values, unit));
        } else if peak_of(values, unit) != 0 {
            let k = choose|k: int|
                0 <= k < rest.len() && unit.rank_spec(#[trigger] rest[k]) == peak_of(rest, unit);
            assert(unit.rank_spec(values[k]) == peak_of(values, unit));
        }
    }
}

/// More values never lower the peak, and leave it as it is where none of them ranks above it.
pub proof fn law_more_values_never_lower_the_peak(
    values: Seq<u64>,
    more: Seq<u64>,
    unit: Unit,
)
    ensures
        peak_of(values, unit) <= peak_of(values + more, unit),
        (forall|i: int|
            0 <= i < more.len() ==> unit.rank_spec(#[trigger] more[i]) <= peak_of(values, unit))
            ==> peak_of(values + more, unit) == peak_of(values, unit),
{
    let all = values + more;
    let old_peak = peak_of(values, unit);
    law_peak_is_the_maximum(values, unit);
    law_peak_is_the_maximum(all, unit);
    if old_peak != 0 {
        let k = choose|k: int|
            0 <= k < values.len() && unit.rank_spec(#[trigger] values[k]) == old_peak;
        assert(all[k] == values[k]);
    }
    if (forall|i: int| 0 <= i < more.len() ==> unit.rank_spec(#[trigger] more[i]) <= old_peak)
        && peak_of(all, unit) != 0 {
        let k = choose|k: int|
            0 <= k < all.len() && unit.rank_spec(#[trigger] all[k]) == peak_of(all, unit);
        if k < values.len() {
            assert(unit.rank_spec(values[k]) <= old_peak);
        } else {
            assert(all[k] == more[k - values.len()]);
        }
    }
}

/// The lines of a series form one unbroken path: each starts where the one before it ends, the
/// first starts at the first value and the last ends at the last.
pub proof fn law_segments_form_a_path(values: Seq<u64>)
    requires
        values.len() >= 2,
        values.len() <= usize::MAX,
    ensures
        segments_of(points_of(values)).len() == values.len() - 1,
        segments_of(points_of(values))[0].x1 == 0,
        segments_of(points_of(values))[0].y1 == values[0],
        segments_of(points_of(values)).last().x2 == values.len() - 1,
        segments_of(points_of(values)).last().y2 == values.last(),
        forall|i: int|
            0 <= i < values.len() - 2 ==> {
                let here = #[trigger] segments_of(points_of(values))[i];
                let next = segments_of(points_of(values))[i + 1];
                here.x2 == next.x1 && here.y2 == next.y1 && here.x2 == here.x1 + 1
            },
{
}

/// Fewer than two values draw no line.
pub proof fn law_short_series_draws_nothing(values: Seq<u64>)
    requires
        values.len() < 2,
    ensures
        segments_of(points_of(values)).len() == 0,
{
}

/// A chart of at most as many values as a live chart shows stays inside its axes: no line
/// reaches past the right end, none ranks above the peak that sets the upper end, and the upper
/// end is one exactly where no value is above zero.
pub proof fn law_lines_stay_inside_the_axes(values: Seq<u64>, unit: Unit)
    requires
        values.len() <= MAX_POINTS,
    ensures
        forall|i: int|
            0 <= i < segments_of(points_of(values)).len() ==> {
                let line = #[trigger] segments_of(points_of(values))[i];
                &&& line.x1 < line.x2 < MAX_POINTS
                &&& unit.rank_spec(line.y1) <= peak_of(values, unit)
                &&& unit.rank_spec(line.y2) <= peak_of(values, unit)
            },
        y_bound_of(peak_of(values, unit), unit) == YBound::One <==> forall|i: int|
            0 <= i < values.len() ==> unit.rank_spec(#[trigger] values[i]) == 0,
{
    law_peak_is_the_maximum(values, unit);
    lemma_peak_is_a_rank(values, unit);
    assert forall|i: int| 0 <= i < segments_of(points_of(values)).len() implies {
        let line = #[trigger] segments_of(points_of(values))[i];
        &&& line.x1 < line.x2 < MAX_POINTS
        &&& unit.rank_spec(line.y1) <= peak_of(values, unit)
        &&& unit.rank_spec(line.y2) <= peak_of(values, unit)
    } by {
        assert(unit.rank_spec(values[i]) <= peak_of(values, unit));
        assert(unit.rank_spec(values[i + 1]) <= peak_of(values, unit));
    }
}

/// The peak of latencies is never the bits of a negative double or of no number.
proof fn lemma_peak_is_a_rank(values: Seq<u64>, unit: Unit)
    ensures
        unit == Unit::Latency ==> peak_of(values, unit) <= INFINITY_BITS,
    decreases values.len(),
{
    if values.len() > 0 {
        lemma_peak_is_a_rank(values.drop_last(), unit);
    }
}

/// Every value stands at its own position and at its own height, and every two neighbours are
/// joined by one line, from the one to the other.
pub proof fn law_lines_join_neighbouring_values(values: Seq<u64>)
    requires
        values.len() <= usize::MAX,
    ensures
        points_of(values).len() == values.len(),
        forall|i: int|
            0 <= i < values.len() ==> (#[trigger] points_of(values)[i]).0 == i && points_of(
                values,
            )[i].1 == values[i],
        values.len() > 0 ==> segments_of(points_of(values)).len() == values.len() - 1,
        forall|i: int|
            0 <= i < values.len() - 1 ==> {
                let line = #[trigger] segments_of(points_of(values))[i];
                &&& line.x1 == i
                &&& line.y1 == values[i]
                &&& line.x2 == i + 1
                &&& line.y2 == values[i + 1]
            },
{
}

/// Whatever points are given, the lines run through all of them in their order.
pub proof fn law_lines_run_through_the_points(points: Seq<(usize, u64)>)
    ensures
        segments_of(points).len() + 1 == points.len() || points.len() == 0,
        points.len() == 0 ==> segments_of(points).len() == 0,
        forall|i: int|
            0 <= i < segments_of(points).len() ==> {
                let line = #[trigger] segments_of(points)[i];
                (line.x1, line.y1) == points[i] && (line.x2, line.y2) == points[i + 1]
            },
{
}

/// Counts and bytes rank as they are. Of the bits of doubles, those of zero and of the positive
/// numbers up to infinity rank as they are, and all others, which stand for negative numbers or
/// for none, at zero.
pub proof fn law_ranks_follow_the_numbers(raw: u64)
    ensures
        Unit::Count.rank_spec(raw) == raw,
        Unit::Mebibytes.rank_spec(raw) == raw,
        raw <= 0x7ff0_0000_0000_0000 ==> Unit::Latency.rank_spec(raw) == raw,
        raw > 0x7ff0_0000_0000_0000 ==> Unit::Latency.rank_spec(raw) == 0,
        Unit::Count.at_most_zero_spec(raw) <==> raw == 0,
        Unit::Mebibytes.at_most_zero_spec(raw) <==> raw == 0,
        0 < raw < 0x8000_0000_0000_0000 ==> !Unit::Latency.at_most_zero_spec(raw),
        raw == 0 || 0x8000_0000_0000_0000 <= raw <= 0xfff0_0000_0000_0000
            ==> Unit::Latency.at_most_zero_spec(raw),
        raw > 0xfff0_0000_0000_0000 ==> !Unit::Latency.at_most_zero_spec(raw),
        Unit::Count.one_spec() == 1,
        Unit::Mebibytes.one_spec() == 1024 * 1024,
        Unit::Latency.one_spec() == 0x3ff0_0000_0000_0000,
{
}

/// A live chart's axis ends a tenth above the highest of its values, and at one where none is
/// above zero: the integer that sets the end is the rank of one of the values, and no value ranks
/// above it.
pub proof fn law_live_axis_fits_the_values(values: Seq<u64>, unit: Unit)
    ensures
        match y_bound_of(peak_of(values, unit), unit) {
            YBound::One => forall|i: int|
                0 <= i < values.len() ==> unit.rank_spec(#[trigger] values[i]) == 0,
            YBound::TenthAbove(top) => {
                &&& top > 0
                &&& forall|i: int|
                    0 <= i < values.len() ==> unit.rank_spec(#[trigger] values[i]) <= top
                &&& exists|i: int|
                    0 <= i < values.len() && unit.rank_spec(#[trigger] values[i]) == top
            },
        },
{
    law_peak_is_the_maximum(values, unit);
    lemma_peak_is_a_rank(values, unit);
}

/// Whatever integer sets it, an axis ends at one where that integer stands for zero or less, and
/// a tenth above that very integer otherwise.
pub proof fn law_axis_end_keeps_its_integer(y_max: u64, unit: Unit)
    ensures
        y_bound_of(y_max, unit) == YBound::One || y_bound_of(y_max, unit) == YBound::TenthAbove(
            y_max,
        ),
        y_max == 0 ==> y_bound_of(y_max, unit) == YBound::One,
        0 < y_max < 0x8000_0000_0000_0000 ==> y_bound_of(y_max, unit) == YBound::TenthAbove(y_max),
        y_max > 0 && unit != Unit::Latency ==> y_bound_of(y_max, unit) == YBound::TenthAbove(y_max),
        unit == Unit::Latency && 0x8000_0000_0000_0000 <= y_max <= 0xfff0_0000_0000_0000
            ==> y_bound_of(y_max, unit) == YBound::One,
        unit == Unit::Latency && y_max > 0xfff0_0000_0000_0000 ==> y_bound_of(y_max, unit)
            == YBound::TenthAbove(y_max),
{
}

/// A plot's axis fits its values as closely as it can: no value ranks above its peak, and the
/// peak is the rank of one of the values, or the axis number one where that is higher than all.
pub proof fn law_plot_axis_fits_the_values(values: Seq<u64>, unit: Unit)
    ensures
        ({
            let peak = plot_peak_of(values, unit);
            &&& peak >= unit.one_spec()
            &&& forall|i: int|
                0 <= i < values.len() ==> unit.rank_spec(#[trigger] values[i]) <= peak
            &&& peak == unit.one_spec() || exists|i: int|
                0 <= i < values.len() && unit.rank_spec(#[trigger] values[i]) == peak
        }),
{
    law_peak_is_the_maximum(values, unit);
}

/// What a planned live chart says of the values that it shows: its title, color and unit, an axis
/// of 120 seconds, one line between every two neighbours, and an upper end that the highest value
/// sets.
pub proof fn law_a_live_chart_shows_its_values(
    plan: CanvasPlan,
    title: Seq<char>,
    values: Seq<u64>,
    unit: Unit,
    color: SeriesColor,
)
    requires
        values.len() <= usize::MAX,
        plan.shows(title, values, unit, color),
    ensures
        plan.title@ == title,
        plan.color == color,
        plan.unit == unit,
        plan.x_max == 120,
        values.len() > 0 ==> plan.segments@.len() == values.len() - 1,
        values.len() == 0 ==> plan.segments@.len() == 0,
        forall|i: int|
            0 <= i < plan.segments@.len() ==> {
                let line = #[trigger] plan.segments@[i];
                &&& line.x1 == i
                &&& line.y1 == values[i]
                &&& line.x2 == i + 1
                &&& line.y2 == values[i + 1]
            },
        match plan.y_bound {
            YBound::One => forall|i: int|
                0 <= i < values.len() ==> unit.rank_spec(#[trigger] values[i]) == 0,
            YBound::TenthAbove(top) => {
                &&& top > 0
                &&& forall|i: int|
                    0 <= i < values.len() ==> unit.rank_spec(#[trigger] values[i]) <= top
                &&& exists|i: int|
                    0 <= i < values.len() && unit.rank_spec(#[trigger] values[i]) == top
            },
        },
{
    law_lines_join_neighbouring_values(values);
    law_live_axis_fits_the_values(values, unit);
}

} // verus!
