//! Where the parts of the live view go on the screen.
use ratatui::layout::{Constraint, Direction, Layout, Rect};
use vstd::prelude::*;

verus! {

/// A rectangle of screen cells.
#[derive(Debug, Clone, Copy, PartialEq, Eq, Structural)]
pub struct Area {
    pub x: u16,
    pub y: u16,
    pub width: u16,
    pub height: u16,
}

/// The way in which an area is cut.
#[derive(Debug, Clone, Copy, PartialEq, Eq, Structural)]
pub enum Axis {
    /// Into parts one below the other.
    Vertical,
    /// Into parts side by side.
    Horizontal,
}

/// How much of an area a part asks for.
#[derive(Debug, Clone, Copy, PartialEq, Eq, Structural)]
pub enum Size {
    /// This many cells.
    Length(u16),
    /// This many cells or more.
    Min(u16),
    /// This fraction of the whole.
    Ratio(u32, u32),
}

/// Where each part of the live view goes.
#[derive(Debug, Clone, Copy, PartialEq, Eq, Structural)]
pub struct UiLayout {
    pub header: Area,
    pub latency: Area,
    pub throughput: Area,
    pub rx: Area,
    pub tx: Area,
    pub footer: Area,
}

impl Area {
    /// Whether this area reaches outside `whole` on no side.
    pub open spec fn within(self, whole: Area) -> bool {
        &&& whole.x <= self.x
        &&& whole.y <= self.y
        &&& self.x + self.width <= whole.x + whole.width
        &&& self.y + self.height <= whole.y + whole.height
    }

    /// How long the area is along the cut.
    pub open spec fn length(self, axis: Axis) -> u16 {
        match axis {
            Axis::Vertical => self.height,
            Axis::Horizontal => self.width,
        }
    }

    /// Where the area starts along the cut.
    pub open spec fn start(self, axis: Axis) -> u16 {
        match axis {
            Axis::Vertical => self.y,
            Axis::Horizontal => self.x,
        }
    }

    /// How many cells there are along the cut. Cells past the largest coordinate do not count.
    pub open spec fn extent(self, axis: Axis) -> int {
        if self.start(axis) + self.length(axis) <= u16::MAX {
            self.length(axis) as int
        } else {
            u16::MAX - self.start(axis)
        }
    }

    /// Whether this area spans `whole` across the cut.
    pub open spec fn spans(self, axis: Axis, whole: Area) -> bool {
        match axis {
            Axis::Vertical => self.x == whole.x && self.width == whole.width,
            Axis::Horizontal => self.y == whole.y && self.height == whole.height,
        }
    }
}

/// The cells that a size asks for outright.
pub open spec fn asked(size: Size) -> nat {
    match size {
        Size::Length(n) | Size::Min(n) => n as nat,
        Size::Ratio(_, _) => 0,
    }
}

/// The cells that a list of sizes asks for outright.
pub open spec fn asked_by_all(sizes: Seq<Size>) -> nat
    decreases sizes.len(),
{
    if sizes.len() == 0 {
        0
    } else {
        asked_by_all(sizes.drop_last()) + asked(sizes.last())
    }
}

/// Whether there is room for every one of at most three sizes, none of which is a fraction.
pub open spec fn room_for(sizes: Seq<Size>, axis: Axis, whole: Area) -> bool {
    &&& sizes.len() <= 3
    &&& forall|i: int| 0 <= i < sizes.len() ==> !(#[trigger] sizes[i] is Ratio)
    &&& asked_by_all(sizes) <= whole.extent(axis)
}

/// Whether the first part starts where the whole starts, and each other part where the one before
/// it ends.
pub open spec fn end_to_end(parts: Seq<Area>, axis: Axis, whole: Area) -> bool {
    &&& parts.len() > 0 ==> parts[0].start(axis) == whole.start(axis)
    &&& forall|i: int, j: int|
        0 <= i && j == i + 1 && j < parts.len() ==> (#[trigger] parts[j]).start(axis) == (
        #[trigger] parts[i]).start(axis) + parts[i].length(axis)
}

/// Whether the last part ends where the whole ends.
pub open spec fn reaches_the_end(parts: Seq<Area>, axis: Axis, whole: Area) -> bool {
    parts.len() > 0 && parts.last().start(axis) + parts.last().length(axis) == whole.start(axis)
        + whole.extent(axis)
}

/// Whether `parts` is a way in which `ratatui`'s layout solver cuts `whole` into parts of these
/// sizes.
pub uninterp spec fn is_cut(axis: Axis, sizes: Seq<Size>, whole: Area, parts: Seq<Area>) -> bool;

/// Cuts `whole` into parts of the given sizes with `ratatui::layout::Layout::split`, on a layout
/// with no margin, no spacing and the default flex.
///
/// The contract claims that there is one part for each size, that every part spans the whole
/// across the cut, and that none reaches outside it. Where there is room for all sizes, it claims
/// that the parts lie end to end, that each of a fixed length has that length, and that a minimal
/// size grows until the last part reaches the end. Two halves lie end to end and reach the end,
/// and the first gets the odd cell. Where there is too little room for header and footer, the
/// charts get none, and the two share the whole, neither getting more than it asks for. What
/// holds where there is room is kept to three sizes without fractions, because the solver weighs
/// the sizes of many parts against each other. How it shares out cells beyond that is not stated:
/// it searches tables whose order is seeded anew in each process, and `ratatui` documents no rule
/// for sizes that cannot all be met. [`is_cut`] names the outcomes that it may choose from.
#[verifier::external_body]
fn split_area(axis: Axis, sizes: &Vec<Size>, whole: Area) -> (parts: Vec<Area>)
    ensures
        parts@.len() == sizes@.len(),
        forall|i: int|
            0 <= i < parts@.len() ==> (#[trigger] parts@[i]).within(whole) && parts@[i].spans(
                axis,
                whole,
            ),
        room_for(sizes@, axis, whole) ==> end_to_end(parts@, axis, whole) && forall|i: int|
            0 <= i < parts@.len() ==> (#[trigger] sizes@[i] is Length ==> parts@[i].length(axis)
                == asked(sizes@[i])),
        room_for(sizes@, axis, whole) && (exists|i: int|
            0 <= i < sizes@.len() && #[trigger] sizes@[i] is Min) ==> reaches_the_end(
            parts@,
            axis,
            whole,
        ),
        sizes@ == frame_sizes_spec() && !room_for(sizes@, axis, whole) ==> end_to_end(
            parts@,
            axis,
            whole,
        ) && reaches_the_end(parts@, axis, whole) && parts@[0].length(axis) <= 3
            && parts@[1].length(axis) == 0 && parts@[2].length(axis) <= 3,
        sizes@ == halves_spec() ==> end_to_end(parts@, axis, whole) && reaches_the_end(
            parts@,
            axis,
            whole,
        ) && parts@[0].length(axis) == (whole.extent(axis) + 1) / 2,
        is_cut(axis, sizes@, whole, parts@),
{
    let direction = match axis {
        Axis::Vertical => Direction::Vertical,
        Axis::Horizontal => Direction::Horizontal,
    };
    let constraints = sizes.iter().map(|size| match *size {
        Size::Length(n) => Constraint::Length(n),
        Size::Min(n) => Constraint::Min(n),
        Size::Ratio(a, b) => Constraint::Ratio(a, b),
    });
    let rect = Rect { x: whole.x, y: whole.y, width: whole.width, height: whole.height };
    let rects = Layout::default().direction(direction).constraints(constraints).split(rect);
    rects.iter().map(|r| Area { x: r.x, y: r.y, width: r.width, height: r.height }).collect()
}

/// Header, charts and footer: three lines each for the first and the last.
pub open spec fn frame_sizes_spec() -> Seq<Size> {
    seq![Size::Length(3), Size::Min(0), Size::Length(3)]
}

/// Two equal halves.
pub open spec fn halves_spec() -> Seq<Size> {
    seq![Size::Ratio(1, 2), Size::Ratio(1, 2)]
}

/// Header, charts and footer: three lines each for the first and the last.
pub fn frame_sizes() -> (sizes: Vec<Size>)
    ensures
        sizes@ == frame_sizes_spec(),
{
    vec![Size::Length(3), Size::Min(0), Size::Length(3)]
}

/// Two equal halves.
pub fn halves() -> (sizes: Vec<Size>)
    ensures
        sizes@ == halves_spec(),
{
    vec![Size::Ratio(1, 2), Size::Ratio(1, 2)]
}

/// The layout that the parts of the cuts make: `frame` is the screen cut into header, charts and
/// footer, `left` and `right` are the two columns of the charts, each cut into two rows.
pub open spec fn placed(frame: Seq<Area>, left: Seq<Area>, right: Seq<Area>) -> UiLayout {
    UiLayout {
        header: frame[0],
        latency: left[0],
        throughput: right[0],
        rx: left[1],
        tx: right[1],
        footer: frame[2],
    }
}

/// Gives each part of the live view its area, once the screen has been cut.
pub fn place(frame: &Vec<Area>, left: &Vec<Area>, right: &Vec<Area>) -> (layout: UiLayout)
    requires
        frame@.len() == 3,
        left@.len() == 2,
        right@.len() == 2,
    ensures
        layout == placed(frame@, left@, right@),
{
    UiLayout {
        header: frame[0],
        latency: left[0],
        throughput: right[0],
        rx: left[1],
        tx: right[1],
        footer: frame[2],
    }
}

/// Whether `layout` comes from these cuts of `screen`: down into header, charts and footer, the
/// charts across into two columns, and each column down into two rows.
pub open spec fn cut_into(
    screen: Area,
    frame: Seq<Area>,
    columns: Seq<Area>,
    left: Seq<Area>,
    right: Seq<Area>,
    layout: UiLayout,
) -> bool {
    &&& is_cut(Axis::Vertical, frame_sizes_spec(), screen, frame)
    &&& is_cut(Axis::Horizontal, halves_spec(), frame[1], columns)
    &&& is_cut(Axis::Vertical, halves_spec(), columns[0], left)
    &&& is_cut(Axis::Vertical, halves_spec(), columns[1], right)
    &&& layout == placed(frame, left, right)
}

/// The layout of a screen of six lines or more: three lines each for header and footer, and
/// between them the charts in a grid of two by two, whose first column and first row get the odd
/// cell.
pub open spec fn grid(screen: Area) -> UiLayout {
    let lines = screen.extent(Axis::Vertical) - 6;
    let cells = screen.extent(Axis::Horizontal);
    let top = (lines + 1) / 2;
    let left = (cells + 1) / 2;
    let chart = |column: int, row: int|
        Area {
            x: (screen.x + column * left) as u16,
            y: (screen.y + 3 + row * top) as u16,
            width: (if column == 0 {
                left
            } else {
                cells - left
            }) as u16,
            height: (if row == 0 {
                top
            } else {
                lines - top
            }) as u16,
        };
    UiLayout {
        header: Area { x: screen.x, y: screen.y, width: screen.width, height: 3 },
        latency: chart(0, 0),
        throughput: chart(1, 0),
        rx: chart(0, 1),
        tx: chart(1, 1),
        footer: Area {
            x: screen.x,
            y: (screen.y + 3 + lines) as u16,
            width: screen.width,
            height: 3,
        },
    }
}

/// Cuts the screen into the parts of the live view.
///
/// A screen of six lines or more is laid out as [`grid`] says. On a smaller one header and footer
/// share the lines, with three at most for each, and the charts have none; how many of the lines
/// are the header's is up to the solver. On any screen header and footer span it, latency stands
/// over the received bytes in the left half and throughput over the sent bytes in the right, and
/// nothing reaches outside the screen.
pub fn ui_layout(screen: Area) -> (layout: UiLayout)
    ensures
        screen.extent(Axis::Vertical) >= 6 ==> layout == grid(screen),
        screen.extent(Axis::Vertical) < 6 ==> {
            &&& layout.header.y == screen.y
            &&& layout.header.height <= 3
            &&& layout.footer.height <= 3
            &&& layout.footer.y == layout.header.y + layout.header.height
            &&& layout.header.height + layout.footer.height == screen.extent(Axis::Vertical)
            &&& layout.latency.y == layout.footer.y && layout.latency.height == 0
            &&& layout.rx.y == layout.footer.y && layout.rx.height == 0
        },
        layout.header.within(screen) && layout.header.spans(Axis::Vertical, screen),
        layout.footer.within(screen) && layout.footer.spans(Axis::Vertical, screen),
        layout.latency.within(screen),
        layout.throughput.within(screen),
        layout.rx.within(screen),
        layout.tx.within(screen),
        layout.latency.spans(Axis::Vertical, layout.rx),
        layout.throughput.spans(Axis::Vertical, layout.tx),
        layout.latency.spans(Axis::Horizontal, layout.throughput),
        layout.rx.spans(Axis::Horizontal, layout.tx),
        layout.latency.x == screen.x,
        layout.latency.width == (screen.extent(Axis::Horizontal) + 1) / 2,
        layout.throughput.x == layout.latency.x + layout.latency.width,
        layout.latency.width + layout.throughput.width == screen.extent(Axis::Horizontal),
        layout.rx.y == layout.latency.y + layout.latency.height,
        exists|frame: Seq<Area>, columns: Seq<Area>, left: Seq<Area>, right: Seq<Area>|
            cut_into(screen, frame, columns, left, right, layout),
{
    let sizes = frame_sizes();
    let frame = split_area(Axis::Vertical, &sizes, screen);
    assert(frame@[1].within(screen));
    let columns = split_area(Axis::Horizontal, &halves(), frame[1]);
    assert(columns@[0].within(frame@[1]));
    assert(columns@[1].within(frame@[1]));
    let left = split_area(Axis::Vertical, &halves(), columns[0]);
    let right = split_area(Axis::Vertical, &halves(), columns[1]);
    let layout = place(&frame, &left, &right);
    proof {
        assert(frame@[0].within(screen));
        assert(frame@[2].within(screen));
        assert(left@[0].within(columns@[0]));
        assert(left@[1].within(columns@[0]));
        assert(right@[0].within(columns@[1]));
        assert(right@[1].within(columns@[1]));
        assert(frame@[1].extent(Axis::Horizontal) == screen.extent(Axis::Horizontal));
        assert(columns@[0].extent(Axis::Vertical) == frame@[1].extent(Axis::Vertical));
        assert(columns@[1].extent(Axis::Vertical) == frame@[1].extent(Axis::Vertical));
        assert(columns@[1].start(Axis::Horizontal) == columns@[0].start(Axis::Horizontal)
            + columns@[0].length(Axis::Horizontal));
        assert(left@[1].start(Axis::Vertical) == left@[0].start(Axis::Vertical) + left@[0].length(
            Axis::Vertical,
        ));
        assert(right@[1].start(Axis::Vertical) == right@[0].start(Axis::Vertical)
            + right@[0].length(Axis::Vertical));
        assert(sizes@.drop_last().drop_last().drop_last() =~= Seq::empty());
        reveal_with_fuel(asked_by_all, 4);
        assert(asked_by_all(sizes@) == 6);
        assert(sizes@[0] is Length && sizes@[1] is Min && sizes@[2] is Length);
        assert(room_for(sizes@, Axis::Vertical, screen) <==> screen.extent(Axis::Vertical) >= 6);
        assert(frame@[1].start(Axis::Vertical) == frame@[0].start(Axis::Vertical)
            + frame@[0].length(Axis::Vertical));
        assert(frame@[2].start(Axis::Vertical) == frame@[1].start(Axis::Vertical)
            + frame@[1].length(Axis::Vertical));
        if screen.extent(Axis::Vertical) >= 6 {
            assert(frame@[1].height == screen.extent(Axis::Vertical) - 6);
        }
        assert(cut_into(screen, frame@, columns@, left@, right@, layout));
    }
    layout
}

/// What the screen is cut by: three lines for the header, three for the footer and the rest for
/// the charts between them, and then halves; and where each cut part goes.
pub proof fn law_the_cuts_and_where_they_go(frame: Seq<Area>, left: Seq<Area>, right: Seq<Area>)
    ensures
        frame_sizes_spec().len() == 3,
        frame_sizes_spec()[0] == Size::Length(3),
        frame_sizes_spec()[1] == Size::Min(0),
        frame_sizes_spec()[2] == Size::Length(3),
        halves_spec().len() == 2,
        halves_spec()[0] == Size::Ratio(1, 2),
        halves_spec()[1] == Size::Ratio(1, 2),
        placed(frame, left, right).header == frame[0],
        placed(frame, left, right).footer == frame[2],
        placed(frame, left, right).latency == left[0],
        placed(frame, left, right).rx == left[1],
        placed(frame, left, right).throughput == right[0],
        placed(frame, left, right).tx == right[1],
{
}

/// An area's extent is its length, unless it runs past the largest coordinate, where it is cut.
pub proof fn law_extents_end_at_the_last_cell(area: Area)
    ensures
        area.y + area.height <= 65535 ==> area.extent(Axis::Vertical) == area.height,
        area.y + area.height > 65535 ==> area.y + area.extent(Axis::Vertical) == 65535,
        area.x + area.width <= 65535 ==> area.extent(Axis::Horizontal) == area.width,
        area.x + area.width > 65535 ==> area.x + area.extent(Axis::Horizontal) == 65535,
{
}

/// The parts of a screen of six lines or more cover it without overlap: header on top and footer
/// at the bottom, three lines each and as wide as the screen, and between them two rows of two
/// charts that meet in the middle, where the first row and the first column are as large as the
/// second or larger by one cell.
pub proof fn law_the_grid_covers_the_screen(screen: Area)
    requires
        screen.extent(Axis::Vertical) >= 6,
    ensures
        ({
            let ui = grid(screen);
            let lines = screen.extent(Axis::Vertical);
            let cells = screen.extent(Axis::Horizontal);
            &&& ui.header.x == screen.x && ui.header.width == screen.width
            &&& ui.header.y == screen.y && ui.header.height == 3
            &&& ui.footer.x == screen.x && ui.footer.width == screen.width
            &&& ui.footer.y + ui.footer.height == screen.y + lines && ui.footer.height == 3
            &&& ui.latency.x == screen.x && ui.rx.x == screen.x
            &&& ui.throughput.x == screen.x + ui.latency.width && ui.tx.x == ui.throughput.x
            &&& ui.latency.width + ui.throughput.width == cells
            &&& ui.rx.width == ui.latency.width && ui.tx.width == ui.throughput.width
            &&& ui.throughput.width <= ui.latency.width <= ui.throughput.width + 1
            &&& ui.latency.y == screen.y + 3 && ui.throughput.y == ui.latency.y
            &&& ui.rx.y == ui.latency.y + ui.latency.height && ui.tx.y == ui.rx.y
            &&& ui.latency.height + ui.rx.height + 6 == lines
            &&& ui.throughput.height == ui.latency.height && ui.tx.height == ui.rx.height
            &&& ui.rx.height <= ui.latency.height <= ui.rx.height + 1
            &&& ui.rx.y + ui.rx.height == ui.footer.y
        }),
{
}

} // verus!
