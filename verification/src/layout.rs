//! Where the parts of the screen stand: the header, device list and status
//! bar, the fields of the range dialog, and a box centred in the screen
//! taking given percentages of its width and height.

use vstd::prelude::*;
use ratatui::layout::{Constraint, Direction, Layout, Rect};

verus! {

/// How much of a split a part asks for (ratatui's `Constraint`).
#[derive(Debug, Clone, Copy, PartialEq, Eq, Structural)]
pub enum Extent {
    /// Exactly this many rows or columns.
    Length(u16),
    /// At least this many rows or columns.
    Min(u16),
    /// This percentage of the split area.
    Percentage(u16),
}

/// The area shrunk by `margin` on every side (ratatui's `Rect::inner`):
/// nothing, at the origin, when the area is narrower or lower than twice
/// the margin.
pub open spec fn inner_area(area: (u16, u16, u16, u16), margin: u16) -> (u16, u16, u16, u16) {
    let m2 = if 2 * margin > u16::MAX {
        u16::MAX as int
    } else {
        2 * margin
    };
    if area.2 < m2 || area.3 < m2 {
        (0, 0, 0, 0)
    } else {
        (
            if area.0 + margin > u16::MAX { u16::MAX } else { (area.0 + margin) as u16 },
            if area.1 + margin > u16::MAX { u16::MAX } else { (area.1 + margin) as u16 },
            (area.2 - m2) as u16,
            (area.3 - m2) as u16,
        )
    }
}

/// A part of a split of `inner` lies within it: a split by rows keeps the
/// columns of `inner` and takes some of its rows; a split by columns keeps
/// its rows and takes some of its columns.
pub open spec fn part_within(vertical: bool, inner: (u16, u16, u16, u16), p: (u16, u16, u16, u16)) -> bool {
    if vertical {
        &&& p.0 == inner.0
        &&& p.2 == inner.2
        &&& inner.1 <= p.1
        &&& p.1 + p.3 <= inner.1 + inner.3
    } else {
        &&& p.1 == inner.1
        &&& p.3 == inner.3
        &&& inner.0 <= p.0
        &&& p.0 + p.2 <= inner.0 + inner.2
    }
}

/// The parts of a split of `area` with `margin`: one for each extent, each
/// within the area shrunk by the margin.
pub open spec fn split_fits(
    vertical: bool,
    margin: u16,
    area: (u16, u16, u16, u16),
    n: nat,
    parts: Seq<(u16, u16, u16, u16)>,
) -> bool {
    &&& parts.len() == n
    &&& forall|i: int|
        0 <= i < parts.len() ==> part_within(vertical, inner_area(area, margin), #[trigger] parts[i])
}

/// No extent asks for more than the whole area in percent.
pub open spec fn extents_ok(extents: Seq<Extent>) -> bool {
    forall|i: int| 0 <= i < extents.len() ==> (#[trigger] extents[i] matches Extent::Percentage(p)
        ==> p <= 100)
}

/// `Layout::split` of ratatui with the given direction, margin and
/// constraints: one area for each constraint, each within the area shrunk
/// by the margin (the solver keeps every boundary between the ends of that
/// inner area, a required constraint, and the cross direction is copied
/// from it).  Where the parts end is not stated: ratatui's solver can reach
/// different optima on different calls, so the sizes are no function of
/// the arguments.
#[verifier::external_body]
fn split_area(vertical: bool, margin: u16, extents: &Vec<Extent>, area: (u16, u16, u16, u16)) -> (r:
    Vec<(u16, u16, u16, u16)>)
    requires
        extents_ok(extents@),
    ensures
        split_fits(vertical, margin, area, extents@.len(), r@),
{
    let direction = if vertical { Direction::Vertical } else { Direction::Horizontal };
    let rect = Rect { x: area.0, y: area.1, width: area.2, height: area.3 };
    let constraints: Vec<Constraint> = extents.iter().map(|e| match *e {
        Extent::Length(n) => Constraint::Length(n),
        Extent::Min(n) => Constraint::Min(n),
        Extent::Percentage(p) => Constraint::Percentage(p),
    }).collect();
    let parts = Layout::default().direction(direction).margin(margin).constraints(constraints).split(rect);
    parts.iter().map(|r| (r.x, r.y, r.width, r.height)).collect()
}

/// The header, device list and status bar of the screen: rows split as
/// three rows, at least none, and three rows (where each part ends is
/// ratatui's to decide; each spans the whole width).
pub fn screen_areas(area: (u16, u16, u16, u16)) -> (r: Vec<(u16, u16, u16, u16)>)
    ensures
        split_fits(true, 0, area, 3, r@),
{
    let mut e: Vec<Extent> = Vec::new();
    e.push(Extent::Length(3));
    e.push(Extent::Min(0));
    e.push(Extent::Length(3));
    split_area(true, 0, &e, area)
}

/// The nine rows of the range dialog, inside a margin of two: title,
/// spacer, start label, start field (three rows), end label, end field
/// (three rows), spacer, error line, and at least one row of help.
pub fn range_dialog_areas(area: (u16, u16, u16, u16)) -> (r: Vec<(u16, u16, u16, u16)>)
    ensures
        split_fits(true, 2, area, 9, r@),
{
    let mut e: Vec<Extent> = Vec::new();
    e.push(Extent::Length(1));
    e.push(Extent::Length(1));
    e.push(Extent::Length(1));
    e.push(Extent::Length(3));
    e.push(Extent::Length(1));
    e.push(Extent::Length(3));
    e.push(Extent::Length(1));
    e.push(Extent::Length(1));
    e.push(Extent::Min(1));
    split_area(true, 2, &e, area)
}

/// The margins and the middle of a span split `percent`% in the middle.
pub open spec fn centred_extents(percent: u16) -> Seq<Extent> {
    let m = ((100 - percent) / 2) as u16;
    seq![Extent::Percentage(m), Extent::Percentage(percent), Extent::Percentage(m)]
}

/// The extents of a centred split.
fn centred(percent: u16) -> (r: Vec<Extent>)
    requires
        percent <= 100,
    ensures
        r@ == centred_extents(percent),
        extents_ok(r@),
{
    let m = (100 - percent) / 2;
    let mut r: Vec<Extent> = Vec::new();
    r.push(Extent::Percentage(m));
    r.push(Extent::Percentage(percent));
    r.push(Extent::Percentage(m));
    assert(r@ =~= centred_extents(percent));
    r
}

/// A box of `percent_x`% of the width and `percent_y`% of the height of
/// `area`, centred in it (where the help, the device details and the range
/// dialog stand): the middle row of a split by rows into margin, box and
/// margin, then the middle column of that row split the same way by
/// columns.  The box lies within the area; its size is ratatui's to decide.
pub fn centered_rect(percent_x: u16, percent_y: u16, area: (u16, u16, u16, u16)) -> (r: (
    u16,
    u16,
    u16,
    u16,
))
    requires
        percent_x <= 100,
        percent_y <= 100,
    ensures
        area.0 <= r.0,
        r.0 + r.2 <= area.0 + area.2,
        area.1 <= r.1,
        r.1 + r.3 <= area.1 + area.3,
{
    let rows = split_area(true, 0, &centred(percent_y), area);
    assert(inner_area(area, 0) == area);
    assert(part_within(true, area, rows@[1]));
    let row = rows[1];
    let cols = split_area(false, 0, &centred(percent_x), row);
    assert(inner_area(row, 0) == row);
    assert(part_within(false, row, cols@[1]));
    cols[1]
}

} // verus!
