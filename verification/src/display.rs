//! The two views and the row plan of the progress view.
use ratatui::layout::{Constraint, Direction, Layout, Rect};
use crate::calendar::{day_contains, format_utc_date, in_datetime_range, is_valid_date, iso_date_text};
use crate::quota::DisplayData;
use vstd::prelude::*;

verus! {

/// How the quotas are shown.
#[derive(Debug, Clone, Copy, PartialEq, Eq)]
pub enum DisplayStyle {
    /// One gauge per metered quota and one for the month.
    Progress,
    /// One line per quota.
    Text,
}

/// The height of a row of the progress view.
#[derive(Debug, Clone, Copy, PartialEq, Eq)]
pub enum RowHeight {
    /// Exactly this many lines.
    Length(u16),
    /// At least this many lines.
    Min(u16),
}

/// The rows of the progress view and the row that each part of it goes to.
#[derive(Debug, Clone, PartialEq, Eq)]
pub struct ProgressLayout {
    pub rows: Vec<RowHeight>,
    pub title: usize,
    pub quotas: Vec<usize>,
    pub month: usize,
    pub footer: usize,
}

/// The rows for `metered` quotas: the title (3 lines), a separator (1), then for each
/// quota a gauge (3) and a gap (1), the month gauge (3), a gap (1) and the footer (at
/// least 2).
pub open spec fn progress_row_heights(metered: int) -> Seq<RowHeight> {
    Seq::new(
        (2 * metered + 5) as nat,
        |i: int|
            if i == 2 * metered + 4 {
                RowHeight::Min(2)
            } else if i % 2 == 0 {
                RowHeight::Length(3)
            } else {
                RowHeight::Length(1)
            },
    )
}

/// The row plan of the progress view for `metered` quotas. Every part gets a row of its own
/// that exists: the title row 0, quota `k` row `2 + 2k`, the month gauge and the footer the
/// rows after the last quota and its gap.
pub fn progress_layout(metered: usize) -> (res: ProgressLayout)
    requires
        2 * metered + 5 <= usize::MAX,
    ensures
        res.rows@ == progress_row_heights(metered as int),
        res.title == 0,
        res.quotas.len() == metered,
        forall|k: int| 0 <= k < metered ==> res.quotas[k] == 2 + 2 * k,
        res.month == 2 + 2 * metered,
        res.footer == 4 + 2 * metered,
        res.title < res.rows.len() && res.rows[res.title as int] == RowHeight::Length(3),
        forall|k: int| 0 <= k < metered ==> res.quotas[k] < res.rows.len() && res.rows[res.quotas[k] as int] == RowHeight::Length(3),
        res.month < res.rows.len() && res.rows[res.month as int] == RowHeight::Length(3),
        res.footer < res.rows.len() && res.rows[res.footer as int] == RowHeight::Min(2),
{
    let mut rows: Vec<RowHeight> = Vec::new();
    let mut quotas: Vec<usize> = Vec::new();
    rows.push(RowHeight::Length(3));
    rows.push(RowHeight::Length(1));
    let mut k: usize = 0;
    while k < metered
        invariant
            0 <= k <= metered,
            2 * metered + 5 <= usize::MAX,
            rows.len() == 2 + 2 * k,
            quotas.len() == k,
            forall|j: int| 0 <= j < rows.len() ==> rows[j] == progress_row_heights(metered as int)[j],
            forall|j: int| 0 <= j < k ==> quotas[j] == 2 + 2 * j,
        decreases metered - k,
    {
        quotas.push(rows.len());
        rows.push(RowHeight::Length(3));
        rows.push(RowHeight::Length(1));
        k = k + 1;
    }
    let month = rows.len();
    rows.push(RowHeight::Length(3));
    rows.push(RowHeight::Length(1));
    let footer = rows.len();
    rows.push(RowHeight::Min(2));
    assert(rows@ =~= progress_row_heights(metered as int));
    ProgressLayout { rows, title: 0, quotas, month, footer }
}

/// A rectangle of the terminal, in cells.
#[derive(Debug, Clone, Copy, PartialEq, Eq)]
pub struct Area {
    pub x: u16,
    pub y: u16,
    pub width: u16,
    pub height: u16,
}

impl View for Area {
    type V = (u16, u16, u16, u16);

    open spec fn view(&self) -> (u16, u16, u16, u16) {
        (self.x, self.y, self.width, self.height)
    }
}

/// The direction in which an area is split.
#[derive(Debug, Clone, Copy, PartialEq, Eq)]
pub enum SplitDirection {
    Vertical,
    Horizontal,
}

/// The area's cells stay within the terminal's `u16` coordinates on both axes.
pub open spec fn fits_in_terminal(area: (u16, u16, u16, u16)) -> bool {
    area.0 + area.2 <= 65535 && area.1 + area.3 <= 65535
}

/// `percent` percent of `size` cells, rounded to the nearest cell, halves up.
pub open spec fn rounded_share(size: int, percent: int) -> int {
    (size * percent + 50) / 100
}

/// The cells along the split direction.
pub open spec fn split_length(direction: SplitDirection, area: (u16, u16, u16, u16)) -> int {
    match direction {
        SplitDirection::Vertical => area.3 as int,
        SplitDirection::Horizontal => area.2 as int,
    }
}

/// The part of `area` from cell `from` to cell `to` along the split direction, across
/// the whole area the other way.
pub open spec fn split_part(direction: SplitDirection, area: (u16, u16, u16, u16), from: int, to: int) -> (u16, u16, u16, u16) {
    match direction {
        SplitDirection::Vertical => (area.0, (area.1 + from) as u16, area.2, (to - from) as u16),
        SplitDirection::Horizontal => ((area.0 + from) as u16, area.1, (to - from) as u16, area.3),
    }
}

/// `area` split in `direction` into three parts of `first`, `second` and `third` percent:
/// each boundary lies at the rounded share of the percentages before it.
pub open spec fn percentage_split(direction: SplitDirection, area: (u16, u16, u16, u16), first: int, second: int, third: int) -> Seq<(u16, u16, u16, u16)> {
    let size = split_length(direction, area);
    let b1 = rounded_share(size, first);
    let b2 = rounded_share(size, first + second);
    let b3 = rounded_share(size, first + second + third);
    seq![
        split_part(direction, area, 0, b1),
        split_part(direction, area, b1, b2),
        split_part(direction, area, b2, b3),
    ]
}

/// `Layout::split` of ratatui with the constraints `Percentage(first)`,
/// `Percentage(second)` and `Percentage(third)`, without margin, spacing 0 and the default
/// `Flex::Start`. ratatui's solver gives one rectangle per constraint. When the percentages
/// add up to at most 100 they are all met: each part is its percentage of the area's length,
/// the spare space goes to the empty spacer after the last part, and ratatui rounds each
/// boundary to the nearest cell, halves up. This is stated for areas within the terminal's
/// `u16` coordinates; otherwise, and when the percentages add up to more than 100 (the solver
/// then picks among equally good splits in the order in which std's seeded hash maps are
/// walked), nothing of the rectangles but their number is stated. ratatui panics when its
/// solver refuses a constraint, which nothing in its source shows for percentages.
#[verifier::external_body]
fn split_percentages(direction: SplitDirection, area: Area, first: u16, second: u16, third: u16) -> (res: Vec<Area>)
    ensures
        res@.len() == 3,
        first + second + third <= 100 && fits_in_terminal(area@) ==> res@.map_values(|a: Area| a@) == percentage_split(direction, area@, first as int, second as int, third as int),
{
    let direction = match direction {
        SplitDirection::Vertical => Direction::Vertical,
        SplitDirection::Horizontal => Direction::Horizontal,
    };
    let rect = Rect { x: area.x, y: area.y, width: area.width, height: area.height };
    Layout::default()
        .direction(direction)
        .constraints([Constraint::Percentage(first), Constraint::Percentage(second), Constraint::Percentage(third)])
        .split(rect)
        .iter()
        .map(|r| Area { x: r.x, y: r.y, width: r.width, height: r.height })
        .collect()
}

/// The share left on each side of a centred part of `percent` percent.
pub open spec fn side_share(percent: u16) -> int {
    (100 - percent) / 2
}

/// The popup of `centered_rect`: the middle of three columns (`percent_x` percent wide) of
/// the middle of three rows (`percent_y` percent high) of `r`.
pub open spec fn centered_popup(percent_x: u16, percent_y: u16, r: (u16, u16, u16, u16)) -> (u16, u16, u16, u16) {
    let row = percentage_split(SplitDirection::Vertical, r, side_share(percent_y), percent_y as int, side_share(percent_y))[1];
    percentage_split(SplitDirection::Horizontal, row, side_share(percent_x), percent_x as int, side_share(percent_x))[1]
}

/// Rounded shares grow with the percentage and stay within the length.
proof fn lemma_rounded_share_bounds(size: int, a: int, b: int)
    requires
        0 <= size,
        0 <= a <= b <= 100,
    ensures
        0 <= rounded_share(size, a) <= rounded_share(size, b) <= size,
{
    assert(size * a <= size * b) by (nonlinear_arith)
        requires
            0 <= size,
            a <= b,
    ;
    assert(size * b <= size * 100) by (nonlinear_arith)
        requires
            0 <= size,
            b <= 100,
    ;
    assert(0 <= size * a) by (nonlinear_arith)
        requires
            0 <= size,
            0 <= a,
    ;
    vstd::arithmetic::div_mod::lemma_div_is_ordered(size * a + 50, size * b + 50, 100);
    vstd::arithmetic::div_mod::lemma_div_is_ordered(size * b + 50, size * 100 + 50, 100);
}

/// A part centred by equal side shares that add up to 100 with it leaves the spare cell,
/// if there is one, before it: the gap before is the gap after or one more.
proof fn lemma_centred_gaps(size: int, side: int)
    requires
        0 <= size,
        0 <= side <= 50,
    ensures
        rounded_share(size, side) - (size - rounded_share(size, 100 - side)) == 0
            || rounded_share(size, side) - (size - rounded_share(size, 100 - side)) == 1,
{
    let t = size * side;
    assert(size * (100 - side) == size * 100 - t) by (nonlinear_arith)
        requires
            t == size * side,
    ;
    assert(0 <= t) by (nonlinear_arith)
        requires
            t == size * side,
            0 <= size,
            0 <= side,
    ;
    let before = (t + 50) / 100;
    let after_end = (size * 100 - t + 50) / 100;
    assert(before - (size - after_end) == 0 || before - (size - after_end) == 1) by (nonlinear_arith)
        requires
            before == (t + 50) / 100,
            after_end == (size * 100 - t + 50) / 100,
            0 <= t,
    ;
}

/// A popup centred in `r`: the middle of three vertical rows (`percent_y` percent high), then
/// the middle of three columns of that (`percent_x` percent wide). For an area within the
/// terminal's coordinates the popup is stated exactly: it lies inside `r`, and with even
/// percentages it is centred, any spare cell going before it.
pub fn centered_rect(percent_x: u16, percent_y: u16, r: Area) -> (res: Area)
    requires
        percent_x <= 100,
        percent_y <= 100,
    ensures
        fits_in_terminal(r@) ==> res@ == centered_popup(percent_x, percent_y, r@),
        fits_in_terminal(r@) ==> r.x <= res.x && res.x + res.width <= r.x + r.width,
        fits_in_terminal(r@) ==> r.y <= res.y && res.y + res.height <= r.y + r.height,
        fits_in_terminal(r@) && percent_x % 2 == 0 ==> {
            let before = res.x - r.x;
            let after = r.x + r.width - (res.x + res.width);
            before == after || before == after + 1
        },
        fits_in_terminal(r@) && percent_y % 2 == 0 ==> {
            let before = res.y - r.y;
            let after = r.y + r.height - (res.y + res.height);
            before == after || before == after + 1
        },
{
    let y_side = (100 - percent_y) / 2;
    let vert = split_percentages(SplitDirection::Vertical, r, y_side, percent_y, y_side);
    let x_side = (100 - percent_x) / 2;
    let row = vert[1];
    let horiz = split_percentages(SplitDirection::Horizontal, row, x_side, percent_x, x_side);
    proof {
        if fits_in_terminal(r@) {
            let h = r.height as int;
            let w = r.width as int;
            lemma_rounded_share_bounds(h, y_side as int, (y_side + percent_y) as int);
            lemma_rounded_share_bounds(h, (y_side + percent_y) as int, 100);
            assert(vert@.map_values(|a: Area| a@)[1] == vert@[1]@);
            assert(row@ == percentage_split(SplitDirection::Vertical, r@, y_side as int, percent_y as int, y_side as int)[1]);
            assert(fits_in_terminal(row@));
            lemma_rounded_share_bounds(w, x_side as int, (x_side + percent_x) as int);
            lemma_rounded_share_bounds(w, (x_side + percent_x) as int, 100);
            assert(horiz@.map_values(|a: Area| a@)[1] == horiz@[1]@);
            if percent_x % 2 == 0 {
                lemma_centred_gaps(w, x_side as int);
            }
            if percent_y % 2 == 0 {
                lemma_centred_gaps(h, y_side as int);
            }
        }
    }
    horiz[1]
}

/// The reset date of `data` as `YYYY-MM-DD` (UTC), for years 0 to 9999; empty when chrono
/// cannot represent the reset.
pub fn reset_date_text<P>(data: &DisplayData<P>) -> (res: String)
    ensures
        !in_datetime_range(data.reset_date as int) ==> res@ == Seq::<char>::empty(),
        forall|y: int, m: int, d: int| is_valid_date(y, m, d) && 0 <= y <= 9999 && #[trigger] day_contains(y, m, d, data.reset_date as int) ==> res@ == iso_date_text(y, m, d),
{
    match format_utc_date(data.reset_date) {
        Some(text) => text,
        None => String::new(),
    }
}

} // verus!
