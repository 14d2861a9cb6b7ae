//! Placing the pop-up of key bindings on the screen.
use vstd::prelude::*;
use ratatui::layout::{Constraint, Layout};

verus! {

/// A rectangle of terminal cells: the column and row of its top left corner,
/// its width and its height.
#[derive(Clone, Copy, Debug, PartialEq, Eq)]
pub struct Rect {
    pub x: u16,
    pub y: u16,
    pub width: u16,
    pub height: u16,
}

/// The middle of the three rows that `ratatui`'s layout solver gives when
/// it splits `area` vertically into a filling row, a row of at most
/// `max_height` and another filling row.
pub uninterp spec fn vertical_band(max_height: u16, area: Rect) -> Rect;

/// The middle of the three columns that `ratatui`'s layout solver gives
/// when it splits `area` horizontally into a filling column, a column of at
/// most `max_width` and another filling column.
pub uninterp spec fn horizontal_band(max_width: u16, area: Rect) -> Rect;

/// Splits `area` with `ratatui::layout::Layout::vertical` into the
/// constraints `Fill(1)`, `Max(max_height)`, `Fill(1)` and returns the middle
/// part; what the solver computes is named, not stated.
#[verifier::external_body]
fn split_vertical_middle(max_height: u16, area: Rect) -> (r: Rect)
    ensures
        r == vertical_band(max_height, area),
{
    let a = ratatui::layout::Rect { x: area.x, y: area.y, width: area.width, height: area.height };
    let parts = Layout::vertical([Constraint::Fill(1), Constraint::Max(max_height), Constraint::Fill(1)]).split(a);
    Rect { x: parts[1].x, y: parts[1].y, width: parts[1].width, height: parts[1].height }
}

/// Splits `area` with `ratatui::layout::Layout::horizontal` into the
/// constraints `Fill(1)`, `Max(max_width)`, `Fill(1)` and returns the middle
/// part; what the solver computes is named, not stated.
#[verifier::external_body]
fn split_horizontal_middle(max_width: u16, area: Rect) -> (r: Rect)
    ensures
        r == horizontal_band(max_width, area),
{
    let a = ratatui::layout::Rect { x: area.x, y: area.y, width: area.width, height: area.height };
    let parts = Layout::horizontal([Constraint::Fill(1), Constraint::Max(max_width), Constraint::Fill(1)]).split(a);
    Rect { x: parts[1].x, y: parts[1].y, width: parts[1].width, height: parts[1].height }
}

/// A rectangle of at most `max_width` by `max_height` cells in the middle of
/// `r`: the middle row of a vertical split, then the middle column of that.
pub fn centered_rect(max_width: u16, max_height: u16, r: Rect) -> (c: Rect)
    ensures
        c == horizontal_band(max_width, vertical_band(max_height, r)),
{
    let band = split_vertical_middle(max_height, r);
    split_horizontal_middle(max_width, band)
}

} // verus!
