//! The few numbers by which the front end lays out its screen.

use vstd::prelude::*;

verus! {

/// Narrowest terminal on which the frame buffer is shown.
pub const MIN_WIDTH: u16 = 30;

/// Lowest terminal on which the frame buffer is shown.
pub const MIN_HEIGHT: u16 = 18;

/// A rectangle of terminal cells.
#[derive(Debug, Clone, Copy, PartialEq, Eq, Structural)]
pub struct Area {
    pub x: u16,
    pub y: u16,
    pub width: u16,
    pub height: u16,
}

/// Whether a terminal of this size is too small for the frame buffer.
pub fn too_small(width: u16, height: u16) -> (small: bool)
    ensures
        small == (height < 18 || width < 30),
{
    height < MIN_HEIGHT || width < MIN_WIDTH
}

/// The cells of a terminal of this size that lie inside a border of one cell.
pub fn inside_border(width: u16, height: u16) -> (area: Area)
    requires
        width >= 2,
        height >= 2,
    ensures
        area == (Area { x: 1, y: 1, width: (width - 2) as u16, height: (height - 2) as u16 }),
{
    Area { x: 1, y: 1, width: width - 2, height: height - 2 }
}

/// The percentages that centre a part of `percent` percent: the margin
/// before it, the part itself and the margin after it.
pub fn centered(percent: u16) -> (parts: [u16; 3])
    requires
        percent <= 100,
    ensures
        parts[0] == (100 - percent) / 2,
        parts[1] == percent,
        parts[2] == (100 - percent) / 2,
{
    let margin = (100 - percent) / 2;
    [margin, percent, margin]
}

} // verus!
