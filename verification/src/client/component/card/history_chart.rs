//! History chart cards: the chart's geometry follows the card's dimension.
use crate::client::size::{Dimension, Size};
use vstd::prelude::*;

verus! {

/// The size in pixels of a chart and the room left for its axis labels.
#[derive(Clone, Copy, Debug, PartialEq, Eq, Structural)]
pub struct ChartGeometry {
    pub width: u32,
    pub height: u32,
    pub margin_left: u32,
    pub margin_bottom: u32,
}

/// Small cards get a 190 by 120 chart, medium ones 410 by 280, with label
/// margins to match.
pub fn chart_geometry(dimension: Dimension) -> (geometry: ChartGeometry)
    ensures
        geometry.width == (if dimension.width == Size::Sm { 190u32 } else { 410u32 }),
        geometry.margin_left == (if dimension.width == Size::Sm { 25u32 } else { 35u32 }),
        geometry.height == (if dimension.height == Size::Sm { 120u32 } else { 280u32 }),
        geometry.margin_bottom == (if dimension.height == Size::Sm { 10u32 } else { 15u32 }),
{
    let (size_x, margin_left) = match dimension.width {
        Size::Sm => (190, 25),
        Size::Md => (410, 35),
    };
    let (size_y, margin_bottom) = match dimension.height {
        Size::Sm => (120, 10),
        Size::Md => (280, 15),
    };
    ChartGeometry { width: size_x, height: size_y, margin_left, margin_bottom }
}

} // verus!
