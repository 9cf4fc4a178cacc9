//! A widget that aligns its child within the space it is given.

use vstd::prelude::*;
use crate::geometry::{Point, Rect, Size, UnitPoint};
use crate::widgetbox::WidgetBox;

verus! {

/// A widget that places its child at an alignment point of the space it
/// takes. A width or height factor, in thousandths, makes that side a
/// multiple of the child's instead.
#[derive(Clone, Copy, Debug, PartialEq, Eq, Structural)]
pub struct Align {
    pub align: UnitPoint,
    pub width_factor: Option<u32>,
    pub height_factor: Option<u32>,
    pub child: WidgetBox,
    /// Where the last layout placed the child.
    pub child_rect: Rect,
}

/// The factor that keeps a side as long as the child's.
pub const FACTOR_ONE: u32 = 1000;

impl Align {
    pub open spec fn placed(align: UnitPoint, wf: Option<u32>, hf: Option<u32>, child: WidgetBox) -> Align {
        Align {
            align,
            width_factor: wf,
            height_factor: hf,
            child,
            child_rect: Rect { origin: Point { x: 0, y: 0 }, size: Size { width: 0, height: 0 } },
        }
    }

    fn build(align: UnitPoint, wf: Option<u32>, hf: Option<u32>, child: WidgetBox) -> (r: Align)
        ensures
            r == Self::placed(align, wf, hf, child),
    {
        Align {
            align,
            width_factor: wf,
            height_factor: hf,
            child,
            child_rect: Rect { origin: Point::origin(), size: Size::zero() },
        }
    }

    /// Aligns `child` at `align`.
    pub fn new(align: UnitPoint, child: WidgetBox) -> (r: Align)
        requires
            align.wf(),
        ensures
            r == Self::placed(align, None, None, child),
    {
        Self::build(align, None, None, child)
    }

    /// Centres `child`.
    pub fn centered(child: WidgetBox) -> (r: Align)
        ensures
            r == Self::placed(UnitPoint { x: 500, y: 500 }, None, None, child),
    {
        Self::build(UnitPoint::center(), None, None, child)
    }

    /// Places `child` at the middle of the right edge.
    pub fn right(child: WidgetBox) -> (r: Align)
        ensures
            r == Self::placed(UnitPoint { x: 1000, y: 500 }, None, None, child),
    {
        Self::build(UnitPoint::right(), None, None, child)
    }

    /// Places `child` at the middle of the left edge.
    pub fn left(child: WidgetBox) -> (r: Align)
        ensures
            r == Self::placed(UnitPoint { x: 0, y: 500 }, None, None, child),
    {
        Self::build(UnitPoint::left(), None, None, child)
    }

    /// Aligns only horizontally, keeping the child's height.
    pub fn horizontal(align: UnitPoint, child: WidgetBox) -> (r: Align)
        requires
            align.wf(),
        ensures
            r == Self::placed(align, None, Some(FACTOR_ONE), child),
    {
        Self::build(align, None, Some(FACTOR_ONE), child)
    }

    /// Aligns only vertically, keeping the child's width.
    pub fn vertical(align: UnitPoint, child: WidgetBox) -> (r: Align)
        requires
            align.wf(),
        ensures
            r == Self::placed(align, Some(FACTOR_ONE), None, child),
    {
        Self::build(align, Some(FACTOR_ONE), None, child)
    }
}

} // verus!
