//! A widget that adds padding around its child during layout.

use vstd::prelude::*;
use crate::geometry::{Insets, Point, Rect, Size};
use crate::widgetbox::WidgetBox;

verus! {

/// A widget that keeps the given insets free around its child.
#[derive(Clone, Copy, Debug, PartialEq, Eq, Structural)]
pub struct Padding {
    pub insets: Insets,
    pub child: WidgetBox,
    /// Where the last layout placed the child.
    pub child_rect: Rect,
}

impl Padding {
    /// Pads `child` by `insets`.
    pub fn new(insets: Insets, child: WidgetBox) -> (r: Padding)
        ensures
            r.insets == insets,
            r.child == child,
            r.child_rect == (Rect { origin: Point { x: 0, y: 0 }, size: Size { width: 0, height: 0 } }),
    {
        Padding { insets, child, child_rect: Rect { origin: Point::origin(), size: Size::zero() } }
    }

    /// Pads `child` by `d` on every side.
    pub fn uniform(d: u32, child: WidgetBox) -> (r: Padding)
        ensures
            r.insets == (Insets { left: d, top: d, right: d, bottom: d }),
            r.child == child,
            r.child_rect == (Rect { origin: Point { x: 0, y: 0 }, size: Size { width: 0, height: 0 } }),
    {
        Padding::new(Insets::uniform(d), child)
    }
}

} // verus!
