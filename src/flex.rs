//! A container that lays its children out in a row or a column.

use vstd::prelude::*;
use crate::geometry::{BoxConstraints, Point, Rect, Size};
use crate::widgetbox::WidgetBox;

verus! {

#[verifier::external_type_specification]
#[verifier::external_body]
#[verifier::reject_recursive_types(T)]
pub struct ExHeaplessVec<T, const N: usize>(heapless::Vec<T, N>);

/// A child of a flex container: the reference to it, its flex weight and
/// the rectangle that the last layout gave it.
#[derive(Clone, Copy, Debug, PartialEq, Eq, Structural)]
pub struct ChildWidget {
    pub widget: WidgetBox,
    pub flex: u32,
    pub rect: Rect,
}

/// Most children that one flex container holds.
pub const MAX_CHILDREN: usize = 8;

/// What a list of children holds, in order.
pub uninterp spec fn child_list(v: heapless::Vec<ChildWidget, 8>) -> Seq<ChildWidget>;

/// Relies on heapless::Vec::new: the new vector is empty.
#[verifier::external_body]
pub(crate) fn children_new() -> (r: heapless::Vec<ChildWidget, 8>)
    ensures
        child_list(r) == Seq::<ChildWidget>::empty(),
{
    heapless::Vec::new()
}

/// Relies on heapless::Vec::push: the item is appended when the length is
/// below the capacity, and the vector is left as it was otherwise.
#[verifier::external_body]
pub(crate) fn children_push(v: &mut heapless::Vec<ChildWidget, 8>, c: ChildWidget) -> (r: bool)
    ensures
        child_list(*old(v)).len() < 8 ==> r && child_list(*final(v)) == child_list(*old(v)).push(c),
        child_list(*old(v)).len() >= 8 ==> !r && child_list(*final(v)) == child_list(*old(v)),
{
    v.push(c).is_ok()
}

/// Relies on indexing a heapless::Vec: the item at a position below the
/// length.
#[verifier::external_body]
pub(crate) fn children_get(v: &heapless::Vec<ChildWidget, 8>, i: usize) -> (r: ChildWidget)
    requires
        i < child_list(*v).len(),
    ensures
        r == child_list(*v)[i as int],
{
    v[i]
}

/// Relies on heapless::Vec::len: the number of items, at most the capacity.
#[verifier::external_body]
pub(crate) fn children_len(v: &heapless::Vec<ChildWidget, 8>) -> (r: usize)
    ensures
        r == child_list(*v).len(),
        r <= 8,
{
    v.len()
}

/// The direction in which a flex container lines up its children.
#[derive(Clone, Copy, Debug, PartialEq, Eq, Structural)]
pub enum Axis {
    Horizontal,
    Vertical,
}

impl Axis {
    /// The length of a size along the axis.
    pub open spec fn spec_major(self, s: Size) -> u32 {
        match self {
            Axis::Horizontal => s.width,
            Axis::Vertical => s.height,
        }
    }

    /// The length of a size across the axis.
    pub open spec fn spec_minor(self, s: Size) -> u32 {
        match self {
            Axis::Horizontal => s.height,
            Axis::Vertical => s.width,
        }
    }

    /// The size with the given lengths along and across the axis.
    pub open spec fn spec_pack(self, major: u32, minor: u32) -> Size {
        match self {
            Axis::Horizontal => Size { width: major, height: minor },
            Axis::Vertical => Size { width: minor, height: major },
        }
    }

    /// The point at the given distances along and across the axis.
    pub open spec fn spec_pack_point(self, major: u32, minor: u32) -> Point {
        match self {
            Axis::Horizontal => Point { x: major, y: minor },
            Axis::Vertical => Point { x: minor, y: major },
        }
    }

    /// The maximum along the axis.
    pub open spec fn spec_max_major(self, bc: BoxConstraints) -> Option<u32> {
        match self {
            Axis::Horizontal => bc.max_width,
            Axis::Vertical => bc.max_height,
        }
    }

    pub fn major(&self, s: Size) -> (r: u32)
        ensures
            r == self.spec_major(s),
    {
        match self {
            Axis::Horizontal => s.width,
            Axis::Vertical => s.height,
        }
    }

    pub fn minor(&self, s: Size) -> (r: u32)
        ensures
            r == self.spec_minor(s),
    {
        match self {
            Axis::Horizontal => s.height,
            Axis::Vertical => s.width,
        }
    }

    pub fn pack(&self, major: u32, minor: u32) -> (r: Size)
        ensures
            r == self.spec_pack(major, minor),
    {
        match self {
            Axis::Horizontal => Size { width: major, height: minor },
            Axis::Vertical => Size { width: minor, height: major },
        }
    }

    pub fn pack_point(&self, major: u32, minor: u32) -> (r: Point)
        ensures
            r == self.spec_pack_point(major, minor),
    {
        match self {
            Axis::Horizontal => Point { x: major, y: minor },
            Axis::Vertical => Point { x: minor, y: major },
        }
    }

    pub fn max_major(&self, bc: &BoxConstraints) -> (r: Option<u32>)
        ensures
            r == self.spec_max_major(*bc),
    {
        match self {
            Axis::Horizontal => bc.max_width,
            Axis::Vertical => bc.max_height,
        }
    }

    /// Constraints for a child that does not flex: the parent's on the
    /// minor axis, unbounded and with no minimum on the major one.
    pub open spec fn spec_non_flex_bc(self, bc: BoxConstraints) -> BoxConstraints {
        match self {
            Axis::Horizontal => BoxConstraints {
                min: Size { width: 0, height: bc.min.height },
                max_width: None,
                max_height: bc.max_height,
            },
            Axis::Vertical => BoxConstraints {
                min: Size { width: bc.min.width, height: 0 },
                max_width: bc.max_width,
                max_height: None,
            },
        }
    }

    pub fn non_flex_bc(&self, bc: &BoxConstraints) -> (r: BoxConstraints)
        requires
            bc.wf(),
        ensures
            r == self.spec_non_flex_bc(*bc),
            r.wf(),
    {
        match self {
            Axis::Horizontal => BoxConstraints {
                min: Size { width: 0, height: bc.min.height },
                max_width: None,
                max_height: bc.max_height,
            },
            Axis::Vertical => BoxConstraints {
                min: Size { width: bc.min.width, height: 0 },
                max_width: bc.max_width,
                max_height: None,
            },
        }
    }

    /// Constraints for a flex child given `major` along the axis: exactly
    /// that length when it is bounded, any length otherwise; the parent's
    /// constraints on the minor axis.
    pub open spec fn spec_flex_bc(self, bc: BoxConstraints, major: Option<u32>) -> BoxConstraints {
        let lo: u32 = match major {
            Some(m) => m,
            None => 0,
        };
        match self {
            Axis::Horizontal => BoxConstraints {
                min: Size { width: lo, height: bc.min.height },
                max_width: major,
                max_height: bc.max_height,
            },
            Axis::Vertical => BoxConstraints {
                min: Size { width: bc.min.width, height: lo },
                max_width: bc.max_width,
                max_height: major,
            },
        }
    }

    pub fn flex_bc(&self, bc: &BoxConstraints, major: Option<u32>) -> (r: BoxConstraints)
        requires
            bc.wf(),
        ensures
            r == self.spec_flex_bc(*bc, major),
            r.wf(),
    {
        let lo: u32 = match major {
            Some(m) => m,
            None => 0,
        };
        match self {
            Axis::Horizontal => BoxConstraints {
                min: Size { width: lo, height: bc.min.height },
                max_width: major,
                max_height: bc.max_height,
            },
            Axis::Vertical => BoxConstraints {
                min: Size { width: bc.min.width, height: lo },
                max_width: bc.max_width,
                max_height: major,
            },
        }
    }
}

/// A container that lines its children up along an axis. Children with a
/// flex weight of zero keep their own length; the others share what is
/// left in proportion to their weights.
#[derive(Debug)]
pub struct Flex {
    pub direction: Axis,
    pub children: heapless::Vec<ChildWidget, 8>,
}

/// A builder for a flex container that lays its children out left to right.
pub struct Row;

/// A builder for a flex container that lays its children out top to bottom.
pub struct Column;

impl Row {
    pub fn new() -> (r: Flex)
        ensures
            r.direction == Axis::Horizontal,
            child_list(r.children).len() == 0,
    {
        Flex { direction: Axis::Horizontal, children: children_new() }
    }
}

impl Column {
    pub fn new() -> (r: Flex)
        ensures
            r.direction == Axis::Vertical,
            child_list(r.children).len() == 0,
    {
        Flex { direction: Axis::Vertical, children: children_new() }
    }
}

impl Flex {
    /// The references and weights of the children, in order.
    pub open spec fn spec_children(self) -> Seq<(int, u32)> {
        child_list(self.children).map_values(|c: ChildWidget| (c.widget.0 as int, c.flex))
    }

    /// Adds a child with the given flex weight; zero keeps it out of the
    /// sharing of the free space. The container must not be full (see
    /// `is_full`): overflowing the child list is fatal.
    pub fn add_child(&mut self, child: WidgetBox, flex: u32)
        requires
            child_list(old(self).children).len() < MAX_CHILDREN,
        ensures
            final(self).direction == old(self).direction,
            child_list(final(self).children) == child_list(old(self).children).push(
                ChildWidget { widget: child, flex, rect: Rect { origin: Point { x: 0, y: 0 }, size: Size { width: 0, height: 0 } } },
            ),
    {
        let c = ChildWidget { widget: child, flex, rect: Rect { origin: Point::origin(), size: Size::zero() } };
        let pushed = children_push(&mut self.children, c);
    }

    /// Whether the container holds as many children as it can.
    pub fn is_full(&self) -> (r: bool)
        ensures
            r == (child_list(self.children).len() >= MAX_CHILDREN),
    {
        children_len(&self.children) >= MAX_CHILDREN
    }

    /// Number of children.
    pub fn len(&self) -> (r: usize)
        ensures
            r == child_list(self.children).len(),
            r <= MAX_CHILDREN,
    {
        children_len(&self.children)
    }
}

} // verus!
