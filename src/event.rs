//! Events, propagated downwards through the widget tree.

use vstd::prelude::*;
use crate::geometry::{Point, Size};

verus! {

/// Which mouse button an event concerns.
#[derive(Clone, Copy, Debug, PartialEq, Eq, Structural)]
pub enum MouseButton {
    Left,
    Right,
    Middle,
}

/// A mouse or touch event at a position relative to the receiving widget.
#[derive(Clone, Copy, Debug, PartialEq, Eq, Structural)]
pub struct MouseEvent {
    pub pos: Point,
    /// Number of clicks in quick succession; zero on release and motion.
    pub count: u8,
    pub button: MouseButton,
}

/// An input or lifecycle event.
#[derive(Clone, Copy, Debug, PartialEq, Eq, Structural)]
pub enum Event {
    /// The window was given a new size.
    Size(Size),
    MouseDown(MouseEvent),
    MouseUp(MouseEvent),
    MouseMoved(MouseEvent),
    /// The pointer entered (`true`) or left the widget.
    HotChanged(bool),
    /// The widget gained (`true`) or lost the keyboard focus.
    FocusChanged(bool),
}

impl Event {
    /// The position of a mouse event.
    pub open spec fn mouse_pos(self) -> Option<Point> {
        match self {
            Event::MouseDown(m) => Some(m.pos),
            Event::MouseUp(m) => Some(m.pos),
            Event::MouseMoved(m) => Some(m.pos),
            _ => None,
        }
    }

    /// The same event seen from a child placed at `origin`: mouse positions
    /// are moved by minus the origin.
    pub open spec fn spec_translate(self, origin: Point) -> Event {
        match self {
            Event::MouseDown(m) => Event::MouseDown(MouseEvent { pos: Point { x: (m.pos.x - origin.x) as u32, y: (m.pos.y - origin.y) as u32 }, ..m }),
            Event::MouseUp(m) => Event::MouseUp(MouseEvent { pos: Point { x: (m.pos.x - origin.x) as u32, y: (m.pos.y - origin.y) as u32 }, ..m }),
            Event::MouseMoved(m) => Event::MouseMoved(MouseEvent { pos: Point { x: (m.pos.x - origin.x) as u32, y: (m.pos.y - origin.y) as u32 }, ..m }),
            _ => self,
        }
    }

    pub fn translate(&self, origin: Point) -> (r: Event)
        requires
            self.mouse_pos() matches Some(p) ==> origin.x <= p.x && origin.y <= p.y,
        ensures
            r == self.spec_translate(origin),
    {
        match *self {
            Event::MouseDown(m) => Event::MouseDown(MouseEvent { pos: Point { x: m.pos.x - origin.x, y: m.pos.y - origin.y }, ..m }),
            Event::MouseUp(m) => Event::MouseUp(MouseEvent { pos: Point { x: m.pos.x - origin.x, y: m.pos.y - origin.y }, ..m }),
            Event::MouseMoved(m) => Event::MouseMoved(MouseEvent { pos: Point { x: m.pos.x - origin.x, y: m.pos.y - origin.y }, ..m }),
            _ => *self,
        }
    }

    pub fn mouse_position(&self) -> (r: Option<Point>)
        ensures
            r == self.mouse_pos(),
    {
        match *self {
            Event::MouseDown(m) => Some(m.pos),
            Event::MouseUp(m) => Some(m.pos),
            Event::MouseMoved(m) => Some(m.pos),
            _ => None,
        }
    }
}

} // verus!
