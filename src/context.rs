//! What the passes hand to each widget: the application data, the font
//! metrics used to measure text, and the flags a widget raises for the
//! window that runs the pass.

use vstd::prelude::*;
use crate::argvalue::ArgValue;

verus! {

/// The application data that the widgets of a window show and change.
///
/// An application implements this for its own data type. A button names its
/// action by a number, and a localized string names each of its arguments
/// by a number; the implementation says what each number does.
pub trait Data: Sized {
    /// What running `action` makes of the data.
    spec fn after_action(&self, action: u32) -> Self;

    /// The value that argument `arg` has in this data.
    spec fn arg_spec(&self, arg: u32) -> ArgValue;

    /// Runs the action that a button was built with.
    fn run_action(&mut self, action: u32)
        ensures
            *final(self) == old(self).after_action(action),
    ;

    /// The current value of an argument of a localized string.
    fn arg_value(&self, arg: u32) -> (r: ArgValue)
        ensures
            r == self.arg_spec(arg),
    ;
}

/// The carried-through configuration of a pass. It holds nothing.
#[derive(Clone, Copy, Debug, PartialEq, Eq, Structural)]
pub struct Env {}

/// The metrics of the fixed-width font that text is set in.
#[derive(Clone, Copy, Debug, PartialEq, Eq, Structural)]
pub struct LayoutCtx {
    /// Width of one character.
    pub glyph_width: u32,
    /// Nominal size of the font; a line is six fifths of it high.
    pub font_size: u32,
}

impl LayoutCtx {
    pub fn new(glyph_width: u32, font_size: u32) -> (r: LayoutCtx)
        ensures
            r.glyph_width == glyph_width,
            r.font_size == font_size,
    {
        LayoutCtx { glyph_width, font_size }
    }
}

/// The flags and log of one event pass.
#[derive(Clone, Debug)]
pub struct EventCtx {
    /// Some widget took the event.
    pub is_handled: bool,
    /// Some widget asked for a repaint.
    pub needs_inval: bool,
    /// Some widget asked for the keyboard focus.
    pub request_focus: bool,
    /// The actions that buttons ran during the pass, in order.
    pub actions: Vec<u32>,
}

impl EventCtx {
    pub fn new() -> (r: EventCtx)
        ensures
            !r.is_handled,
            !r.needs_inval,
            !r.request_focus,
            r.actions@ == Seq::<u32>::empty(),
    {
        EventCtx { is_handled: false, needs_inval: false, request_focus: false, actions: Vec::new() }
    }

    /// Asks the window for a repaint.
    pub fn invalidate(&mut self)
        ensures
            final(self).needs_inval,
            final(self).is_handled == old(self).is_handled,
            final(self).request_focus == old(self).request_focus,
            final(self).actions@ == old(self).actions@,
    {
        self.needs_inval = true;
    }
}

/// The flags of one update pass.
#[derive(Clone, Copy, Debug, PartialEq, Eq, Structural)]
pub struct UpdateCtx {
    /// Some widget asked for a repaint.
    pub needs_inval: bool,
}

impl UpdateCtx {
    pub fn new() -> (r: UpdateCtx)
        ensures
            !r.needs_inval,
    {
        UpdateCtx { needs_inval: false }
    }
}

} // verus!
