//! A button with a text label.

use vstd::prelude::*;
use crate::context::{Data, EventCtx};
use crate::event::{Event, MouseEvent};
use crate::geometry::UnitPoint;
use crate::label::{Label, LabelText};

verus! {

/// A button with a text label. Pressing and releasing it runs its action,
/// which the application data names by a number.
#[derive(Clone, Debug)]
pub struct Button {
    pub label: Label,
    pub action: u32,
    /// The button is held down.
    pub active: bool,
}

/// What a button does with an event: whether it is held afterwards, whether
/// it asks for a repaint, and whether it runs its action.
pub open spec fn button_step(active: bool, event: Event) -> (bool, bool, bool) {
    match event {
        Event::MouseDown(_) => (true, true, false),
        Event::MouseUp(_) => if active { (false, true, true) } else { (false, false, false) },
        Event::HotChanged(_) => (active, true, false),
        _ => (active, false, false),
    }
}

/// `b1` and `c1` are what handling `e` makes of button `b0` and context
/// `c0`.
pub open spec fn button_handled(b0: Button, c0: EventCtx, e: Event, b1: Button, c1: EventCtx) -> bool {
    let step = button_step(b0.active, e);
    &&& b1.label == b0.label
    &&& b1.action == b0.action
    &&& b1.active == step.0
    &&& c1.needs_inval == (c0.needs_inval || step.1)
    &&& step.2 ==> c1.actions@ == c0.actions@.push(b0.action)
    &&& !step.2 ==> c1.actions@ == c0.actions@
    &&& c1.request_focus == c0.request_focus
    &&& c1.is_handled == c0.is_handled
}

/// Button state machine: a press then a release, on a button that is not
/// held, runs its action exactly once, asks for a repaint, and leaves the
/// button not held.
pub proof fn lemma_click_runs_action_once(
    b0: Button,
    c0: EventCtx,
    down: MouseEvent,
    b1: Button,
    c1: EventCtx,
    up: MouseEvent,
    b2: Button,
    c2: EventCtx,
)
    requires
        !b0.active,
        button_handled(b0, c0, Event::MouseDown(down), b1, c1),
        button_handled(b1, c1, Event::MouseUp(up), b2, c2),
    ensures
        c2.actions@ == c0.actions@.push(b0.action),
        !b2.active,
        c2.needs_inval,
{
}

impl Button {
    /// A button showing `text` centred, running `action` when clicked.
    pub fn new(text: LabelText, action: u32) -> (r: Button)
        ensures
            r.label.text == text,
            r.label.align == (UnitPoint { x: 500, y: 500 }),
            r.action == action,
            !r.active,
    {
        Button { label: Label::aligned(text, UnitPoint::center()), action, active: false }
    }

    /// Handles an event: a press makes the button active, a release while
    /// active makes it inactive and runs the action once, and the pointer
    /// entering or leaving asks for a repaint.
    pub fn event<D: Data>(&mut self, ctx: &mut EventCtx, event: &Event, data: &mut D)
        ensures
            button_handled(*old(self), *old(ctx), *event, *final(self), *final(ctx)),
            button_step(old(self).active, *event).2 ==> *final(data) == old(data).after_action(old(self).action),
            !button_step(old(self).active, *event).2 ==> *final(data) == *old(data),
    {
        match event {
            Event::MouseDown(_) => {
                self.active = true;
                ctx.invalidate();
            },
            Event::MouseUp(_) => {
                if self.active {
                    self.active = false;
                    ctx.invalidate();
                    data.run_action(self.action);
                    ctx.actions.push(self.action);
                } else {
                    self.active = false;
                }
            },
            Event::HotChanged(_) => {
                ctx.invalidate();
            },
            _ => {},
        }
    }
}

} // verus!
