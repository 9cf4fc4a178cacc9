//! The application state shared by all windows, and the per-window handler
//! through which the platform shell delivers input.

use vstd::prelude::*;
use crate::context::{Data, Env, EventCtx, LayoutCtx, UpdateCtx};
use crate::event::{Event, MouseButton, MouseEvent};
use crate::dispatch::{event_done, event_pass, update_done};
use crate::geometry::{BoxConstraints, Point, Rect, Size};
use crate::layout::{expected_rects, layout_of};
use crate::widgetbox::child_rects;
use crate::paint::{draw_views, Color, DrawCommand, DrawView};
use crate::shell::{PlatformError, PlatformRequest, WindowHandle};
use crate::widgetbox::WidgetArena;
use crate::window::{window_list, Window, WindowId};
use crate::windowbox::{WindowBox, WindowType};

verus! {

/// Size of the window registry. Slot 0 is never used, so this is one more
/// than the number of windows.
pub const MAX_WINDOWS: usize = 3;

/// The window that touch input goes to.
pub const TOUCH_WINDOW: u32 = 1;

/// Whether `id` names a slot of the window registry.
pub open spec fn window_id_ok(id: WindowId) -> bool {
    1 <= id.0 < MAX_WINDOWS
}

/// The handler of one window: it knows the window's id.
#[derive(Clone, Copy, Debug, PartialEq, Eq, Structural)]
pub struct DruidHandler {
    pub window_id: WindowId,
}

/// What one input dispatch cycle produced.
#[derive(Clone, Debug)]
pub struct DispatchOutcome {
    /// Some widget took the event.
    pub handled: bool,
    /// The event pass itself asked for a repaint.
    pub event_inval: bool,
    /// The actions that buttons ran, in order.
    pub actions: Vec<u32>,
    /// The repaint to ask the shell for, if any.
    pub invalidate: Option<PlatformRequest>,
}

/// The size a window has after an event: a size event sets it.
pub open spec fn size_after(w: Window, e: Event) -> Size {
    match e {
        Event::Size(s) => s,
        _ => w.size,
    }
}

/// The press of a tap at `(x, y)`.
pub open spec fn touch_down(x: u16, y: u16) -> Event {
    Event::MouseDown(MouseEvent { pos: Point { x: x as u32, y: y as u32 }, count: 1, button: MouseButton::Left })
}

/// The release of a tap at `(x, y)`.
pub open spec fn touch_up(x: u16, y: u16) -> Event {
    Event::MouseUp(MouseEvent { pos: Point { x: x as u32, y: y as u32 }, count: 0, button: MouseButton::Left })
}

/// One dispatch cycle of `e` on window `source` took state `a` to `b` with
/// outcome `r`: the event pass runs from the window's root on a fresh
/// context, giving the actions, the new data and the pass's own repaint
/// flag; no widget marks the event handled, so the outcome says it was not;
/// the update pass then runs from the root against that data; a repaint of
/// the window is asked for exactly when the update pass asked for one. An
/// empty slot changes nothing.
pub open spec fn dispatched<D: Data>(a: AppState<D>, source: WindowId, e: Event, b: AppState<D>, r: DispatchOutcome) -> bool {
    &&& b.handlers == a.handlers
    &&& b.widgets.next == a.widgets.next
    &&& (r.invalidate matches Some(q) ==> q == PlatformRequest::Invalidate(source.0))
    &&& match a.windows@[source.0 as int].0 {
        WindowType::Window(w) => {
            let s = event_pass(a.widgets.widgets@, w.root.0 as int, e, false, Seq::empty(), a.data);
            &&& b.windows@ == a.windows@.update(
                source.0 as int,
                WindowBox(WindowType::Window(Window { size: size_after(w, e), ..w })),
            )
            &&& r.actions@ == s.actions
            &&& !r.handled
            &&& r.event_inval == s.needs_inval
            &&& b.data == s.data
            &&& update_done(s.widgets, w.root.0 as int, false, s.data, b.widgets.widgets@, r.invalidate is Some)
        },
        WindowType::Empty => b.widgets == a.widgets && b.windows@ == a.windows@ && b.data == a.data
            && r.actions@.len() == 0 && r.invalidate is None && !r.handled && !r.event_inval,
    }
}

/// What painting window `id` draws: see `window_list`; nothing for an empty
/// slot.
pub open spec fn window_paint_list<D>(st: AppState<D>, id: WindowId, lc: LayoutCtx) -> Seq<DrawView> {
    match st.windows@[id.0 as int].0 {
        WindowType::Window(w) => window_list(w, st.widgets.widgets@, lc),
        WindowType::Empty => Seq::empty(),
    }
}

/// Laying window `id` out took state `a` to `b`: the texts of the root's
/// subtree were resolved against the data as `update_done` says, and the
/// root was laid out to exactly the window's size.
pub open spec fn laid_out<D: Data>(a: AppState<D>, id: WindowId, lc: LayoutCtx, b: AppState<D>) -> bool {
    &&& b.handlers == a.handlers
    &&& b.data == a.data
    &&& b.widgets.next == a.widgets.next
    &&& match a.windows@[id.0 as int].0 {
        WindowType::Window(w) => exists|mid: WidgetArena, n: bool| {
            &&& #[trigger] update_done(a.widgets.widgets@, w.root.0 as int, false, a.data, mid.widgets@, n)
            &&& mid@ == b.widgets@
            &&& b.windows@ == a.windows@.update(
                id.0 as int,
                WindowBox(WindowType::Window(Window {
                    root_rect: Rect {
                        origin: Point { x: 0, y: 0 },
                        size: layout_of(mid@, w.root.0 as int, BoxConstraints::spec_tight(w.size), lc),
                    },
                    ..w
                })),
            )
            &&& child_rects(b.widgets.widgets@[w.root.0 as int])
                == expected_rects(mid@, w.root.0 as int, BoxConstraints::spec_tight(w.size), lc)
        },
        WindowType::Empty => b.windows@ == a.windows@,
    }
}

/// State shared by all windows: the widgets, the window registry and its
/// handlers, and the one instance of the application data.
pub struct AppState<D> {
    pub widgets: WidgetArena,
    pub windows: Vec<WindowBox>,
    pub handlers: Vec<DruidHandler>,
    pub data: D,
    pub env: Env,
}

impl<D: Data> AppState<D> {
    pub open spec fn wf(&self) -> bool {
        &&& self.widgets.wf()
        &&& self.windows@.len() == MAX_WINDOWS
        &&& self.handlers@.len() == MAX_WINDOWS
        &&& forall|i: int| 0 <= i < MAX_WINDOWS ==> (#[trigger] self.windows@[i]).wf()
    }

    /// Why `window` could not be stored under `id`, if it could not.
    pub open spec fn window_error(&self, id: WindowId, window: Window) -> Option<PlatformError> {
        if !window_id_ok(id) {
            Some(PlatformError::WindowIdOutOfRange)
        } else if !self.widgets.is_registered(window.root.0 as int) {
            Some(PlatformError::UnregisteredRoot)
        } else {
            None
        }
    }

    /// State with the given widgets and data, and no windows.
    pub fn new(widgets: WidgetArena, data: D) -> (r: AppState<D>)
        requires
            widgets.wf(),
        ensures
            r.wf(),
            r.widgets == widgets,
            r.data == data,
            forall|i: int| 0 <= i < MAX_WINDOWS ==> (#[trigger] r.windows@[i]).0 is Empty,
    {
        let mut windows: Vec<WindowBox> = Vec::new();
        let mut handlers: Vec<DruidHandler> = Vec::new();
        let mut i: usize = 0;
        while i < MAX_WINDOWS
            invariant
                i <= MAX_WINDOWS,
                windows@.len() == i,
                handlers@.len() == i,
                forall|j: int| 0 <= j < i ==> (#[trigger] windows@[j]).0 is Empty,
            decreases MAX_WINDOWS - i,
        {
            windows.push(WindowBox::new());
            handlers.push(DruidHandler::new_shared(WindowId(0)));
            i = i + 1;
        }
        AppState { widgets, windows, handlers, data, env: Env {} }
    }

    /// Stores a window under `id`. The id must lie in the registry and the
    /// root must be registered (see `window_error`); anything else is fatal.
    pub fn add_window(&mut self, id: WindowId, window: Window)
        requires
            old(self).wf(),
            old(self).window_error(id, window) is None,
        ensures
            final(self).wf(),
            final(self).widgets == old(self).widgets,
            final(self).handlers == old(self).handlers,
            final(self).data == old(self).data,
            final(self).windows@ == old(self).windows@.update(id.0 as int, WindowBox(WindowType::Window(window))),
    {
        self.windows.set(id.0 as usize, WindowBox(WindowType::Window(window)));
        proof {
            assert forall|i: int| 0 <= i < MAX_WINDOWS implies (#[trigger] self.windows@[i]).wf() by {
                if i != id.0 as int {
                    assert(self.windows@[i] == old(self).windows@[i]);
                }
            }
        }
    }

    /// Stores the handler of window `id`, which must lie in the registry.
    pub fn add_handler(&mut self, id: WindowId, handler: DruidHandler)
        requires
            old(self).wf(),
            window_id_ok(id),
        ensures
            final(self).wf(),
            final(self).widgets == old(self).widgets,
            final(self).windows == old(self).windows,
            final(self).data == old(self).data,
            final(self).handlers@ == old(self).handlers@.update(id.0 as int, handler),
    {
        self.handlers.set(id.0 as usize, handler);
    }

    /// The handle of window `id`, wrapping its handler.
    pub fn get_handle(&self, id: WindowId) -> (r: WindowHandle)
        requires
            self.wf(),
            window_id_ok(id),
        ensures
            r.window_id == id.0,
            r.handler == self.handlers@[id.0 as int],
    {
        WindowHandle { window_id: id.0, handler: self.handlers[id.0 as usize] }
    }

    /// Replaces the application data.
    pub fn set_data(&mut self, data: D)
        ensures
            final(self).data == data,
            final(self).widgets == old(self).widgets,
            final(self).windows@ == old(self).windows@,
            final(self).handlers == old(self).handlers,
    {
        self.data = data;
    }

    /// Passes an event to window `id`, with the data to change.
    pub fn window_event(&mut self, id: WindowId, ctx: &mut EventCtx, event: &Event)
        requires
            old(self).wf(),
            window_id_ok(id),
        ensures
            final(self).wf(),
            final(self).widgets@ == old(self).widgets@,
            final(self).widgets.next == old(self).widgets.next,
            final(self).handlers == old(self).handlers,
            match old(self).windows@[id.0 as int].0 {
                WindowType::Window(w) => final(self).windows@ == old(self).windows@.update(
                    id.0 as int,
                    WindowBox(WindowType::Window(Window { size: size_after(w, *event), ..w })),
                ) && event_done(old(self).widgets.widgets@, w.root.0 as int, *event, *old(ctx), old(self).data,
                    final(self).widgets.widgets@, *final(ctx), final(self).data),
                WindowType::Empty => final(self).widgets == old(self).widgets && final(self).windows@ == old(self).windows@
                    && final(self).data == old(self).data && *final(ctx) == *old(ctx),
            },
    {
        let mut w = self.windows[id.0 as usize];
        w.event(&mut self.widgets, ctx, event, &mut self.data);
        self.windows.set(id.0 as usize, w);
        proof {
            assert forall|i: int| 0 <= i < MAX_WINDOWS implies (#[trigger] self.windows@[i]).wf() by {
                if i != id.0 as int {
                    assert(self.windows@[i] == old(self).windows@[i]);
                }
            }
            if old(self).windows@[id.0 as int].0 is Empty {
                assert(self.windows@ =~= old(self).windows@);
            }
        }
    }

    /// Lets window `id` react to the current data.
    pub fn window_update(&mut self, id: WindowId, ctx: &mut UpdateCtx)
        requires
            old(self).wf(),
            window_id_ok(id),
        ensures
            final(self).wf(),
            final(self).widgets.next == old(self).widgets.next,
            final(self).windows@ == old(self).windows@,
            final(self).handlers == old(self).handlers,
            final(self).data == old(self).data,
            match old(self).windows@[id.0 as int].0 {
                WindowType::Window(w) => update_done(old(self).widgets.widgets@, w.root.0 as int, old(ctx).needs_inval,
                    old(self).data, final(self).widgets.widgets@, final(ctx).needs_inval),
                WindowType::Empty => final(self).widgets == old(self).widgets && *final(ctx) == *old(ctx),
            },
    {
        let w = self.windows[id.0 as usize];
        w.update(&mut self.widgets, ctx, &self.data);
    }

    /// Lays window `id` out. Labels first resolve their text against the
    /// current data, as layout measures the text on display; then the root
    /// is laid out to exactly the window's size.
    pub fn window_layout(&mut self, id: WindowId, lc: &LayoutCtx)
        requires
            old(self).wf(),
            window_id_ok(id),
        ensures
            final(self).wf(),
            final(self).widgets.next == old(self).widgets.next,
            final(self).handlers == old(self).handlers,
            final(self).data == old(self).data,
            laid_out(*old(self), id, *lc, *final(self)),
    {
        let mut resolve_ctx = UpdateCtx::new();
        self.window_update(id, &mut resolve_ctx);
        let ghost mid = self.widgets;
        let ghost n = resolve_ctx.needs_inval;
        let mut w = self.windows[id.0 as usize];
        w.layout(&mut self.widgets, lc);
        self.windows.set(id.0 as usize, w);
        proof {
            assert forall|i: int| 0 <= i < MAX_WINDOWS implies (#[trigger] self.windows@[i]).wf() by {
                if i != id.0 as int {
                    assert(self.windows@[i] == old(self).windows@[i]);
                }
            }
            if let WindowType::Window(ow) = old(self).windows@[id.0 as int].0 {
                assert(self.windows@ =~= old(self).windows@.update(
                    id.0 as int,
                    WindowBox(WindowType::Window(Window {
                        root_rect: Rect {
                            origin: Point { x: 0, y: 0 },
                            size: layout_of(mid@, ow.root.0 as int, BoxConstraints::spec_tight(ow.size), *lc),
                        },
                        ..ow
                    })),
                ));
                assert(mid@ == self.widgets@);
            } else {
                assert(self.windows@ =~= old(self).windows@);
            }
        }
    }

    /// Adds the drawing commands of window `id`.
    pub fn window_paint(&self, id: WindowId, lc: &LayoutCtx, out: &mut Vec<DrawCommand>)
        requires
            self.wf(),
            window_id_ok(id),
        ensures
            draw_views(final(out)@) == draw_views(old(out)@) + window_paint_list(*self, id, *lc),
    {
        self.windows[id.0 as usize].paint(&self.widgets, lc, out);
    }

    /// Whether a widget of window `id` is held down.
    pub fn window_has_active(&self, id: WindowId) -> (r: bool)
        requires
            self.wf(),
            window_id_ok(id),
        ensures
            r == self.windows@[id.0 as int].has_active_spec(self.widgets),
    {
        self.windows[id.0 as usize].has_active(&self.widgets)
    }

    /// One input dispatch cycle: the event goes to window `source` (and, if
    /// a widget asked for focus, a focus event follows); then the window is
    /// updated, and a repaint is asked for exactly when the update requests
    /// one. See `dispatched`.
    pub fn do_event(&mut self, source: WindowId, event: Event) -> (r: DispatchOutcome)
        requires
            old(self).wf(),
            window_id_ok(source),
        ensures
            final(self).wf(),
            dispatched(*old(self), source, event, *final(self), r),
    {
        let mut ctx = EventCtx::new();
        self.window_event(source, &mut ctx, &event);
        if ctx.request_focus {
            self.window_event(source, &mut ctx, &Event::FocusChanged(true));
        }
        let mut uctx = UpdateCtx::new();
        self.window_update(source, &mut uctx);
        let invalidate = if uctx.needs_inval {
            Some(self.get_handle(source).invalidate())
        } else {
            None
        };
        DispatchOutcome { handled: ctx.is_handled, event_inval: ctx.needs_inval, actions: ctx.actions, invalidate }
    }

    /// Lays window `id` out and returns its display list: the background,
    /// then what `window_paint_list` says of the laid-out window.
    pub fn paint(&mut self, id: WindowId, lc: &LayoutCtx) -> (r: Vec<DrawCommand>)
        requires
            old(self).wf(),
            window_id_ok(id),
        ensures
            final(self).wf(),
            laid_out(*old(self), id, *lc, *final(self)),
            draw_views(r@) == seq![DrawView::Clear(Color::WindowBackground)] + window_paint_list(*final(self), id, *lc),
    {
        self.window_layout(id, lc);
        let mut out: Vec<DrawCommand> = Vec::new();
        out.push(DrawCommand::Clear { color: Color::WindowBackground });
        proof {
            assert(draw_views(out@) =~= seq![DrawView::Clear(Color::WindowBackground)]);
        }
        self.window_paint(id, lc, &mut out);
        out
    }

    /// A tap at `(x, y)`: a press and then a release there, each a whole
    /// dispatch cycle of the first window.
    pub fn handle_touch(&mut self, x: u16, y: u16) -> (r: (DispatchOutcome, DispatchOutcome))
        requires
            old(self).wf(),
        ensures
            final(self).wf(),
            exists|mid: AppState<D>| #[trigger] dispatched(*old(self), WindowId(TOUCH_WINDOW), touch_down(x, y), mid, r.0)
                && dispatched(mid, WindowId(TOUCH_WINDOW), touch_up(x, y), *final(self), r.1),
    {
        let pos = Point { x: x as u32, y: y as u32 };
        let down = self.do_event(
            WindowId(TOUCH_WINDOW),
            Event::MouseDown(MouseEvent { pos, count: 1, button: MouseButton::Left }),
        );
        let ghost mid = *self;
        let up = self.do_event(
            WindowId(TOUCH_WINDOW),
            Event::MouseUp(MouseEvent { pos, count: 0, button: MouseButton::Left }),
        );
        proof {
            assert(Event::MouseDown(MouseEvent { pos, count: 1, button: MouseButton::Left }) == touch_down(x, y));
            assert(Event::MouseUp(MouseEvent { pos, count: 0, button: MouseButton::Left }) == touch_up(x, y));
            assert(dispatched(*old(self), WindowId(TOUCH_WINDOW), touch_down(x, y), mid, down));
            assert(dispatched(mid, WindowId(TOUCH_WINDOW), touch_up(x, y), *self, up));
        }
        let r = (down, up);
        proof {
            assert(dispatched(*old(self), WindowId(TOUCH_WINDOW), touch_down(x, y), mid, r.0));
            assert(dispatched(mid, WindowId(TOUCH_WINDOW), touch_up(x, y), *self, r.1));
        }
        r
    }
}

impl DruidHandler {
    /// The handler of window `window_id`.
    pub fn new_shared(window_id: WindowId) -> (r: DruidHandler)
        ensures
            r.window_id == window_id,
    {
        DruidHandler { window_id }
    }

    pub fn get_window_id(&self) -> (r: u32)
        ensures
            r == self.window_id.0,
    {
        self.window_id.0
    }

    /// Runs one dispatch cycle of `event` on this handler's window.
    pub fn do_event<D: Data>(&self, state: &mut AppState<D>, event: Event) -> (r: DispatchOutcome)
        requires
            old(state).wf(),
            window_id_ok(self.window_id),
        ensures
            final(state).wf(),
            dispatched(*old(state), self.window_id, event, *final(state), r),
    {
        state.do_event(self.window_id, event)
    }

    /// The window was given a new size.
    pub fn size<D: Data>(&self, state: &mut AppState<D>, width: u32, height: u32) -> (r: DispatchOutcome)
        requires
            old(state).wf(),
            window_id_ok(self.window_id),
        ensures
            final(state).wf(),
            dispatched(*old(state), self.window_id, Event::Size(Size { width, height }), *final(state), r),
    {
        self.do_event(state, Event::Size(Size::new(width, height)))
    }

    pub fn mouse_down<D: Data>(&self, state: &mut AppState<D>, event: MouseEvent) -> (r: DispatchOutcome)
        requires
            old(state).wf(),
            window_id_ok(self.window_id),
        ensures
            final(state).wf(),
            dispatched(*old(state), self.window_id, Event::MouseDown(event), *final(state), r),
    {
        self.do_event(state, Event::MouseDown(event))
    }

    pub fn mouse_up<D: Data>(&self, state: &mut AppState<D>, event: MouseEvent) -> (r: DispatchOutcome)
        requires
            old(state).wf(),
            window_id_ok(self.window_id),
        ensures
            final(state).wf(),
            dispatched(*old(state), self.window_id, Event::MouseUp(event), *final(state), r),
    {
        self.do_event(state, Event::MouseUp(event))
    }

    /// Pointer motion is not dispatched: no widget reacts to it.
    pub fn mouse_move<D: Data>(&self, state: &mut AppState<D>, event: MouseEvent)
        ensures
            *final(state) == *old(state),
    {
    }

    /// The window gained focus; no widget reacts to it.
    pub fn got_focus<D: Data>(&self, state: &mut AppState<D>)
        ensures
            *final(state) == *old(state),
    {
    }

    /// Paints this handler's window; see `AppState::paint`.
    pub fn paint<D: Data>(&self, state: &mut AppState<D>, lc: &LayoutCtx) -> (r: Vec<DrawCommand>)
        requires
            old(state).wf(),
            window_id_ok(self.window_id),
        ensures
            final(state).wf(),
            laid_out(*old(state), self.window_id, *lc, *final(state)),
            draw_views(r@) == seq![DrawView::Clear(Color::WindowBackground)] + window_paint_list(*final(state), self.window_id, *lc),
    {
        state.paint(self.window_id, lc)
    }
}

} // verus!
