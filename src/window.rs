//! Windows: a root widget and the size the platform gave it.

use vstd::prelude::*;
use crate::context::{Data, EventCtx, LayoutCtx, UpdateCtx};
use crate::dispatch::{event_done, update_done};
use crate::event::Event;
use crate::geometry::{BoxConstraints, Point, Rect, Size};
use crate::layout::{expected_rects, layout_of};
use crate::widgetbox::{child_rects, WidgetType};
use crate::paint::{draw_views, paint_list, DrawCommand, DrawView};
use crate::widgetbox::{WidgetArena, WidgetBox, MAX_WIDGETS};

verus! {

/// A unique identifier for a window. Zero is never handed out.
#[derive(Clone, Copy, Debug, PartialEq, Eq, Hash, PartialOrd, Ord, Structural)]
pub struct WindowId(pub u32);

/// The counter that window ids are drawn from; the first id is 1.
#[derive(Clone, Copy, Debug, PartialEq, Eq, Structural)]
pub struct WindowIds {
    pub next: u32,
}

impl WindowIds {
    /// Zero is never handed out.
    pub open spec fn wf(self) -> bool {
        self.next >= 1
    }

    pub fn new() -> (r: WindowIds)
        ensures
            r.wf(),
            r.next == 1,
    {
        WindowIds { next: 1 }
    }
}

impl WindowId {
    /// Allocates a new window id, one above the last.
    pub fn next(ids: &mut WindowIds) -> (r: WindowId)
        requires
            old(ids).wf(),
            old(ids).next < u32::MAX,
        ensures
            final(ids).wf(),
            r.0 >= 1,
            r.0 == old(ids).next,
            final(ids).next == old(ids).next + 1,
    {
        let id = ids.next;
        ids.next = id + 1;
        WindowId(id)
    }
}

/// What painting a window draws: a clip to its visible rectangle, the root
/// where the last layout put it, and the end of the clip.
pub open spec fn window_list(w: Window, ws: Seq<WidgetType>, lc: LayoutCtx) -> Seq<DrawView> {
    seq![DrawView::PushClip(Rect { origin: Point { x: 0, y: 0 }, size: w.size })]
        + paint_list(ws, w.root.0 as int, w.root_rect.origin, w.root_rect.size, lc) + seq![DrawView::PopClip]
}

/// Per-window state: the root widget, the size of the window and where the
/// last layout put the root.
#[derive(Clone, Copy, Debug, PartialEq, Eq, Structural)]
pub struct Window {
    pub root: WidgetBox,
    pub size: Size,
    pub root_rect: Rect,
}

impl Window {
    pub open spec fn wf(self) -> bool {
        (self.root.0 as int) < MAX_WIDGETS
    }

    /// A window of no size around `root`.
    pub fn new(root: WidgetBox) -> (r: Window)
        requires
            (root.0 as int) < MAX_WIDGETS,
        ensures
            r.wf(),
            r.root == root,
            r.size == (Size { width: 0, height: 0 }),
            r.root_rect == (Rect { origin: Point { x: 0, y: 0 }, size: Size { width: 0, height: 0 } }),
    {
        Window { root, size: Size::zero(), root_rect: Rect { origin: Point::origin(), size: Size::zero() } }
    }

    /// Passes an event to the root; a size event first sets the window's size.
    pub fn event<D: Data>(&mut self, widgets: &mut WidgetArena, ctx: &mut EventCtx, event: &Event, data: &mut D)
        requires
            old(self).wf(),
            old(widgets).wf(),
        ensures
            final(self).root == old(self).root,
            final(self).root_rect == old(self).root_rect,
            final(self).size == match *event {
                Event::Size(s) => s,
                _ => old(self).size,
            },
            final(widgets).wf(),
            final(widgets)@ == old(widgets)@,
            final(widgets).next == old(widgets).next,
            event_done(old(widgets).widgets@, old(self).root.0 as int, *event, *old(ctx), *old(data),
                final(widgets).widgets@, *final(ctx), *final(data)),
    {
        if let Event::Size(s) = event {
            self.size = *s;
        }
        widgets.event(self.root.0, ctx, event, data);
    }

    /// Lets the root's subtree react to the current data.
    pub fn update<D: Data>(&self, widgets: &mut WidgetArena, ctx: &mut UpdateCtx, data: &D)
        requires
            self.wf(),
            old(widgets).wf(),
        ensures
            final(widgets).wf(),
            final(widgets).next == old(widgets).next,
            update_done(old(widgets).widgets@, self.root.0 as int, old(ctx).needs_inval, *data,
                final(widgets).widgets@, final(ctx).needs_inval),
    {
        widgets.update(self.root.0, ctx, data);
    }

    /// Lays the root out to exactly the window's size and places it at the
    /// origin.
    pub fn layout(&mut self, widgets: &mut WidgetArena, lc: &LayoutCtx)
        requires
            old(self).wf(),
            old(widgets).wf(),
        ensures
            final(self).root == old(self).root,
            final(self).size == old(self).size,
            final(self).root_rect == (Rect {
                origin: Point { x: 0, y: 0 },
                size: layout_of(old(widgets)@, old(self).root.0 as int, BoxConstraints::spec_tight(old(self).size), *lc),
            }),
            child_rects(final(widgets).widgets@[old(self).root.0 as int])
                == expected_rects(old(widgets)@, old(self).root.0 as int, BoxConstraints::spec_tight(old(self).size), *lc),
            final(widgets).wf(),
            final(widgets)@ == old(widgets)@,
            final(widgets).next == old(widgets).next,
    {
        let bc = BoxConstraints::tight(self.size);
        let size = widgets.layout(self.root.0, &bc, lc);
        self.root_rect = Rect::from_origin_size(Point::origin(), size);
    }

    /// Paints the root where the last layout put it, clipped to the
    /// window's visible rectangle.
    pub fn paint(&self, widgets: &WidgetArena, lc: &LayoutCtx, out: &mut Vec<DrawCommand>)
        requires
            self.wf(),
            widgets.wf(),
        ensures
            draw_views(final(out)@) == draw_views(old(out)@) + window_list(*self, widgets.widgets@, *lc),
    {
        let visible = Rect::from_origin_size(Point::origin(), self.size);
        out.push(DrawCommand::PushClip { rect: visible });
        let ghost mid = out@;
        widgets.paint(self.root.0, self.root_rect.origin, self.root_rect.size, lc, out);
        let ghost painted = out@;
        out.push(DrawCommand::PopClip);
        proof {
            assert(draw_views(mid) =~= draw_views(old(out)@).push(DrawView::PushClip(visible)));
            assert(draw_views(out@) =~= draw_views(painted).push(DrawView::PopClip));
            assert(draw_views(out@) =~= draw_views(old(out)@) + window_list(*self, widgets.widgets@, *lc));
        }
    }
}

} // verus!
