//! One slot of the window registry.

use vstd::prelude::*;
use crate::context::{Data, EventCtx, LayoutCtx, UpdateCtx};
use crate::dispatch::{event_done, is_active, kids, lemma_reach_child, lemma_reach_in_range, reach, reach_children, update_done};
use crate::flex::child_list;
use crate::widgetbox::{children_of, slot_wf};
use crate::event::Event;
use crate::paint::{draw_views, DrawCommand, DrawView};
use crate::widgetbox::{WidgetArena, WidgetId, WidgetType, MAX_WIDGETS};
use crate::geometry::{BoxConstraints, Point, Rect};
use crate::layout::{expected_rects, layout_of};
use crate::widgetbox::child_rects;
use crate::window::{window_list, Window};

verus! {

/// What a slot of the window registry holds.
#[derive(Clone, Copy, Debug, PartialEq, Eq, Structural)]
pub enum WindowType {
    Empty,
    Window(Window),
}

/// A slot of the window registry; every pass on it is forwarded to the
/// window it holds, and does nothing on an empty slot.
#[derive(Clone, Copy, Debug, PartialEq, Eq, Structural)]
pub struct WindowBox(pub WindowType);

impl WindowBox {
    pub open spec fn wf(self) -> bool {
        self.0 matches WindowType::Window(w) ==> w.wf()
    }

    /// Whether a button under the root of the window in this slot is held
    /// down.
    pub open spec fn has_active_spec(self, widgets: WidgetArena) -> bool {
        match self.0 {
            WindowType::Window(w) => active_in(widgets.widgets@, w.root.0 as int),
            WindowType::Empty => false,
        }
    }

    /// An empty slot.
    pub fn new() -> (r: WindowBox)
        ensures
            r.0 == WindowType::Empty,
    {
        WindowBox(WindowType::Empty)
    }

    pub fn event<D: Data>(&mut self, widgets: &mut WidgetArena, ctx: &mut EventCtx, event: &Event, data: &mut D)
        requires
            old(self).wf(),
            old(widgets).wf(),
        ensures
            final(self).wf(),
            final(widgets).wf(),
            final(widgets)@ == old(widgets)@,
            final(widgets).next == old(widgets).next,
            match old(self).0 {
                WindowType::Window(w) => final(self).0 == WindowType::Window(Window {
                    size: match *event {
                        Event::Size(s) => s,
                        _ => w.size,
                    },
                    ..w
                }) && event_done(old(widgets).widgets@, w.root.0 as int, *event, *old(ctx), *old(data),
                    final(widgets).widgets@, *final(ctx), *final(data)),
                WindowType::Empty => *final(self) == *old(self) && *final(widgets) == *old(widgets)
                    && *final(ctx) == *old(ctx) && *final(data) == *old(data),
            },
    {
        match &mut self.0 {
            WindowType::Window(w) => w.event(widgets, ctx, event, data),
            WindowType::Empty => {},
        }
    }

    pub fn update<D: Data>(&self, widgets: &mut WidgetArena, ctx: &mut UpdateCtx, data: &D)
        requires
            self.wf(),
            old(widgets).wf(),
        ensures
            final(widgets).wf(),
            final(widgets).next == old(widgets).next,
            match self.0 {
                WindowType::Window(w) => update_done(old(widgets).widgets@, w.root.0 as int, old(ctx).needs_inval,
                    *data, final(widgets).widgets@, final(ctx).needs_inval),
                WindowType::Empty => *final(widgets) == *old(widgets) && *final(ctx) == *old(ctx),
            },
    {
        match &self.0 {
            WindowType::Window(w) => w.update(widgets, ctx, data),
            WindowType::Empty => {},
        }
    }

    pub fn layout(&mut self, widgets: &mut WidgetArena, lc: &LayoutCtx)
        requires
            old(self).wf(),
            old(widgets).wf(),
        ensures
            final(self).wf(),
            final(widgets).wf(),
            final(widgets)@ == old(widgets)@,
            final(widgets).next == old(widgets).next,
            match old(self).0 {
                WindowType::Window(w) => final(self).0 == WindowType::Window(Window {
                    root_rect: Rect {
                        origin: Point { x: 0, y: 0 },
                        size: layout_of(old(widgets)@, w.root.0 as int, BoxConstraints::spec_tight(w.size), *lc),
                    },
                    ..w
                }) && child_rects(final(widgets).widgets@[w.root.0 as int])
                    == expected_rects(old(widgets)@, w.root.0 as int, BoxConstraints::spec_tight(w.size), *lc),
                WindowType::Empty => *final(self) == *old(self) && *final(widgets) == *old(widgets),
            },
    {
        match &mut self.0 {
            WindowType::Window(w) => w.layout(widgets, lc),
            WindowType::Empty => {},
        }
    }

    pub fn paint(&self, widgets: &WidgetArena, lc: &LayoutCtx, out: &mut Vec<DrawCommand>)
        requires
            self.wf(),
            widgets.wf(),
        ensures
            draw_views(final(out)@) == draw_views(old(out)@) + match self.0 {
                WindowType::Window(w) => window_list(w, widgets.widgets@, *lc),
                WindowType::Empty => Seq::empty(),
            },
    {
        match &self.0 {
            WindowType::Window(w) => w.paint(widgets, lc, out),
            WindowType::Empty => {
                proof {
                    assert(draw_views(out@) =~= draw_views(out@) + Seq::<DrawView>::empty());
                }
            },
        }
    }

    /// Whether a widget is held down; never in an empty slot.
    pub fn has_active(&self, widgets: &WidgetArena) -> (r: bool)
        requires
            self.wf(),
            widgets.wf(),
        ensures
            r == self.has_active_spec(*widgets),
    {
        match &self.0 {
            WindowType::Window(w) => widgets.subtree_active(w.root.0),
            WindowType::Empty => false,
        }
    }
}

impl WidgetArena {
    /// Whether a button in the subtree of `id` is held down.
    pub fn subtree_active(&self, id: WidgetId) -> (r: bool)
        requires
            self.wf(),
            (id as int) < MAX_WIDGETS,
        ensures
            r == active_in(self.widgets@, id as int),
        decreases id,
    {
        let ghost ks = kids(self.widgets@);
        let ghost w = self.widgets@[id as int];
        let ghost cs = ks[id as int];
        proof {
            assert(cs == children_of(w));
            assert(slot_wf(w, id as int));
            lemma_reach_in_range(ks, id as int);
        }
        let ghost all_ids = reach(ks, id as int);
        let own = match &self.widgets[id as usize] {
            WidgetType::Button(b) => b.active,
            _ => false,
        };
        if own {
            proof {
                assert(all_ids[0] == id as int);
                assert(all_ids.contains(id as int));
            }
            return true;
        }
        let n: usize = match &self.widgets[id as usize] {
            WidgetType::Flex(_) => self.flex_len(id),
            WidgetType::Padding(_) | WidgetType::Align(_) => 1,
            _ => 0,
        };
        proof {
            match w {
                WidgetType::Flex(f) => {
                    assert(n == children_of(w).len());
                },
                WidgetType::Padding(_) | WidgetType::Align(_) => {
                    assert(children_of(w).len() == 1);
                },
                _ => {
                    assert(children_of(w).len() == 0);
                },
            }
            assert(reach_children(ks, id as int, cs, 0) =~= Seq::<int>::empty());
        }
        let mut i: usize = 0;
        while i < n
            invariant
                n == cs.len(),
                i <= n,
                (id as int) < MAX_WIDGETS,
                self.wf(),
                w == self.widgets@[id as int],
                cs == children_of(w),
                ks == kids(self.widgets@),
                all_ids == reach(ks, id as int),
                forall|k: int| 0 <= k < cs.len() ==> 0 <= #[trigger] cs[k] < id,
                !(exists|j: int| #[trigger] reach_children(ks, id as int, cs, i as int).contains(j) && is_active(self.widgets@[j])),
            decreases n - i,
        {
            let c: WidgetId = match &self.widgets[id as usize] {
                WidgetType::Flex(f) => {
                    let ch = self.flex_child(id, i);
                    proof {
                        assert(children_of(w)[i as int] == child_list(f.children)[i as int].widget.0 as int);
                    }
                    ch.widget.0
                },
                WidgetType::Padding(p) => {
                    proof {
                        assert(children_of(w)[0] == p.child.0 as int);
                    }
                    p.child.0
                },
                WidgetType::Align(a) => {
                    proof {
                        assert(children_of(w)[0] == a.child.0 as int);
                    }
                    a.child.0
                },
                _ => 0,
            };
            proof {
                assert(c as int == cs[i as int]);
            }
            let ghost pre = reach_children(ks, id as int, cs, i as int);
            let ghost x = reach(ks, c as int);
            proof {
                assert(reach_children(ks, id as int, cs, i as int + 1) == pre + x);
            }
            if self.subtree_active(c) {
                proof {
                    assert(active_in(self.widgets@, c as int));
                    assert(reach(kids(self.widgets@), c as int) == x);
                    assert(exists|j: int| #[trigger] x.contains(j) && is_active(self.widgets@[j]));
                    let j = choose|j: int| #[trigger] x.contains(j) && is_active(self.widgets@[j]);
                    let m = choose|m: int| 0 <= m < x.len() && x[m] == j;
                    let all = reach_children(ks, id as int, cs, n as int);
                    assert(ks[id as int] == cs);
                    assert(ks[id as int][i as int] == c as int);
                    lemma_reach_child(ks, id as int, i as int);
                    assert(reach(ks, ks[id as int][i as int]).contains(j));
                    assert(reach(ks, id as int).contains(j));
                    assert(all_ids.contains(j) && is_active(self.widgets@[j]));
                }
                return true;
            }
            proof {
                assert forall|j: int| #[trigger] (pre + x).contains(j) implies !is_active(self.widgets@[j]) by {
                    let m = choose|m: int| 0 <= m < (pre + x).len() && (pre + x)[m] == j;
                    if m < pre.len() {
                        assert(pre[m] == j);
                        assert(pre.contains(j));
                    } else {
                        assert(x[m - pre.len()] == j);
                        assert(x.contains(j));
                    }
                }
            }
            i = i + 1;
        }
        proof {
            assert(all_ids == seq![id as int] + reach_children(ks, id as int, cs, n as int));
            assert forall|j: int| #[trigger] all_ids.contains(j) implies !is_active(self.widgets@[j]) by {
                let m = choose|m: int| 0 <= m < all_ids.len() && all_ids[m] == j;
                if m > 0 {
                    assert(reach_children(ks, id as int, cs, n as int)[m - 1] == j);
                    assert(reach_children(ks, id as int, cs, n as int).contains(j));
                }
            }
        }
        false
    }
}

/// Whether a button in the subtree of `id` is held down.
pub open spec fn active_in(ws: Seq<WidgetType>, id: int) -> bool {
    exists|j: int| #[trigger] reach(kids(ws), id).contains(j) && is_active(ws[j])
}

} // verus!
