//! The event and update passes: each is an exhaustive match over the widget
//! kinds, recursing through the arena by child id.

use vstd::prelude::*;
use crate::button::{button_step, Button};
use crate::context::{Data, EventCtx, UpdateCtx};
use crate::event::Event;
use crate::flex::{child_list, ChildWidget};
use crate::geometry::Rect;
use crate::label::{text_refreshed, text_stale};
use crate::layout::flex_at;
use crate::widgetbox::{child_rects, children_of, model, slot_wf, WidgetArena, WidgetBox, WidgetId, WidgetType, MAX_WIDGETS};

verus! {

/// The widget has the same kind, children and child rectangles as before.
pub open spec fn same_structure(a: WidgetType, b: WidgetType) -> bool {
    &&& children_of(a) == children_of(b)
    &&& child_rects(a) == child_rects(b)
    &&& slot_wf(a, 0) == slot_wf(b, 0)
    &&& (a is Empty) == (b is Empty)
    &&& (a is Button) == (b is Button)
    &&& (a is Label) == (b is Label)
    &&& (a is Flex) == (b is Flex)
}

/// Whether the button in a slot is held down.
pub open spec fn is_active(w: WidgetType) -> bool {
    match w {
        WidgetType::Button(b) => b.active,
        _ => false,
    }
}

/// How a widget passes events on: a button takes them, a label or an empty
/// slot drops them, a composite hands them to its children, each placed at
/// a rectangle.
pub enum Route {
    Leaf,
    Press,
    Children(Seq<(int, Rect)>),
}

pub open spec fn route(w: WidgetType) -> Route {
    match w {
        WidgetType::Button(_) => Route::Press,
        WidgetType::Padding(p) => Route::Children(seq![(p.child.0 as int, p.child_rect)]),
        WidgetType::Align(a) => Route::Children(seq![(a.child.0 as int, a.child_rect)]),
        WidgetType::Flex(f) => Route::Children(
            child_list(f.children).map_values(|c: ChildWidget| (c.widget.0 as int, c.rect)),
        ),
        _ => Route::Leaf,
    }
}

pub open spec fn routes(ws: Seq<WidgetType>) -> Seq<Route> {
    ws.map_values(|w: WidgetType| route(w))
}

/// The event a child placed at `rect` receives: a mouse event inside the
/// rectangle, moved to the child's coordinates; no mouse event outside it;
/// never the pointer entering or leaving; any other event as it is.
pub open spec fn child_event(rect: Rect, e: Event) -> Option<Event> {
    match e.mouse_pos() {
        Some(p) => if rect.spec_contains(p) {
            Some(e.spec_translate(rect.origin))
        } else {
            None
        },
        None => if e is HotChanged {
            None
        } else {
            Some(e)
        },
    }
}

/// The buttons that an event sent to widget `id` reaches, in order, with
/// the event each receives.
pub open spec fn event_targets(rs: Seq<Route>, id: int, e: Event) -> Seq<(int, Event)>
    decreases id, 1int, 0int,
{
    if 0 <= id < rs.len() {
        match rs[id] {
            Route::Press => seq![(id, e)],
            Route::Leaf => Seq::empty(),
            Route::Children(cs) => children_targets(rs, id, cs, e, cs.len() as int),
        }
    } else {
        Seq::empty()
    }
}

/// The buttons that the first `n` children of widget `id` pass an event on to.
pub open spec fn children_targets(rs: Seq<Route>, id: int, cs: Seq<(int, Rect)>, e: Event, n: int) -> Seq<(int, Event)>
    decreases id, 0int, n,
{
    if n <= 0 || id < 0 {
        Seq::empty()
    } else {
        children_targets(rs, id, cs, e, n - 1) + if 0 <= cs[n - 1].0 < id {
            match child_event(cs[n - 1].1, e) {
                Some(ce) => event_targets(rs, cs[n - 1].0, ce),
                None => Seq::empty(),
            }
        } else {
            Seq::empty()
        }
    }
}

/// The state an event pass works on: the widgets, the context's repaint
/// flag and action log, and the application data.
pub struct PassState<D> {
    pub widgets: Seq<WidgetType>,
    pub needs_inval: bool,
    pub actions: Seq<u32>,
    pub data: D,
}

/// The widget with its button, if it is one, held or not.
pub open spec fn set_active(w: WidgetType, active: bool) -> WidgetType {
    match w {
        WidgetType::Button(b) => WidgetType::Button(Button { active, ..b }),
        _ => w,
    }
}

/// Delivering event `t.1` to the button at `t.0`: it steps as
/// `button_step` says, and when it runs its action the action is logged
/// and applied to the data.
pub open spec fn deliver<D: Data>(s: PassState<D>, t: (int, Event)) -> PassState<D> {
    let w = s.widgets[t.0];
    match w {
        WidgetType::Button(b) => {
            let st = button_step(b.active, t.1);
            PassState {
                widgets: s.widgets.update(t.0, set_active(w, st.0)),
                needs_inval: s.needs_inval || st.1,
                actions: if st.2 { s.actions.push(b.action) } else { s.actions },
                data: if st.2 { s.data.after_action(b.action) } else { s.data },
            }
        },
        _ => s,
    }
}

/// Delivering the events in order.
pub open spec fn deliver_all<D: Data>(s: PassState<D>, ts: Seq<(int, Event)>) -> PassState<D>
    decreases ts.len(),
{
    if ts.len() == 0 {
        s
    } else {
        deliver_all(deliver(s, ts[0]), ts.drop_first())
    }
}

/// What an event pass from widget `id` makes of widgets `ws`, a context
/// with the given flag and log, and `data`.
pub open spec fn event_pass<D: Data>(
    ws: Seq<WidgetType>,
    id: int,
    e: Event,
    needs_inval: bool,
    actions: Seq<u32>,
    data: D,
) -> PassState<D> {
    deliver_all(
        PassState { widgets: ws, needs_inval, actions, data },
        event_targets(routes(ws), id, e),
    )
}

/// The pass changed nothing but whether buttons are held.
pub open spec fn pass_keeps(a: Seq<WidgetType>, b: Seq<WidgetType>) -> bool {
    &&& a.len() == b.len()
    &&& forall|j: int| 0 <= j < a.len() ==> {
        &&& model(#[trigger] b[j]) == model(a[j])
        &&& route(b[j]) == route(a[j])
        &&& slot_wf(b[j], j) == slot_wf(a[j], j)
        &&& (b[j] is Empty) == (a[j] is Empty)
        &&& (!(a[j] is Button) ==> b[j] == a[j])
        &&& same_structure(b[j], a[j])
    }
}

pub proof fn lemma_deliver_all_concat<D: Data>(s: PassState<D>, a: Seq<(int, Event)>, b: Seq<(int, Event)>)
    ensures
        deliver_all(s, a + b) == deliver_all(deliver_all(s, a), b),
    decreases a.len(),
{
    if a.len() == 0 {
        assert(a + b =~= b);
    } else {
        assert((a + b)[0] == a[0]);
        assert((a + b).drop_first() =~= a.drop_first() + b);
        lemma_deliver_all_concat(deliver(s, a[0]), a.drop_first(), b);
    }
}

pub proof fn lemma_deliver_all_keeps<D: Data>(s: PassState<D>, ts: Seq<(int, Event)>)
    requires
        forall|k: int| 0 <= k < ts.len() ==> 0 <= #[trigger] ts[k].0 < s.widgets.len(),
    ensures
        pass_keeps(s.widgets, deliver_all(s, ts).widgets),
    decreases ts.len(),
{
    if ts.len() > 0 {
        let s1 = deliver(s, ts[0]);
        assert(pass_keeps(s.widgets, s1.widgets)) by {
            assert forall|j: int| 0 <= j < s.widgets.len() implies {
                &&& model(#[trigger] s1.widgets[j]) == model(s.widgets[j])
                &&& route(s1.widgets[j]) == route(s.widgets[j])
                &&& slot_wf(s1.widgets[j], j) == slot_wf(s.widgets[j], j)
                &&& (s1.widgets[j] is Empty) == (s.widgets[j] is Empty)
                &&& (!(s.widgets[j] is Button) ==> s1.widgets[j] == s.widgets[j])
                &&& same_structure(s1.widgets[j], s.widgets[j])
            } by {
                if j == ts[0].0 {
                    if let WidgetType::Button(b) = s.widgets[j] {
                        assert(children_of(s1.widgets[j]) =~= children_of(s.widgets[j]));
                        assert(child_rects(s1.widgets[j]) =~= child_rects(s.widgets[j]));
                    }
                }
            }
        }
        assert forall|k: int| 0 <= k < ts.drop_first().len() implies 0 <= #[trigger] ts.drop_first()[k].0 < s1.widgets.len() by {
            assert(ts.drop_first()[k] == ts[k + 1]);
        }
        lemma_deliver_all_keeps(s1, ts.drop_first());
        let s2 = deliver_all(s1, ts.drop_first());
        assert(pass_keeps(s.widgets, s2.widgets)) by {
            assert forall|j: int| 0 <= j < s.widgets.len() implies {
                &&& model(#[trigger] s2.widgets[j]) == model(s.widgets[j])
                &&& route(s2.widgets[j]) == route(s.widgets[j])
                &&& slot_wf(s2.widgets[j], j) == slot_wf(s.widgets[j], j)
                &&& (s2.widgets[j] is Empty) == (s.widgets[j] is Empty)
                &&& (!(s.widgets[j] is Button) ==> s2.widgets[j] == s.widgets[j])
                &&& same_structure(s2.widgets[j], s.widgets[j])
            } by {
                assert(model(s1.widgets[j]) == model(s.widgets[j]));
                assert(model(s2.widgets[j]) == model(s1.widgets[j]));
            }
        }
    }
}

/// Every button an event reaches lies in the arena, at or below `id`.
pub proof fn lemma_targets_in_range(rs: Seq<Route>, id: int, e: Event)
    ensures
        forall|k: int| 0 <= k < event_targets(rs, id, e).len() ==> 0 <= #[trigger] event_targets(rs, id, e)[k].0 < rs.len() && event_targets(rs, id, e)[k].0 <= id,
    decreases id, 1int, 0int,
{
    if 0 <= id < rs.len() {
        match rs[id] {
            Route::Children(cs) => {
                lemma_children_targets_in_range(rs, id, cs, e, cs.len() as int);
                assert(event_targets(rs, id, e) == children_targets(rs, id, cs, e, cs.len() as int));
            },
            Route::Press => {
                assert(event_targets(rs, id, e) == seq![(id, e)]);
                assert(seq![(id, e)][0] == (id, e));
            },
            Route::Leaf => {},
        }
    }
}

pub proof fn lemma_children_targets_in_range(rs: Seq<Route>, id: int, cs: Seq<(int, Rect)>, e: Event, n: int)
    requires
        id < rs.len(),
    ensures
        forall|k: int| 0 <= k < children_targets(rs, id, cs, e, n).len() ==> 0 <= #[trigger] children_targets(rs, id, cs, e, n)[k].0 < rs.len() && children_targets(rs, id, cs, e, n)[k].0 <= id,
    decreases id, 0int, n,
{
    if n > 0 && id >= 0 {
        lemma_children_targets_in_range(rs, id, cs, e, n - 1);
        let pre = children_targets(rs, id, cs, e, n - 1);
        let x = if 0 <= cs[n - 1].0 < id {
            match child_event(cs[n - 1].1, e) {
                Some(ce) => event_targets(rs, cs[n - 1].0, ce),
                None => Seq::empty(),
            }
        } else {
            Seq::empty()
        };
        if 0 <= cs[n - 1].0 < id {
            if let Some(ce) = child_event(cs[n - 1].1, e) {
                lemma_targets_in_range(rs, cs[n - 1].0, ce);
            }
        }
        let all = children_targets(rs, id, cs, e, n);
        assert(all == pre + x);
        assert forall|k: int| 0 <= k < all.len() implies 0 <= #[trigger] all[k].0 < rs.len() && all[k].0 <= id by {
            if k < pre.len() {
                assert(all[k] == pre[k]);
            } else {
                assert(all[k] == x[k - pre.len()]);
            }
        }
    }
}

impl WidgetArena {
    /// Propagates an event to widget `id` and, through it, to its children:
    /// the buttons `event_targets` names receive their events in order, as
    /// `deliver_all` says, running their actions on `data`.
    pub fn event<D: Data>(&mut self, id: WidgetId, ctx: &mut EventCtx, event: &Event, data: &mut D)
        requires
            old(self).wf(),
            (id as int) < MAX_WIDGETS,
        ensures
            final(self).wf(),
            final(self)@ == old(self)@,
            final(self).next == old(self).next,
            ({
                let s = event_pass(old(self).widgets@, id as int, *event, old(ctx).needs_inval, old(ctx).actions@, *old(data));
                &&& final(self).widgets@ == s.widgets
                &&& final(ctx).needs_inval == s.needs_inval
                &&& final(ctx).actions@ == s.actions
                &&& *final(data) == s.data
            }),
            pass_keeps(old(self).widgets@, final(self).widgets@),
            final(ctx).is_handled == old(ctx).is_handled,
            final(ctx).request_focus == old(ctx).request_focus,
        decreases id, 2int,
    {
        let ghost rs = routes(self.widgets@);
        let ghost s0 = PassState { widgets: self.widgets@, needs_inval: ctx.needs_inval, actions: ctx.actions@, data: *data };
        proof {
            assert(rs[id as int] == route(self.widgets@[id as int]));
            assert(slot_wf(self.widgets@[id as int], id as int));
            lemma_targets_in_range(rs, id as int, *event);
        }
        match &self.widgets[id as usize] {
            WidgetType::Empty => {},
            WidgetType::Label(_) => {},
            WidgetType::Button(_) => {
                self.event_button(id, ctx, event, data);
                proof {
                    let ts = event_targets(rs, id as int, *event);
                    assert(ts == seq![(id as int, *event)]);
                    assert(ts[0] == (id as int, *event));
                    assert(ts.drop_first() =~= Seq::<(int, Event)>::empty());
                    assert(deliver_all(s0, ts) == deliver_all(deliver(s0, ts[0]), ts.drop_first()));
                }
            },
            WidgetType::Padding(p) => {
                let (child, rect) = (p.child, p.child_rect);
                proof {
                    assert(children_of(self.widgets@[id as int])[0] == child.0 as int);
                }
                self.event_child(id, child, rect, ctx, event, data);
                proof {
                    let cs = seq![(child.0 as int, rect)];
                    assert(children_targets(rs, id as int, cs, *event, 0) =~= Seq::<(int, Event)>::empty());
                    assert(event_targets(rs, id as int, *event) =~= children_targets(rs, id as int, cs, *event, 1));
                    assert(cs[0] == (child.0 as int, rect));
                    assert(children_targets(rs, id as int, cs, *event, 1) =~= (match child_event(rect, *event) {
                        Some(ce) => event_targets(rs, child.0 as int, ce),
                        None => Seq::empty(),
                    }));
                }
            },
            WidgetType::Align(a) => {
                let (child, rect) = (a.child, a.child_rect);
                proof {
                    assert(children_of(self.widgets@[id as int])[0] == child.0 as int);
                }
                self.event_child(id, child, rect, ctx, event, data);
                proof {
                    let cs = seq![(child.0 as int, rect)];
                    assert(children_targets(rs, id as int, cs, *event, 0) =~= Seq::<(int, Event)>::empty());
                    assert(event_targets(rs, id as int, *event) =~= children_targets(rs, id as int, cs, *event, 1));
                    assert(cs[0] == (child.0 as int, rect));
                    assert(children_targets(rs, id as int, cs, *event, 1) =~= (match child_event(rect, *event) {
                        Some(ce) => event_targets(rs, child.0 as int, ce),
                        None => Seq::empty(),
                    }));
                }
            },
            WidgetType::Flex(_) => {
                self.event_flex(id, ctx, event, data);
            },
        }
        proof {
            lemma_deliver_all_keeps(s0, event_targets(rs, id as int, *event));
            assert(self@ =~= old(self)@);
        }
    }

    fn event_button<D: Data>(&mut self, id: WidgetId, ctx: &mut EventCtx, event: &Event, data: &mut D)
        requires
            old(self).wf(),
            (id as int) < MAX_WIDGETS,
            old(self).widgets@[id as int] is Button,
        ensures
            deliver(
                PassState { widgets: old(self).widgets@, needs_inval: old(ctx).needs_inval, actions: old(ctx).actions@, data: *old(data) },
                (id as int, *event),
            ) == (PassState { widgets: final(self).widgets@, needs_inval: final(ctx).needs_inval, actions: final(ctx).actions@, data: *final(data) }),
            final(self).next == old(self).next,
            final(ctx).is_handled == old(ctx).is_handled,
            final(ctx).request_focus == old(ctx).request_focus,
    {
        let mut slot = WidgetType::Empty;
        self.widgets.set_and_swap(id as usize, &mut slot);
        let ghost taken = slot;
        match &mut slot {
            WidgetType::Button(b) => {
                b.event(ctx, event, data);
            },
            _ => {},
        }
        let ghost updated = slot;
        self.widgets.set_and_swap(id as usize, &mut slot);
        proof {
            assert(self.widgets@ =~= old(self).widgets@.update(id as int, updated));
            assert(updated == set_active(taken, button_step(taken->Button_0.active, *event).0));
        }
    }

    /// Hands an event on to a child placed at `rect`.
    fn event_child<D: Data>(
        &mut self,
        parent: WidgetId,
        child: WidgetBox,
        rect: Rect,
        ctx: &mut EventCtx,
        event: &Event,
        data: &mut D,
    )
        requires
            old(self).wf(),
            (parent as int) < MAX_WIDGETS,
            child.0 < parent,
        ensures
            final(self).wf(),
            final(self)@ == old(self)@,
            final(self).next == old(self).next,
            ({
                let s = deliver_all(
                    PassState { widgets: old(self).widgets@, needs_inval: old(ctx).needs_inval, actions: old(ctx).actions@, data: *old(data) },
                    match child_event(rect, *event) {
                        Some(ce) => event_targets(routes(old(self).widgets@), child.0 as int, ce),
                        None => Seq::empty(),
                    },
                );
                &&& final(self).widgets@ == s.widgets
                &&& final(ctx).needs_inval == s.needs_inval
                &&& final(ctx).actions@ == s.actions
                &&& *final(data) == s.data
            }),
            pass_keeps(old(self).widgets@, final(self).widgets@),
            final(ctx).is_handled == old(ctx).is_handled,
            final(ctx).request_focus == old(ctx).request_focus,
        decreases parent, 0int,
    {
        match event.mouse_position() {
            Some(p) => {
                if rect.contains(p) {
                    let e = event.translate(rect.origin);
                    self.event(child.0, ctx, &e, data);
                } else {
                    proof {
                        lemma_deliver_all_keeps(
                            PassState { widgets: self.widgets@, needs_inval: ctx.needs_inval, actions: ctx.actions@, data: *data },
                            Seq::empty(),
                        );
                    }
                }
            },
            None => {
                if let Event::HotChanged(_) = event {
                    proof {
                        lemma_deliver_all_keeps(
                            PassState { widgets: self.widgets@, needs_inval: ctx.needs_inval, actions: ctx.actions@, data: *data },
                            Seq::empty(),
                        );
                    }
                } else {
                    self.event(child.0, ctx, event, data);
                }
            },
        }
    }

    fn event_flex<D: Data>(&mut self, id: WidgetId, ctx: &mut EventCtx, event: &Event, data: &mut D)
        requires
            old(self).wf(),
            (id as int) < MAX_WIDGETS,
            old(self).widgets@[id as int] is Flex,
        ensures
            final(self).wf(),
            final(self)@ == old(self)@,
            final(self).next == old(self).next,
            ({
                let s = event_pass(old(self).widgets@, id as int, *event, old(ctx).needs_inval, old(ctx).actions@, *old(data));
                &&& final(self).widgets@ == s.widgets
                &&& final(ctx).needs_inval == s.needs_inval
                &&& final(ctx).actions@ == s.actions
                &&& *final(data) == s.data
            }),
            pass_keeps(old(self).widgets@, final(self).widgets@),
            final(ctx).is_handled == old(ctx).is_handled,
            final(ctx).request_focus == old(ctx).request_focus,
        decreases id, 1int,
    {
        let ghost w = self.widgets@[id as int];
        let ghost list = child_list(flex_at(w).children);
        let ghost rs = routes(self.widgets@);
        let ghost cs = list.map_values(|c: ChildWidget| (c.widget.0 as int, c.rect));
        let ghost s0 = PassState { widgets: self.widgets@, needs_inval: ctx.needs_inval, actions: ctx.actions@, data: *data };
        proof {
            assert(slot_wf(w, id as int));
            assert(rs[id as int] == route(w));
            assert(children_of(w) == list.map_values(|c: ChildWidget| c.widget.0 as int));
            assert forall|k: int| 0 <= k < list.len() implies #[trigger] list[k].widget.0 < id by {
                assert(children_of(w)[k] == list[k].widget.0 as int);
            }
            lemma_deliver_all_keeps(s0, Seq::empty());
        }
        let n = self.flex_len(id);
        let mut i: usize = 0;
        while i < n
            invariant
                n == list.len(),
                n == cs.len(),
                i <= n,
                (id as int) < MAX_WIDGETS,
                forall|k: int| 0 <= k < list.len() ==> #[trigger] list[k].widget.0 < id,
                cs == list.map_values(|c: ChildWidget| (c.widget.0 as int, c.rect)),
                self.wf(),
                self@ == old(self)@,
                self.next == old(self).next,
                self.widgets@[id as int] == w,
                w is Flex,
                list == child_list(flex_at(self.widgets@[id as int]).children),
                routes(self.widgets@) == rs,
                pass_keeps(old(self).widgets@, self.widgets@),
                (PassState { widgets: self.widgets@, needs_inval: ctx.needs_inval, actions: ctx.actions@, data: *data })
                    == deliver_all(s0, children_targets(rs, id as int, cs, *event, i as int)),
                ctx.is_handled == old(ctx).is_handled,
                ctx.request_focus == old(ctx).request_focus,
            decreases n - i,
        {
            let c = self.flex_child(id, i);
            let ghost cur = PassState { widgets: self.widgets@, needs_inval: ctx.needs_inval, actions: ctx.actions@, data: *data };
            let ghost before = self.widgets@;
            self.event_child(id, c.widget, c.rect, ctx, event, data);
            proof {
                assert(cs[i as int] == (c.widget.0 as int, c.rect));
                let x = match child_event(c.rect, *event) {
                    Some(ce) => event_targets(rs, c.widget.0 as int, ce),
                    None => Seq::empty(),
                };
                lemma_deliver_all_concat(s0, children_targets(rs, id as int, cs, *event, i as int), x);
                assert(children_targets(rs, id as int, cs, *event, i as int + 1)
                    == children_targets(rs, id as int, cs, *event, i as int) + x);
                assert(routes(self.widgets@) =~= rs) by {
                    assert forall|j: int| 0 <= j < self.widgets@.len() implies #[trigger] routes(self.widgets@)[j] == rs[j] by {
                        assert(route(self.widgets@[j]) == route(before[j]));
                        assert(route(before[j]) == route(old(self).widgets@[j]));
                    }
                }
                assert(pass_keeps(old(self).widgets@, self.widgets@)) by {
                    assert forall|j: int| 0 <= j < old(self).widgets@.len() implies model(#[trigger] self.widgets@[j]) == model(old(self).widgets@[j]) by {
                        assert(model(self.widgets@[j]) == model(before[j]));
                    }
                }
            }
            i = i + 1;
        }
        proof {
            assert(event_targets(rs, id as int, *event) == children_targets(rs, id as int, cs, *event, n as int));
        }
    }
}

/// The ids each widget refers to.
pub open spec fn kids(ws: Seq<WidgetType>) -> Seq<Seq<int>> {
    ws.map_values(|w: WidgetType| children_of(w))
}

/// The widgets in the subtree of `id`, each as often as it is reached,
/// `id` first and then the children's subtrees in order.
pub open spec fn reach(ks: Seq<Seq<int>>, id: int) -> Seq<int>
    decreases id, 1int, 0int,
{
    if 0 <= id < ks.len() {
        seq![id] + reach_children(ks, id, ks[id], ks[id].len() as int)
    } else {
        Seq::empty()
    }
}

pub open spec fn reach_children(ks: Seq<Seq<int>>, id: int, cs: Seq<int>, n: int) -> Seq<int>
    decreases id, 0int, n,
{
    if n <= 0 || id < 0 {
        Seq::empty()
    } else {
        reach_children(ks, id, cs, n - 1) + if 0 <= cs[n - 1] < id {
            reach(ks, cs[n - 1])
        } else {
            Seq::empty()
        }
    }
}

/// Every widget reached lies in the arena, at or below `id`.
pub proof fn lemma_reach_in_range(ks: Seq<Seq<int>>, id: int)
    ensures
        forall|j: int| #[trigger] reach(ks, id).contains(j) ==> 0 <= j < ks.len() && j <= id,
    decreases id, 1int, 0int,
{
    if 0 <= id < ks.len() {
        lemma_reach_children_in_range(ks, id, ks[id], ks[id].len() as int);
        let rc = reach_children(ks, id, ks[id], ks[id].len() as int);
        let r = reach(ks, id);
        assert forall|j: int| #[trigger] r.contains(j) implies 0 <= j < ks.len() && j <= id by {
            let k = choose|k: int| 0 <= k < r.len() && r[k] == j;
            if k > 0 {
                assert(rc[k - 1] == j);
                assert(rc.contains(j));
            }
        }
    }
}

pub proof fn lemma_reach_children_in_range(ks: Seq<Seq<int>>, id: int, cs: Seq<int>, n: int)
    requires
        id < ks.len(),
    ensures
        forall|j: int| #[trigger] reach_children(ks, id, cs, n).contains(j) ==> 0 <= j < ks.len() && j <= id,
    decreases id, 0int, n,
{
    if n > 0 && id >= 0 {
        lemma_reach_children_in_range(ks, id, cs, n - 1);
        let pre = reach_children(ks, id, cs, n - 1);
        let x = if 0 <= cs[n - 1] < id { reach(ks, cs[n - 1]) } else { Seq::empty() };
        if 0 <= cs[n - 1] < id {
            lemma_reach_in_range(ks, cs[n - 1]);
        }
        let all = reach_children(ks, id, cs, n);
        assert(all == pre + x);
        assert forall|j: int| #[trigger] all.contains(j) implies 0 <= j < ks.len() && j <= id by {
            let k = choose|k: int| 0 <= k < all.len() && all[k] == j;
            if k < pre.len() {
                assert(pre[k] == j);
                assert(pre.contains(j));
            } else {
                assert(x[k - pre.len()] == j);
                assert(x.contains(j));
            }
        }
    }
}

/// A child's subtree lies within its parent's.
pub proof fn lemma_reach_child(ks: Seq<Seq<int>>, id: int, k: int)
    requires
        0 <= id < ks.len(),
        0 <= k < ks[id].len(),
        0 <= ks[id][k] < id,
    ensures
        reach(ks, id).contains(id),
        forall|j: int| #[trigger] reach(ks, ks[id][k]).contains(j) ==> reach(ks, id).contains(j),
{
    let r = reach(ks, id);
    let rc = reach_children(ks, id, ks[id], ks[id].len() as int);
    assert(r[0] == id);
    lemma_reach_children_sub(ks, id, ks[id], ks[id].len() as int, k);
    assert forall|j: int| #[trigger] reach(ks, ks[id][k]).contains(j) implies r.contains(j) by {
        assert(rc.contains(j));
        let m = choose|m: int| 0 <= m < rc.len() && rc[m] == j;
        assert(r[m + 1] == j);
    }
}

proof fn lemma_reach_children_sub(ks: Seq<Seq<int>>, id: int, cs: Seq<int>, n: int, k: int)
    requires
        0 <= id,
        0 <= k < n <= cs.len(),
        0 <= cs[k] < id,
    ensures
        forall|j: int| #[trigger] reach(ks, cs[k]).contains(j) ==> reach_children(ks, id, cs, n).contains(j),
    decreases n,
{
    let pre = reach_children(ks, id, cs, n - 1);
    let x = if 0 <= cs[n - 1] < id { reach(ks, cs[n - 1]) } else { Seq::empty() };
    assert(reach_children(ks, id, cs, n) == pre + x);
    if k < n - 1 {
        lemma_reach_children_sub(ks, id, cs, n - 1, k);
        assert forall|j: int| #[trigger] reach(ks, cs[k]).contains(j) implies (pre + x).contains(j) by {
            let m = choose|m: int| 0 <= m < pre.len() && pre[m] == j;
            assert((pre + x)[m] == j);
        }
    } else {
        assert forall|j: int| #[trigger] reach(ks, cs[k]).contains(j) implies (pre + x).contains(j) by {
            let m = choose|m: int| 0 <= m < x.len() && x[m] == j;
            assert((pre + x)[m + pre.len()] == j);
        }
    }
}

/// `w1` is `w0` with its text, if it shows one, resolved against `data`.
pub open spec fn refreshed<D: Data>(w0: WidgetType, w1: WidgetType, data: D) -> bool {
    match w0 {
        WidgetType::Label(l0) => w1 matches WidgetType::Label(l1) && l1.align == l0.align
            && text_refreshed(l0.text, l1.text, data),
        WidgetType::Button(b0) => w1 matches WidgetType::Button(b1) && b1.action == b0.action
            && b1.active == b0.active && b1.label.align == b0.label.align && text_refreshed(b0.label.text, b1.label.text, data),
        _ => w1 == w0,
    }
}

/// The widget shows a text that resolving against `data` would change.
pub open spec fn stale<D: Data>(w: WidgetType, data: D) -> bool {
    match w {
        WidgetType::Label(l) => text_stale(l.text, data),
        WidgetType::Button(b) => text_stale(b.label.text, data),
        _ => false,
    }
}

pub proof fn lemma_refreshed_facts<D: Data>(w0: WidgetType, w1: WidgetType, w2: WidgetType, data: D, j: int)
    ensures
        refreshed(w0, w1, data) ==> {
            &&& !stale(w1, data)
            &&& route(w1) == route(w0)
            &&& slot_wf(w1, j) == slot_wf(w0, j)
            &&& (w1 is Empty) == (w0 is Empty)
            &&& same_structure(w1, w0)
            &&& is_active(w1) == is_active(w0)
            &&& (stale(w0, data) <==> model(w1) != model(w0))
            &&& (refreshed(w1, w2, data) ==> refreshed(w0, w2, data))
        },
{
    if refreshed(w0, w1, data) {
        assert(children_of(w1) =~= children_of(w0));
        assert(child_rects(w1) =~= child_rects(w0));
    }
}

impl WidgetArena {
    /// Lets widget `id` and its subtree react to the current data: every
    /// label and button reached resolves its text, everything else stays as
    /// it was, and a repaint is requested exactly when some reached text was
    /// out of date.
    pub fn update<D: Data>(&mut self, id: WidgetId, ctx: &mut UpdateCtx, data: &D)
        requires
            old(self).wf(),
            (id as int) < MAX_WIDGETS,
        ensures
            final(self).wf(),
            final(self).next == old(self).next,
            final(self).widgets@.len() == old(self).widgets@.len(),
            forall|j: int| 0 <= j < MAX_WIDGETS ==> if reach(kids(old(self).widgets@), id as int).contains(j) {
                refreshed(old(self).widgets@[j], #[trigger] final(self).widgets@[j], *data)
            } else {
                final(self).widgets@[j] == old(self).widgets@[j]
            },
            final(ctx).needs_inval == (old(ctx).needs_inval || exists|j: int|
                #[trigger] reach(kids(old(self).widgets@), id as int).contains(j) && stale(old(self).widgets@[j], *data)),
        decreases id, 2int,
    {
        let ghost ks = kids(self.widgets@);
        proof {
            assert(ks[id as int] == children_of(self.widgets@[id as int]));
            assert(slot_wf(self.widgets@[id as int], id as int));
        }
        match &self.widgets[id as usize] {
            WidgetType::Empty | WidgetType::Label(_) | WidgetType::Button(_) => {
                self.update_text(id, ctx, data);
                proof {
                    assert(reach_children(ks, id as int, ks[id as int], 0) =~= Seq::<int>::empty());
                    assert(reach(ks, id as int) =~= seq![id as int]);
                    assert forall|j: int| #[trigger] reach(ks, id as int).contains(j) <==> j == id as int by {
                        if j == id as int {
                            assert(reach(ks, id as int)[0] == j);
                        }
                    }
                    if stale(old(self).widgets@[id as int], *data) {
                        assert(reach(ks, id as int).contains(id as int));
                    }
                }
            },
            WidgetType::Padding(_) | WidgetType::Align(_) | WidgetType::Flex(_) => {
                self.update_children(id, ctx, data);
            },
        }
    }

    /// Resolves the text of the widget at `id`, if it shows one.
    fn update_text<D: Data>(&mut self, id: WidgetId, ctx: &mut UpdateCtx, data: &D)
        requires
            old(self).wf(),
            (id as int) < MAX_WIDGETS,
        ensures
            final(self).wf(),
            final(self).next == old(self).next,
            final(self).widgets@ == old(self).widgets@.update(id as int, final(self).widgets@[id as int]),
            refreshed(old(self).widgets@[id as int], final(self).widgets@[id as int], *data),
            final(ctx).needs_inval == (old(ctx).needs_inval || stale(old(self).widgets@[id as int], *data)),
    {
        let mut slot = WidgetType::Empty;
        self.widgets.set_and_swap(id as usize, &mut slot);
        let ghost taken = slot;
        let changed = match &mut slot {
            WidgetType::Label(l) => l.text.resolve(data),
            WidgetType::Button(b) => b.label.text.resolve(data),
            _ => false,
        };
        if changed {
            ctx.needs_inval = true;
        }
        let ghost updated = slot;
        self.widgets.set_and_swap(id as usize, &mut slot);
        proof {
            assert(self.widgets@ =~= old(self).widgets@.update(id as int, updated));
            lemma_refreshed_facts(taken, updated, updated, *data, id as int);
            assert forall|i: int| 0 <= i < MAX_WIDGETS implies slot_wf(#[trigger] self.widgets@[i], i) by {
                assert(slot_wf(old(self).widgets@[i], i));
            }
            assert forall|i: int| 0 <= i < MAX_WIDGETS implies ((i < self.next) <==> !(
            #[trigger] self.widgets@[i] is Empty)) by {
                assert((i < old(self).next) <==> !(old(self).widgets@[i] is Empty));
            }
        }
    }

    fn update_children<D: Data>(&mut self, id: WidgetId, ctx: &mut UpdateCtx, data: &D)
        requires
            old(self).wf(),
            (id as int) < MAX_WIDGETS,
            old(self).widgets@[id as int] is Padding || old(self).widgets@[id as int] is Align || old(self).widgets@[id as int] is Flex,
        ensures
            final(self).wf(),
            final(self).next == old(self).next,
            final(self).widgets@.len() == old(self).widgets@.len(),
            forall|j: int| 0 <= j < MAX_WIDGETS ==> if reach(kids(old(self).widgets@), id as int).contains(j) {
                refreshed(old(self).widgets@[j], #[trigger] final(self).widgets@[j], *data)
            } else {
                final(self).widgets@[j] == old(self).widgets@[j]
            },
            final(ctx).needs_inval == (old(ctx).needs_inval || exists|j: int|
                #[trigger] reach(kids(old(self).widgets@), id as int).contains(j) && stale(old(self).widgets@[j], *data)),
        decreases id, 1int,
    {
        let ghost w = self.widgets@[id as int];
        let ghost rs = kids(self.widgets@);
        let ghost cs = rs[id as int];
        let ghost ow = self.widgets@;
        proof {
            assert(cs == children_of(w));
            assert(slot_wf(w, id as int));
            assert(reach_children(rs, id as int, cs, 0) =~= Seq::<int>::empty());
            assert(!(w is Label) && !(w is Button));
        }
        let n: usize = match &self.widgets[id as usize] {
            WidgetType::Flex(_) => self.flex_len(id),
            _ => 1,
        };
        let mut i: usize = 0;
        while i < n
            invariant
                n == cs.len(),
                i <= n,
                (id as int) < MAX_WIDGETS,
                forall|k: int| 0 <= k < cs.len() ==> 0 <= #[trigger] cs[k] < id,
                self.wf(),
                self.next == old(self).next,
                self.widgets@.len() == ow.len(),
                self.widgets@[id as int] == w,
                !(w is Label) && !(w is Button),
                cs == children_of(w),
                w is Flex ==> n == child_list(flex_at(w).children).len(),
                kids(self.widgets@) == rs,
                forall|j: int| 0 <= j < MAX_WIDGETS ==> if reach_children(rs, id as int, cs, i as int).contains(j) {
                    refreshed(ow[j], #[trigger] self.widgets@[j], *data)
                } else {
                    self.widgets@[j] == ow[j]
                },
                ctx.needs_inval == (old(ctx).needs_inval || exists|j: int|
                    #[trigger] reach_children(rs, id as int, cs, i as int).contains(j) && stale(ow[j], *data)),
            decreases n - i,
        {
            let c: WidgetId = match &self.widgets[id as usize] {
                WidgetType::Flex(_) => self.flex_child(id, i).widget.0,
                WidgetType::Padding(p) => p.child.0,
                WidgetType::Align(a) => a.child.0,
                _ => 0,
            };
            proof {
                match w {
                    WidgetType::Flex(f) => {
                        assert(children_of(w)[i as int] == child_list(f.children)[i as int].widget.0 as int);
                    },
                    WidgetType::Padding(p) => {
                        assert(children_of(w)[0] == p.child.0 as int);
                    },
                    WidgetType::Align(a) => {
                        assert(children_of(w)[0] == a.child.0 as int);
                    },
                    _ => {},
                }
                assert(c as int == cs[i as int]);
            }
            let ghost cur = self.widgets@;
            let ghost need0 = ctx.needs_inval;
            proof {
                let ri = reach_children(rs, id as int, cs, i as int);
                lemma_reach_children_in_range(rs, id as int, cs, i as int);
                lemma_reach_in_range(rs, c as int);
                assert(forall|j: int| 0 <= j < MAX_WIDGETS ==> if ri.contains(j) {
                    refreshed(ow[j], #[trigger] cur[j], *data)
                } else {
                    cur[j] == ow[j]
                });
            }
            self.update(c, ctx, data);
            proof {
                let ri = reach_children(rs, id as int, cs, i as int);
                let rc = reach(rs, c as int);
                assert(reach_children(rs, id as int, cs, i as int + 1) == ri + rc);
                assert forall|j: int| #[trigger] (ri + rc).contains(j) <==> ri.contains(j) || rc.contains(j) by {
                    if (ri + rc).contains(j) {
                        let k = choose|k: int| 0 <= k < (ri + rc).len() && (ri + rc)[k] == j;
                        if k >= ri.len() {
                            assert(rc[k - ri.len()] == j);
                        }
                    }
                    if rc.contains(j) {
                        let k = choose|k: int| 0 <= k < rc.len() && rc[k] == j;
                        assert((ri + rc)[k + ri.len()] == j);
                    }
                    if ri.contains(j) {
                        let k = choose|k: int| 0 <= k < ri.len() && ri[k] == j;
                        assert((ri + rc)[k] == j);
                    }
                }
                assert forall|j: int| 0 <= j < MAX_WIDGETS implies if (ri + rc).contains(j) {
                    refreshed(ow[j], #[trigger] self.widgets@[j], *data)
                } else {
                    self.widgets@[j] == ow[j]
                } by {
                    if rc.contains(j) {
                        if ri.contains(j) {
                            lemma_refreshed_facts(ow[j], cur[j], self.widgets@[j], *data, j);
                        }
                    }
                }
                assert(kids(self.widgets@) =~= rs) by {
                    assert forall|j: int| 0 <= j < rs.len() implies #[trigger] kids(self.widgets@)[j] == rs[j] by {
                        lemma_refreshed_facts(ow[j], self.widgets@[j], self.widgets@[j], *data, j);
                    }
                }
                assert(self.widgets@[id as int] == w) by {
                    if (ri + rc).contains(id as int) {
                        lemma_refreshed_facts(ow[id as int], self.widgets@[id as int], self.widgets@[id as int], *data, id as int);
                    }
                }
                let new_need = ctx.needs_inval;
                assert(new_need == (old(ctx).needs_inval || exists|j: int|
                    #[trigger] (ri + rc).contains(j) && stale(ow[j], *data))) by {
                    if exists|j: int| ri.contains(j) && stale(ow[j], *data) {
                        let j = choose|j: int| ri.contains(j) && stale(ow[j], *data);
                        assert((ri + rc).contains(j) && stale(ow[j], *data));
                    }
                    if exists|j: int| rc.contains(j) && stale(cur[j], *data) {
                        let j = choose|j: int| rc.contains(j) && stale(cur[j], *data);
                        if ri.contains(j) {
                            lemma_refreshed_facts(ow[j], cur[j], cur[j], *data, j);
                        }
                        assert((ri + rc).contains(j) && stale(ow[j], *data));
                    }
                    if exists|j: int| (ri + rc).contains(j) && stale(ow[j], *data) {
                        let j = choose|j: int| (ri + rc).contains(j) && stale(ow[j], *data);
                        if !ri.contains(j) {
                            assert(cur[j] == ow[j]);
                            assert(rc.contains(j) && stale(cur[j], *data));
                        } else {
                            assert(ri.contains(j) && stale(ow[j], *data));
                        }
                    }
                }
            }
            i = i + 1;
        }
        proof {
            assert(reach(kids(old(self).widgets@), id as int) == seq![id as int] + reach_children(rs, id as int, cs, n as int));
            let r = reach(rs, id as int);
            let rc = reach_children(rs, id as int, cs, n as int);
            assert forall|j: int| #[trigger] r.contains(j) <==> j == id as int || rc.contains(j) by {
                if r.contains(j) {
                    let k = choose|k: int| 0 <= k < r.len() && r[k] == j;
                    if k > 0 {
                        assert(rc[k - 1] == j);
                    }
                }
                if rc.contains(j) {
                    let k = choose|k: int| 0 <= k < rc.len() && rc[k] == j;
                    assert(r[k + 1] == j);
                }
                if j == id as int {
                    assert(r[0] == j);
                }
            }
            assert(!stale(ow[id as int], *data));
            if exists|j: int| r.contains(j) && stale(ow[j], *data) {
                let j = choose|j: int| r.contains(j) && stale(ow[j], *data);
                assert(rc.contains(j));
            }
            if exists|j: int| rc.contains(j) && stale(ow[j], *data) {
                let j = choose|j: int| rc.contains(j) && stale(ow[j], *data);
                assert(r.contains(j));
            }
            assert forall|j: int| 0 <= j < MAX_WIDGETS implies if r.contains(j) {
                refreshed(ow[j], #[trigger] self.widgets@[j], *data)
            } else {
                self.widgets@[j] == ow[j]
            } by {
                if j == id as int && !rc.contains(j) {
                    assert(self.widgets@[j] == ow[j]);
                }
            }
        }
    }
}

/// An event pass from `root` took widgets `ws0`, context `c0` and data
/// `d0` to `ws1`, `c1` and `d1`.
pub open spec fn event_done<D: Data>(
    ws0: Seq<WidgetType>,
    root: int,
    e: Event,
    c0: EventCtx,
    d0: D,
    ws1: Seq<WidgetType>,
    c1: EventCtx,
    d1: D,
) -> bool {
    let s = event_pass(ws0, root, e, c0.needs_inval, c0.actions@, d0);
    &&& ws1 == s.widgets
    &&& c1.needs_inval == s.needs_inval
    &&& c1.actions@ == s.actions
    &&& d1 == s.data
    &&& c1.is_handled == c0.is_handled
    &&& c1.request_focus == c0.request_focus
}

/// An update pass from `root` against `data` took widgets `ws0` and repaint
/// flag `n0` to `ws1` and `n1`.
pub open spec fn update_done<D: Data>(ws0: Seq<WidgetType>, root: int, n0: bool, data: D, ws1: Seq<WidgetType>, n1: bool) -> bool {
    &&& ws1.len() == ws0.len()
    &&& forall|j: int| 0 <= j < ws0.len() ==> if reach(kids(ws0), root).contains(j) {
        refreshed(ws0[j], #[trigger] ws1[j], data)
    } else {
        ws1[j] == ws0[j]
    }
    &&& n1 == (n0 || exists|j: int| #[trigger] reach(kids(ws0), root).contains(j) && stale(ws0[j], data))
}

} // verus!
