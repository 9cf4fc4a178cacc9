//! Layout: what size each widget takes within given constraints, and where
//! each composite widget places its children.
//!
//! `layout_of` states the result over the arena's model; `WidgetArena::layout`
//! computes it, recursing through the arena by child id.

use vstd::prelude::*;
use crate::align::Align;
use crate::context::LayoutCtx;
use crate::flex::{child_list, children_get, children_len, children_new, children_push, Axis, ChildWidget, Flex, MAX_CHILDREN};
use crate::geometry::{max_int, sat, BoxConstraints, Insets, Point, Rect, Size, UnitPoint};
use crate::label::text_size;
use crate::padding::Padding;
use crate::dispatch::{kids, lemma_reach_child, reach};
use crate::widgetbox::{child_rects, children_of, model, slot_wf, WidgetArena, WidgetId, WidgetModel, WidgetType, MAX_WIDGETS};

verus! {

pub open spec fn zero_size() -> Size {
    Size { width: 0, height: 0 }
}

/// The size of a padding widget whose child took `cs`.
pub open spec fn padded_size(cs: Size, insets: Insets) -> Size {
    Size { width: sat(cs.width + insets.hpad()), height: sat(cs.height + insets.vpad()) }
}

/// The constraints a padding widget hands its child.
pub open spec fn padding_bc(bc: BoxConstraints, insets: Insets) -> BoxConstraints {
    bc.spec_shrink(sat(insets.hpad()) as int, sat(insets.vpad()) as int)
}

/// A side scaled by a factor in thousandths.
pub open spec fn scaled(len: u32, factor: u32) -> u32 {
    sat(len * factor / 1000)
}

/// The size of an align widget whose child took `cs`: the bound on each
/// bounded axis, the child's length on an unbounded one, the scaled child
/// length where a factor is set; then constrained.
pub open spec fn align_size(bc: BoxConstraints, cs: Size, wf: Option<u32>, hf: Option<u32>) -> Size {
    let w0: u32 = match bc.max_width {
        Some(m) => m,
        None => cs.width,
    };
    let h0: u32 = match bc.max_height {
        Some(m) => m,
        None => cs.height,
    };
    let w1: u32 = match wf {
        Some(f) => scaled(cs.width, f),
        None => w0,
    };
    let h1: u32 = match hf {
        Some(f) => scaled(cs.height, f),
        None => h0,
    };
    bc.spec_constrain(Size { width: w1, height: h1 })
}

/// Where an align widget of size `my` places a child of size `cs`.
pub open spec fn align_origin(align: UnitPoint, my: Size, cs: Size) -> Point {
    align.spec_resolve(Size { width: sat(my.width - cs.width), height: sat(my.height - cs.height) })
}

/// The sum of the first `n` flex weights.
pub open spec fn flex_sum(cs: Seq<(int, u32)>, n: int) -> int
    decreases n,
{
    if n <= 0 {
        0
    } else {
        flex_sum(cs, n - 1) + cs[n - 1].1
    }
}

/// The size widget `id` takes within `bc`.
pub open spec fn layout_of(ms: Seq<WidgetModel>, id: int, bc: BoxConstraints, lc: LayoutCtx) -> Size
    decreases id, 4int, 0int,
{
    if 0 <= id < ms.len() {
        match ms[id] {
            WidgetModel::Empty => zero_size(),
            WidgetModel::Label { text } => bc.spec_constrain(text_size(text, lc)),
            WidgetModel::Button { text } => bc.spec_constrain(text_size(text, lc)),
            WidgetModel::Padding { insets, child } => if 0 <= child < id {
                padded_size(layout_of(ms, child, padding_bc(bc, insets), lc), insets)
            } else {
                zero_size()
            },
            WidgetModel::Align { align, width_factor, height_factor, child } => if 0 <= child < id {
                align_size(bc, layout_of(ms, child, bc.spec_loosen(), lc), width_factor, height_factor)
            } else {
                zero_size()
            },
            WidgetModel::Flex { axis, children } => flex_size(ms, id, axis, children, bc, lc),
        }
    } else {
        zero_size()
    }
}

/// The total major length of the non-flex children among the first `n`.
pub open spec fn nf_total(
    ms: Seq<WidgetModel>,
    id: int,
    axis: Axis,
    cs: Seq<(int, u32)>,
    bc: BoxConstraints,
    lc: LayoutCtx,
    n: int,
) -> int
    decreases id, 0int, n,
{
    if n <= 0 || id < 0 {
        0
    } else {
        let c = cs[n - 1];
        nf_total(ms, id, axis, cs, bc, lc, n - 1) + if c.1 == 0 && 0 <= c.0 < id {
            axis.spec_major(layout_of(ms, c.0, axis.spec_non_flex_bc(bc), lc)) as int
        } else {
            0
        }
    }
}

/// The major length left for the flex children: the bound less the
/// non-flex total, at least zero; absent when the axis is unbounded.
pub open spec fn remaining(
    ms: Seq<WidgetModel>,
    id: int,
    axis: Axis,
    cs: Seq<(int, u32)>,
    bc: BoxConstraints,
    lc: LayoutCtx,
) -> Option<int>
    decreases id, 0int, cs.len() + 1,
{
    if id < 0 {
        None
    } else {
        match axis.spec_max_major(bc) {
            Some(m) => Some(max_int(0, m - nf_total(ms, id, axis, cs, bc, lc, cs.len() as int))),
            None => None,
        }
    }
}

/// A flex child's share of the remaining length: `rem * w / total`.
pub open spec fn flex_share(rem: Option<int>, w: u32, total: int) -> Option<u32> {
    match rem {
        Some(r) => Some(sat(r * w / total)),
        None => None,
    }
}

/// The constraints child `i` of a flex container is laid out with.
pub open spec fn flex_child_bc(
    ms: Seq<WidgetModel>,
    id: int,
    axis: Axis,
    cs: Seq<(int, u32)>,
    bc: BoxConstraints,
    lc: LayoutCtx,
    i: int,
) -> BoxConstraints
    decreases id, 1int, 0int,
{
    if cs[i].1 == 0 || id < 0 {
        axis.spec_non_flex_bc(bc)
    } else {
        axis.spec_flex_bc(
            bc,
            flex_share(remaining(ms, id, axis, cs, bc, lc), cs[i].1, flex_sum(cs, cs.len() as int)),
        )
    }
}

/// The size child `i` of a flex container takes.
pub open spec fn flex_child_size(
    ms: Seq<WidgetModel>,
    id: int,
    axis: Axis,
    cs: Seq<(int, u32)>,
    bc: BoxConstraints,
    lc: LayoutCtx,
    i: int,
) -> Size
    decreases id, 2int, 0int,
{
    if 0 <= i < cs.len() && 0 <= cs[i].0 < id {
        layout_of(ms, cs[i].0, flex_child_bc(ms, id, axis, cs, bc, lc, i), lc)
    } else {
        zero_size()
    }
}

/// The sum of the major lengths of the first `n` children: where child `n`
/// starts.
pub open spec fn flex_extent(
    ms: Seq<WidgetModel>,
    id: int,
    axis: Axis,
    cs: Seq<(int, u32)>,
    bc: BoxConstraints,
    lc: LayoutCtx,
    n: int,
) -> int
    decreases id, 3int, n,
{
    if n <= 0 || id < 0 {
        0
    } else {
        flex_extent(ms, id, axis, cs, bc, lc, n - 1) + axis.spec_major(
            flex_child_size(ms, id, axis, cs, bc, lc, n - 1),
        ) as int
    }
}

/// The largest minor length among the parent's minimum and the first `n`
/// children.
pub open spec fn flex_minor(
    ms: Seq<WidgetModel>,
    id: int,
    axis: Axis,
    cs: Seq<(int, u32)>,
    bc: BoxConstraints,
    lc: LayoutCtx,
    n: int,
) -> u32
    decreases id, 3int, n,
{
    if n <= 0 || id < 0 {
        axis.spec_minor(bc.min)
    } else {
        let a = flex_minor(ms, id, axis, cs, bc, lc, n - 1);
        let b = axis.spec_minor(flex_child_size(ms, id, axis, cs, bc, lc, n - 1));
        if a >= b { a } else { b }
    }
}

/// The size of a flex container: along the axis, the whole bound when some
/// child flexes and the axis is bounded, else the children's total; across
/// it, the largest child; then constrained.
pub open spec fn flex_size(
    ms: Seq<WidgetModel>,
    id: int,
    axis: Axis,
    cs: Seq<(int, u32)>,
    bc: BoxConstraints,
    lc: LayoutCtx,
) -> Size
    decreases id, 3int, cs.len() + 1,
{
    if id < 0 {
        zero_size()
    } else {
        let n = cs.len() as int;
        let major: u32 = if flex_sum(cs, n) > 0 && axis.spec_max_major(bc) is Some {
            axis.spec_max_major(bc).unwrap()
        } else {
            sat(flex_extent(ms, id, axis, cs, bc, lc, n))
        };
        bc.spec_constrain(axis.spec_pack(major, flex_minor(ms, id, axis, cs, bc, lc, n)))
    }
}

/// Where a flex container places child `i`: at the extent of the children
/// before it along the axis, at zero across it.
pub open spec fn flex_rect(
    ms: Seq<WidgetModel>,
    id: int,
    axis: Axis,
    cs: Seq<(int, u32)>,
    bc: BoxConstraints,
    lc: LayoutCtx,
    i: int,
) -> Rect {
    Rect {
        origin: axis.spec_pack_point(sat(flex_extent(ms, id, axis, cs, bc, lc, i)), 0),
        size: flex_child_size(ms, id, axis, cs, bc, lc, i),
    }
}

/// The rectangles that laying widget `id` out within `bc` gives its
/// children.
pub open spec fn expected_rects(ms: Seq<WidgetModel>, id: int, bc: BoxConstraints, lc: LayoutCtx) -> Seq<Rect> {
    if 0 <= id < ms.len() {
        match ms[id] {
            WidgetModel::Padding { insets, child } => seq![
                Rect {
                    origin: Point { x: insets.left, y: insets.top },
                    size: layout_of(ms, child, padding_bc(bc, insets), lc),
                },
            ],
            WidgetModel::Align { align, width_factor, height_factor, child } => {
                let cs = layout_of(ms, child, bc.spec_loosen(), lc);
                let my = align_size(bc, cs, width_factor, height_factor);
                seq![Rect { origin: align_origin(align, my, cs), size: cs }]
            },
            WidgetModel::Flex { axis, children } => Seq::new(
                children.len(),
                |i: int| flex_rect(ms, id, axis, children, bc, lc, i),
            ),
            _ => Seq::empty(),
        }
    } else {
        Seq::empty()
    }
}

/// The flex container in a slot that holds one.
pub open spec fn flex_at(w: WidgetType) -> Flex
    recommends
        w is Flex,
{
    match w {
        WidgetType::Flex(f) => f,
        _ => arbitrary(),
    }
}

fn sat_u64(v: u64) -> (r: u32)
    ensures
        r == sat(v as int),
{
    if v > u32::MAX as u64 {
        u32::MAX
    } else {
        v as u32
    }
}

impl WidgetArena {
    /// Lays widget `id` out within `bc`: returns its size and stores in it
    /// where its children go. Only that widget and those below it in the
    /// arena are touched, and only in the rectangles they keep.
    pub fn layout(&mut self, id: WidgetId, bc: &BoxConstraints, lc: &LayoutCtx) -> (r: Size)
        requires
            old(self).wf(),
            (id as int) < MAX_WIDGETS,
            bc.wf(),
        ensures
            final(self).wf(),
            final(self)@ == old(self)@,
            final(self).next == old(self).next,
            r == layout_of(old(self)@, id as int, *bc, *lc),
            child_rects(final(self).widgets@[id as int]) == expected_rects(old(self)@, id as int, *bc, *lc),
            forall|j: int| id < j < MAX_WIDGETS ==> #[trigger] final(self).widgets@[j] == old(self).widgets@[j],
            forall|j: int| 0 <= j < MAX_WIDGETS && !reach(kids(old(self).widgets@), id as int).contains(j)
                ==> #[trigger] final(self).widgets@[j] == old(self).widgets@[j],
            kids(final(self).widgets@) == kids(old(self).widgets@),
            !(old(self).widgets@[id as int] is Padding || old(self).widgets@[id as int] is Align
                || old(self).widgets@[id as int] is Flex) ==> final(self).widgets@ == old(self).widgets@,
        decreases id, 1int,
    {
        proof {
            assert(self@[id as int] == model(self.widgets@[id as int]));
        }
        match &self.widgets[id as usize] {
            WidgetType::Empty => Size::zero(),
            WidgetType::Label(l) => l.layout(bc, lc),
            WidgetType::Button(b) => b.label.layout(bc, lc),
            WidgetType::Padding(p) => {
                let p = *p;
                self.layout_padding(id, p, bc, lc)
            },
            WidgetType::Align(a) => {
                let a = *a;
                self.layout_align(id, a, bc, lc)
            },
            WidgetType::Flex(f) => {
                let axis = f.direction;
                self.layout_flex(id, axis, bc, lc)
            },
        }
    }

    /// Replaces slot `id` by a widget with the same model and children.
    fn replace_slot(&mut self, id: WidgetId, w: WidgetType)
        requires
            old(self).wf(),
            (id as int) < MAX_WIDGETS,
            model(w) == model(old(self).widgets@[id as int]),
            children_of(w) == children_of(old(self).widgets@[id as int]),
            slot_wf(w, id as int),
            !(w is Empty),
        ensures
            final(self).wf(),
            final(self)@ == old(self)@,
            final(self).next == old(self).next,
            final(self).widgets@ == old(self).widgets@.update(id as int, w),
            kids(final(self).widgets@) == kids(old(self).widgets@),
    {
        self.widgets.set(id as usize, w);
        proof {
            assert(kids(self.widgets@) =~= kids(old(self).widgets@));
            assert(self@ =~= old(self)@);
            assert forall|i: int| 0 <= i < MAX_WIDGETS implies slot_wf(#[trigger] self.widgets@[i], i) by {
                if i != id as int {
                    assert(self.widgets@[i] == old(self).widgets@[i]);
                }
            }
            assert forall|i: int| 0 <= i < MAX_WIDGETS implies ((i < self.next) <==> !(
            #[trigger] self.widgets@[i] is Empty)) by {
                if i != id as int {
                    assert(self.widgets@[i] == old(self).widgets@[i]);
                } else {
                    assert(!(old(self).widgets@[i] is Empty)) by {
                        assert(model(old(self).widgets@[i]) == model(w));
                    }
                }
            }
        }
    }

    fn layout_padding(&mut self, id: WidgetId, p: Padding, bc: &BoxConstraints, lc: &LayoutCtx) -> (r: Size)
        requires
            old(self).wf(),
            (id as int) < MAX_WIDGETS,
            bc.wf(),
            old(self).widgets@[id as int] == WidgetType::Padding(p),
        ensures
            final(self).wf(),
            final(self)@ == old(self)@,
            final(self).next == old(self).next,
            r == layout_of(old(self)@, id as int, *bc, *lc),
            child_rects(final(self).widgets@[id as int]) == expected_rects(old(self)@, id as int, *bc, *lc),
            forall|j: int| id < j < MAX_WIDGETS ==> #[trigger] final(self).widgets@[j] == old(self).widgets@[j],
            forall|j: int| 0 <= j < MAX_WIDGETS && !reach(kids(old(self).widgets@), id as int).contains(j)
                ==> #[trigger] final(self).widgets@[j] == old(self).widgets@[j],
            kids(final(self).widgets@) == kids(old(self).widgets@),
        decreases id, 0int,
    {
        proof {
            assert(slot_wf(self.widgets@[id as int], id as int));
            assert(children_of(self.widgets@[id as int])[0] == p.child.0 as int);
            assert(self@[id as int] == model(self.widgets@[id as int]));
        }
        let hpad = sat_u64(p.insets.left as u64 + p.insets.right as u64);
        let vpad = sat_u64(p.insets.top as u64 + p.insets.bottom as u64);
        let cbc = bc.shrink(hpad, vpad);
        let cs = self.layout(p.child.0, &cbc, lc);
        proof {
            let ks = kids(old(self).widgets@);
            assert(ks[id as int] == children_of(old(self).widgets@[id as int]));
            lemma_reach_child(ks, id as int, 0);
        }
        let width = sat_u64(cs.width as u64 + p.insets.left as u64 + p.insets.right as u64);
        let height = sat_u64(cs.height as u64 + p.insets.top as u64 + p.insets.bottom as u64);
        let rect = Rect { origin: Point { x: p.insets.left, y: p.insets.top }, size: cs };
        let np = Padding { child_rect: rect, ..p };
        proof {
            assert(self.widgets@[id as int] == old(self).widgets@[id as int]);
            assert(children_of(WidgetType::Padding(np)) =~= children_of(WidgetType::Padding(p)));
        }
        self.replace_slot(id, WidgetType::Padding(np));
        proof {
            assert(child_rects(self.widgets@[id as int]) =~= expected_rects(old(self)@, id as int, *bc, *lc));
        }
        Size { width, height }
    }

    fn layout_align(&mut self, id: WidgetId, a: Align, bc: &BoxConstraints, lc: &LayoutCtx) -> (r: Size)
        requires
            old(self).wf(),
            (id as int) < MAX_WIDGETS,
            bc.wf(),
            old(self).widgets@[id as int] == WidgetType::Align(a),
        ensures
            final(self).wf(),
            final(self)@ == old(self)@,
            final(self).next == old(self).next,
            r == layout_of(old(self)@, id as int, *bc, *lc),
            child_rects(final(self).widgets@[id as int]) == expected_rects(old(self)@, id as int, *bc, *lc),
            forall|j: int| id < j < MAX_WIDGETS ==> #[trigger] final(self).widgets@[j] == old(self).widgets@[j],
            forall|j: int| 0 <= j < MAX_WIDGETS && !reach(kids(old(self).widgets@), id as int).contains(j)
                ==> #[trigger] final(self).widgets@[j] == old(self).widgets@[j],
            kids(final(self).widgets@) == kids(old(self).widgets@),
        decreases id, 0int,
    {
        proof {
            assert(slot_wf(self.widgets@[id as int], id as int));
            assert(children_of(self.widgets@[id as int])[0] == a.child.0 as int);
            assert(self@[id as int] == model(self.widgets@[id as int]));
        }
        let cbc = bc.loosen();
        let cs = self.layout(a.child.0, &cbc, lc);
        proof {
            let ks = kids(old(self).widgets@);
            assert(ks[id as int] == children_of(old(self).widgets@[id as int]));
            lemma_reach_child(ks, id as int, 0);
        }
        let w0: u32 = match bc.max_width {
            Some(m) => m,
            None => cs.width,
        };
        let h0: u32 = match bc.max_height {
            Some(m) => m,
            None => cs.height,
        };
        let w1: u32 = match a.width_factor {
            Some(f) => scale(cs.width, f),
            None => w0,
        };
        let h1: u32 = match a.height_factor {
            Some(f) => scale(cs.height, f),
            None => h0,
        };
        let my = bc.constrain(Size { width: w1, height: h1 });
        let extra = Size { width: my.width.saturating_sub(cs.width), height: my.height.saturating_sub(cs.height) };
        let origin = a.align.resolve(extra);
        let rect = Rect { origin, size: cs };
        let na = Align { child_rect: rect, ..a };
        proof {
            assert(self.widgets@[id as int] == old(self).widgets@[id as int]);
            assert(children_of(WidgetType::Align(na)) =~= children_of(WidgetType::Align(a)));
        }
        self.replace_slot(id, WidgetType::Align(na));
        proof {
            assert(child_rects(self.widgets@[id as int]) =~= expected_rects(old(self)@, id as int, *bc, *lc));
        }
        my
    }
}

/// A weight is at most the sum of the weights it is counted in.
proof fn lemma_flex_sum_bounds(cs: Seq<(int, u32)>, i: int, n: int)
    requires
        0 <= i < n <= cs.len(),
    ensures
        flex_sum(cs, n) >= cs[i].1,
        flex_sum(cs, n) <= n * u32::MAX,
    decreases n,
{
    lemma_flex_sum_nonneg(cs, n - 1);
    lemma_flex_sum_nonneg(cs, n);
    assert(flex_sum(cs, n) == flex_sum(cs, n - 1) + cs[n - 1].1);
    assert(max_int(n, 0) == n);
    if i < n - 1 {
        lemma_flex_sum_bounds(cs, i, n - 1);
    }
}

proof fn lemma_flex_sum_nonneg(cs: Seq<(int, u32)>, n: int)
    requires
        n <= cs.len(),
    ensures
        0 <= flex_sum(cs, n) <= max_int(n, 0) * u32::MAX,
    decreases n,
{
    if n > 0 {
        lemma_flex_sum_nonneg(cs, n - 1);
    }
}

impl WidgetArena {
    pub(crate) fn flex_len(&self, id: WidgetId) -> (r: usize)
        requires
            (id as int) < self.widgets@.len(),
            self.widgets@[id as int] is Flex,
        ensures
            r == child_list(flex_at(self.widgets@[id as int]).children).len(),
            r <= MAX_CHILDREN,
    {
        match &self.widgets[id as usize] {
            WidgetType::Flex(f) => children_len(&f.children),
            _ => 0,
        }
    }

    pub(crate) fn flex_child(&self, id: WidgetId, i: usize) -> (r: ChildWidget)
        requires
            (id as int) < self.widgets@.len(),
            self.widgets@[id as int] is Flex,
            i < child_list(flex_at(self.widgets@[id as int]).children).len(),
        ensures
            r == child_list(flex_at(self.widgets@[id as int]).children)[i as int],
    {
        match &self.widgets[id as usize] {
            WidgetType::Flex(f) => children_get(&f.children, i),
            _ => ChildWidget {
                widget: crate::widgetbox::WidgetBox(0),
                flex: 0,
                rect: Rect { origin: Point::origin(), size: Size::zero() },
            },
        }
    }

    /// Stores new child rectangles in the flex container at `id`.
    fn set_flex_rects(&mut self, id: WidgetId, rects: &Vec<Rect>)
        requires
            old(self).wf(),
            (id as int) < MAX_WIDGETS,
            old(self).widgets@[id as int] is Flex,
            rects@.len() == child_list(flex_at(old(self).widgets@[id as int]).children).len(),
        ensures
            final(self).wf(),
            final(self)@ == old(self)@,
            final(self).next == old(self).next,
            child_rects(final(self).widgets@[id as int]) == rects@,
            forall|j: int| 0 <= j < MAX_WIDGETS && j != id ==> #[trigger] final(self).widgets@[j] == old(self).widgets@[j],
            kids(final(self).widgets@) == kids(old(self).widgets@),
    {
        let ghost old_list = child_list(flex_at(self.widgets@[id as int]).children);
        let axis = match &self.widgets[id as usize] {
            WidgetType::Flex(f) => f.direction,
            _ => Axis::Horizontal,
        };
        let n = self.flex_len(id);
        let mut nv = children_new();
        let mut i: usize = 0;
        while i < n
            invariant
                n == old_list.len(),
                n <= MAX_CHILDREN,
                (id as int) < MAX_WIDGETS,
                self.widgets@.len() == MAX_WIDGETS,
                self.widgets@[id as int] is Flex,
                i <= n,
                rects@.len() == n,
                self == old(self),
                old_list == child_list(flex_at(self.widgets@[id as int]).children),
                child_list(nv).len() == i,
                forall|k: int| 0 <= k < i ==> #[trigger] child_list(nv)[k] == (ChildWidget { rect: rects@[k], ..old_list[k] }),
            decreases n - i,
        {
            let c = self.flex_child(id, i);
            let ok = children_push(&mut nv, ChildWidget { rect: rects[i], ..c });
            i = i + 1;
        }
        let nf = Flex { direction: axis, children: nv };
        proof {
            let w = WidgetType::Flex(nf);
            let ow = self.widgets@[id as int];
            assert(nf.spec_children() =~= flex_at(ow).spec_children());
            assert(children_of(w) =~= children_of(ow));
            assert(child_rects(w) =~= rects@);
            assert(slot_wf(ow, id as int));
        }
        self.replace_slot(id, WidgetType::Flex(nf));
    }

    fn layout_flex(&mut self, id: WidgetId, axis: Axis, bc: &BoxConstraints, lc: &LayoutCtx) -> (r: Size)
        requires
            old(self).wf(),
            (id as int) < MAX_WIDGETS,
            bc.wf(),
            old(self).widgets@[id as int] is Flex,
            flex_at(old(self).widgets@[id as int]).direction == axis,
        ensures
            final(self).wf(),
            final(self)@ == old(self)@,
            final(self).next == old(self).next,
            r == layout_of(old(self)@, id as int, *bc, *lc),
            child_rects(final(self).widgets@[id as int]) == expected_rects(old(self)@, id as int, *bc, *lc),
            forall|j: int| id < j < MAX_WIDGETS ==> #[trigger] final(self).widgets@[j] == old(self).widgets@[j],
            forall|j: int| 0 <= j < MAX_WIDGETS && !reach(kids(old(self).widgets@), id as int).contains(j)
                ==> #[trigger] final(self).widgets@[j] == old(self).widgets@[j],
            kids(final(self).widgets@) == kids(old(self).widgets@),
        decreases id, 0int,
    {
        let ghost ms = self@;
        let ghost w = self.widgets@[id as int];
        let ghost cs = flex_at(w).spec_children();
        let ghost list = child_list(flex_at(w).children);
        let ghost idi = id as int;
        proof {
            assert(ms[idi] == model(w));
            assert(slot_wf(w, idi));
            assert(kids(old(self).widgets@)[idi] == children_of(w));
            assert(children_of(w) == list.map_values(|c: ChildWidget| c.widget.0 as int));
            assert forall|k: int| 0 <= k < list.len() implies 0 <= #[trigger] cs[k].0 < idi && cs[k].0 == list[k].widget.0 && cs[k].1 == list[k].flex by {
                assert(children_of(w)[k] == list[k].widget.0 as int);
            }
        }
        let n = self.flex_len(id);
        let nfbc = axis.non_flex_bc(bc);

        // Measure the children that do not flex.
        let mut sizes: Vec<Size> = Vec::new();
        let mut total_nf: u64 = 0;
        let mut fsum: u64 = 0;
        let mut i: usize = 0;
        while i < n
            invariant
                n == list.len(),
                n == cs.len(),
                n <= MAX_CHILDREN,
                idi == id as int,
                idi < MAX_WIDGETS,
                bc.wf(),
                w is Flex,
                i <= n,
                nfbc == axis.spec_non_flex_bc(*bc),
                nfbc.wf(),
                forall|k: int| 0 <= k < list.len() ==> 0 <= #[trigger] cs[k].0 < idi && cs[k].0 == list[k].widget.0 && cs[k].1 == list[k].flex,
                self.wf(),
                self@ == ms,
                self.next == old(self).next,
                self.widgets@[idi] == w,
                list == child_list(flex_at(self.widgets@[idi]).children),
                forall|j: int| id < j < MAX_WIDGETS ==> #[trigger] self.widgets@[j] == old(self).widgets@[j],
                kids(self.widgets@) == kids(old(self).widgets@),
                kids(old(self).widgets@)[idi] == children_of(w),
                forall|j: int| 0 <= j < MAX_WIDGETS && !reach(kids(old(self).widgets@), idi).contains(j)
                    ==> #[trigger] self.widgets@[j] == old(self).widgets@[j],
                sizes@.len() == i,
                total_nf == nf_total(ms, idi, axis, cs, *bc, *lc, i as int),
                total_nf <= i * u32::MAX,
                fsum == flex_sum(cs, i as int),
                forall|k: int| 0 <= k < i && cs[k].1 == 0 ==> #[trigger] sizes@[k] == flex_child_size(ms, idi, axis, cs, *bc, *lc, k),
            decreases n - i,
        {
            let c = self.flex_child(id, i);
            proof {
                lemma_flex_sum_nonneg(cs, i as int);
                assert(0 <= cs[i as int].0 < idi && cs[i as int].0 == list[i as int].widget.0);
            }
            fsum = fsum + c.flex as u64;
            if c.flex == 0 {
                let s = self.layout(c.widget.0, &nfbc, lc);
                proof {
                    assert(children_of(w)[i as int] == list[i as int].widget.0 as int);
                    lemma_reach_child(kids(old(self).widgets@), idi, i as int);
                }
                total_nf = total_nf + axis.major(s) as u64;
                sizes.push(s);
            } else {
                sizes.push(Size::zero());
            }
            i = i + 1;
        }
        proof {
            lemma_flex_sum_nonneg(cs, n as int);
        }

        // Share what is left among the flex children.
        let rem: Option<u64> = match axis.max_major(bc) {
            Some(m) => Some(if m as u64 > total_nf { m as u64 - total_nf } else { 0 }),
            None => None,
        };
        proof {
            assert(rem matches Some(r) ==> r <= u32::MAX);
        }
        let mut i: usize = 0;
        while i < n
            invariant
                n == list.len(),
                n == cs.len(),
                n <= MAX_CHILDREN,
                idi == id as int,
                idi < MAX_WIDGETS,
                bc.wf(),
                w is Flex,
                i <= n,
                forall|k: int| 0 <= k < list.len() ==> 0 <= #[trigger] cs[k].0 < idi && cs[k].0 == list[k].widget.0 && cs[k].1 == list[k].flex,
                self.wf(),
                self@ == ms,
                self.next == old(self).next,
                self.widgets@[idi] == w,
                list == child_list(flex_at(self.widgets@[idi]).children),
                forall|j: int| id < j < MAX_WIDGETS ==> #[trigger] self.widgets@[j] == old(self).widgets@[j],
                kids(self.widgets@) == kids(old(self).widgets@),
                kids(old(self).widgets@)[idi] == children_of(w),
                forall|j: int| 0 <= j < MAX_WIDGETS && !reach(kids(old(self).widgets@), idi).contains(j)
                    ==> #[trigger] self.widgets@[j] == old(self).widgets@[j],
                sizes@.len() == n,
                fsum == flex_sum(cs, n as int),
                rem matches Some(r) ==> r <= u32::MAX,
                remaining(ms, idi, axis, cs, *bc, *lc) == match rem {
                    Some(r) => Some(r as int),
                    None => None::<int>,
                },
                forall|k: int| 0 <= k < i ==> #[trigger] sizes@[k] == flex_child_size(ms, idi, axis, cs, *bc, *lc, k),
                forall|k: int| i <= k < n && cs[k].1 == 0 ==> #[trigger] sizes@[k] == flex_child_size(ms, idi, axis, cs, *bc, *lc, k),
            decreases n - i,
        {
            let c = self.flex_child(id, i);
            proof {
                assert(0 <= cs[i as int].0 < idi && cs[i as int].0 == list[i as int].widget.0);
            }
            if c.flex != 0 {
                proof {
                    lemma_flex_sum_bounds(cs, i as int, n as int);
                }
                let major: Option<u32> = match rem {
                    Some(r) => {
                        proof {
                            assert(r * c.flex <= u32::MAX * u32::MAX) by (nonlinear_arith)
                                requires
                                    r <= u32::MAX,
                                    c.flex <= u32::MAX,
                            ;
                        }
                        Some(sat_u64(r * c.flex as u64 / fsum))
                    },
                    None => None,
                };
                let cbc = axis.flex_bc(bc, major);
                let s = self.layout(c.widget.0, &cbc, lc);
                proof {
                    assert(children_of(w)[i as int] == list[i as int].widget.0 as int);
                    lemma_reach_child(kids(old(self).widgets@), idi, i as int);
                }
                sizes.set(i, s);
            }
            i = i + 1;
        }

        // Place the children one after the other.
        let mut offset: u64 = 0;
        let mut minor: u32 = axis.minor(bc.min);
        let mut rects: Vec<Rect> = Vec::new();
        let mut i: usize = 0;
        while i < n
            invariant
                n == cs.len(),
                n <= MAX_CHILDREN,
                i <= n,
                sizes@.len() == n,
                forall|k: int| 0 <= k < n ==> #[trigger] sizes@[k] == flex_child_size(ms, idi, axis, cs, *bc, *lc, k),
                offset == flex_extent(ms, idi, axis, cs, *bc, *lc, i as int),
                offset <= i * u32::MAX,
                minor == flex_minor(ms, idi, axis, cs, *bc, *lc, i as int),
                rects@.len() == i,
                forall|k: int| 0 <= k < i ==> #[trigger] rects@[k] == flex_rect(ms, idi, axis, cs, *bc, *lc, k),
            decreases n - i,
        {
            let s = sizes[i];
            let o = sat_u64(offset);
            rects.push(Rect { origin: axis.pack_point(o, 0), size: s });
            offset = offset + axis.major(s) as u64;
            let m = axis.minor(s);
            if m > minor {
                minor = m;
            }
            i = i + 1;
        }
        self.set_flex_rects(id, &rects);
        proof {
            assert(reach(kids(old(self).widgets@), idi).contains(idi)) by {
                let ks = kids(old(self).widgets@);
                assert(reach(ks, idi)[0] == idi);
            }
            assert(ms[idi] == (WidgetModel::Flex { axis, children: cs }));
            assert(rects@ =~= expected_rects(ms, idi, *bc, *lc));
            assert(layout_of(ms, idi, *bc, *lc) == flex_size(ms, idi, axis, cs, *bc, *lc));
        }
        let major: u32 = match axis.max_major(bc) {
            Some(m) => if fsum > 0 { m } else { sat_u64(offset) },
            None => sat_u64(offset),
        };
        bc.constrain(axis.pack(major, minor))
    }
}

/// In a well-formed arena, the model of a composite widget names only
/// children with lower ids.
pub proof fn lemma_model_children(arena: &WidgetArena, id: int)
    requires
        arena.wf(),
        0 <= id < MAX_WIDGETS,
    ensures
        arena@[id] matches WidgetModel::Padding { child, .. } ==> 0 <= child < id,
        arena@[id] matches WidgetModel::Align { child, .. } ==> 0 <= child < id,
        arena@[id] matches WidgetModel::Flex { children, .. } ==> forall|k: int|
            0 <= k < children.len() ==> 0 <= #[trigger] children[k].0 < id,
{
    let w = arena.widgets@[id];
    assert(arena@[id] == model(w));
    assert(slot_wf(w, id));
    match w {
        WidgetType::Padding(p) => {
            assert(children_of(w)[0] == p.child.0 as int);
        },
        WidgetType::Align(a) => {
            assert(children_of(w)[0] == a.child.0 as int);
        },
        WidgetType::Flex(f) => {
            assert forall|k: int| 0 <= k < f.spec_children().len() implies 0 <= #[trigger] f.spec_children()[k].0 < id by {
                assert(children_of(w)[k] == f.spec_children()[k].0);
            }
        },
        _ => {},
    }
}

/// Padding round trip: a padding widget with insets `(l, t, r, b)` is as
/// large as its child plus `(l + r, t + b)`, and places the child at
/// `(l, t)`, wherever those sums fit in a length.
pub proof fn lemma_padding_round_trip(
    arena: &WidgetArena,
    id: int,
    insets: Insets,
    child: int,
    bc: BoxConstraints,
    lc: LayoutCtx,
)
    requires
        arena.wf(),
        0 <= id < MAX_WIDGETS,
        arena@[id] == (WidgetModel::Padding { insets, child }),
        layout_of(arena@, child, padding_bc(bc, insets), lc).width + insets.hpad() <= u32::MAX,
        layout_of(arena@, child, padding_bc(bc, insets), lc).height + insets.vpad() <= u32::MAX,
    ensures
        ({
            let cs = layout_of(arena@, child, padding_bc(bc, insets), lc);
            &&& layout_of(arena@, id, bc, lc).width == cs.width + insets.left + insets.right
            &&& layout_of(arena@, id, bc, lc).height == cs.height + insets.top + insets.bottom
            &&& expected_rects(arena@, id, bc, lc) == seq![
                Rect { origin: Point { x: insets.left, y: insets.top }, size: cs },
            ]
        }),
{
    lemma_model_children(arena, id);
}

/// Align idempotence: when the size an align widget takes equals the size
/// of its child, the child sits at the origin, whatever the alignment point.
pub proof fn lemma_align_idempotent(
    arena: &WidgetArena,
    id: int,
    align: UnitPoint,
    width_factor: Option<u32>,
    height_factor: Option<u32>,
    child: int,
    bc: BoxConstraints,
    lc: LayoutCtx,
)
    requires
        arena.wf(),
        0 <= id < MAX_WIDGETS,
        arena@[id] == (WidgetModel::Align { align, width_factor, height_factor, child }),
        layout_of(arena@, id, bc, lc) == layout_of(arena@, child, bc.spec_loosen(), lc),
    ensures
        expected_rects(arena@, id, bc, lc)[0].origin == (Point { x: 0, y: 0 }),
{
    lemma_model_children(arena, id);
    let cs = layout_of(arena@, child, bc.spec_loosen(), lc);
    let my = align_size(bc, cs, width_factor, height_factor);
    assert(layout_of(arena@, id, bc, lc) == my);
    assert(sat(my.width - cs.width) == 0 && sat(my.height - cs.height) == 0);
    assert(align.spec_resolve(Size { width: 0, height: 0 }) == (Point { x: 0, y: 0 }));
}

/// Flex conservation: along a bounded axis of length `m`, with non-flex
/// children of total length `nf` and flex weights summing to `total`, each
/// flex child of weight `w` is laid out to exactly `(m - nf) * w / total`
/// (nothing when `nf` exceeds `m`). The children follow each other in
/// order, each starting where the one before ends, with no gap or overlap.
pub proof fn lemma_flex_conservation(
    arena: &WidgetArena,
    id: int,
    axis: Axis,
    children: Seq<(int, u32)>,
    bc: BoxConstraints,
    lc: LayoutCtx,
)
    requires
        arena.wf(),
        0 <= id < MAX_WIDGETS,
        arena@[id] == (WidgetModel::Flex { axis, children }),
    ensures
        ({
            let ms = arena@;
            let n = children.len() as int;
            let nf = nf_total(ms, id, axis, children, bc, lc, n);
            let total = flex_sum(children, n);
            &&& forall|i: int| #![trigger flex_child_bc(ms, id, axis, children, bc, lc, i)]
                0 <= i < n && children[i].1 > 0 && axis.spec_max_major(bc) is Some ==> {
                    let m = axis.spec_max_major(bc).unwrap();
                    let share = sat(max_int(0, m - nf) * children[i].1 / total);
                    &&& flex_child_bc(ms, id, axis, children, bc, lc, i) == axis.spec_flex_bc(bc, Some(share))
                    &&& share as int == max_int(0, m - nf) * children[i].1 / total
                }
            &&& flex_extent(ms, id, axis, children, bc, lc, 0) == 0
            &&& forall|i: int| #![trigger flex_extent(ms, id, axis, children, bc, lc, i + 1)]
                0 <= i < n ==> flex_extent(ms, id, axis, children, bc, lc, i + 1)
                    == flex_extent(ms, id, axis, children, bc, lc, i)
                    + axis.spec_major(flex_child_size(ms, id, axis, children, bc, lc, i))
            &&& flex_extent(ms, id, axis, children, bc, lc, n) <= u32::MAX ==> forall|i: int|
                0 <= i < n ==> #[trigger] expected_rects(ms, id, bc, lc)[i] == (Rect {
                    origin: axis.spec_pack_point(flex_extent(ms, id, axis, children, bc, lc, i) as u32, 0),
                    size: flex_child_size(ms, id, axis, children, bc, lc, i),
                })
        }),
{
    lemma_model_children(arena, id);
    let ms = arena@;
    let n = children.len() as int;
    let nf = nf_total(ms, id, axis, children, bc, lc, n);
    let total = flex_sum(children, n);
    assert forall|i: int| #![trigger flex_child_bc(ms, id, axis, children, bc, lc, i)]
        0 <= i < n && children[i].1 > 0 && axis.spec_max_major(bc) is Some implies {
            let m = axis.spec_max_major(bc).unwrap();
            let share = sat(max_int(0, m - nf) * children[i].1 / total);
            &&& flex_child_bc(ms, id, axis, children, bc, lc, i) == axis.spec_flex_bc(bc, Some(share))
            &&& share as int == max_int(0, m - nf) * children[i].1 / total
        } by {
        let m = axis.spec_max_major(bc).unwrap();
        let r = max_int(0, m - nf);
        let w = children[i].1;
        lemma_flex_sum_bounds(children, i, n);
        lemma_nf_total_nonneg(ms, id, axis, children, bc, lc, n);
        assert(r <= m);
        assert(r * w <= r * total) by (nonlinear_arith)
            requires
                0 <= r,
                w <= total,
        ;
        assert(r * w / total <= r) by (nonlinear_arith)
            requires
                0 <= r,
                0 < total,
                r * w <= r * total,
        ;
        assert(0 <= r * w / total) by (nonlinear_arith)
            requires
                0 <= r,
                0 <= w,
                0 < total,
        ;
    }
    assert forall|i: int| 0 <= i <= n implies #[trigger] flex_extent(ms, id, axis, children, bc, lc, i) >= 0 by {
        lemma_flex_extent_nonneg(ms, id, axis, children, bc, lc, i);
    }
    if flex_extent(ms, id, axis, children, bc, lc, n) <= u32::MAX {
        assert forall|i: int| 0 <= i < n implies #[trigger] flex_extent(ms, id, axis, children, bc, lc, i)
            <= u32::MAX by {
            lemma_flex_extent_mono(ms, id, axis, children, bc, lc, i, n);
        }
    }
}

/// The sum of the shares `r * w / total` of the flex children among the
/// first `n`.
pub open spec fn share_sum(cs: Seq<(int, u32)>, r: int, total: int, n: int) -> int
    decreases n,
{
    if n <= 0 {
        0
    } else {
        share_sum(cs, r, total, n - 1) + if cs[n - 1].1 > 0 { r * cs[n - 1].1 / total } else { 0 }
    }
}

/// The number of flex children among the first `n`.
pub open spec fn flex_count(cs: Seq<(int, u32)>, n: int) -> int
    decreases n,
{
    if n <= 0 {
        0
    } else {
        flex_count(cs, n - 1) + if cs[n - 1].1 > 0 { 1int } else { 0 }
    }
}

proof fn lemma_share_sum_bounds(cs: Seq<(int, u32)>, r: int, total: int, n: int)
    requires
        0 <= r,
        0 < total,
        0 <= n <= cs.len(),
    ensures
        share_sum(cs, r, total, n) * total <= r * flex_sum(cs, n),
        share_sum(cs, r, total, n) * total >= r * flex_sum(cs, n) - flex_count(cs, n) * (total - 1),
    decreases n,
{
    if n > 0 {
        lemma_share_sum_bounds(cs, r, total, n - 1);
        let w = cs[n - 1].1 as int;
        let s0 = share_sum(cs, r, total, n - 1);
        let f0 = flex_sum(cs, n - 1);
        let c0 = flex_count(cs, n - 1);
        assert(flex_sum(cs, n) == f0 + w);
        if w > 0 {
            let q = r * w / total;
            assert(0 <= r * w) by (nonlinear_arith)
                requires
                    0 <= r,
                    0 < w,
            ;
            assert(q * total <= r * w && r * w <= q * total + total - 1) by (nonlinear_arith)
                requires
                    0 <= r * w,
                    0 < total,
                    q == r * w / total,
            ;
            assert((s0 + q) * total == s0 * total + q * total) by (nonlinear_arith);
            assert(r * (f0 + w) == r * f0 + r * w) by (nonlinear_arith);
            assert((c0 + 1) * (total - 1) == c0 * (total - 1) + (total - 1)) by (nonlinear_arith);
        } else {
            assert(w == 0);
            assert(r * (f0 + w) == r * f0);
        }
    }
}

/// Flex fill: along a bounded axis, the lengths handed to the flex
/// children add up to at most the free length `m - nf` (zero when the
/// non-flex children take it all), and fall short of it by less than one
/// per flex child.
pub proof fn lemma_flex_fill(
    arena: &WidgetArena,
    id: int,
    axis: Axis,
    children: Seq<(int, u32)>,
    bc: BoxConstraints,
    lc: LayoutCtx,
)
    requires
        arena.wf(),
        0 <= id < MAX_WIDGETS,
        arena@[id] == (WidgetModel::Flex { axis, children }),
        axis.spec_max_major(bc) is Some,
        flex_sum(children, children.len() as int) > 0,
    ensures
        ({
            let n = children.len() as int;
            let m = axis.spec_max_major(bc).unwrap();
            let free = max_int(0, m - nf_total(arena@, id, axis, children, bc, lc, n));
            let total = flex_sum(children, n);
            &&& share_sum(children, free, total, n) <= free
            &&& share_sum(children, free, total, n) > free - flex_count(children, n)
        }),
{
    let n = children.len() as int;
    let m = axis.spec_max_major(bc).unwrap();
    let free = max_int(0, m - nf_total(arena@, id, axis, children, bc, lc, n));
    let total = flex_sum(children, n);
    let s = share_sum(children, free, total, n);
    let k = flex_count(children, n);
    lemma_share_sum_bounds(children, free, total, n);
    lemma_flex_count_bound(children, n);
    assert(s * total <= free * total);
    assert(s <= free) by (nonlinear_arith)
        requires
            s * total <= free * total,
            0 < total,
    ;
    assert(s > free - k) by (nonlinear_arith)
        requires
            s * total >= free * flex_sum(children, n) - flex_count(children, n) * (total - 1),
            total == flex_sum(children, n),
            k == flex_count(children, n),
            0 < total,
            1 <= k,
    ;
}

proof fn lemma_flex_count_bound(cs: Seq<(int, u32)>, n: int)
    ensures
        flex_count(cs, n) >= 0,
        flex_sum(cs, n) > 0 ==> flex_count(cs, n) >= 1,
    decreases n,
{
    if n > 0 {
        lemma_flex_count_bound(cs, n - 1);
    }
}

proof fn lemma_flex_extent_mono(
    ms: Seq<WidgetModel>,
    id: int,
    axis: Axis,
    cs: Seq<(int, u32)>,
    bc: BoxConstraints,
    lc: LayoutCtx,
    i: int,
    n: int,
)
    requires
        0 <= i <= n,
    ensures
        flex_extent(ms, id, axis, cs, bc, lc, i) <= flex_extent(ms, id, axis, cs, bc, lc, n),
    decreases n - i,
{
    if i < n {
        lemma_flex_extent_mono(ms, id, axis, cs, bc, lc, i, n - 1);
    }
}

proof fn lemma_nf_total_nonneg(
    ms: Seq<WidgetModel>,
    id: int,
    axis: Axis,
    cs: Seq<(int, u32)>,
    bc: BoxConstraints,
    lc: LayoutCtx,
    n: int,
)
    ensures
        nf_total(ms, id, axis, cs, bc, lc, n) >= 0,
    decreases n,
{
    if n > 0 && id >= 0 {
        lemma_nf_total_nonneg(ms, id, axis, cs, bc, lc, n - 1);
    }
}

proof fn lemma_flex_extent_nonneg(
    ms: Seq<WidgetModel>,
    id: int,
    axis: Axis,
    cs: Seq<(int, u32)>,
    bc: BoxConstraints,
    lc: LayoutCtx,
    n: int,
)
    ensures
        flex_extent(ms, id, axis, cs, bc, lc, n) >= 0,
    decreases n,
{
    if n > 0 && id >= 0 {
        lemma_flex_extent_nonneg(ms, id, axis, cs, bc, lc, n - 1);
    }
}

fn scale(len: u32, factor: u32) -> (r: u32)
    ensures
        r == scaled(len, factor),
{
    proof {
        assert(len * factor <= u32::MAX * u32::MAX) by (nonlinear_arith)
            requires
                len <= u32::MAX,
                factor <= u32::MAX,
        ;
    }
    sat_u64(len as u64 * factor as u64 / 1000)
}

} // verus!
