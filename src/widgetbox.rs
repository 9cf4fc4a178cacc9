//! The widget registry: a fixed-capacity arena of widgets indexed by id,
//! the references that composite widgets hold to their children, and the
//! dispatch of each pass over the closed set of widget kinds.

use vstd::prelude::*;
use crate::align::Align;
use crate::button::Button;
use crate::flex::{child_list, children_len, children_get, Axis, ChildWidget, Flex, MAX_CHILDREN};
use crate::geometry::{Insets, Rect, UnitPoint};
use crate::label::Label;
use crate::padding::Padding;

verus! {

/// Widgets are identified by a small number, their slot in the arena.
pub type WidgetId = u8;

/// Most widgets an arena holds.
pub const MAX_WIDGETS: usize = 10;

/// A reference to a registered widget: its id. It owns nothing; the arena
/// holds the widget.
#[derive(Clone, Copy, Debug, PartialEq, Eq, Structural)]
pub struct WidgetBox(pub WidgetId);

/// Why a widget or a child could not be added.
#[derive(Clone, Copy, Debug, PartialEq, Eq, Structural)]
pub enum RegistryError {
    /// Every slot of the arena is taken.
    TooManyWidgets,
    /// The flex container already holds as many children as it can.
    TooManyChildren,
    /// A child reference names no registered widget.
    UnregisteredChild,
    /// An alignment point lies outside the unit square.
    BadAlignment,
    /// The empty variant cannot be registered.
    EmptyWidget,
}

/// One slot of the arena.
#[derive(Debug)]
pub enum WidgetType {
    Empty,
    Align(Align),
    Button(Button),
    Flex(Flex),
    Label(Label),
    Padding(Padding),
}

/// What layout reads of a widget.
pub enum WidgetModel {
    Empty,
    Label { text: Seq<char> },
    Button { text: Seq<char> },
    Padding { insets: Insets, child: int },
    Align { align: UnitPoint, width_factor: Option<u32>, height_factor: Option<u32>, child: int },
    Flex { axis: Axis, children: Seq<(int, u32)> },
}

/// The model of a widget.
pub open spec fn model(w: WidgetType) -> WidgetModel {
    match w {
        WidgetType::Empty => WidgetModel::Empty,
        WidgetType::Label(l) => WidgetModel::Label { text: l.text@ },
        WidgetType::Button(b) => WidgetModel::Button { text: b.label.text@ },
        WidgetType::Padding(p) => WidgetModel::Padding { insets: p.insets, child: p.child.0 as int },
        WidgetType::Align(a) => WidgetModel::Align {
            align: a.align,
            width_factor: a.width_factor,
            height_factor: a.height_factor,
            child: a.child.0 as int,
        },
        WidgetType::Flex(f) => WidgetModel::Flex { axis: f.direction, children: f.spec_children() },
    }
}

/// The rectangles a composite widget keeps for its children, in order.
pub open spec fn child_rects(w: WidgetType) -> Seq<Rect> {
    match w {
        WidgetType::Padding(p) => seq![p.child_rect],
        WidgetType::Align(a) => seq![a.child_rect],
        WidgetType::Flex(f) => child_list(f.children).map_values(|c: ChildWidget| c.rect),
        _ => Seq::empty(),
    }
}

/// The ids a widget refers to.
pub open spec fn children_of(w: WidgetType) -> Seq<int> {
    match w {
        WidgetType::Padding(p) => seq![p.child.0 as int],
        WidgetType::Align(a) => seq![a.child.0 as int],
        WidgetType::Flex(f) => child_list(f.children).map_values(|c: ChildWidget| c.widget.0 as int),
        _ => Seq::empty(),
    }
}

/// A widget that may sit in slot `id`: every child has a lower id, and its
/// own invariants hold.
pub open spec fn slot_wf(w: WidgetType, id: int) -> bool {
    &&& forall|k: int| 0 <= k < children_of(w).len() ==> 0 <= #[trigger] children_of(w)[k] < id
    &&& match w {
        WidgetType::Flex(f) => child_list(f.children).len() <= MAX_CHILDREN,
        WidgetType::Align(a) => a.align.wf(),
        WidgetType::Label(l) => l.align.wf(),
        WidgetType::Button(b) => b.label.align.wf(),
        _ => true,
    }
}

/// Every alignment point the widget holds lies in the unit square.
pub open spec fn alignment_ok(w: WidgetType) -> bool {
    match w {
        WidgetType::Align(a) => a.align.wf(),
        WidgetType::Label(l) => l.align.wf(),
        WidgetType::Button(b) => b.label.align.wf(),
        _ => true,
    }
}

/// The fixed-capacity arena that owns every widget. Slot `i` holds the
/// widget with id `i`; the slots from `next` on are empty.
#[derive(Debug)]
pub struct WidgetArena {
    pub widgets: Vec<WidgetType>,
    pub next: WidgetId,
}

impl WidgetArena {
    pub open spec fn view(&self) -> Seq<WidgetModel> {
        self.widgets@.map_values(|w: WidgetType| model(w))
    }

    pub open spec fn wf(&self) -> bool {
        &&& self.widgets@.len() == MAX_WIDGETS
        &&& self.next as int <= MAX_WIDGETS
        &&& forall|i: int|
            0 <= i < MAX_WIDGETS ==> ((i < self.next) <==> !(#[trigger] self.widgets@[i] is Empty))
        &&& forall|i: int| 0 <= i < MAX_WIDGETS ==> slot_wf(#[trigger] self.widgets@[i], i)
    }

    /// Whether `id` names a registered widget.
    pub open spec fn is_registered(&self, id: int) -> bool {
        0 <= id < self.next
    }

    /// An empty arena.
    pub fn new() -> (r: WidgetArena)
        ensures
            r.wf(),
            r.next == 0,
    {
        let mut widgets: Vec<WidgetType> = Vec::new();
        let mut i: usize = 0;
        while i < MAX_WIDGETS
            invariant
                i <= MAX_WIDGETS,
                widgets@.len() == i,
                forall|j: int| 0 <= j < i ==> #[trigger] widgets@[j] is Empty,
            decreases MAX_WIDGETS - i,
        {
            widgets.push(WidgetType::Empty);
            i = i + 1;
        }
        WidgetArena { widgets, next: 0 }
    }

    /// Why `w` could not be registered next, if it could not.
    pub open spec fn registration_error(&self, w: WidgetType) -> Option<RegistryError> {
        if w is Empty {
            Some(RegistryError::EmptyWidget)
        } else if self.next as int >= MAX_WIDGETS {
            Some(RegistryError::TooManyWidgets)
        } else if !alignment_ok(w) {
            Some(RegistryError::BadAlignment)
        } else if exists|k: int|
            0 <= k < children_of(w).len() && !(0 <= #[trigger] children_of(w)[k] < self.next) {
            Some(RegistryError::UnregisteredChild)
        } else {
            None
        }
    }

    fn check_children(&self, w: &WidgetType) -> (r: bool)
        ensures
            r == (forall|k: int|
                0 <= k < children_of(*w).len() ==> 0 <= #[trigger] children_of(*w)[k] < self.next),
            w matches WidgetType::Flex(f) ==> child_list(f.children).len() <= MAX_CHILDREN,
    {
        match w {
            WidgetType::Padding(p) => {
                assert(children_of(*w).len() == 1 && children_of(*w)[0] == p.child.0 as int);
                p.child.0 < self.next
            },
            WidgetType::Align(a) => {
                assert(children_of(*w).len() == 1 && children_of(*w)[0] == a.child.0 as int);
                a.child.0 < self.next
            },
            WidgetType::Flex(f) => {
                let n = children_len(&f.children);
                assert(children_of(*w) == child_list(f.children).map_values(|c: ChildWidget| c.widget.0 as int));
                let mut i: usize = 0;
                while i < n
                    invariant
                        n == child_list(f.children).len(),
                        n <= MAX_CHILDREN,
                        *w == WidgetType::Flex(*f),
                        children_of(*w) == child_list(f.children).map_values(|c: ChildWidget| c.widget.0 as int),
                        i <= n,
                        forall|k: int| 0 <= k < i ==> 0 <= #[trigger] children_of(*w)[k] < self.next,
                    decreases n - i,
                {
                    let c = children_get(&f.children, i);
                    if c.widget.0 >= self.next {
                        assert(children_of(*w)[i as int] == c.widget.0 as int);
                        return false;
                    }
                    i = i + 1;
                }
                true
            },
            _ => true,
        }
    }

    /// Says whether `w` can be registered next, and if not why: the empty
    /// variant, a full arena, an alignment point out of range, or a child
    /// that is not registered. Callers check this before `register`, where
    /// each of these is fatal.
    pub fn can_register(&self, w: &WidgetType) -> (r: Result<(), RegistryError>)
        requires
            self.wf(),
        ensures
            match self.registration_error(*w) {
                Some(e) => r == Err::<(), RegistryError>(e),
                None => r is Ok,
            },
    {
        if let WidgetType::Empty = w {
            return Err(RegistryError::EmptyWidget);
        }
        if self.next as usize >= MAX_WIDGETS {
            return Err(RegistryError::TooManyWidgets);
        }
        let align_ok = match w {
            WidgetType::Align(a) => a.align.x <= 1000 && a.align.y <= 1000,
            WidgetType::Label(l) => l.align.x <= 1000 && l.align.y <= 1000,
            WidgetType::Button(b) => b.label.align.x <= 1000 && b.label.align.y <= 1000,
            _ => true,
        };
        if !align_ok {
            return Err(RegistryError::BadAlignment);
        }
        if !self.check_children(w) {
            return Err(RegistryError::UnregisteredChild);
        }
        Ok(())
    }

    /// Stores a widget in the next free slot and returns the reference to it.
    /// The ids handed out are 0, 1, 2, ... in the order of registration.
    /// The widget must be registrable (see `can_register`): a full arena or
    /// a reference to an unregistered child is fatal.
    pub fn register(&mut self, w: WidgetType) -> (r: WidgetBox)
        requires
            old(self).wf(),
            old(self).registration_error(w) is None,
        ensures
            final(self).wf(),
            r == WidgetBox(old(self).next),
            registered_as(*old(self), *final(self), r),
            final(self).widgets@ == old(self).widgets@.update(old(self).next as int, w),
    {
        // A flex container never holds more than its capacity.
        let within_capacity = match &w {
            WidgetType::Flex(f) => children_len(&f.children) <= MAX_CHILDREN,
            _ => true,
        };
        let id = self.next;
        proof {
            assert(within_capacity);
            assert(slot_wf(w, id as int));
        }
        self.widgets.set(id as usize, w);
        self.next = id + 1;
        proof {
            assert forall|i: int| 0 <= i < MAX_WIDGETS implies slot_wf(#[trigger] self.widgets@[i], i) by {
                if i != id as int {
                    assert(self.widgets@[i] == old(self).widgets@[i]);
                }
            }
        }
        WidgetBox(id)
    }

    /// Number of registered widgets.
    pub fn len(&self) -> (r: usize)
        ensures
            r == self.next,
    {
        self.next as usize
    }
}

/// `b` is the reference that registering a widget in `before` gave,
/// leaving `after`.
pub open spec fn registered_as(before: WidgetArena, after: WidgetArena, b: WidgetBox) -> bool {
    b.0 == before.next && after.next == before.next + 1
}

/// Registry uniqueness: over a run of registrations, the ids handed out
/// are pairwise distinct and strictly increasing in the order of
/// registration.
pub proof fn lemma_ids_increase(arenas: Seq<WidgetArena>, boxes: Seq<WidgetBox>)
    requires
        arenas.len() == boxes.len() + 1,
        forall|k: int| 0 <= k < boxes.len() ==> registered_as(arenas[k], arenas[k + 1], #[trigger] boxes[k]),
    ensures
        forall|i: int, j: int| 0 <= i < j < boxes.len() ==> boxes[i].0 < boxes[j].0,
{
    assert forall|k: int| 0 <= k < boxes.len() implies #[trigger] boxes[k].0 == arenas[0].next + k by {
        lemma_next_counts(arenas, boxes, k);
    }
}

proof fn lemma_next_counts(arenas: Seq<WidgetArena>, boxes: Seq<WidgetBox>, k: int)
    requires
        arenas.len() == boxes.len() + 1,
        forall|k: int| 0 <= k < boxes.len() ==> registered_as(arenas[k], arenas[k + 1], #[trigger] boxes[k]),
        0 <= k <= boxes.len(),
    ensures
        arenas[k].next == arenas[0].next + k,
    decreases k,
{
    if k > 0 {
        lemma_next_counts(arenas, boxes, k - 1);
        assert(registered_as(arenas[k - 1], arenas[k], boxes[k - 1]));
    }
}

/// Reference safety: in a well-formed arena an id resolves to a widget
/// exactly when a widget was registered under it, and every reference a
/// widget holds resolves to a widget registered before it.
pub proof fn lemma_references_resolve(arena: &WidgetArena, id: int)
    requires
        arena.wf(),
        0 <= id < MAX_WIDGETS,
    ensures
        !(arena.widgets@[id] is Empty) <==> arena.is_registered(id),
        forall|k: int| 0 <= k < children_of(arena.widgets@[id]).len() ==> {
            let c = #[trigger] children_of(arena.widgets@[id])[k];
            &&& arena.is_registered(c)
            &&& c < id
            &&& !(arena.widgets@[c] is Empty)
        },
{
    let w = arena.widgets@[id];
    assert(slot_wf(w, id));
    assert forall|k: int| 0 <= k < children_of(w).len() implies {
        let c = #[trigger] children_of(w)[k];
        &&& arena.is_registered(c)
        &&& c < id
        &&& !(arena.widgets@[c] is Empty)
    } by {
        let c = children_of(w)[k];
        if !(w is Empty) {
            assert(id < arena.next);
        } else {
            assert(children_of(w).len() == 0);
        }
        assert(0 <= c < MAX_WIDGETS);
        assert((c < arena.next) <==> !(arena.widgets@[c] is Empty));
    }
}

impl WidgetBox {
    /// Registers `widget` in the arena and returns the reference to it; see
    /// `WidgetArena::register`.
    pub fn new(arena: &mut WidgetArena, widget: WidgetType) -> (r: WidgetBox)
        requires
            old(arena).wf(),
            old(arena).registration_error(widget) is None,
        ensures
            final(arena).wf(),
            r == WidgetBox(old(arena).next),
            registered_as(*old(arena), *final(arena), r),
            final(arena).widgets@ == old(arena).widgets@.update(old(arena).next as int, widget),
    {
        arena.register(widget)
    }

    /// The id of the registered widget referred to; a reference to an
    /// unregistered slot is fatal.
    pub fn get_id(&self, arena: &WidgetArena) -> (r: WidgetId)
        requires
            arena.wf(),
            arena.is_registered(self.0 as int),
        ensures
            r == self.0,
            !(arena.widgets@[r as int] is Empty),
    {
        self.0
    }

    /// The id of the widget referred to.
    pub fn id(&self) -> (r: WidgetId)
        ensures
            r == self.0,
    {
        self.0
    }
}

impl WidgetArena {
    /// The rectangles the widget at `id` keeps for its children.
    pub fn child_rects(&self, id: WidgetId) -> (r: Vec<Rect>)
        requires
            (id as int) < self.widgets@.len(),
            slot_wf(self.widgets@[id as int], id as int),
        ensures
            r@ == child_rects(self.widgets@[id as int]),
    {
        let mut r: Vec<Rect> = Vec::new();
        match &self.widgets[id as usize] {
            WidgetType::Padding(p) => {
                r.push(p.child_rect);
            },
            WidgetType::Align(a) => {
                r.push(a.child_rect);
            },
            WidgetType::Flex(f) => {
                let n = children_len(&f.children);
                let mut i: usize = 0;
                while i < n
                    invariant
                        n == child_list(f.children).len(),
                        i <= n,
                        r@ == child_list(f.children).map_values(|c: ChildWidget| c.rect).take(i as int),
                    decreases n - i,
                {
                    r.push(children_get(&f.children, i).rect);
                    i = i + 1;
                    proof {
                        assert(r@ =~= child_list(f.children).map_values(|c: ChildWidget| c.rect).take(i as int));
                    }
                }
                proof {
                    assert(r@ =~= child_list(f.children).map_values(|c: ChildWidget| c.rect));
                }
            },
            _ => {},
        }
        proof {
            assert(r@ =~= child_rects(self.widgets@[id as int]));
        }
        r
    }
}

} // verus!
