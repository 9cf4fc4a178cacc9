//! Painting: each widget adds drawing commands, in absolute coordinates, to
//! a display list that the rendering backend carries out.

use vstd::prelude::*;
use crate::context::LayoutCtx;
use crate::flex::{child_list, ChildWidget};
use crate::geometry::{sat, Point, Rect, Size, UnitPoint};
use crate::label::{measure_text, text_size, Label};
use crate::dispatch::{route, Route};
use crate::widgetbox::{children_of, slot_wf, WidgetArena, WidgetId, WidgetType, MAX_WIDGETS};

verus! {

/// The colours of the theme; the renderer decides their values.
#[derive(Clone, Copy, Debug, PartialEq, Eq, Structural)]
pub enum Color {
    WindowBackground,
    ButtonBackground,
    /// The background of a button that is held down.
    ButtonPressed,
    ButtonBorder,
    LabelText,
}

/// One drawing command.
#[derive(Clone, Debug)]
pub enum DrawCommand {
    /// Fill the whole window.
    Clear { color: Color },
    FillRoundedRect { rect: Rect, radius: u32, color: Color },
    StrokeRoundedRect { rect: Rect, radius: u32, width: u32, color: Color },
    /// Draw a line of text with its baseline starting at `origin`.
    Text { origin: Point, text: String, color: Color },
    /// Draw nothing outside `rect` until the matching `PopClip`.
    PushClip { rect: Rect },
    PopClip,
}

/// What a drawing command draws, with its text as characters.
pub enum DrawView {
    Clear(Color),
    Fill(Rect, u32, Color),
    Stroke(Rect, u32, u32, Color),
    Text(Point, Seq<char>, Color),
    PushClip(Rect),
    PopClip,
}

pub open spec fn draw_view(c: DrawCommand) -> DrawView {
    match c {
        DrawCommand::Clear { color } => DrawView::Clear(color),
        DrawCommand::FillRoundedRect { rect, radius, color } => DrawView::Fill(rect, radius, color),
        DrawCommand::StrokeRoundedRect { rect, radius, width, color } => DrawView::Stroke(rect, radius, width, color),
        DrawCommand::Text { origin, text, color } => DrawView::Text(origin, text@, color),
        DrawCommand::PushClip { rect } => DrawView::PushClip(rect),
        DrawCommand::PopClip => DrawView::PopClip,
    }
}

pub open spec fn draw_views(cs: Seq<DrawCommand>) -> Seq<DrawView> {
    cs.map_values(|c: DrawCommand| draw_view(c))
}

/// The colour a button is filled with.
pub open spec fn button_fill(active: bool) -> Color {
    if active { Color::ButtonPressed } else { Color::ButtonBackground }
}

/// What painting widget `id`, placed at `origin` with `size`, draws: a
/// label its text; a button its border, its background and its text; a
/// composite each child in order, at the child's rectangle moved by
/// `origin`.
pub open spec fn paint_list(ws: Seq<WidgetType>, id: int, origin: Point, size: Size, lc: LayoutCtx) -> Seq<DrawView>
    decreases id, 1int, 0int,
{
    if 0 <= id < ws.len() {
        match ws[id] {
            WidgetType::Label(l) => seq![DrawView::Text(text_origin(l.align, l.text@, origin, size, lc), l.text@, Color::LabelText)],
            WidgetType::Button(b) => seq![
                DrawView::Stroke(Rect { origin, size }, BUTTON_RADIUS, BUTTON_BORDER, Color::ButtonBorder),
                DrawView::Fill(Rect { origin, size }, BUTTON_RADIUS, button_fill(b.active)),
                DrawView::Text(text_origin(b.label.align, b.label.text@, origin, size, lc), b.label.text@, Color::LabelText),
            ],
            _ => match route(ws[id]) {
                Route::Children(cs) => children_paint(ws, id, cs, cs.len() as int, origin, lc),
                _ => Seq::empty(),
            },
        }
    } else {
        Seq::empty()
    }
}

/// What painting the first `n` children of widget `id` at `origin` draws.
pub open spec fn children_paint(
    ws: Seq<WidgetType>,
    id: int,
    cs: Seq<(int, Rect)>,
    n: int,
    origin: Point,
    lc: LayoutCtx,
) -> Seq<DrawView>
    decreases id, 0int, n,
{
    if n <= 0 || id < 0 {
        Seq::empty()
    } else {
        children_paint(ws, id, cs, n - 1, origin, lc) + if 0 <= cs[n - 1].0 < id {
            paint_list(ws, cs[n - 1].0, offset(origin, cs[n - 1].1.origin), cs[n - 1].1.size, lc)
        } else {
            Seq::empty()
        }
    }
}

/// Corner radius of a button.
pub const BUTTON_RADIUS: u32 = 4;

/// Width of a button's border.
pub const BUTTON_BORDER: u32 = 2;

/// The sum of two coordinates, stopping at the largest.
pub open spec fn offset(a: Point, b: Point) -> Point {
    Point { x: sat(a.x + b.x), y: sat(a.y + b.y) }
}

fn offset_point(a: Point, b: Point) -> (r: Point)
    ensures
        r == offset(a, b),
{
    let x = a.x as u64 + b.x as u64;
    let y = a.y as u64 + b.y as u64;
    Point {
        x: if x > u32::MAX as u64 { u32::MAX } else { x as u32 },
        y: if y > u32::MAX as u64 { u32::MAX } else { y as u32 },
    }
}

/// Where a label of the given size, at `origin`, starts its text: the
/// alignment point resolved over the width left beside the text and the
/// height plus half a line, but never below the bottom edge.
pub open spec fn text_origin(align: UnitPoint, text: Seq<char>, origin: Point, size: Size, lc: LayoutCtx) -> Point {
    let ts = text_size(text, lc);
    let p = align.spec_resolve(
        Size { width: sat(size.width - ts.width), height: sat(size.height + ts.height / 2) },
    );
    let y = if p.y <= size.height { p.y } else { size.height };
    offset(origin, Point { x: p.x, y })
}

impl Label {
    /// Draws the label's text within the rectangle at `origin` of `size`.
    pub fn paint(&self, origin: Point, size: Size, lc: &LayoutCtx, out: &mut Vec<DrawCommand>)
        requires
            self.align.wf(),
        ensures
            final(out)@.len() == old(out)@.len() + 1,
            final(out)@.take(old(out)@.len() as int) == old(out)@,
            final(out)@.last() matches DrawCommand::Text { origin: o, text: t, color } && o == text_origin(
                self.align,
                self.text@,
                origin,
                size,
                *lc,
            ) && t@ == self.text@ && color == Color::LabelText,
            draw_views(final(out)@) == draw_views(old(out)@).push(
                DrawView::Text(text_origin(self.align, self.text@, origin, size, *lc), self.text@, Color::LabelText),
            ),
    {
        let text = self.text.display_text();
        let ts = measure_text(text, lc);
        let extra = Size {
            width: size.width.saturating_sub(ts.width),
            height: {
                let h = size.height as u64 + (ts.height / 2) as u64;
                if h > u32::MAX as u64 { u32::MAX } else { h as u32 }
            },
        };
        let p = self.align.resolve(extra);
        let y = if p.y <= size.height { p.y } else { size.height };
        let o = offset_point(origin, Point { x: p.x, y });
        let s = String::from_str(text);
        out.push(DrawCommand::Text { origin: o, text: s, color: Color::LabelText });
        proof {
            assert(out@.take(old(out)@.len() as int) =~= old(out)@);
            assert(draw_views(out@) =~= draw_views(old(out)@).push(
                DrawView::Text(text_origin(self.align, self.text@, origin, size, *lc), self.text@, Color::LabelText),
            ));
        }
    }
}

impl WidgetArena {
    /// Adds the drawing commands of widget `id`, placed at `origin` with the
    /// given size, and of its children at the places the last layout gave
    /// them; see `paint_list`.
    pub fn paint(&self, id: WidgetId, origin: Point, size: Size, lc: &LayoutCtx, out: &mut Vec<DrawCommand>)
        requires
            self.wf(),
            (id as int) < MAX_WIDGETS,
        ensures
            draw_views(final(out)@) == draw_views(old(out)@) + paint_list(self.widgets@, id as int, origin, size, *lc),
        decreases id, 2int,
    {
        proof {
            assert(slot_wf(self.widgets@[id as int], id as int));
        }
        match &self.widgets[id as usize] {
            WidgetType::Empty => {
                proof {
                    assert(draw_views(out@) =~= draw_views(out@) + Seq::<DrawView>::empty());
                }
            },
            WidgetType::Label(l) => {
                l.paint(origin, size, lc, out);
                proof {
                    assert(draw_views(out@) =~= draw_views(old(out)@) + paint_list(self.widgets@, id as int, origin, size, *lc));
                }
            },
            WidgetType::Button(b) => {
                let rect = Rect { origin, size };
                out.push(DrawCommand::StrokeRoundedRect {
                    rect,
                    radius: BUTTON_RADIUS,
                    width: BUTTON_BORDER,
                    color: Color::ButtonBorder,
                });
                let fill = if b.active { Color::ButtonPressed } else { Color::ButtonBackground };
                out.push(DrawCommand::FillRoundedRect { rect, radius: BUTTON_RADIUS, color: fill });
                let ghost mid = out@;
                b.label.paint(origin, size, lc, out);
                proof {
                    assert(draw_views(mid) =~= draw_views(old(out)@).push(
                        DrawView::Stroke(rect, BUTTON_RADIUS, BUTTON_BORDER, Color::ButtonBorder),
                    ).push(DrawView::Fill(rect, BUTTON_RADIUS, button_fill(b.active))));
                    assert(draw_views(out@) =~= draw_views(old(out)@) + paint_list(self.widgets@, id as int, origin, size, *lc));
                }
            },
            WidgetType::Padding(_) | WidgetType::Align(_) | WidgetType::Flex(_) => {
                self.paint_children(id, origin, lc, out);
            },
        }
    }

    fn paint_children(&self, id: WidgetId, origin: Point, lc: &LayoutCtx, out: &mut Vec<DrawCommand>)
        requires
            self.wf(),
            (id as int) < MAX_WIDGETS,
            route(self.widgets@[id as int]) is Children,
            !(self.widgets@[id as int] is Label) && !(self.widgets@[id as int] is Button),
        ensures
            draw_views(final(out)@) == draw_views(old(out)@) + children_paint(
                self.widgets@,
                id as int,
                route(self.widgets@[id as int])->Children_0,
                route(self.widgets@[id as int])->Children_0.len() as int,
                origin,
                *lc,
            ),
        decreases id, 1int,
    {
        let ghost w = self.widgets@[id as int];
        let ghost cs = route(w)->Children_0;
        proof {
            assert(slot_wf(w, id as int));
            assert(cs.len() == children_of(w).len());
            assert forall|k: int| 0 <= k < cs.len() implies 0 <= #[trigger] cs[k].0 < id && cs[k].0 == children_of(w)[k] by {
                assert(children_of(w)[k] == cs[k].0);
            }
            assert(draw_views(out@) =~= draw_views(old(out)@) + children_paint(self.widgets@, id as int, cs, 0, origin, *lc));
        }
        let n: usize = match &self.widgets[id as usize] {
            WidgetType::Flex(_) => self.flex_len(id),
            _ => 1,
        };
        let mut i: usize = 0;
        while i < n
            invariant
                n == cs.len(),
                i <= n,
                (id as int) < MAX_WIDGETS,
                self.wf(),
                w == self.widgets@[id as int],
                route(w) is Children,
                !(w is Label) && !(w is Button),
                cs == route(w)->Children_0,
                forall|k: int| 0 <= k < cs.len() ==> 0 <= #[trigger] cs[k].0 < id,
                draw_views(out@) == draw_views(old(out)@) + children_paint(self.widgets@, id as int, cs, i as int, origin, *lc),
            decreases n - i,
        {
            let pair: (WidgetId, Rect) = match &self.widgets[id as usize] {
                WidgetType::Flex(f) => {
                    let ch = self.flex_child(id, i);
                    proof {
                        let list = child_list(f.children);
                        assert(cs == list.map_values(|x: ChildWidget| (x.widget.0 as int, x.rect)));
                        assert(cs[i as int] == (list[i as int].widget.0 as int, list[i as int].rect));
                        assert(cs[i as int] == (ch.widget.0 as int, ch.rect));
                    }
                    (ch.widget.0, ch.rect)
                },
                WidgetType::Padding(p) => {
                    proof {
                        assert(cs == seq![(p.child.0 as int, p.child_rect)]);
                        assert(cs[i as int] == (p.child.0 as int, p.child_rect));
                    }
                    (p.child.0, p.child_rect)
                },
                WidgetType::Align(a) => {
                    proof {
                        assert(cs == seq![(a.child.0 as int, a.child_rect)]);
                        assert(cs[i as int] == (a.child.0 as int, a.child_rect));
                    }
                    (a.child.0, a.child_rect)
                },
                _ => {
                    proof {
                        assert(false);
                    }
                    (0, Rect { origin: Point::origin(), size: Size::zero() })
                },
            };
            let c = pair.0;
            let rect = pair.1;
            proof {
                assert(cs[i as int] == (c as int, rect));
            }
            let ghost before = out@;
            let o = offset_point(origin, rect.origin);
            self.paint(c, o, rect.size, lc, out);
            proof {
                assert(draw_views(out@) =~= draw_views(old(out)@) + children_paint(self.widgets@, id as int, cs, i as int + 1, origin, *lc));
            }
            i = i + 1;
        }
    }
}

} // verus!
