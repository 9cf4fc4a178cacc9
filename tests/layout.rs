use druid::align::Align;
use druid::context::LayoutCtx;
use druid::flex::{Column, Row};
use druid::geometry::{BoxConstraints, Insets, Point, Rect, Size, UnitPoint};
use druid::label::{Label, LabelText};
use druid::padding::Padding;
use druid::widgetbox::{WidgetArena, WidgetBox, WidgetType};

fn label(arena: &mut WidgetArena, text: &str) -> WidgetBox {
    WidgetBox::new(arena, WidgetType::Label(Label::new(LabelText::from_str(text))))
}

fn loose(w: u32, h: u32) -> BoxConstraints {
    BoxConstraints::new(Size::new(0, 0), Some(w), Some(h))
}

fn rect(x: u32, y: u32, w: u32, h: u32) -> Rect {
    Rect::from_origin_size(Point::new(x, y), Size::new(w, h))
}

const LC: LayoutCtx = LayoutCtx { glyph_width: 6, font_size: 10 };

#[test]
fn label_measures_its_text() {
    let mut arena = WidgetArena::new();
    let l = label(&mut arena, "hello");
    assert_eq!(arena.layout(l.id(), &loose(240, 240), &LC), Size::new(30, 12));
    assert_eq!(arena.layout(l.id(), &loose(20, 240), &LC), Size::new(20, 12));
    assert_eq!(arena.layout(l.id(), &BoxConstraints::tight(Size::new(50, 50)), &LC), Size::new(50, 50));
}

#[test]
fn padding_adds_insets_and_places_child() {
    let mut arena = WidgetArena::new();
    let l = label(&mut arena, "hello");
    let p = WidgetBox::new(&mut arena, WidgetType::Padding(Padding::new(Insets::new(1, 2, 3, 4), l)));
    assert_eq!(arena.layout(p.id(), &loose(240, 240), &LC), Size::new(34, 18));
    assert_eq!(arena.child_rects(p.id()), vec![rect(1, 2, 30, 12)]);
}

#[test]
fn padding_shrinks_constraints_for_child() {
    let mut arena = WidgetArena::new();
    let l = label(&mut arena, "hello");
    let p = WidgetBox::new(&mut arena, WidgetType::Padding(Padding::uniform(5, l)));
    assert_eq!(arena.layout(p.id(), &BoxConstraints::tight(Size::new(100, 40)), &LC), Size::new(100, 40));
    assert_eq!(arena.child_rects(p.id()), vec![rect(5, 5, 90, 30)]);
}

#[test]
fn align_centres_child_in_bounded_space() {
    let mut arena = WidgetArena::new();
    let l = label(&mut arena, "hello");
    let a = WidgetBox::new(&mut arena, WidgetType::Align(Align::centered(l)));
    assert_eq!(arena.layout(a.id(), &loose(240, 240), &LC), Size::new(240, 240));
    assert_eq!(arena.child_rects(a.id()), vec![rect(105, 114, 30, 12)]);
}

#[test]
fn align_of_exact_fit_places_child_at_origin() {
    let mut arena = WidgetArena::new();
    let l = label(&mut arena, "hello");
    let a = WidgetBox::new(&mut arena, WidgetType::Align(Align::right(l)));
    let bc = BoxConstraints::tight(Size::new(30, 12));
    assert_eq!(arena.layout(a.id(), &bc, &LC), Size::new(30, 12));
    assert_eq!(arena.child_rects(a.id()), vec![rect(0, 0, 30, 12)]);
}

#[test]
fn align_horizontal_keeps_child_height() {
    let mut arena = WidgetArena::new();
    let l = label(&mut arena, "hello");
    let a = WidgetBox::new(&mut arena, WidgetType::Align(Align::horizontal(UnitPoint::center(), l)));
    assert_eq!(arena.layout(a.id(), &loose(240, 240), &LC), Size::new(240, 12));
    assert_eq!(arena.child_rects(a.id()), vec![rect(105, 0, 30, 12)]);
}

#[test]
fn row_of_non_flex_children_packs_them() {
    let mut arena = WidgetArena::new();
    let a = label(&mut arena, "hello");
    let b = label(&mut arena, "abc");
    let mut row = Row::new();
    row.add_child(a, 0);
    row.add_child(b, 0);
    let r = WidgetBox::new(&mut arena, WidgetType::Flex(row));
    assert_eq!(arena.layout(r.id(), &loose(240, 240), &LC), Size::new(48, 12));
    assert_eq!(arena.child_rects(r.id()), vec![rect(0, 0, 30, 12), rect(30, 0, 18, 12)]);
}

#[test]
fn flex_children_share_what_is_left_by_weight() {
    let mut arena = WidgetArena::new();
    let a = label(&mut arena, "abc");
    let x = label(&mut arena, "x");
    let y = label(&mut arena, "y");
    let mut row = Row::new();
    row.add_child(a, 0);
    row.add_child(x, 1);
    row.add_child(y, 3);
    let r = WidgetBox::new(&mut arena, WidgetType::Flex(row));
    let bc = BoxConstraints::tight(Size::new(100, 20));
    assert_eq!(arena.layout(r.id(), &bc, &LC), Size::new(100, 20));
    // 100 - 18 = 82 left: 82 * 1 / 4 = 20 and 82 * 3 / 4 = 61.
    assert_eq!(
        arena.child_rects(r.id()),
        vec![rect(0, 0, 18, 20), rect(18, 0, 20, 20), rect(38, 0, 61, 20)]
    );
}

#[test]
fn flex_child_gets_nothing_when_non_flex_overflow() {
    let mut arena = WidgetArena::new();
    let a = label(&mut arena, "abcdefghij");
    let x = label(&mut arena, "x");
    let mut row = Row::new();
    row.add_child(a, 0);
    row.add_child(x, 2);
    let r = WidgetBox::new(&mut arena, WidgetType::Flex(row));
    assert_eq!(arena.layout(r.id(), &loose(40, 20), &LC), Size::new(40, 12));
    assert_eq!(arena.child_rects(r.id()), vec![rect(0, 0, 60, 12), rect(60, 0, 0, 12)]);
}

#[test]
fn flex_in_unbounded_axis_uses_children_total() {
    let mut arena = WidgetArena::new();
    let a = label(&mut arena, "ab");
    let mut col = Column::new();
    col.add_child(a, 1);
    let c = WidgetBox::new(&mut arena, WidgetType::Flex(col));
    let bc = BoxConstraints::new(Size::new(0, 0), Some(100), None);
    assert_eq!(arena.layout(c.id(), &bc, &LC), Size::new(12, 12));
    assert_eq!(arena.child_rects(c.id()), vec![rect(0, 0, 12, 12)]);
}

#[test]
fn column_splits_height_evenly() {
    let mut arena = WidgetArena::new();
    let a = label(&mut arena, "a");
    let b = label(&mut arena, "b");
    let mut col = Column::new();
    col.add_child(a, 1);
    col.add_child(b, 1);
    let c = WidgetBox::new(&mut arena, WidgetType::Flex(col));
    assert_eq!(arena.layout(c.id(), &BoxConstraints::tight(Size::new(240, 240)), &LC), Size::new(240, 240));
    assert_eq!(arena.child_rects(c.id()), vec![rect(0, 0, 240, 120), rect(0, 120, 240, 120)]);
}

#[test]
fn empty_slot_lays_out_to_zero() {
    let mut arena = WidgetArena::new();
    assert_eq!(arena.layout(3, &loose(10, 10), &LC), Size::new(0, 0));
}
