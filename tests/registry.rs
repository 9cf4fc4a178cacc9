use druid::align::Align;
use druid::flex::{Column, Row};
use druid::geometry::{Insets, UnitPoint};
use druid::label::{Label, LabelText};
use druid::padding::Padding;
use druid::widgetbox::{RegistryError, WidgetArena, WidgetBox, WidgetType, MAX_WIDGETS};

fn label(text: &str) -> WidgetType {
    WidgetType::Label(Label::new(LabelText::from_str(text)))
}

#[test]
fn ids_increase_in_registration_order() {
    let mut arena = WidgetArena::new();
    let a = WidgetBox::new(&mut arena, label("a"));
    let b = WidgetBox::new(&mut arena, label("b"));
    let c = WidgetBox::new(&mut arena, WidgetType::Padding(Padding::uniform(1, b)));
    assert_eq!((a.id(), b.id(), c.id()), (0, 1, 2));
    assert_eq!(arena.len(), 3);
}

#[test]
fn one_widget_too_many_fails() {
    let mut arena = WidgetArena::new();
    for i in 0..MAX_WIDGETS {
        assert_eq!(arena.can_register(&label("x")), Ok(()));
        let b = WidgetBox::new(&mut arena, label("x"));
        assert_eq!(b.id() as usize, i);
    }
    assert_eq!(arena.can_register(&label("y")), Err(RegistryError::TooManyWidgets));
    assert_eq!(arena.len(), MAX_WIDGETS);
}

#[test]
fn unregistered_child_is_refused() {
    let arena = WidgetArena::new();
    let p = WidgetType::Padding(Padding::uniform(1, WidgetBox(3)));
    assert_eq!(arena.can_register(&p), Err(RegistryError::UnregisteredChild));
    let mut row = Row::new();
    row.add_child(WidgetBox(0), 0);
    assert_eq!(arena.can_register(&WidgetType::Flex(row)), Err(RegistryError::UnregisteredChild));
}

#[test]
fn empty_widget_is_refused() {
    let arena = WidgetArena::new();
    assert_eq!(arena.can_register(&WidgetType::Empty), Err(RegistryError::EmptyWidget));
}

#[test]
fn alignment_outside_unit_square_is_refused() {
    let mut arena = WidgetArena::new();
    let l = WidgetType::Label(Label { text: LabelText::from_str("a"), align: UnitPoint { x: 1001, y: 0 } });
    assert_eq!(arena.can_register(&l), Err(RegistryError::BadAlignment));
    let child = WidgetBox::new(&mut arena, label("a"));
    let mut a = Align::centered(child);
    a.align = UnitPoint { x: 0, y: 2000 };
    assert_eq!(arena.can_register(&WidgetType::Align(a)), Err(RegistryError::BadAlignment));
}

#[test]
fn flex_child_list_has_a_capacity() {
    let mut arena = WidgetArena::new();
    let child = WidgetBox::new(&mut arena, label("a"));
    let mut col = Column::new();
    for _ in 0..8 {
        assert!(!col.is_full());
        col.add_child(child, 1);
    }
    assert!(col.is_full());
    assert_eq!(col.len(), 8);
}

#[test]
fn padding_constructors_keep_insets() {
    let p = Padding::new(Insets::new(1, 2, 3, 4), WidgetBox(0));
    assert_eq!(p.insets, Insets { left: 1, top: 2, right: 3, bottom: 4 });
    assert_eq!(Padding::uniform(5, WidgetBox(0)).insets, Insets::uniform(5));
}


#[test]
fn registered_reference_gives_its_id() {
    let mut arena = WidgetArena::new();
    let a = WidgetBox::new(&mut arena, label("a"));
    let b = WidgetBox::new(&mut arena, label("b"));
    assert_eq!(a.get_id(&arena), 0);
    assert_eq!(b.get_id(&arena), 1);
}
