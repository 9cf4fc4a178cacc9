use druid::align::Align;
use druid::app::{AppLauncher, WindowDesc};
use druid::argvalue::ArgValue;
use druid::button::Button;
use druid::context::{Data, EventCtx, LayoutCtx};
use druid::event::{Event, MouseButton, MouseEvent};
use druid::flex::Column;
use druid::geometry::{Point, Rect, Size};
use druid::label::{label_text_fits, Label, LabelText, LocalizedString, MAX_LABEL_LEN};
use druid::padding::Padding;
use druid::paint::{Color, DrawCommand};
use druid::shell::{PlatformError, PlatformRequest, WindowBuilder};
use druid::widgetbox::{WidgetArena, WidgetBox, WidgetType};
use druid::win_handler::{AppState, DruidHandler};
use druid::window::{Window, WindowId, WindowIds};

struct Counter {
    count: u32,
}

impl Data for Counter {
    fn after_action(&self, action: u32) -> Counter {
        Counter { count: if action == 0 { self.count + 1 } else { self.count } }
    }

    fn arg_spec(&self, _arg: u32) -> ArgValue {
        ArgValue::U32(self.count)
    }

    fn run_action(&mut self, action: u32) {
        if action == 0 {
            self.count += 1;
        }
    }

    fn arg_value(&self, _arg: u32) -> ArgValue {
        ArgValue::U32(self.count)
    }
}

const LC: LayoutCtx = LayoutCtx { glyph_width: 6, font_size: 10 };

fn rect(x: u32, y: u32, w: u32, h: u32) -> Rect {
    Rect::from_origin_size(Point::new(x, y), Size::new(w, h))
}

fn mouse(x: u32, y: u32) -> MouseEvent {
    MouseEvent { pos: Point::new(x, y), count: 1, button: MouseButton::Left }
}

/// The counter window: a centred, padded label over a padded button.
fn counter_ui(arena: &mut WidgetArena) -> WidgetBox {
    let text = LocalizedString::new("hello-counter").with_arg("count", 0);
    let label = WidgetBox::new(arena, WidgetType::Label(Label::new(LabelText::from_localized(text))));
    let padded = WidgetBox::new(arena, WidgetType::Padding(Padding::uniform(5, label)));
    let centred = WidgetBox::new(arena, WidgetType::Align(Align::centered(padded)));
    let button = WidgetBox::new(arena, WidgetType::Button(Button::new(LabelText::from_str("increment"), 0)));
    let padded_button = WidgetBox::new(arena, WidgetType::Padding(Padding::uniform(5, button)));
    let mut col = Column::new();
    col.add_child(centred, 1);
    col.add_child(padded_button, 1);
    WidgetBox::new(arena, WidgetType::Flex(col))
}

#[test]
fn counter_window_end_to_end() {
    let mut arena = WidgetArena::new();
    let root = counter_ui(&mut arena);
    assert_eq!(root.id(), 5);
    let mut ids = WindowIds::new();
    let desc = WindowDesc::new(root, &mut ids);
    let (mut state, requests) =
        AppLauncher::with_window(desc).use_simple_logger().launch(arena, Counter { count: 0 }).unwrap();
    assert_eq!(requests, vec![PlatformRequest::Show(1)]);
    let handler = state.get_handle(WindowId(1)).handler;
    handler.size(&mut state, 240, 240);
    let list = handler.paint(&mut state, &LC);
    assert!(matches!(list[0], DrawCommand::Clear { color: Color::WindowBackground }));
    let texts: Vec<String> = list
        .iter()
        .filter_map(|c| match c {
            DrawCommand::Text { text, .. } => Some(text.clone()),
            _ => None,
        })
        .collect();
    assert_eq!(texts, vec!["hello-counter count=0".to_string(), "increment".to_string()]);
    assert_eq!(state.widgets.child_rects(5), vec![rect(0, 0, 240, 120), rect(0, 120, 240, 120)]);
    assert_eq!(state.widgets.child_rects(4), vec![rect(5, 5, 230, 110)]);

    let (down, up) = state.handle_touch(120, 180);
    assert_eq!(state.data.count, 1);
    assert!(!down.handled && !up.handled);
    assert!(down.event_inval && up.event_inval);
    assert_eq!(down.invalidate, None);
    assert_eq!(up.invalidate, Some(PlatformRequest::Invalidate(1)));
    assert_eq!(down.actions, Vec::<u32>::new());
    assert_eq!(up.actions, vec![0]);
    assert!(!state.window_has_active(WindowId(1)));
}

#[test]
fn tap_outside_button_does_nothing() {
    let mut arena = WidgetArena::new();
    let root = counter_ui(&mut arena);
    let mut ids = WindowIds::new();
    let desc = WindowDesc::new(root, &mut ids);
    let (mut state, _) = AppLauncher::with_window(desc).launch(arena, Counter { count: 0 }).unwrap();
    let handler = state.get_handle(WindowId(1)).handler;
    handler.size(&mut state, 240, 240);
    handler.paint(&mut state, &LC);
    let (down, up) = state.handle_touch(2, 236);
    assert_eq!(state.data.count, 0);
    assert_eq!(down.invalidate, None);
    assert_eq!(up.invalidate, None);
}

#[test]
fn press_holds_button_until_release() {
    let mut arena = WidgetArena::new();
    let root = counter_ui(&mut arena);
    let mut ids = WindowIds::new();
    let desc = WindowDesc::new(root, &mut ids);
    let (mut state, _) = AppLauncher::with_window(desc).launch(arena, Counter { count: 0 }).unwrap();
    let handler = state.get_handle(WindowId(1)).handler;
    handler.size(&mut state, 240, 240);
    handler.paint(&mut state, &LC);
    handler.mouse_down(&mut state, mouse(120, 180));
    assert!(state.window_has_active(WindowId(1)));
    assert_eq!(state.data.count, 0);
    handler.mouse_up(&mut state, mouse(120, 180));
    assert!(!state.window_has_active(WindowId(1)));
    assert_eq!(state.data.count, 1);
}

#[test]
fn size_event_first_resolves_label_and_asks_repaint() {
    let mut arena = WidgetArena::new();
    let root = counter_ui(&mut arena);
    let mut ids = WindowIds::new();
    let desc = WindowDesc::new(root, &mut ids);
    let (mut state, _) = AppLauncher::with_window(desc).launch(arena, Counter { count: 3 }).unwrap();
    let handler = state.get_handle(WindowId(1)).handler;
    let out = handler.size(&mut state, 240, 240);
    assert_eq!(out.invalidate, Some(PlatformRequest::Invalidate(1)));
    let again = handler.size(&mut state, 240, 240);
    assert_eq!(again.invalidate, None);
}

#[test]
fn button_click_runs_action_once() {
    let mut b = Button::new(LabelText::from_str("ok"), 7);
    let mut ctx = EventCtx::new();
    let mut data = Counter { count: 0 };
    assert!(!b.active);
    b.event(&mut ctx, &Event::MouseDown(mouse(1, 1)), &mut data);
    assert!(b.active);
    assert!(ctx.needs_inval);
    assert!(ctx.actions.is_empty());
    b.event(&mut ctx, &Event::MouseUp(mouse(1, 1)), &mut data);
    assert!(!b.active);
    assert_eq!(ctx.actions, vec![7]);
}

#[test]
fn release_without_press_does_nothing() {
    let mut b = Button::new(LabelText::from_str("ok"), 0);
    let mut ctx = EventCtx::new();
    let mut data = Counter { count: 0 };
    b.event(&mut ctx, &Event::MouseUp(mouse(1, 1)), &mut data);
    assert!(!b.active);
    assert!(!ctx.needs_inval);
    assert!(ctx.actions.is_empty());
    assert_eq!(data.count, 0);
}

#[test]
fn hot_change_asks_repaint() {
    let mut b = Button::new(LabelText::from_str("ok"), 0);
    let mut ctx = EventCtx::new();
    let mut data = Counter { count: 0 };
    b.event(&mut ctx, &Event::HotChanged(true), &mut data);
    assert!(ctx.needs_inval);
    assert!(!b.active);
}

#[test]
fn arg_values_show_as_text() {
    assert_eq!(ArgValue::U32(0).to_string(), "0");
    assert_eq!(ArgValue::U32(1234).to_string(), "1234");
    assert_eq!(ArgValue::U32(u32::MAX).to_string(), "4294967295");
    assert_eq!(ArgValue::from_str("abc").to_string(), "abc");
    assert_eq!(ArgValue::Error("x".to_string()).to_string(), "Error");
    assert_eq!(ArgValue::Missing.to_string(), "???");
}

#[test]
fn localized_string_formats_arguments() {
    let mut s = LocalizedString::new("k").with_arg("a", 0).with_arg("b", 1);
    assert_eq!(s.localized_str(), "k");
    let values = vec![ArgValue::U32(5), ArgValue::from_str("x")];
    assert!(s.resolve_with(&values));
    assert_eq!(s.localized_str(), "k a=5 b=x");
    assert!(!s.resolve_with(&values));
}

#[test]
fn label_text_resolves_from_data() {
    let mut t = LabelText::from_localized(LocalizedString::new("n").with_arg("v", 0));
    assert!(t.resolve(&Counter { count: 42 }));
    assert_eq!(t.display_text(), "n v=42");
    let mut fixed = LabelText::from_str("same");
    assert!(!fixed.resolve(&Counter { count: 1 }));
    assert_eq!(fixed.display_text(), "same");
}

#[test]
fn label_paints_text_at_resolved_point() {
    let mut arena = WidgetArena::new();
    let l = WidgetBox::new(&mut arena, WidgetType::Label(Label::new(LabelText::from_str("hello"))));
    let mut ids = WindowIds::new();
    let desc = WindowDesc::new(l, &mut ids);
    let (mut state, _) = AppLauncher::with_window(desc).launch(arena, Counter { count: 0 }).unwrap();
    let handler = state.get_handle(WindowId(1)).handler;
    handler.size(&mut state, 240, 240);
    let list = handler.paint(&mut state, &LC);
    assert_eq!(list.len(), 4);
    assert!(matches!(list[1], DrawCommand::PushClip { rect } if rect == Rect::from_origin_size(Point::new(0, 0), Size::new(240, 240))));
    assert!(matches!(list[3], DrawCommand::PopClip));
    match &list[2] {
        DrawCommand::Text { origin, text, color } => {
            assert_eq!(*origin, Point::new(0, 123));
            assert_eq!(text, "hello");
            assert_eq!(*color, Color::LabelText);
        },
        _ => panic!("expected text"),
    }
}

#[test]
fn window_ids_start_at_one() {
    let mut ids = WindowIds::new();
    assert_eq!(WindowId::next(&mut ids), WindowId(1));
    assert_eq!(WindowId::next(&mut ids), WindowId(2));
}

#[test]
fn window_takes_size_from_size_event() {
    let mut arena = WidgetArena::new();
    let l = WidgetBox::new(&mut arena, WidgetType::Label(Label::new(LabelText::from_str("a"))));
    let mut w = Window::new(l);
    let mut ctx = EventCtx::new();
    let mut data = Counter { count: 0 };
    w.event(&mut arena, &mut ctx, &Event::Size(Size::new(100, 50)), &mut data);
    assert_eq!(w.size, Size::new(100, 50));
    w.layout(&mut arena, &LC);
    assert_eq!(w.root_rect, rect(0, 0, 100, 50));
}

#[test]
fn launch_refuses_unregistered_root() {
    let arena = WidgetArena::new();
    let mut ids = WindowIds::new();
    let desc = WindowDesc::new(WidgetBox(0), &mut ids);
    let r = AppLauncher::with_window(desc).launch(arena, Counter { count: 0 });
    assert!(matches!(r, Err(PlatformError::UnregisteredRoot)));
}

#[test]
fn launch_refuses_window_id_beyond_registry() {
    let mut arena = WidgetArena::new();
    let l = WidgetBox::new(&mut arena, WidgetType::Label(Label::new(LabelText::from_str("a"))));
    let mut ids = WindowIds { next: 3 };
    let desc = WindowDesc::new(l, &mut ids).window_size(Size::new(10, 10));
    assert_eq!(desc.size, Some(Size::new(10, 10)));
    let r = AppLauncher::with_window(desc).launch(arena, Counter { count: 0 });
    assert!(matches!(r, Err(PlatformError::WindowIdOutOfRange)));
}

#[test]
fn add_window_stores_window_and_handler() {
    let mut arena = WidgetArena::new();
    let l = WidgetBox::new(&mut arena, WidgetType::Label(Label::new(LabelText::from_str("a"))));
    let mut state = AppState::new(arena, Counter { count: 0 });
    state.add_window(WindowId(2), Window::new(l));
    state.add_handler(WindowId(2), DruidHandler::new_shared(WindowId(2)));
    assert_eq!(state.get_handle(WindowId(2)).handler.get_window_id(), 2);
    assert!(!state.window_has_active(WindowId(2)));
}

#[test]
fn handle_requests_name_their_window() {
    let mut b = WindowBuilder::new();
    assert_eq!(b.size, Size::new(240, 240));
    b.set_size(Size::new(100, 80));
    b.set_handler(DruidHandler::new_shared(WindowId(2)));
    let h = b.build();
    assert_eq!(h.show(), PlatformRequest::Show(2));
    assert_eq!(h.close(), PlatformRequest::Close(2));
    assert_eq!(h.bring_to_front_and_focus(), PlatformRequest::BringToFrontAndFocus(2));
    assert_eq!(h.invalidate(), PlatformRequest::Invalidate(2));
}

#[test]
fn held_button_paints_pressed_background() {
    let mut arena = WidgetArena::new();
    let root = counter_ui(&mut arena);
    let mut ids = WindowIds::new();
    let desc = WindowDesc::new(root, &mut ids);
    let (mut state, _) = AppLauncher::with_window(desc).launch(arena, Counter { count: 0 }).unwrap();
    let handler = state.get_handle(WindowId(1)).handler;
    handler.size(&mut state, 240, 240);
    handler.paint(&mut state, &LC);
    handler.mouse_down(&mut state, mouse(120, 180));
    let list = handler.paint(&mut state, &LC);
    let fills: Vec<Color> = list
        .iter()
        .filter_map(|c| match c {
            DrawCommand::FillRoundedRect { color, .. } => Some(*color),
            _ => None,
        })
        .collect();
    assert_eq!(fills, vec![Color::ButtonPressed]);
    handler.mouse_move(&mut state, mouse(1, 1));
    handler.got_focus(&mut state);
    assert_eq!(state.data.count, 0);
}

#[test]
fn first_window_id_is_one() {
    let mut ids = WindowIds::new();
    let desc = WindowDesc::new(WidgetBox(0), &mut ids);
    assert_eq!(desc.id, WindowId(1));
    assert_eq!(ids.next, 2);
}

#[test]
fn label_text_has_a_capacity() {
    assert_eq!(MAX_LABEL_LEN, 20);
    assert!(!label_text_fits("this label is far too long"));
    assert!(label_text_fits("hello-counter"));
    assert!(label_text_fits("exactly twenty chars"));
}

#[test]
fn tap_outside_button_reports_no_repaint_from_event() {
    let mut arena = WidgetArena::new();
    let root = counter_ui(&mut arena);
    let mut ids = WindowIds::new();
    let desc = WindowDesc::new(root, &mut ids);
    let (mut state, _) = AppLauncher::with_window(desc).launch(arena, Counter { count: 0 }).unwrap();
    let handler = state.get_handle(WindowId(1)).handler;
    handler.size(&mut state, 240, 240);
    handler.paint(&mut state, &LC);
    let out = handler.mouse_down(&mut state, mouse(2, 2));
    assert!(!out.handled);
    assert!(!out.event_inval);
    assert_eq!(out.invalidate, None);
}
