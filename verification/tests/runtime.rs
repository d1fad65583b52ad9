use x11ui::calculator::{Application, UserMessage};
use x11ui::color::Color;
use x11ui::events::{InputEvent, Reaction, handle_event};
use x11ui::ids::{assign_ids, id_count, uuid_from_bytes};
use x11ui::layout::WidgetContainer;
use x11ui::widgets::ContainerType;
use x11ui::window::{XWindow, init_window_colors};

fn tree() -> WidgetContainer<u8> {
    let mut root: WidgetContainer<u8> = WidgetContainer::new(0, 0, 10, 10, ContainerType::Vertical, Color::White);
    {
        let child = root.create_container(0, 0, ContainerType::Horizontal);
        child.create_button("ab", 0, 0, 2); // 0..16 x 0..16
    }
    root.create_button("ab", 0, 0, 1); // 0..16 x 26..42
    root.create_label("l");
    root
}

#[test]
fn window_colors_contrast() {
    assert_eq!(init_window_colors(&(), 0, Color::White), (Color::White, Color::Black));
    assert_eq!(init_window_colors(&(), 0, Color::Black), (Color::Black, Color::White));
    assert_eq!(init_window_colors(&(), 0, Color::Orange), (Color::Orange, Color::Black));
    let w = XWindow::new(5u8, 1, 42, Color::Green, Color::Black);
    assert_eq!((w.connection, w.screen_number, w.window_id, w.font_id), (5, 1, 42, 0));
    assert_eq!((w.background_color, w.foreground_color), (Color::Green, Color::Black));
}

#[test]
fn uuid_bits() {
    assert_eq!(uuid_from_bytes([0; 16]), 0x8000_0000_0000_0000);
    assert_eq!(uuid_from_bytes([0xff; 16]), 0xffff_ffff_ffff_ffff_8fff_ffff_ffff_ffff);
    let bytes: [u8; 16] = [1, 2, 3, 4, 5, 6, 7, 8, 9, 10, 11, 12, 13, 14, 15, 16];
    assert_eq!(uuid_from_bytes(bytes), 0x0102_0304_0506_0708_890a_0b0c_0d0e_0f10);
    assert_eq!(uuid_from_bytes(bytes) >> 60 & 0xf, 8);
}

#[test]
fn ids_are_handed_out_depth_first() {
    let mut root = tree();
    assert_eq!(id_count(&root), 5);
    assert_eq!(assign_ids(&mut root, &[11, 12, 13, 14, 15, 16]), 5);
    assert_eq!(root.id, 11);
    assert_eq!(root.containers[0].id, 12);
    assert_eq!(root.containers[0].buttons[0].id, 13);
    assert_eq!(root.buttons[0].id, 14);
    assert_eq!(root.labels[0].id, 15);
    assert_eq!(root.buttons[0].text, "ab");
    assert_eq!(root.buttons[0].points[0].y, 26);
}

#[test]
fn ids_run_out_partway() {
    let mut root = tree();
    assert_eq!(assign_ids(&mut root, &[21, 22, 23]), 3);
    assert_eq!((root.id, root.containers[0].id, root.containers[0].buttons[0].id), (21, 22, 23));
    assert_eq!((root.buttons[0].id, root.labels[0].id), (0, 0));
    assert_eq!(assign_ids(&mut root, &[]), 0);
    assert_eq!(root.id, 21);
}

#[test]
fn pointer_motion_tracks_hovered_button() {
    let mut root = tree();
    assign_ids(&mut root, &[1, 2, 3, 4, 5]);
    let (h, r) = handle_event(&root, 0, &InputEvent::MotionNotify { event_x: 5, event_y: 30 }, 9, 99);
    assert_eq!(h, 4);
    assert!(matches!(r, Reaction::Redraw));
    let (h, r) = handle_event(&root, 4, &InputEvent::MotionNotify { event_x: 6, event_y: 31 }, 9, 99);
    assert_eq!(h, 4);
    assert!(matches!(r, Reaction::Nothing));
    let (h, r) = handle_event(&root, 4, &InputEvent::MotionNotify { event_x: 100, event_y: 100 }, 9, 99);
    assert_eq!(h, 0);
    assert!(matches!(r, Reaction::Redraw));
    let (h, r) = handle_event(&root, 0, &InputEvent::MotionNotify { event_x: 100, event_y: 100 }, 9, 99);
    assert_eq!(h, 0);
    assert!(matches!(r, Reaction::Nothing));
}

#[test]
fn clicks_deliver_messages() {
    let root = tree();
    let (h, r) = handle_event(&root, 7, &InputEvent::ButtonPress { detail: 1, event_x: 3, event_y: 3 }, 9, 99);
    assert_eq!(h, 7);
    assert!(matches!(r, Reaction::Deliver(&2)));
    let (_, r) = handle_event(&root, 7, &InputEvent::ButtonPress { detail: 1, event_x: 3, event_y: 30 }, 9, 99);
    assert!(matches!(r, Reaction::Deliver(&1)));
    let (_, r) = handle_event(&root, 7, &InputEvent::ButtonPress { detail: 1, event_x: 300, event_y: 3 }, 9, 99);
    assert!(matches!(r, Reaction::Nothing));
    let (_, r) = handle_event(&root, 7, &InputEvent::ButtonPress { detail: 3, event_x: 3, event_y: 3 }, 9, 99);
    assert!(matches!(r, Reaction::RightClick));
    let (_, r) = handle_event(&root, 7, &InputEvent::ButtonPress { detail: 4, event_x: 3, event_y: 3 }, 9, 99);
    assert!(matches!(r, Reaction::ScrollUp));
    let (_, r) = handle_event(&root, 7, &InputEvent::ButtonPress { detail: 5, event_x: 3, event_y: 3 }, 9, 99);
    assert!(matches!(r, Reaction::ScrollDown));
    let (_, r) = handle_event(&root, 7, &InputEvent::ButtonPress { detail: 2, event_x: 3, event_y: 3 }, 9, 99);
    assert!(matches!(r, Reaction::Nothing));
}

#[test]
fn window_close_and_other_events() {
    let root = tree();
    let (h, r) = handle_event(&root, 3, &InputEvent::ClientMessage { format: 32, window: 9, first_datum: 99 }, 9, 99);
    assert_eq!(h, 3);
    assert!(matches!(r, Reaction::Close));
    let (_, r) = handle_event(&root, 3, &InputEvent::ClientMessage { format: 8, window: 9, first_datum: 99 }, 9, 99);
    assert!(matches!(r, Reaction::Nothing));
    let (_, r) = handle_event(&root, 3, &InputEvent::ClientMessage { format: 32, window: 8, first_datum: 99 }, 9, 99);
    assert!(matches!(r, Reaction::Nothing));
    let (_, r) = handle_event(&root, 3, &InputEvent::ClientMessage { format: 32, window: 9, first_datum: 98 }, 9, 99);
    assert!(matches!(r, Reaction::Nothing));
    let (_, r) = handle_event(&root, 3, &InputEvent::Expose, 9, 99);
    assert!(matches!(r, Reaction::Redraw));
    let (h, r) = handle_event(&root, 3, &InputEvent::KeyPress, 9, 99);
    assert_eq!(h, 3);
    assert!(matches!(r, Reaction::Nothing));
    let (_, r) = handle_event(&root, 3, &InputEvent::Other, 9, 99);
    assert!(matches!(r, Reaction::Nothing));
}

#[test]
fn calculator_keys() {
    let mut app = Application::default();
    assert_eq!((app.data, app.label.as_str(), app.change), (10, "", false));
    assert!(!app.update(&UserMessage::Seven));
    assert!(!app.update(&UserMessage::Plus));
    assert!(!app.update(&UserMessage::Dot));
    assert!(!app.update(&UserMessage::Precent));
    assert_eq!(app.label, "7+.%");
    assert!(app.update(&UserMessage::AddK));
    assert_eq!(app.label, "7+.%K");
    assert!(app.update(&UserMessage::ChangeLayout));
    assert!(app.change);
    assert_eq!(app.label, "7+.%K");
    assert!(app.update(&UserMessage::ChangeText(String::from("abc"))));
    assert_eq!(app.label, "abc");
    assert!(app.update(&UserMessage::Clear));
    assert_eq!(app.label, "");
    for (m, c) in [
        (UserMessage::Zero, '0'), (UserMessage::One, '1'), (UserMessage::Two, '2'),
        (UserMessage::Three, '3'), (UserMessage::Four, '4'), (UserMessage::Five, '5'),
        (UserMessage::Six, '6'), (UserMessage::Eight, '8'), (UserMessage::Nine, '9'),
        (UserMessage::Divide, '/'), (UserMessage::Multiply, '*'), (UserMessage::Minus, '-'),
        (UserMessage::Equals, '='),
    ] {
        app.label.clear();
        assert!(!app.update(&m));
        assert_eq!(app.label, c.to_string());
    }
    assert_eq!(app.data, 10);
}
