use x11ui::color::Color;
use x11ui::contexts::{
    GraphicalContextMatrix, apply_colors_to_button, apply_only_background_color_to_button,
    apply_only_foreground_color_to_button,
};
use x11ui::draw::{DrawCommand, can_draw, draw_widgets};
use x11ui::layout::WidgetContainer;
use x11ui::widgets::{Button, ContainerType, Point};
use x11ui::window::XWindow;

fn matrix() -> GraphicalContextMatrix {
    let mut gc_ids = [[0u32; 10]; 10];
    for bg in 0..10 {
        for fg in 0..10 {
            gc_ids[bg][fg] = 1000 + (bg * 10 + fg) as u32;
        }
    }
    GraphicalContextMatrix { gc_ids }
}

fn window(bg: Color) -> XWindow<()> {
    XWindow::new((), 0, 1, bg, Color::Black)
}

fn rect(x0: i16, y0: i16, x1: i16, y1: i16) -> [Point; 5] {
    [
        Point { x: x0, y: y0 },
        Point { x: x1, y: y0 },
        Point { x: x1, y: y1 },
        Point { x: x0, y: y1 },
        Point { x: x0, y: y0 },
    ]
}

fn button(bg: Option<Color>, fg: Option<Color>) -> Button<u8> {
    Button {
        id: 0,
        text: String::from("ab"),
        points: rect(0, 0, 40, 20),
        message: 0,
        hover: false,
        foreground_color: fg,
        background_color: bg,
        border: 5,
        border_color: None,
    }
}

#[test]
fn default_button_contexts_depend_on_black_window() {
    let m = matrix();
    assert_eq!(m.get_default_button_contexts(&window(Color::Black)), (1011, 1010));
    assert_eq!(m.get_default_button_contexts(&window(Color::White)), (1000, 1001));
    assert_eq!(m.get_default_button_contexts(&window(Color::Purple)), (1000, 1001));
}

#[test]
fn label_context_uses_window_background_row() {
    let m = matrix();
    assert_eq!(m.get_default_label_context(&window(Color::Black)), 1001);
    assert_eq!(m.get_default_label_context(&window(Color::White)), 1010);
    assert_eq!(m.get_default_label_context(&window(Color::Cyan)), 1050);
    assert_eq!(m.get_default_label_context(&window(Color::Purple)), 1080);
}

#[test]
fn only_background_contexts_are_always_white() {
    let m = matrix();
    for c in [Color::Black, Color::Red, Color::Orange] {
        assert_eq!(m.get_only_button_background_contexts(&window(c)), (1011, 1010));
    }
}

#[test]
fn button_background_color_alone() {
    let m = matrix();
    let b = button(Some(Color::Red), None);
    assert_eq!(apply_only_background_color_to_button(&window(Color::White), &b, &m), Some((1022, 1021)));
    assert_eq!(apply_only_background_color_to_button(&window(Color::Black), &b, &m), Some((1022, 1020)));
    let plain = button(None, None);
    assert_eq!(apply_only_background_color_to_button(&window(Color::White), &plain, &m), None);
}

#[test]
fn button_foreground_color_alone() {
    let m = matrix();
    let b = button(None, Some(Color::Green));
    assert_eq!(apply_only_foreground_color_to_button(&window(Color::Black), &b, &m), Some((1011, 1013)));
    assert_eq!(apply_only_foreground_color_to_button(&window(Color::Blue), &b, &m), Some((1000, 1003)));
    let plain = button(None, None);
    assert_eq!(apply_only_foreground_color_to_button(&window(Color::Blue), &plain, &m), None);
}

#[test]
fn button_with_both_colors() {
    let m = matrix();
    let b = button(Some(Color::Blue), Some(Color::Yellow));
    assert_eq!(apply_colors_to_button(&window(Color::White), &b, &m), (1044, 1046));
    assert_eq!(apply_colors_to_button(&window(Color::Black), &b, &m), (1044, 1046));
    // with a color missing, the search keeps what it found last
    let b = button(Some(Color::Red), None);
    assert_eq!(apply_colors_to_button(&window(Color::White), &b, &m), (1022, 1000));
    let b = button(None, Some(Color::Purple));
    assert_eq!(apply_colors_to_button(&window(Color::White), &b, &m), (1000, 1088));
    let b = button(None, None);
    assert_eq!(apply_colors_to_button(&window(Color::Black), &b, &m), (1011, 1011));
}

#[test]
fn button_draw_requests() {
    let b = button(None, None);
    let mut with_border = Vec::new();
    b.draw_button(7, 8, None, 5, &mut with_border);
    let text = DrawCommand::Text { gc: 8, x: 14, y: 13, text: String::from("ab") };
    assert_eq!(
        with_border,
        vec![DrawCommand::Fill { gc: 7, points: b.points }, text.clone()]
    );
    let mut with_border_gc = Vec::new();
    b.draw_button(7, 8, Some(9), 5, &mut with_border_gc);
    assert_eq!(with_border_gc[0], DrawCommand::Outline { gc: 9, points: b.points });
    assert_eq!(with_border_gc.len(), 3);
    let mut without_border = Vec::new();
    b.draw_button(7, 8, Some(9), 0, &mut without_border);
    assert_eq!(
        without_border,
        vec![
            DrawCommand::Outline { gc: 7, points: b.points },
            DrawCommand::Fill { gc: 7, points: b.points },
            text,
        ]
    );
}

#[test]
fn button_text_position_rounds_toward_zero() {
    let mut b = button(None, None);
    b.points = rect(10, 10, 5, 5); // a flipped rectangle
    b.text = String::from("abc");
    let mut out = Vec::new();
    b.draw_button(1, 2, None, 5, &mut out);
    // x: 10 + (-5 / 2 = -2) - 9; y: 10 - (5 / 2 = 2) + 3
    assert_eq!(out[1], DrawCommand::Text { gc: 2, x: -1, y: 11, text: String::from("abc") });
}

#[test]
fn widgets_are_drawn_children_then_buttons_then_labels() {
    let m = matrix();
    let w = window(Color::White);
    let mut root: WidgetContainer<u8> = WidgetContainer::new(0, 0, 10, 10, ContainerType::Vertical, Color::White);
    root.create_label("top");
    root.create_button("ab", 12, 2, 1).set_background_color(Color::Red);
    {
        let child = root.create_container(0, 0, ContainerType::Horizontal);
        child.create_button("ab", 0, 0, 2).set_foreground_color(Color::Green).set_border(0);
    }
    assert!(can_draw(&root));
    let mut out = Vec::new();
    draw_widgets(&w, &m, &root, 0, &mut out);
    let child_button = &root.containers[0].buttons[0];
    let root_button = &root.buttons[0];
    assert_eq!(
        out,
        vec![
            DrawCommand::Outline { gc: 1000, points: child_button.points },
            DrawCommand::Fill { gc: 1000, points: child_button.points },
            DrawCommand::Text { gc: 1003, x: 2, y: 66, text: String::from("ab") },
            DrawCommand::Fill { gc: 1022, points: root_button.points },
            DrawCommand::Text { gc: 1021, x: 8, y: 38, text: String::from("ab") },
            DrawCommand::Text { gc: 1010, x: 0, y: 15, text: String::from("top") },
        ]
    );
}

#[test]
fn drawability_check_catches_overflow() {
    let mut root: WidgetContainer<u8> = WidgetContainer::new(0, 32750, 1, 1, ContainerType::Vertical, Color::White);
    assert!(can_draw(&root));
    root.create_label("a");
    // the label text sits 15 below its top: 32765
    assert!(can_draw(&root));
    root.labels[0].begin_y = 32760;
    assert!(!can_draw(&root));
    let mut root: WidgetContainer<u8> = WidgetContainer::new(0, 0, 1, 1, ContainerType::Vertical, Color::White);
    root.create_button("a", 0, 0, 0);
    root.buttons[0].points[2].x = -32768;
    root.buttons[0].points[0].x = 1;
    assert!(!can_draw(&root));
}

#[test]
fn every_widget_gets_one_text() {
    let m = matrix();
    let mut root: WidgetContainer<u8> = WidgetContainer::new(0, 0, 2, 2, ContainerType::Horizontal, Color::Black);
    root.create_button("a", 0, 0, 0).set_border(0);
    root.create_label("b");
    {
        let child = root.create_container(1, 1, ContainerType::Vertical);
        child.create_label("c");
        child.create_button("d", 1, 1, 1).set_background_color(Color::Red).set_foreground_color(Color::Blue);
        let grandchild = child.create_container(1, 1, ContainerType::Horizontal);
        grandchild.create_button("e", 0, 0, 2).set_foreground_color(Color::White);
        grandchild.create_label("f");
    }
    let mut out = Vec::new();
    draw_widgets(&window(Color::Black), &m, &root, 0, &mut out);
    let texts: Vec<&str> = out
        .iter()
        .filter_map(|d| match d {
            DrawCommand::Text { text, .. } => Some(text.as_str()),
            _ => None,
        })
        .collect();
    // depth first: grandchild, then child's own, then the root's
    assert_eq!(texts, vec!["e", "f", "d", "c", "a", "b"]);
    let fills = out.iter().filter(|d| matches!(d, DrawCommand::Fill { .. })).count();
    let outlines = out.iter().filter(|d| matches!(d, DrawCommand::Outline { .. })).count();
    assert_eq!((fills, outlines), (3, 1));
}
