use x11ui::color::Color;
use x11ui::layout::WidgetContainer;
use x11ui::widgets::{ContainerType, Point};

fn outline(x: i16, y: i16, w: i16, h: i16) -> [Point; 5] {
    [
        Point { x, y },
        Point { x: x + w, y },
        Point { x: x + w, y: y + h },
        Point { x, y: y + h },
        Point { x, y },
    ]
}

#[test]
fn new_container_is_empty_and_truncates_spacing() {
    let c: WidgetContainer<u8> = WidgetContainer::new(3, 4, 60, 40000, ContainerType::Vertical, Color::Red);
    assert_eq!(c.id, 0);
    assert_eq!(c.widget_count, 0);
    assert!(c.buttons.is_empty() && c.labels.is_empty() && c.containers.is_empty());
    assert_eq!((c.x, c.y), (3, 4));
    assert_eq!(c.widget_spacing_x, 60);
    assert_eq!(c.widget_spacing_y, 40000u16 as i16);
    assert_eq!(c.widget_spacing_y, -25536);
    assert_eq!(c.container_type, ContainerType::Vertical);
    assert_eq!(c.background_color, Color::Red);
}

#[test]
fn first_button_sits_at_origin_with_text_sized_outline() {
    let mut c: WidgetContainer<u8> = WidgetContainer::new(100, 100, 60, 10, ContainerType::Horizontal, Color::Cyan);
    let b = c.create_button("Root", 10, 5, 7);
    // 4 bytes * 8 + 10 wide, 5 * 2 + 16 high
    assert_eq!(b.points, outline(100, 100, 42, 26));
    assert_eq!(b.text, "Root");
    assert_eq!(b.message, 7);
    assert_eq!(b.id, 0);
    assert!(!b.hover);
    assert_eq!(b.border, 5);
    assert_eq!(b.background_color, None);
    assert_eq!(b.foreground_color, None);
    assert_eq!(b.border_color, None);
    assert_eq!(c.buttons.len(), 1);
}

#[test]
fn horizontal_container_places_buttons_left_to_right() {
    let mut c: WidgetContainer<u8> = WidgetContainer::new(100, 100, 60, 10, ContainerType::Horizontal, Color::Cyan);
    c.create_button("Root", 10, 5, 0);
    c.create_button("Root", 10, 5, 0);
    // the second starts one spacing past the right edge of the first
    assert_eq!(c.buttons[1].points, outline(202, 100, 42, 26));
    c.create_button("R", 0, 0, 0);
    assert_eq!(c.buttons[2].points, outline(304, 100, 8, 16));
}

#[test]
fn vertical_container_places_widgets_top_to_bottom() {
    let mut c: WidgetContainer<u8> = WidgetContainer::new(10, 20, 5, 7, ContainerType::Vertical, Color::White);
    c.create_label("ab");
    let l = &c.labels[0];
    assert_eq!((l.begin_x, l.begin_y, l.end_x, l.end_y), (10, 20, 22, 35));
    assert_eq!(l.text, "ab");
    assert_eq!(l.id, 0);
    assert_eq!(l.text_color, 0);
    c.create_button("xyz", 2, 1, 3);
    // below the label: 35 + 7
    assert_eq!(c.buttons[0].points, outline(10, 42, 26, 18));
    c.create_label("q");
    // labels come after buttons: max(60 + 7, 35 + 7)
    assert_eq!((c.labels[1].begin_x, c.labels[1].begin_y), (10, 67));
}

#[test]
fn labels_are_measured_after_buttons() {
    let mut c: WidgetContainer<u8> = WidgetContainer::new(0, 0, 1, 1, ContainerType::Horizontal, Color::White);
    c.create_label("abcdefghij"); // 0..60
    c.create_button("a", 0, 0, 0); // starts at 61, ends at 69
    c.create_label("b");
    // label edge 60 + 1 and button edge 69 + 1: the later wins
    assert_eq!(c.labels[1].begin_x, 70);
}

#[test]
fn child_container_starts_after_existing_widgets() {
    let mut root: WidgetContainer<u8> = WidgetContainer::new(100, 100, 60, 10, ContainerType::Horizontal, Color::Cyan);
    root.create_button("Root", 10, 5, 0);
    let child = root.create_container(60, 60, ContainerType::Vertical);
    assert_eq!((child.x, child.y), (202, 100));
    assert_eq!((child.widget_spacing_x, child.widget_spacing_y), (60, 60));
    assert_eq!(child.container_type, ContainerType::Vertical);
    assert_eq!(child.background_color, Color::Cyan);
    child.create_button("Child 1", 5, 5, 1);
    assert_eq!(root.containers[0].buttons[0].points, outline(202, 100, 61, 26));
    root.create_button("Root2", 10, 5, 0);
    // the child's button reaches 263; the root's spacing is added: 323
    assert_eq!(root.buttons[1].points[0], Point { x: 323, y: 100 });
}

#[test]
fn only_the_last_child_container_decides_the_start() {
    let mut root: WidgetContainer<u8> = WidgetContainer::new(0, 0, 10, 10, ContainerType::Vertical, Color::Green);
    {
        let first = root.create_container(0, 0, ContainerType::Vertical);
        first.create_button("a", 0, 100, 0); // 216 high
    }
    {
        let second = root.create_container(0, 0, ContainerType::Vertical);
        assert_eq!((second.x, second.y), (0, 226));
    }
    // the second child is empty: its reach is the root's origin
    root.create_label("x");
    assert_eq!(root.labels[0].begin_y, 0);
}

#[test]
fn nested_containers_are_measured_by_their_parents() {
    let mut root: WidgetContainer<u8> = WidgetContainer::new(0, 0, 1, 1, ContainerType::Vertical, Color::Green);
    {
        let mid = root.create_container(5, 5, ContainerType::Vertical);
        let inner = mid.create_container(100, 100, ContainerType::Vertical);
        inner.create_button("a", 0, 0, 0); // y 0..16
    }
    // the inner button is measured with the middle container's spacing: 16 + 5
    root.create_button("b", 0, 0, 0);
    assert_eq!(root.buttons[0].points[0], Point { x: 0, y: 21 });
}

#[test]
fn padding_moves_the_origin() {
    let mut c: WidgetContainer<u8> = WidgetContainer::new(10, 20, 1, 1, ContainerType::Vertical, Color::Green);
    let p = c.padding(50);
    assert_eq!((p.x, p.y), (60, 70));
    c.create_button("a", 0, 0, 0);
    assert_eq!(c.buttons[0].points[0], Point { x: 60, y: 70 });
    assert_eq!(c.padding(65535).x, 59);
}

#[test]
fn builder_setters_chain_on_created_button() {
    let mut c: WidgetContainer<u8> = WidgetContainer::new(0, 0, 1, 1, ContainerType::Vertical, Color::Green);
    c.create_button("C", 323, 40, 9)
        .set_background_color(Color::Cyan)
        .set_border(7)
        .set_border_color(Color::Orange)
        .set_foreground_color(Color::Red)
        .hover();
    let b = &c.buttons[0];
    assert_eq!(b.background_color, Some(Color::Cyan));
    assert_eq!(b.foreground_color, Some(Color::Red));
    assert_eq!(b.border, 7);
    assert_eq!(b.border_color, Some(Color::Orange));
    assert!(b.hover);
    assert_eq!(b.points, outline(0, 0, 331, 96));
}

#[test]
fn overflow_checks_match_the_placement_arithmetic() {
    let mut c: WidgetContainer<u8> = WidgetContainer::new(32000, 0, 1, 1, ContainerType::Horizontal, Color::Green);
    assert!(c.can_create_container());
    assert!(c.can_create_button("a", 0, 0));
    assert!(c.can_create_button(&"a".repeat(95), 0, 0)); // 32000 + 760
    assert!(!c.can_create_button(&"a".repeat(96), 0, 0)); // 32000 + 768
    assert!(!c.can_create_button("a", 0, 16376)); // 16376 * 2 + 16 overflows
    assert!(c.can_create_label(&"a".repeat(127)));
    assert!(!c.can_create_label(&"a".repeat(128)));
    assert!(c.can_pad(767));
    assert!(!c.can_pad(768));
    c.create_button(&"a".repeat(95), 0, 0, 0); // ends at 32760
    // measuring it again adds the spacing: 32761, still fine
    assert!(c.can_create_container());
    c.widget_spacing_x = 10;
    assert!(!c.can_create_container());
    assert!(!c.can_create_button("a", 0, 0));
    assert!(!c.can_create_label("a"));
}
