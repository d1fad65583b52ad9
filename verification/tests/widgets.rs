use x11ui::color::{COLORS, Color};
use x11ui::widgets::{Button, Label, Point};

fn button(x0: i16, y0: i16, x1: i16, y1: i16) -> Button<u8> {
    Button {
        id: 0,
        text: String::from("b"),
        points: [
            Point { x: x0, y: y0 },
            Point { x: x1, y: y0 },
            Point { x: x1, y: y1 },
            Point { x: x0, y: y1 },
            Point { x: x0, y: y0 },
        ],
        message: 0,
        hover: false,
        foreground_color: None,
        background_color: None,
        border: 5,
        border_color: None,
    }
}

#[test]
fn palette_positions() {
    let expected = [
        Color::Black,
        Color::White,
        Color::Red,
        Color::Green,
        Color::Blue,
        Color::Cyan,
        Color::Yellow,
        Color::Orange,
        Color::Purple,
    ];
    assert_eq!(COLORS, 9);
    for (i, c) in expected.iter().enumerate() {
        assert_eq!(Color::get(i), *c);
    }
    assert_eq!(Color::get(9), Color::Black);
    assert_eq!(Color::get(1000), Color::Black);
}

#[test]
fn palette_hex_values() {
    assert_eq!(Color::Black.to_hex(), 0x000000);
    assert_eq!(Color::White.to_hex(), 0xffffff);
    assert_eq!(Color::Red.to_hex(), 0xff0000);
    assert_eq!(Color::Green.to_hex(), 0x00ff00);
    assert_eq!(Color::Blue.to_hex(), 0x0000ff);
    assert_eq!(Color::Cyan.to_hex(), 0x00ffff);
    assert_eq!(Color::Yellow.to_hex(), 0xffff00);
    assert_eq!(Color::Orange.to_hex(), 0xffa500);
    assert_eq!(Color::Purple.to_hex(), 0x800080);
    // distinct colors, distinct values
    for i in 0..COLORS {
        for j in 0..COLORS {
            assert_eq!(Color::get(i).to_hex() == Color::get(j).to_hex(), i == j);
        }
    }
}

#[test]
fn button_hit_area_is_closed_rectangle() {
    let b = button(10, 20, 50, 40);
    assert!(b.is_button_interacted(10, 20));
    assert!(b.is_button_interacted(50, 40));
    assert!(b.is_button_interacted(30, 30));
    assert!(!b.is_button_interacted(9, 30));
    assert!(!b.is_button_interacted(51, 30));
    assert!(!b.is_button_interacted(30, 19));
    assert!(!b.is_button_interacted(30, 41));
}

#[test]
fn setters_change_only_their_field() {
    let mut b = button(0, 0, 1, 1);
    b.hover();
    assert!(b.hover);
    b.set_background_color(Color::Blue);
    assert_eq!(b.background_color, Some(Color::Blue));
    assert_eq!(b.foreground_color, None);
    b.set_foreground_color(Color::Yellow);
    assert_eq!(b.foreground_color, Some(Color::Yellow));
    b.set_border(0);
    assert_eq!(b.border, 0);
    b.set_border_color(Color::Purple);
    assert_eq!(b.border_color, Some(Color::Purple));
    assert_eq!(b.background_color, Some(Color::Blue));
    assert!(b.hover);
    assert_eq!(b.points, button(0, 0, 1, 1).points);
}

#[test]
fn color_matches() {
    let mut b = button(0, 0, 1, 1);
    assert!(!b.is_background_color_match(&Color::Black));
    assert!(!b.is_foreground_color_match(&Color::Black));
    b.set_background_color(Color::Red).set_foreground_color(Color::Green);
    assert!(b.is_background_color_match(&Color::Red));
    assert!(!b.is_background_color_match(&Color::Green));
    assert!(b.is_foreground_color_match(&Color::Green));
    assert!(!b.is_foreground_color_match(&Color::Red));
}

#[test]
fn label_extent_follows_text_bytes() {
    let l = Label::new(9, "Hello", 3, 4, 0xabc);
    assert_eq!(l.id, 9);
    assert_eq!(l.text, "Hello");
    assert_eq!((l.begin_x, l.begin_y, l.end_x, l.end_y), (3, 4, 33, 19));
    assert_eq!(l.text_color, 0xabc);
    // bytes, not characters: "é" is two bytes
    let l = Label::new(0, "é", 0, 0, 0);
    assert_eq!(l.end_x, 12);
    let l = Label::new(0, "", -5, -5, 0);
    assert_eq!((l.end_x, l.end_y), (-5, 10));
}
