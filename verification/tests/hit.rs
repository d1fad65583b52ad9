use x11ui::color::Color;
use x11ui::layout::WidgetContainer;
use x11ui::widgets::ContainerType;

#[test]
fn hit_test_finds_covering_button() {
    let mut c: WidgetContainer<u8> = WidgetContainer::new(0, 0, 10, 10, ContainerType::Horizontal, Color::White);
    c.create_button("ab", 0, 0, 1); // 0..16 x 0..16
    c.create_button("ab", 0, 0, 2); // 26..42
    assert_eq!(c.is_widget_interacted(5, 5).map(|b| b.message), Some(1));
    assert_eq!(c.is_widget_interacted(30, 16).map(|b| b.message), Some(2));
    assert!(c.is_widget_interacted(20, 5).is_none());
    assert!(c.is_widget_interacted(5, 17).is_none());
}

#[test]
fn hit_test_searches_children_first() {
    let mut c: WidgetContainer<u8> = WidgetContainer::new(0, 0, 10, 10, ContainerType::Vertical, Color::White);
    {
        let child = c.create_container(1, 1, ContainerType::Vertical);
        child.create_button("abcd", 0, 0, 2); // 0..32 x 0..16
    }
    c.create_button("abcd", 0, 0, 1); // 0..32 x 26..42
    // make the root's button overlap the child's
    c.buttons[0].points[0].y = 0;
    assert_eq!(c.is_widget_interacted(5, 5).map(|b| b.message), Some(2));
    assert_eq!(c.is_widget_interacted(5, 30).map(|b| b.message), Some(1));
}

#[test]
fn hit_test_prefers_earlier_buttons_and_deeper_trees() {
    let mut c: WidgetContainer<u8> = WidgetContainer::new(0, 0, 0, 0, ContainerType::Horizontal, Color::White);
    c.create_button("abcd", 0, 0, 1);
    c.create_button("abcd", 0, 0, 2);
    c.buttons[1].points[0].x = 0; // now both cover x in 0..32
    assert_eq!(c.is_widget_interacted(10, 10).map(|b| b.message), Some(1));
    let empty: WidgetContainer<u8> = WidgetContainer::new(0, 0, 0, 0, ContainerType::Horizontal, Color::White);
    assert!(empty.is_widget_interacted(0, 0).is_none());
}

#[test]
fn new_button_answers_clicks_on_its_whole_rectangle() {
    let mut c: WidgetContainer<u8> = WidgetContainer::new(7, 9, 3, 3, ContainerType::Vertical, Color::White);
    c.create_label("hello");
    c.create_button("abc", 4, 2, 5);
    let [p0, _, p2, _, _] = c.buttons[0].points;
    for (x, y) in [(p0.x, p0.y), (p2.x, p2.y), (p0.x, p2.y), (p2.x, p0.y), ((p0.x + p2.x) / 2, (p0.y + p2.y) / 2)] {
        assert_eq!(c.is_widget_interacted(x, y).map(|b| b.message), Some(5));
    }
    assert!(c.is_widget_interacted(p2.x + 1, p0.y).is_none());
    assert!(c.is_widget_interacted(p0.x, p0.y - 1).is_none());
}
