//! Containers and the placement of new widgets inside them.
//!
//! A container stacks its children along one axis: a vertical container
//! places each new widget below what it already holds, a horizontal one to
//! the right of it.  The extent a container already covers along an axis is
//! measured by `reach`, which folds the far edges of its widgets (plus the
//! spacing of the container that measures) and, recursively, of its child
//! containers into a running maximum.
use vstd::prelude::*;
use crate::color::Color;
use crate::widgets::{Button, ContainerType, Label, Point, fits_i16, label_fits, text_len_i16};

verus! {

/// A container of buttons, labels and further containers.
pub struct WidgetContainer<Message> {
    pub id: u128,
    pub widget_count: usize,
    pub buttons: Vec<Button<Message>>,
    pub labels: Vec<Label>,
    pub containers: Vec<WidgetContainer<Message>>,
    pub x: i16,
    pub y: i16,
    pub widget_spacing_x: i16,
    pub widget_spacing_y: i16,
    pub container_type: ContainerType,
    pub background_color: Color,
}

pub open spec fn max_int(a: int, b: int) -> int {
    if b > a {
        b
    } else {
        a
    }
}

/// The coordinate of the container's origin along the axis.
pub open spec fn origin_along<M>(c: WidgetContainer<M>, vertical: bool) -> int {
    if vertical {
        c.y as int
    } else {
        c.x as int
    }
}

/// The container's spacing between widgets along the axis.
pub open spec fn spacing_along<M>(c: WidgetContainer<M>, vertical: bool) -> int {
    if vertical {
        c.widget_spacing_y as int
    } else {
        c.widget_spacing_x as int
    }
}

/// The far edge of a button along the axis (its bottom or right side).
pub open spec fn button_far_edge<M>(b: Button<M>, vertical: bool) -> int {
    if vertical {
        b.points[2].y as int
    } else {
        b.points[2].x as int
    }
}

/// The far edge of a label along the axis.
pub open spec fn label_far_edge(l: Label, vertical: bool) -> int {
    if vertical {
        l.end_y as int
    } else {
        l.end_x as int
    }
}

/// `acc` raised to the far edge plus `spacing` of each of the first `n`
/// buttons.
pub open spec fn buttons_reach<M>(
    bs: Seq<Button<M>>,
    n: int,
    spacing: int,
    vertical: bool,
    acc: int,
) -> int
    decreases n,
{
    if n <= 0 {
        acc
    } else {
        max_int(
            buttons_reach(bs, n - 1, spacing, vertical, acc),
            button_far_edge(bs[n - 1], vertical) + spacing,
        )
    }
}

/// `acc` raised to the far edge plus `spacing` of each of the first `n`
/// labels.
pub open spec fn labels_reach(
    ls: Seq<Label>,
    n: int,
    spacing: int,
    vertical: bool,
    acc: int,
) -> int
    decreases n,
{
    if n <= 0 {
        acc
    } else {
        max_int(
            labels_reach(ls, n - 1, spacing, vertical, acc),
            label_far_edge(ls[n - 1], vertical) + spacing,
        )
    }
}

/// `acc` raised to the reach of each of the first `n` child containers of
/// `c`, each measured by `c` itself.
pub open spec fn children_reach<M>(c: WidgetContainer<M>, n: int, vertical: bool, acc: int) -> int
    decreases c, n,
{
    if n <= 0 || n > c.containers@.len() {
        acc
    } else {
        max_int(
            children_reach(c, n - 1, vertical, acc),
            reach(origin_along(c, vertical), spacing_along(c, vertical), c.containers@[n - 1], vertical),
        )
    }
}

/// How far along the axis the contents of `c` extend, as measured by a
/// container whose origin is `origin` and whose spacing is `spacing`: the
/// largest of `origin`, the reach of each child of `c` (measured by `c`),
/// and the far edge plus `spacing` of each button and label of `c`.
pub open spec fn reach<M>(origin: int, spacing: int, c: WidgetContainer<M>, vertical: bool) -> int
    decreases c, c.containers@.len() + 1,
{
    labels_reach(
        c.labels@,
        c.labels@.len() as int,
        spacing,
        vertical,
        buttons_reach(
            c.buttons@,
            c.buttons@.len() as int,
            spacing,
            vertical,
            children_reach(c, c.containers@.len() as int, vertical, origin),
        ),
    )
}

/// Measuring `c` with spacing `spacing` stays within `i16`: every far edge
/// plus spacing fits, in `c` and, measured by their parents, in all
/// containers below it.
pub open spec fn reach_ok<M>(spacing: int, c: WidgetContainer<M>, vertical: bool) -> bool
    decreases c,
{
    &&& forall|i: int|
        0 <= i < c.containers@.len() ==> reach_ok(
            spacing_along(c, vertical),
            #[trigger] c.containers@[i],
            vertical,
        )
    &&& forall|i: int|
        0 <= i < c.buttons@.len() ==> fits_i16(
            button_far_edge(#[trigger] c.buttons@[i], vertical) + spacing,
        )
    &&& forall|i: int|
        0 <= i < c.labels@.len() ==> fits_i16(
            label_far_edge(#[trigger] c.labels@[i], vertical) + spacing,
        )
}

/// Whether the container stacks its widgets vertically.
pub open spec fn is_vertical<M>(c: WidgetContainer<M>) -> bool {
    c.container_type == ContainerType::Vertical
}

/// Where the child containers of `c` end along its axis: the reach of the
/// last child, or the origin when there is none.
pub open spec fn containers_end<M>(c: WidgetContainer<M>) -> int {
    let v = is_vertical(c);
    if c.containers@.len() > 0 {
        reach(origin_along(c, v), spacing_along(c, v), c.containers@.last(), v)
    } else {
        origin_along(c, v)
    }
}

/// The offset along the axis at which the next widget of `c` starts: the end
/// of its child containers, pushed past the far edge plus spacing of each of
/// its buttons and then of each of its labels.
pub open spec fn next_offset<M>(c: WidgetContainer<M>) -> int {
    let v = is_vertical(c);
    labels_reach(
        c.labels@,
        c.labels@.len() as int,
        spacing_along(c, v),
        v,
        buttons_reach(
            c.buttons@,
            c.buttons@.len() as int,
            spacing_along(c, v),
            v,
            containers_end(c),
        ),
    )
}

/// The x coordinate of the top-left corner of the next widget of `c`.
pub open spec fn next_x<M>(c: WidgetContainer<M>) -> int {
    if is_vertical(c) {
        c.x as int
    } else {
        next_offset(c)
    }
}

/// The y coordinate of the top-left corner of the next widget of `c`.
pub open spec fn next_y<M>(c: WidgetContainer<M>) -> int {
    if is_vertical(c) {
        next_offset(c)
    } else {
        c.y as int
    }
}

/// The position of the next widget of `c` can be computed without overflow.
pub open spec fn layout_ok<M>(c: WidgetContainer<M>) -> bool {
    reach_ok(spacing_along(c, is_vertical(c)), c, is_vertical(c))
}

/// Two containers agree on everything but their widgets.
pub open spec fn same_settings<M>(a: WidgetContainer<M>, b: WidgetContainer<M>) -> bool {
    &&& a.id == b.id
    &&& a.widget_count == b.widget_count
    &&& a.x == b.x
    &&& a.y == b.y
    &&& a.widget_spacing_x == b.widget_spacing_x
    &&& a.widget_spacing_y == b.widget_spacing_y
    &&& a.container_type == b.container_type
    &&& a.background_color == b.background_color
}

/// Pixels per byte of button text.
pub open spec fn button_char_width() -> int {
    8
}

/// Height of a button's text line in pixels.
pub open spec fn button_text_height() -> int {
    16
}

/// The width of a button showing `text` with horizontal padding `padding_x`.
pub open spec fn button_width(text: Seq<char>, padding_x: u16) -> int {
    text_len_i16(text) * button_char_width() + (padding_x as i16)
}

/// The height of a button with vertical padding `padding_y`.
pub open spec fn button_height(padding_y: u16) -> int {
    (padding_y as i16) * 2 + button_text_height()
}

/// A button showing `text` can be added to `c` without overflow.
pub open spec fn button_fits<M>(
    c: WidgetContainer<M>,
    text: Seq<char>,
    padding_x: u16,
    padding_y: u16,
) -> bool {
    &&& layout_ok(c)
    &&& fits_i16(text_len_i16(text) * button_char_width())
    &&& fits_i16(button_width(text, padding_x))
    &&& fits_i16((padding_y as i16) * 2)
    &&& fits_i16(button_height(padding_y))
    &&& fits_i16(next_x(c) + button_width(text, padding_x))
    &&& fits_i16(next_y(c) + button_height(padding_y))
}

/// `points` outline the rectangle with top-left corner `(x, y)`, width `w`
/// and height `h`, clockwise from the top-left corner and back to it.
pub open spec fn is_outline(points: [Point; 5], x: int, y: int, w: int, h: int) -> bool {
    &&& points[0].x == x && points[0].y == y
    &&& points[1].x == x + w && points[1].y == y
    &&& points[2].x == x + w && points[2].y == y + h
    &&& points[3].x == x && points[3].y == y + h
    &&& points[4] == points[0]
}

impl<Message> WidgetContainer<Message> {
    /// An empty container with its origin at `(x, y)`.  The spacings are
    /// cast to `i16`, keeping their low 16 bits.
    pub fn new(
        x: i16,
        y: i16,
        widget_spacing_x: u16,
        widget_spacing_y: u16,
        container_type: ContainerType,
        background_color: Color,
    ) -> (c: Self)
        ensures
            c.id == 0,
            c.widget_count == 0,
            c.buttons@.len() == 0,
            c.labels@.len() == 0,
            c.containers@.len() == 0,
            c.x == x,
            c.y == y,
            c.widget_spacing_x == widget_spacing_x as i16,
            c.widget_spacing_y == widget_spacing_y as i16,
            c.container_type == container_type,
            c.background_color == background_color,
    {
        Self {
            id: 0,
            widget_count: 0,
            buttons: Vec::new(),
            labels: Vec::new(),
            containers: Vec::new(),
            x,
            y,
            widget_spacing_x: widget_spacing_x as i16,
            widget_spacing_y: widget_spacing_y as i16,
            container_type,
            background_color,
        }
    }

    /// The reach of `container` along the axis, measured by `self`.
    fn move_point_along(&self, container: &WidgetContainer<Message>, vertical: bool) -> (r: i16)
        requires
            reach_ok(spacing_along(*self, vertical), *container, vertical),
        ensures
            r == reach(
                origin_along(*self, vertical),
                spacing_along(*self, vertical),
                *container,
                vertical,
            ),
        decreases *container,
    {
        let spacing = if vertical {
            self.widget_spacing_y
        } else {
            self.widget_spacing_x
        };
        let mut m = if vertical {
            self.y
        } else {
            self.x
        };
        let ghost origin = origin_along(*self, vertical);
        let mut i: usize = 0;
        while i < container.containers.len()
            invariant
                i <= container.containers@.len(),
                reach_ok(spacing_along(*self, vertical), *container, vertical),
                m == children_reach(*container, i as int, vertical, origin),
            decreases container.containers@.len() - i,
        {
            let new_m = container.move_point_along(&container.containers[i], vertical);
            if new_m > m {
                m = new_m;
            }
            i += 1;
        }
        let ghost after_children = m as int;
        let mut i: usize = 0;
        while i < container.buttons.len()
            invariant
                i <= container.buttons@.len(),
                spacing == spacing_along(*self, vertical),
                reach_ok(spacing_along(*self, vertical), *container, vertical),
                m == buttons_reach(container.buttons@, i as int, spacing as int, vertical, after_children),
            decreases container.buttons@.len() - i,
        {
            let p = container.buttons[i].points[2];
            let edge = if vertical {
                p.y
            } else {
                p.x
            };
            assert(fits_i16(button_far_edge(container.buttons@[i as int], vertical) + spacing));
            let e = edge + spacing;
            if e > m {
                m = e;
            }
            i += 1;
        }
        let ghost after_buttons = m as int;
        let mut i: usize = 0;
        while i < container.labels.len()
            invariant
                i <= container.labels@.len(),
                spacing == spacing_along(*self, vertical),
                reach_ok(spacing_along(*self, vertical), *container, vertical),
                m == labels_reach(container.labels@, i as int, spacing as int, vertical, after_buttons),
            decreases container.labels@.len() - i,
        {
            let l = &container.labels[i];
            let edge = if vertical {
                l.end_y
            } else {
                l.end_x
            };
            assert(fits_i16(label_far_edge(container.labels@[i as int], vertical) + spacing));
            let e = edge + spacing;
            if e > m {
                m = e;
            }
            i += 1;
        }
        m
    }

    /// The x reach of `container`, measured by `self`.
    fn move_point_horizontal(&self, container: &WidgetContainer<Message>) -> (x: i16)
        requires
            reach_ok(spacing_along(*self, false), *container, false),
        ensures
            x == reach(origin_along(*self, false), spacing_along(*self, false), *container, false),
    {
        self.move_point_along(container, false)
    }

    /// The y reach of `container`, measured by `self`.
    fn move_point_vertical(&self, container: &WidgetContainer<Message>) -> (y: i16)
        requires
            reach_ok(spacing_along(*self, true), *container, true),
        ensures
            y == reach(origin_along(*self, true), spacing_along(*self, true), *container, true),
    {
        self.move_point_along(container, true)
    }

    /// Pushes `(x, y)` past the far edge plus spacing of each button, along
    /// the container's axis.
    fn get_button_endpoint(&self, x: i16, y: i16) -> (p: (i16, i16))
        requires
            forall|i: int|
                0 <= i < self.buttons@.len() ==> fits_i16(
                    button_far_edge(#[trigger] self.buttons@[i], is_vertical(*self))
                        + spacing_along(*self, is_vertical(*self)),
                ),
        ensures
            is_vertical(*self) ==> p.0 == x && p.1 == buttons_reach(
                self.buttons@,
                self.buttons@.len() as int,
                self.widget_spacing_y as int,
                true,
                y as int,
            ),
            !is_vertical(*self) ==> p.1 == y && p.0 == buttons_reach(
                self.buttons@,
                self.buttons@.len() as int,
                self.widget_spacing_x as int,
                false,
                x as int,
            ),
    {
        let mut x = x;
        let mut y = y;
        let ghost x0 = x as int;
        let ghost y0 = y as int;
        let mut i: usize = 0;
        while i < self.buttons.len()
            invariant
                i <= self.buttons@.len(),
                forall|k: int|
                    0 <= k < self.buttons@.len() ==> fits_i16(
                        button_far_edge(#[trigger] self.buttons@[k], is_vertical(*self))
                            + spacing_along(*self, is_vertical(*self)),
                    ),
                is_vertical(*self) ==> x == x0 && y == buttons_reach(
                    self.buttons@,
                    i as int,
                    self.widget_spacing_y as int,
                    true,
                    y0,
                ),
                !is_vertical(*self) ==> y == y0 && x == buttons_reach(
                    self.buttons@,
                    i as int,
                    self.widget_spacing_x as int,
                    false,
                    x0,
                ),
            decreases self.buttons@.len() - i,
        {
            let button = &self.buttons[i];
            assert(fits_i16(
                button_far_edge(self.buttons@[i as int], is_vertical(*self)) + spacing_along(
                    *self,
                    is_vertical(*self),
                ),
            ));
            match self.container_type {
                ContainerType::Vertical => {
                    let new_y = button.points[2].y + self.widget_spacing_y;
                    if new_y > y {
                        y = new_y;
                    }
                },
                ContainerType::Horizontal => {
                    let new_x = button.points[2].x + self.widget_spacing_x;
                    if new_x > x {
                        x = new_x;
                    }
                },
            }
            i += 1;
        }
        (x, y)
    }

    /// Pushes `(x, y)` past the far edge plus spacing of each label, along
    /// the container's axis.
    fn get_label_endpoint(&self, x: i16, y: i16) -> (p: (i16, i16))
        requires
            forall|i: int|
                0 <= i < self.labels@.len() ==> fits_i16(
                    label_far_edge(#[trigger] self.labels@[i], is_vertical(*self))
                        + spacing_along(*self, is_vertical(*self)),
                ),
        ensures
            is_vertical(*self) ==> p.0 == x && p.1 == labels_reach(
                self.labels@,
                self.labels@.len() as int,
                self.widget_spacing_y as int,
                true,
                y as int,
            ),
            !is_vertical(*self) ==> p.1 == y && p.0 == labels_reach(
                self.labels@,
                self.labels@.len() as int,
                self.widget_spacing_x as int,
                false,
                x as int,
            ),
    {
        let mut x = x;
        let mut y = y;
        let ghost x0 = x as int;
        let ghost y0 = y as int;
        let mut i: usize = 0;
        while i < self.labels.len()
            invariant
                i <= self.labels@.len(),
                forall|k: int|
                    0 <= k < self.labels@.len() ==> fits_i16(
                        label_far_edge(#[trigger] self.labels@[k], is_vertical(*self))
                            + spacing_along(*self, is_vertical(*self)),
                    ),
                is_vertical(*self) ==> x == x0 && y == labels_reach(
                    self.labels@,
                    i as int,
                    self.widget_spacing_y as int,
                    true,
                    y0,
                ),
                !is_vertical(*self) ==> y == y0 && x == labels_reach(
                    self.labels@,
                    i as int,
                    self.widget_spacing_x as int,
                    false,
                    x0,
                ),
            decreases self.labels@.len() - i,
        {
            let label = &self.labels[i];
            assert(fits_i16(
                label_far_edge(self.labels@[i as int], is_vertical(*self)) + spacing_along(
                    *self,
                    is_vertical(*self),
                ),
            ));
            match self.container_type {
                ContainerType::Vertical => {
                    let new_y = label.end_y + self.widget_spacing_y;
                    if new_y > y {
                        y = new_y;
                    }
                },
                ContainerType::Horizontal => {
                    let new_x = label.end_x + self.widget_spacing_x;
                    if new_x > x {
                        x = new_x;
                    }
                },
            }
            i += 1;
        }
        (x, y)
    }

    /// The top-left corner of the next widget: after the child containers
    /// (the reach of the last one decides), then past every button, then
    /// past every label, along the container's axis.
    fn next_widget_position(&self) -> (p: (i16, i16))
        requires
            layout_ok(*self),
        ensures
            p.0 == next_x(*self),
            p.1 == next_y(*self),
    {
        let mut x = self.x;
        let mut y = self.y;
        let mut i: usize = 0;
        while i < self.containers.len()
            invariant
                i <= self.containers@.len(),
                layout_ok(*self),
                is_vertical(*self) ==> x == self.x && y == (if i == 0 {
                    self.y as int
                } else {
                    reach(self.y as int, self.widget_spacing_y as int, self.containers@[i - 1], true)
                }),
                !is_vertical(*self) ==> y == self.y && x == (if i == 0 {
                    self.x as int
                } else {
                    reach(self.x as int, self.widget_spacing_x as int, self.containers@[i - 1], false)
                }),
            decreases self.containers@.len() - i,
        {
            let container = &self.containers[i];
            match self.container_type {
                ContainerType::Vertical => y = self.move_point_vertical(container),
                ContainerType::Horizontal => x = self.move_point_horizontal(container),
            }
            i += 1;
        }
        let (x, y) = self.get_button_endpoint(x, y);
        let (x, y) = self.get_label_endpoint(x, y);
        (x, y)
    }

    /// Adds an empty child container at the next widget position, with the
    /// given spacings and axis and this container's background color, and
    /// hands it back for filling.
    pub fn create_container(
        &mut self,
        widget_spacing_x: u16,
        widget_spacing_y: u16,
        new_container_type: ContainerType,
    ) -> (child: &mut WidgetContainer<Message>)
        requires
            layout_ok(*old(self)),
        ensures
            child.id == 0,
            child.widget_count == 0,
            child.buttons@.len() == 0,
            child.labels@.len() == 0,
            child.containers@.len() == 0,
            child.x == next_x(*old(self)),
            child.y == next_y(*old(self)),
            child.widget_spacing_x == widget_spacing_x as i16,
            child.widget_spacing_y == widget_spacing_y as i16,
            child.container_type == new_container_type,
            child.background_color == old(self).background_color,
            final(self).containers@ == old(self).containers@.push(*final(child)),
            final(self).buttons == old(self).buttons,
            final(self).labels == old(self).labels,
            same_settings(*final(self), *old(self)),
    {
        let (x, y) = self.next_widget_position();
        let new_container = WidgetContainer::new(
            x,
            y,
            widget_spacing_x,
            widget_spacing_y,
            new_container_type,
            self.background_color,
        );
        self.containers.push(new_container);
        let n = self.containers.len();
        &mut self.containers[n - 1]
    }

    /// Adds a button showing `text` at the next widget position and hands it
    /// back for styling.  The button is eight pixels wide per byte of text
    /// plus `padding_x`, and sixteen pixels plus twice `padding_y` high; the
    /// paddings are cast to `i16`, keeping their low 16 bits.  It starts
    /// with id 0, no hovering, no colors of its own, no border color and a
    /// border of 5.
    pub fn create_button(
        &mut self,
        text: &str,
        padding_x: u16,
        padding_y: u16,
        message: Message,
    ) -> (button: &mut Button<Message>)
        requires
            button_fits(*old(self), text@, padding_x, padding_y),
        ensures
            button.id == 0,
            button.text@ == text@,
            is_outline(
                button.points,
                next_x(*old(self)),
                next_y(*old(self)),
                button_width(text@, padding_x),
                button_height(padding_y),
            ),
            button.message == message,
            !button.hover,
            button.foreground_color is None,
            button.background_color is None,
            button.border == 5,
            button.border_color is None,
            final(self).buttons@ == old(self).buttons@.push(*final(button)),
            final(self).labels == old(self).labels,
            final(self).containers == old(self).containers,
            same_settings(*final(self), *old(self)),
    {
        let padding_x: i16 = padding_x as i16;
        let padding_y: i16 = padding_y as i16;
        let width = text.len() as i16 * 8 + padding_x;
        let height = padding_y * 2 + 16;
        let (x, y) = self.next_widget_position();
        let points: [Point; 5] = [
            Point { x, y },
            Point { x: x + width, y },
            Point { x: x + width, y: y + height },
            Point { x, y: y + height },
            Point { x, y },
        ];
        self.buttons.push(
            Button {
                id: 0,
                text: text.to_owned(),
                points,
                hover: false,
                message,
                foreground_color: None,
                background_color: None,
                border: 5,
                border_color: None,
            },
        );
        let n = self.buttons.len();
        &mut self.buttons[n - 1]
    }

    /// Adds a label showing `text` at the next widget position.
    pub fn create_label(&mut self, text: &str)
        requires
            layout_ok(*old(self)),
            label_fits(text@, next_x(*old(self)), next_y(*old(self))),
        ensures
            final(self).labels@.len() == old(self).labels@.len() + 1,
            final(self).labels@.drop_last() == old(self).labels@,
            final(self).labels@.last().id == 0,
            final(self).labels@.last().text@ == text@,
            final(self).labels@.last().begin_x == next_x(*old(self)),
            final(self).labels@.last().begin_y == next_y(*old(self)),
            final(self).labels@.last().end_x == next_x(*old(self)) + text_len_i16(text@) * crate::widgets::label_char_width(),
            final(self).labels@.last().end_y == next_y(*old(self)) + crate::widgets::label_height(),
            final(self).labels@.last().text_color == 0,
            final(self).buttons == old(self).buttons,
            final(self).containers == old(self).containers,
            same_settings(*final(self), *old(self)),
    {
        let (x, y) = self.next_widget_position();
        self.labels.push(Label::new(0, text, x, y, 0));
    }

    /// Moves the container's origin right and down by `padding`, cast to
    /// `i16` (keeping its low 16 bits).
    pub fn padding(&mut self, padding: u16) -> (this: &mut WidgetContainer<Message>)
        requires
            fits_i16(old(self).x + padding as i16),
            fits_i16(old(self).y + padding as i16),
        ensures
            this.x == old(self).x + padding as i16,
            this.y == old(self).y + padding as i16,
            this.id == old(self).id,
            this.widget_count == old(self).widget_count,
            this.widget_spacing_x == old(self).widget_spacing_x,
            this.widget_spacing_y == old(self).widget_spacing_y,
            this.container_type == old(self).container_type,
            this.background_color == old(self).background_color,
            this.buttons == old(self).buttons,
            this.labels == old(self).labels,
            this.containers == old(self).containers,
            *final(self) == *final(this),
    {
        let padding: i16 = padding as i16;
        self.x += padding;
        self.y += padding;
        self
    }

    /// Whether measuring this container with `spacing` along the axis stays
    /// within `i16`.
    fn reach_fits(&self, spacing: i16, vertical: bool) -> (ok: bool)
        ensures
            ok == reach_ok(spacing as int, *self, vertical),
        decreases *self,
    {
        let own_spacing = if vertical {
            self.widget_spacing_y
        } else {
            self.widget_spacing_x
        };
        let mut i: usize = 0;
        while i < self.containers.len()
            invariant
                i <= self.containers@.len(),
                own_spacing == spacing_along(*self, vertical),
                forall|k: int|
                    0 <= k < i ==> reach_ok(
                        spacing_along(*self, vertical),
                        #[trigger] self.containers@[k],
                        vertical,
                    ),
            decreases self.containers@.len() - i,
        {
            if !self.containers[i].reach_fits(own_spacing, vertical) {
                return false;
            }
            i += 1;
        }
        let mut i: usize = 0;
        while i < self.buttons.len()
            invariant
                i <= self.buttons@.len(),
                forall|k: int|
                    0 <= k < i ==> fits_i16(
                        button_far_edge(#[trigger] self.buttons@[k], vertical) + spacing,
                    ),
            decreases self.buttons@.len() - i,
        {
            let p = self.buttons[i].points[2];
            let edge: i32 = if vertical {
                p.y as i32
            } else {
                p.x as i32
            };
            let e: i32 = edge + spacing as i32;
            if e < -32768 || e > 32767 {
                return false;
            }
            i += 1;
        }
        let mut i: usize = 0;
        while i < self.labels.len()
            invariant
                i <= self.labels@.len(),
                forall|k: int|
                    0 <= k < i ==> fits_i16(
                        label_far_edge(#[trigger] self.labels@[k], vertical) + spacing,
                    ),
            decreases self.labels@.len() - i,
        {
            let l = &self.labels[i];
            let edge: i32 = if vertical {
                l.end_y as i32
            } else {
                l.end_x as i32
            };
            let e: i32 = edge + spacing as i32;
            if e < -32768 || e > 32767 {
                return false;
            }
            i += 1;
        }
        true
    }

    /// Whether the position of the next widget can be computed without
    /// overflow, which `create_container` needs.
    pub fn can_create_container(&self) -> (ok: bool)
        ensures
            ok == layout_ok(*self),
    {
        match self.container_type {
            ContainerType::Vertical => self.reach_fits(self.widget_spacing_y, true),
            ContainerType::Horizontal => self.reach_fits(self.widget_spacing_x, false),
        }
    }

    /// Whether `create_button` can add a button showing `text` with these
    /// paddings without overflow.
    pub fn can_create_button(&self, text: &str, padding_x: u16, padding_y: u16) -> (ok: bool)
        ensures
            ok == button_fits(*self, text@, padding_x, padding_y),
    {
        if !self.can_create_container() {
            return false;
        }
        let (x, y) = self.next_widget_position();
        let text_width: i32 = (text.len() as i16) as i32 * 8;
        let width: i32 = text_width + (padding_x as i16) as i32;
        let twice_py: i32 = (padding_y as i16) as i32 * 2;
        let height: i32 = twice_py + 16;
        let right: i32 = x as i32 + width;
        let bottom: i32 = y as i32 + height;
        -32768 <= text_width && text_width <= 32767 && -32768 <= width && width <= 32767
            && -32768 <= twice_py && twice_py <= 32767 && -32768 <= height && height <= 32767
            && -32768 <= right && right <= 32767 && -32768 <= bottom && bottom <= 32767
    }

    /// Whether `create_label` can add a label showing `text` without
    /// overflow.
    pub fn can_create_label(&self, text: &str) -> (ok: bool)
        ensures
            ok == (layout_ok(*self) && label_fits(text@, next_x(*self), next_y(*self))),
    {
        if !self.can_create_container() {
            return false;
        }
        let (x, y) = self.next_widget_position();
        let length: i32 = (text.len() as i16) as i32 * 6;
        let right: i32 = x as i32 + length;
        let bottom: i32 = y as i32 + 15;
        -32768 <= length && length <= 32767 && -32768 <= right && right <= 32767 && bottom
            <= 32767
    }

    /// Whether `padding` can move the origin by `padding` without overflow.
    pub fn can_pad(&self, padding: u16) -> (ok: bool)
        ensures
            ok == (fits_i16(self.x + padding as i16) && fits_i16(self.y + padding as i16)),
    {
        let p: i32 = (padding as i16) as i32;
        let x: i32 = self.x as i32 + p;
        let y: i32 = self.y as i32 + p;
        -32768 <= x && x <= 32767 && -32768 <= y && y <= 32767
    }
}


/// The running maximum over buttons is at least its start and at least the
/// far edge plus spacing of each button it went over.
pub proof fn lemma_buttons_reach_bounds<M>(
    bs: Seq<Button<M>>,
    n: int,
    spacing: int,
    vertical: bool,
    acc: int,
)
    requires
        0 <= n <= bs.len(),
    ensures
        buttons_reach(bs, n, spacing, vertical, acc) >= acc,
        forall|i: int|
            0 <= i < n ==> buttons_reach(bs, n, spacing, vertical, acc) >= button_far_edge(
                #[trigger] bs[i],
                vertical,
            ) + spacing,
    decreases n,
{
    if n > 0 {
        lemma_buttons_reach_bounds(bs, n - 1, spacing, vertical, acc);
    }
}

/// The running maximum over labels is at least its start and at least the
/// far edge plus spacing of each label it went over.
pub proof fn lemma_labels_reach_bounds(
    ls: Seq<Label>,
    n: int,
    spacing: int,
    vertical: bool,
    acc: int,
)
    requires
        0 <= n <= ls.len(),
    ensures
        labels_reach(ls, n, spacing, vertical, acc) >= acc,
        forall|i: int|
            0 <= i < n ==> labels_reach(ls, n, spacing, vertical, acc) >= label_far_edge(
                #[trigger] ls[i],
                vertical,
            ) + spacing,
    decreases n,
{
    if n > 0 {
        lemma_labels_reach_bounds(ls, n - 1, spacing, vertical, acc);
    }
}

/// The running maximum over child containers is at least its start.
pub proof fn lemma_children_reach_bounds<M>(c: WidgetContainer<M>, n: int, vertical: bool, acc: int)
    ensures
        children_reach(c, n, vertical, acc) >= acc,
    decreases n,
{
    if n > 0 && n <= c.containers@.len() {
        lemma_children_reach_bounds(c, n - 1, vertical, acc);
    }
}

/// A container reaches at least as far as the origin it is measured from,
/// and past the far edge plus spacing of each of its own buttons and labels.
pub proof fn lemma_reach_bounds<M>(origin: int, spacing: int, c: WidgetContainer<M>, vertical: bool)
    ensures
        reach(origin, spacing, c, vertical) >= origin,
        forall|i: int|
            0 <= i < c.buttons@.len() ==> reach(origin, spacing, c, vertical) >= button_far_edge(
                #[trigger] c.buttons@[i],
                vertical,
            ) + spacing,
        forall|i: int|
            0 <= i < c.labels@.len() ==> reach(origin, spacing, c, vertical) >= label_far_edge(
                #[trigger] c.labels@[i],
                vertical,
            ) + spacing,
{
    let cr = children_reach(c, c.containers@.len() as int, vertical, origin);
    let br = buttons_reach(c.buttons@, c.buttons@.len() as int, spacing, vertical, cr);
    lemma_children_reach_bounds(c, c.containers@.len() as int, vertical, origin);
    lemma_buttons_reach_bounds(c.buttons@, c.buttons@.len() as int, spacing, vertical, cr);
    lemma_labels_reach_bounds(c.labels@, c.labels@.len() as int, spacing, vertical, br);
}

/// Along its axis, a container places its next widget no earlier than its
/// origin, no earlier than where its last child container ends, and at
/// least one spacing past the far edge of every button and every label it
/// already holds.  Across its axis, the next widget starts at the origin.
pub proof fn lemma_next_widget_clears_siblings<M>(c: WidgetContainer<M>)
    ensures
        next_offset(c) >= origin_along(c, is_vertical(c)),
        next_offset(c) >= containers_end(c),
        forall|i: int|
            0 <= i < c.buttons@.len() ==> next_offset(c) >= button_far_edge(
                #[trigger] c.buttons@[i],
                is_vertical(c),
            ) + spacing_along(c, is_vertical(c)),
        forall|i: int|
            0 <= i < c.labels@.len() ==> next_offset(c) >= label_far_edge(
                #[trigger] c.labels@[i],
                is_vertical(c),
            ) + spacing_along(c, is_vertical(c)),
        is_vertical(c) ==> next_x(c) == c.x && next_y(c) == next_offset(c),
        !is_vertical(c) ==> next_y(c) == c.y && next_x(c) == next_offset(c),
{
    let v = is_vertical(c);
    let sp = spacing_along(c, v);
    if c.containers@.len() > 0 {
        lemma_reach_bounds(origin_along(c, v), sp, c.containers@.last(), v);
    }
    let br = buttons_reach(c.buttons@, c.buttons@.len() as int, sp, v, containers_end(c));
    lemma_buttons_reach_bounds(c.buttons@, c.buttons@.len() as int, sp, v, containers_end(c));
    lemma_labels_reach_bounds(c.labels@, c.labels@.len() as int, sp, v, br);
}


/// The running maximum over buttons ends at its start or at the far edge
/// plus spacing of one of the buttons it went over.
proof fn lemma_buttons_reach_attained<M>(
    bs: Seq<Button<M>>,
    n: int,
    spacing: int,
    vertical: bool,
    acc: int,
)
    requires
        0 <= n <= bs.len(),
    ensures
        buttons_reach(bs, n, spacing, vertical, acc) == acc || exists|i: int|
            0 <= i < n && buttons_reach(bs, n, spacing, vertical, acc) == button_far_edge(
                #[trigger] bs[i],
                vertical,
            ) + spacing,
    decreases n,
{
    if n > 0 {
        lemma_buttons_reach_attained(bs, n - 1, spacing, vertical, acc);
        let r = buttons_reach(bs, n, spacing, vertical, acc);
        if r == button_far_edge(bs[n - 1], vertical) + spacing {
            assert(0 <= n - 1 < n && r == button_far_edge(bs[n - 1], vertical) + spacing);
        } else if r != acc {
            let i = choose|i: int|
                0 <= i < n - 1 && buttons_reach(bs, n - 1, spacing, vertical, acc)
                    == button_far_edge(#[trigger] bs[i], vertical) + spacing;
            assert(0 <= i < n && r == button_far_edge(bs[i], vertical) + spacing);
        }
    }
}

/// The running maximum over labels ends at its start or at the far edge
/// plus spacing of one of the labels it went over.
proof fn lemma_labels_reach_attained(
    ls: Seq<Label>,
    n: int,
    spacing: int,
    vertical: bool,
    acc: int,
)
    requires
        0 <= n <= ls.len(),
    ensures
        labels_reach(ls, n, spacing, vertical, acc) == acc || exists|i: int|
            0 <= i < n && labels_reach(ls, n, spacing, vertical, acc) == label_far_edge(
                #[trigger] ls[i],
                vertical,
            ) + spacing,
    decreases n,
{
    if n > 0 {
        lemma_labels_reach_attained(ls, n - 1, spacing, vertical, acc);
        let r = labels_reach(ls, n, spacing, vertical, acc);
        if r == label_far_edge(ls[n - 1], vertical) + spacing {
            assert(0 <= n - 1 < n && r == label_far_edge(ls[n - 1], vertical) + spacing);
        } else if r != acc {
            let i = choose|i: int|
                0 <= i < n - 1 && labels_reach(ls, n - 1, spacing, vertical, acc)
                    == label_far_edge(#[trigger] ls[i], vertical) + spacing;
            assert(0 <= i < n && r == label_far_edge(ls[i], vertical) + spacing);
        }
    }
}

/// The running maximum over the first `n` children is at least its start
/// and at least the reach of each of them, and ends at its start or at the
/// reach of one of them.
proof fn lemma_children_reach_max<M>(c: WidgetContainer<M>, n: int, vertical: bool, acc: int)
    requires
        0 <= n <= c.containers@.len(),
    ensures
        children_reach(c, n, vertical, acc) >= acc,
        forall|i: int|
            0 <= i < n ==> children_reach(c, n, vertical, acc) >= reach(
                origin_along(c, vertical),
                spacing_along(c, vertical),
                #[trigger] c.containers@[i],
                vertical,
            ),
        children_reach(c, n, vertical, acc) == acc || exists|i: int|
            0 <= i < n && children_reach(c, n, vertical, acc) == reach(
                origin_along(c, vertical),
                spacing_along(c, vertical),
                #[trigger] c.containers@[i],
                vertical,
            ),
    decreases n,
{
    if n > 0 {
        lemma_children_reach_max(c, n - 1, vertical, acc);
        let o = origin_along(c, vertical);
        let sp = spacing_along(c, vertical);
        let r = children_reach(c, n, vertical, acc);
        if r == reach(o, sp, c.containers@[n - 1], vertical) {
            assert(0 <= n - 1 < n && r == reach(o, sp, c.containers@[n - 1], vertical));
        } else if r != acc {
            let i = choose|i: int|
                0 <= i < n - 1 && children_reach(c, n - 1, vertical, acc) == reach(
                    o,
                    sp,
                    #[trigger] c.containers@[i],
                    vertical,
                );
            assert(0 <= i < n && r == reach(o, sp, c.containers@[i], vertical));
        }
    }
}

/// How far a container reaches is the largest of: the origin it is measured
/// from, the reach of every one of its child containers (each measured by
/// the container itself), and the far edge plus spacing of every one of its
/// buttons and labels.  It is at least each of these, and equal to one.
pub proof fn lemma_reach_is_maximum<M>(origin: int, spacing: int, c: WidgetContainer<M>, vertical: bool)
    ensures
        reach(origin, spacing, c, vertical) >= origin,
        forall|i: int|
            0 <= i < c.containers@.len() ==> reach(origin, spacing, c, vertical) >= reach(
                origin_along(c, vertical),
                spacing_along(c, vertical),
                #[trigger] c.containers@[i],
                vertical,
            ),
        forall|i: int|
            0 <= i < c.buttons@.len() ==> reach(origin, spacing, c, vertical) >= button_far_edge(
                #[trigger] c.buttons@[i],
                vertical,
            ) + spacing,
        forall|i: int|
            0 <= i < c.labels@.len() ==> reach(origin, spacing, c, vertical) >= label_far_edge(
                #[trigger] c.labels@[i],
                vertical,
            ) + spacing,
        ({
            let r = reach(origin, spacing, c, vertical);
            ||| r == origin
            ||| exists|i: int|
                0 <= i < c.containers@.len() && r == reach(
                    origin_along(c, vertical),
                    spacing_along(c, vertical),
                    #[trigger] c.containers@[i],
                    vertical,
                )
            ||| exists|i: int|
                0 <= i < c.buttons@.len() && r == button_far_edge(#[trigger] c.buttons@[i], vertical)
                    + spacing
            ||| exists|i: int|
                0 <= i < c.labels@.len() && r == label_far_edge(#[trigger] c.labels@[i], vertical)
                    + spacing
        }),
{
    let cn = c.containers@.len() as int;
    let cr = children_reach(c, cn, vertical, origin);
    let br = buttons_reach(c.buttons@, c.buttons@.len() as int, spacing, vertical, cr);
    lemma_children_reach_max(c, cn, vertical, origin);
    lemma_buttons_reach_bounds(c.buttons@, c.buttons@.len() as int, spacing, vertical, cr);
    lemma_labels_reach_bounds(c.labels@, c.labels@.len() as int, spacing, vertical, br);
    lemma_buttons_reach_attained(c.buttons@, c.buttons@.len() as int, spacing, vertical, cr);
    lemma_labels_reach_attained(c.labels@, c.labels@.len() as int, spacing, vertical, br);
}

} // verus!
