//! Turning a widget tree into the drawing requests that paint it.
//!
//! Painting a tree paints each child container first (in order, depth
//! first), then each button, then each label.  A button is painted as an
//! optional outline, a filled polygon and its text roughly centered on it;
//! a label as its text.
use vstd::prelude::*;
use crate::color::{Color, palette_index};
use crate::contexts::{
    GraphicalContextMatrix,
    gc,
    apply_colors_to_button,
    apply_only_background_color_to_button,
    apply_only_foreground_color_to_button,
    default_button_contexts,
    default_label_context,
    only_background_contexts,
    only_foreground_contexts,
    own_colors_contexts,
};
use crate::layout::WidgetContainer;
use crate::widgets::{Button, Label, Point, fits_i16, label_height, text_len_i16};
use crate::window::{Gcontext, XWindow};

verus! {

/// One drawing request to the X server.
#[derive(Debug, Clone, PartialEq, Eq)]
pub enum DrawCommand {
    /// Draw the polyline through `points` with `gc`.
    Outline { gc: Gcontext, points: [Point; 5] },
    /// Fill the convex polygon `points` with `gc`.
    Fill { gc: Gcontext, points: [Point; 5] },
    /// Write `text` with `gc`, its baseline starting at `(x, y)`.
    Text { gc: Gcontext, x: i16, y: i16, text: String },
}

/// Integer division by two, rounding toward zero.
pub open spec fn half_toward_zero(v: int) -> int {
    if v >= 0 {
        v / 2
    } else {
        -((-v) / 2)
    }
}

/// Where the text of a button starts: half way across the button, moved
/// left by three pixels per byte of text.
pub open spec fn text_x<M>(b: Button<M>) -> int {
    b.points[0].x + half_toward_zero(b.points[2].x - b.points[0].x) - text_len_i16(b.text@) * 3
}

/// The baseline of a button's text: half way down the button, plus three.
pub open spec fn text_y<M>(b: Button<M>) -> int {
    b.points[0].y - half_toward_zero(b.points[0].y - b.points[2].y) + 3
}

/// The text position of `b` can be computed without overflow.
pub open spec fn text_anchor_ok<M>(b: Button<M>) -> bool {
    &&& fits_i16(b.points[2].x - b.points[0].x)
    &&& fits_i16(b.points[0].x + half_toward_zero(b.points[2].x - b.points[0].x))
    &&& fits_i16(text_len_i16(b.text@) * 3)
    &&& fits_i16(text_x(b))
    &&& fits_i16(b.points[0].y - b.points[2].y)
    &&& fits_i16(b.points[0].y - half_toward_zero(b.points[0].y - b.points[2].y))
    &&& fits_i16(text_y(b))
}

/// The requests that paint button `b` with background context `bg_gc` and
/// text context `fg_gc`: with a border, an outline in `border_gc` if there
/// is one; without a border, an outline in `bg_gc`; then the filled shape
/// and the text.
pub open spec fn button_commands<M>(
    b: Button<M>,
    bg_gc: Gcontext,
    fg_gc: Gcontext,
    border_gc: Option<Gcontext>,
    border: u32,
) -> Seq<DrawCommand> {
    let outline = if border > 0 {
        match border_gc {
            Some(g) => seq![DrawCommand::Outline { gc: g, points: b.points }],
            None => Seq::<DrawCommand>::empty(),
        }
    } else {
        seq![DrawCommand::Outline { gc: bg_gc, points: b.points }]
    };
    outline + seq![
        DrawCommand::Fill { gc: bg_gc, points: b.points },
        DrawCommand::Text { gc: fg_gc, x: text_x(b) as i16, y: text_y(b) as i16, text: b.text },
    ]
}

/// The contexts button `b` is painted with in a window whose background is
/// `window_bg`, chosen by which of its own colors it has.
pub open spec fn button_contexts<M>(
    m: GraphicalContextMatrix,
    window_bg: Color,
    b: Button<M>,
) -> Option<(Gcontext, Gcontext)> {
    match (b.background_color, b.foreground_color) {
        (None, None) => Some(default_button_contexts(m, window_bg)),
        (Some(_), None) => only_background_contexts(m, window_bg, b),
        (None, Some(_)) => only_foreground_contexts(m, window_bg, b),
        (Some(_), Some(_)) => Some(own_colors_contexts(m, window_bg, b)),
    }
}

/// The requests that paint button `b`, with no border context.
pub open spec fn painted_button<M>(m: GraphicalContextMatrix, window_bg: Color, b: Button<M>) -> Seq<
    DrawCommand,
> {
    match button_contexts(m, window_bg, b) {
        Some((bg_gc, fg_gc)) => button_commands(b, bg_gc, fg_gc, None, b.border),
        None => Seq::<DrawCommand>::empty(),
    }
}

/// The requests that paint the first `n` buttons, in order.
pub open spec fn buttons_commands<M>(
    m: GraphicalContextMatrix,
    window_bg: Color,
    bs: Seq<Button<M>>,
    n: int,
) -> Seq<DrawCommand>
    decreases n,
{
    if n <= 0 {
        Seq::<DrawCommand>::empty()
    } else {
        buttons_commands(m, window_bg, bs, n - 1) + painted_button(m, window_bg, bs[n - 1])
    }
}

/// The request that writes label `l` with `gc`.
pub open spec fn label_command(l: Label, gc: Gcontext) -> DrawCommand {
    DrawCommand::Text { gc, x: l.begin_x, y: (l.begin_y + label_height()) as i16, text: l.text }
}

/// The requests that write the first `n` labels with `gc`, in order.
pub open spec fn labels_commands(ls: Seq<Label>, n: int, gc: Gcontext) -> Seq<DrawCommand>
    decreases n,
{
    if n <= 0 {
        Seq::<DrawCommand>::empty()
    } else {
        labels_commands(ls, n - 1, gc).push(label_command(ls[n - 1], gc))
    }
}

/// The requests that paint the first `n` child containers of `c`, in order.
pub open spec fn children_commands<M>(
    m: GraphicalContextMatrix,
    window_bg: Color,
    c: WidgetContainer<M>,
    n: int,
) -> Seq<DrawCommand>
    decreases c, n,
{
    if n <= 0 || n > c.containers@.len() {
        Seq::<DrawCommand>::empty()
    } else {
        children_commands(m, window_bg, c, n - 1) + tree_commands(
            m,
            window_bg,
            c.containers@[n - 1],
        )
    }
}

/// The requests that paint container `c`: its child containers, then its
/// buttons, then its labels.
pub open spec fn tree_commands<M>(
    m: GraphicalContextMatrix,
    window_bg: Color,
    c: WidgetContainer<M>,
) -> Seq<DrawCommand>
    decreases c, c.containers@.len() + 1,
{
    children_commands(m, window_bg, c, c.containers@.len() as int) + buttons_commands(
        m,
        window_bg,
        c.buttons@,
        c.buttons@.len() as int,
    ) + labels_commands(c.labels@, c.labels@.len() as int, default_label_context(m, window_bg))
}

/// Every position in the tree of `c` that painting computes fits in `i16`.
pub open spec fn drawable<M>(c: WidgetContainer<M>) -> bool
    decreases c,
{
    &&& forall|i: int| 0 <= i < c.containers@.len() ==> drawable(#[trigger] c.containers@[i])
    &&& forall|i: int| 0 <= i < c.buttons@.len() ==> text_anchor_ok(#[trigger] c.buttons@[i])
    &&& forall|i: int|
        0 <= i < c.labels@.len() ==> fits_i16((#[trigger] c.labels@[i]).begin_y + label_height())
}

impl<Message> Button<Message> {
    /// Appends the requests that paint the button with background context
    /// `button_background_gc` and text context `button_foreground_gc`.
    pub fn draw_button(
        &self,
        button_background_gc: Gcontext,
        button_foreground_gc: Gcontext,
        border_gc: Option<Gcontext>,
        border: u32,
        commands: &mut Vec<DrawCommand>,
    )
        requires
            text_anchor_ok(*self),
        ensures
            final(commands)@ == old(commands)@ + button_commands(
                *self,
                button_background_gc,
                button_foreground_gc,
                border_gc,
                border,
            ),
    {
        let ghost start = commands@;
        if border > 0 {
            if let Some(border_gc) = border_gc {
                commands.push(DrawCommand::Outline { gc: border_gc, points: self.points });
            }
        } else {
            commands.push(DrawCommand::Outline { gc: button_background_gc, points: self.points });
        }
        commands.push(DrawCommand::Fill { gc: button_background_gc, points: self.points });
        let x = self.points[0].x + (self.points[2].x - self.points[0].x) / 2
            - self.text.as_str().len() as i16 * 3;
        let y = self.points[0].y - (self.points[0].y - self.points[2].y) / 2 + 3;
        commands.push(DrawCommand::Text { gc: button_foreground_gc, x, y, text: self.text.clone() });
        assert(commands@ =~= start + button_commands(
            *self,
            button_background_gc,
            button_foreground_gc,
            border_gc,
            border,
        ));
    }
}


/// Appends the requests that paint `parent_container` in `window`: its
/// child containers first (in order, depth first), then each button with
/// the contexts chosen by its own colors, then each label with the window's
/// label context.
pub fn draw_widgets<C, Message>(
    window: &XWindow<C>,
    default_gc_values: &GraphicalContextMatrix,
    parent_container: &WidgetContainer<Message>,
    button_hovered_id: u128,
    commands: &mut Vec<DrawCommand>,
)
    requires
        drawable(*parent_container),
    ensures
        final(commands)@ == old(commands)@ + tree_commands(
            *default_gc_values,
            window.background_color,
            *parent_container,
        ),
    decreases *parent_container,
{
    let ghost m = *default_gc_values;
    let ghost bg = window.background_color;
    let ghost start = commands@;
    let mut i: usize = 0;
    while i < parent_container.containers.len()
        invariant
            i <= parent_container.containers@.len(),
            m == *default_gc_values,
            bg == window.background_color,
            drawable(*parent_container),
            commands@ == start + children_commands(m, bg, *parent_container, i as int),
        decreases parent_container.containers@.len() - i,
    {
        draw_widgets(window, default_gc_values, &parent_container.containers[i], button_hovered_id, commands);
        assert(commands@ =~= start + children_commands(m, bg, *parent_container, i + 1));
        i += 1;
    }
    let ghost after_children = commands@;
    let buttons = &parent_container.buttons;
    let mut i: usize = 0;
    while i < buttons.len()
        invariant
            i <= buttons@.len(),
            *buttons == parent_container.buttons,
            m == *default_gc_values,
            bg == window.background_color,
            drawable(*parent_container),
            commands@ == after_children + buttons_commands(m, bg, buttons@, i as int),
        decreases buttons@.len() - i,
    {
        let button = &buttons[i];
        assert(text_anchor_ok(parent_container.buttons@[i as int]));
        let ghost before = commands@;
        if button.id == button_hovered_id && button.hover {
            // A hovered button is painted like any other.
        }
        if button.background_color.is_none() && button.foreground_color.is_none() {
            let (default_background_gc, default_foreground_gc) =
                default_gc_values.get_default_button_contexts(window);
            button.draw_button(
                default_background_gc,
                default_foreground_gc,
                None,
                button.border,
                commands,
            );
        } else if button.background_color.is_some() && button.foreground_color.is_none() {
            if let Some((background_gc, foreground_gc)) = apply_only_background_color_to_button(
                window,
                button,
                default_gc_values,
            ) {
                button.draw_button(background_gc, foreground_gc, None, button.border, commands);
            }
        } else if button.foreground_color.is_some() && button.background_color.is_none() {
            if let Some((background_gc, foreground_gc)) = apply_only_foreground_color_to_button(
                window,
                button,
                default_gc_values,
            ) {
                button.draw_button(background_gc, foreground_gc, None, button.border, commands);
            }
        } else {
            let (background_gc, foreground_gc) = apply_colors_to_button(
                window,
                button,
                default_gc_values,
            );
            button.draw_button(background_gc, foreground_gc, None, button.border, commands);
        }
        assert(commands@ =~= before + painted_button(m, bg, buttons@[i as int]));
        assert(commands@ =~= after_children + buttons_commands(m, bg, buttons@, i + 1));
        i += 1;
    }
    let ghost after_buttons = commands@;
    let labels = &parent_container.labels;
    let label_gc = default_gc_values.get_default_label_context(window);
    let mut i: usize = 0;
    while i < labels.len()
        invariant
            i <= labels@.len(),
            *labels == parent_container.labels,
            m == *default_gc_values,
            bg == window.background_color,
            label_gc == default_label_context(m, bg),
            drawable(*parent_container),
            commands@ == after_buttons + labels_commands(labels@, i as int, label_gc),
        decreases labels@.len() - i,
    {
        let label = &labels[i];
        assert(fits_i16(parent_container.labels@[i as int].begin_y + label_height()));
        commands.push(
            DrawCommand::Text {
                gc: label_gc,
                x: label.begin_x,
                y: label.begin_y + 15,
                text: label.text.clone(),
            },
        );
        assert(commands@ =~= after_buttons + labels_commands(labels@, i + 1, label_gc));
        i += 1;
    }
    assert(commands@ =~= start + tree_commands(m, bg, *parent_container));
}


/// Whether the text position of `button` can be computed without overflow.
fn text_anchor_fits<Message>(button: &Button<Message>) -> (ok: bool)
    ensures
        ok == text_anchor_ok(*button),
{
    let x0: i32 = button.points[0].x as i32;
    let y0: i32 = button.points[0].y as i32;
    let x2: i32 = button.points[2].x as i32;
    let y2: i32 = button.points[2].y as i32;
    let dx: i32 = x2 - x0;
    if dx < -32768 || dx > 32767 {
        return false;
    }
    let mid_x: i32 = x0 + dx / 2;
    if mid_x < -32768 || mid_x > 32767 {
        return false;
    }
    let shift: i32 = (button.text.as_str().len() as i16) as i32 * 3;
    if shift < -32768 || shift > 32767 {
        return false;
    }
    let tx: i32 = mid_x - shift;
    if tx < -32768 || tx > 32767 {
        return false;
    }
    let dy: i32 = y0 - y2;
    if dy < -32768 || dy > 32767 {
        return false;
    }
    let mid_y: i32 = y0 - dy / 2;
    if mid_y < -32768 || mid_y > 32767 {
        return false;
    }
    let ty: i32 = mid_y + 3;
    ty <= 32767
}

/// Whether painting `container` computes only positions that fit in `i16`,
/// which `draw_widgets` needs.
pub fn can_draw<Message>(container: &WidgetContainer<Message>) -> (ok: bool)
    ensures
        ok == drawable(*container),
    decreases *container,
{
    let mut i: usize = 0;
    while i < container.containers.len()
        invariant
            i <= container.containers@.len(),
            forall|k: int| 0 <= k < i ==> drawable(#[trigger] container.containers@[k]),
        decreases container.containers@.len() - i,
    {
        if !can_draw(&container.containers[i]) {
            return false;
        }
        i += 1;
    }
    let mut i: usize = 0;
    while i < container.buttons.len()
        invariant
            i <= container.buttons@.len(),
            forall|k: int| 0 <= k < i ==> text_anchor_ok(#[trigger] container.buttons@[k]),
        decreases container.buttons@.len() - i,
    {
        if !text_anchor_fits(&container.buttons[i]) {
            return false;
        }
        i += 1;
    }
    let mut i: usize = 0;
    while i < container.labels.len()
        invariant
            i <= container.labels@.len(),
            forall|k: int|
                0 <= k < i ==> fits_i16((#[trigger] container.labels@[k]).begin_y + label_height()),
        decreases container.labels@.len() - i,
    {
        if container.labels[i].begin_y > 32767 - 15 {
            return false;
        }
        i += 1;
    }
    true
}


/// How many text requests `s` holds.
pub open spec fn text_count(s: Seq<DrawCommand>) -> nat
    decreases s.len(),
{
    if s.len() == 0 {
        0
    } else {
        text_count(s.drop_last()) + if s.last() is Text {
            1nat
        } else {
            0nat
        }
    }
}

/// How many buttons and labels the first `n` child containers of `c` hold,
/// down to the bottom of their trees.
pub open spec fn children_widgets<M>(c: WidgetContainer<M>, n: int) -> nat
    decreases c, n,
{
    if n <= 0 || n > c.containers@.len() {
        0
    } else {
        children_widgets(c, n - 1) + tree_widgets(c.containers@[n - 1])
    }
}

/// How many buttons and labels the tree of `c` holds.
pub open spec fn tree_widgets<M>(c: WidgetContainer<M>) -> nat
    decreases c, c.containers@.len() + 1,
{
    children_widgets(c, c.containers@.len() as int) + c.buttons@.len() + c.labels@.len()
}

proof fn lemma_text_count_add(a: Seq<DrawCommand>, b: Seq<DrawCommand>)
    ensures
        text_count(a + b) == text_count(a) + text_count(b),
    decreases b.len(),
{
    if b.len() == 0 {
        assert(a + b =~= a);
    } else {
        assert((a + b).drop_last() =~= a + b.drop_last());
        lemma_text_count_add(a, b.drop_last());
    }
}

/// Every button is painted: whatever colors it has, some contexts are
/// chosen for it, and its requests hold exactly one text.
proof fn lemma_painted_button_one_text<M>(m: GraphicalContextMatrix, window_bg: Color, b: Button<M>)
    ensures
        button_contexts(m, window_bg, b) is Some,
        text_count(painted_button(m, window_bg, b)) == 1,
{
    let (bg_gc, fg_gc) = button_contexts(m, window_bg, b)->0;
    let cmds = button_commands(b, bg_gc, fg_gc, None, b.border);
    let outline = if b.border > 0 {
        Seq::<DrawCommand>::empty()
    } else {
        seq![DrawCommand::Outline { gc: bg_gc, points: b.points }]
    };
    let rest = seq![
        DrawCommand::Fill { gc: bg_gc, points: b.points },
        DrawCommand::Text { gc: fg_gc, x: text_x(b) as i16, y: text_y(b) as i16, text: b.text },
    ];
    assert(cmds == outline + rest);
    lemma_text_count_add(outline, rest);
    reveal_with_fuel(text_count, 3);
    assert(rest.drop_last() =~= seq![DrawCommand::Fill { gc: bg_gc, points: b.points }]);
    assert(rest.drop_last().drop_last() =~= Seq::<DrawCommand>::empty());
    if b.border == 0 {
        assert(outline.drop_last() =~= Seq::<DrawCommand>::empty());
    }
}

proof fn lemma_buttons_texts<M>(m: GraphicalContextMatrix, window_bg: Color, bs: Seq<Button<M>>, n: int)
    requires
        0 <= n,
    ensures
        text_count(buttons_commands(m, window_bg, bs, n)) == n,
    decreases n,
{
    if n > 0 {
        lemma_buttons_texts(m, window_bg, bs, n - 1);
        lemma_painted_button_one_text(m, window_bg, bs[n - 1]);
        lemma_text_count_add(
            buttons_commands(m, window_bg, bs, n - 1),
            painted_button(m, window_bg, bs[n - 1]),
        );
    }
}

proof fn lemma_labels_texts(ls: Seq<Label>, n: int, gc: Gcontext)
    requires
        0 <= n,
    ensures
        text_count(labels_commands(ls, n, gc)) == n,
    decreases n,
{
    if n > 0 {
        lemma_labels_texts(ls, n - 1, gc);
        assert(labels_commands(ls, n, gc).drop_last() =~= labels_commands(ls, n - 1, gc));
    }
}

proof fn lemma_children_texts<M>(m: GraphicalContextMatrix, window_bg: Color, c: WidgetContainer<M>, n: int)
    requires
        0 <= n <= c.containers@.len(),
    ensures
        text_count(children_commands(m, window_bg, c, n)) == children_widgets(c, n),
    decreases c, n,
{
    if n > 0 {
        lemma_children_texts(m, window_bg, c, n - 1);
        lemma_tree_texts(m, window_bg, c.containers@[n - 1]);
        lemma_text_count_add(
            children_commands(m, window_bg, c, n - 1),
            tree_commands(m, window_bg, c.containers@[n - 1]),
        );
    }
}

/// Painting a tree writes exactly one text for each button and each label
/// in it: no widget is skipped and none is written twice.
pub proof fn lemma_tree_texts<M>(m: GraphicalContextMatrix, window_bg: Color, c: WidgetContainer<M>)
    ensures
        text_count(tree_commands(m, window_bg, c)) == tree_widgets(c),
    decreases c,
{
    let ch = children_commands(m, window_bg, c, c.containers@.len() as int);
    let bt = buttons_commands(m, window_bg, c.buttons@, c.buttons@.len() as int);
    let lb = labels_commands(c.labels@, c.labels@.len() as int, default_label_context(m, window_bg));
    lemma_children_texts(m, window_bg, c, c.containers@.len() as int);
    lemma_buttons_texts(m, window_bg, c.buttons@, c.buttons@.len() as int);
    lemma_labels_texts(c.labels@, c.labels@.len() as int, default_label_context(m, window_bg));
    lemma_text_count_add(ch, bt);
    lemma_text_count_add(ch + bt, lb);
}


/// The context of the second-to-last request of `s` if it fills a shape.
pub open spec fn fill_context(s: Seq<DrawCommand>) -> Option<Gcontext> {
    if s.len() >= 2 {
        match s[s.len() - 2] {
            DrawCommand::Fill { gc, .. } => Some(gc),
            _ => None,
        }
    } else {
        None
    }
}

/// The context of the last request of `s` if it writes text.
pub open spec fn text_context(s: Seq<DrawCommand>) -> Option<Gcontext> {
    if s.len() >= 1 {
        match s.last() {
            DrawCommand::Text { gc, .. } => Some(gc),
            _ => None,
        }
    } else {
        None
    }
}

/// Which cells of the context matrix paint a button, by the colors it has
/// of its own (row = background, column = text color):
/// - no colors: on a black window the white cell with black text, (1, 1)
///   and (1, 0); otherwise the black cell with white text, (0, 0) and (0, 1);
/// - a background color `cb` only: filled with the diagonal cell (cb, cb),
///   written in row cb with black text on a black window and white text
///   otherwise;
/// - a text color `cf` only: filled as a button without colors, written in
///   column cf of the same row;
/// - both: filled with (cb, cb), written with (cb, cf), whatever the window.
/// The fill always comes right before the text, which ends the button.
pub proof fn lemma_button_paint_contexts<M>(m: GraphicalContextMatrix, window_bg: Color, b: Button<M>)
    ensures
        ({
            let s = painted_button(m, window_bg, b);
            let black = window_bg == Color::Black;
            &&& fill_context(s) is Some
            &&& text_context(s) is Some
            &&& match (b.background_color, b.foreground_color) {
                (None, None) => {
                    &&& fill_context(s)->0 == (if black {
                        gc(m, 1, 1)
                    } else {
                        gc(m, 0, 0)
                    })
                    &&& text_context(s)->0 == (if black {
                        gc(m, 1, 0)
                    } else {
                        gc(m, 0, 1)
                    })
                },
                (Some(cb), None) => {
                    &&& fill_context(s)->0 == gc(m, palette_index(cb), palette_index(cb))
                    &&& text_context(s)->0 == (if black {
                        gc(m, palette_index(cb), 0)
                    } else {
                        gc(m, palette_index(cb), 1)
                    })
                },
                (None, Some(cf)) => {
                    &&& fill_context(s)->0 == (if black {
                        gc(m, 1, 1)
                    } else {
                        gc(m, 0, 0)
                    })
                    &&& text_context(s)->0 == (if black {
                        gc(m, 1, palette_index(cf))
                    } else {
                        gc(m, 0, palette_index(cf))
                    })
                },
                (Some(cb), Some(cf)) => {
                    &&& fill_context(s)->0 == gc(m, palette_index(cb), palette_index(cb))
                    &&& text_context(s)->0 == gc(m, palette_index(cb), palette_index(cf))
                },
            }
        }),
{
    let (bg_gc, fg_gc) = button_contexts(m, window_bg, b)->0;
    let outline = if b.border > 0 {
        Seq::<DrawCommand>::empty()
    } else {
        seq![DrawCommand::Outline { gc: bg_gc, points: b.points }]
    };
    let rest = seq![
        DrawCommand::Fill { gc: bg_gc, points: b.points },
        DrawCommand::Text { gc: fg_gc, x: text_x(b) as i16, y: text_y(b) as i16, text: b.text },
    ];
    let s = painted_button(m, window_bg, b);
    assert(s == outline + rest);
    assert(s[s.len() - 2] == rest[0]);
    assert(s.last() == rest[1]);
}

} // verus!
