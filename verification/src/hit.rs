//! Finding the button under a pointer event.
use vstd::prelude::*;
use crate::layout::{WidgetContainer, is_outline};
use crate::widgets::Button;

verus! {

/// The first of the first `n` buttons that covers `(x, y)`.
pub open spec fn buttons_first_hit<M>(bs: Seq<Button<M>>, n: int, x: int, y: int) -> Option<
    Button<M>,
>
    decreases n,
{
    if n <= 0 {
        None
    } else {
        match buttons_first_hit(bs, n - 1, x, y) {
            Some(b) => Some(b),
            None => if bs[n - 1].covers(x, y) {
                Some(bs[n - 1])
            } else {
                None
            },
        }
    }
}

/// The first hit found in the first `n` child containers of `c`, searched
/// in order.
pub open spec fn children_first_hit<M>(c: WidgetContainer<M>, n: int, x: int, y: int) -> Option<
    Button<M>,
>
    decreases c, n,
{
    if n <= 0 || n > c.containers@.len() {
        None
    } else {
        match children_first_hit(c, n - 1, x, y) {
            Some(b) => Some(b),
            None => first_hit(c.containers@[n - 1], x, y),
        }
    }
}

/// The button that an event at `(x, y)` falls on: child containers are
/// searched first, in order and depth first, then the container's own
/// buttons in order.
pub open spec fn first_hit<M>(c: WidgetContainer<M>, x: int, y: int) -> Option<Button<M>>
    decreases c, c.containers@.len() + 1,
{
    match children_first_hit(c, c.containers@.len() as int, x, y) {
        Some(b) => Some(b),
        None => buttons_first_hit(c.buttons@, c.buttons@.len() as int, x, y),
    }
}

/// Some button anywhere in the tree of `c` covers `(x, y)`.
pub open spec fn has_hit<M>(c: WidgetContainer<M>, x: int, y: int) -> bool
    decreases c,
{
    ||| exists|i: int| 0 <= i < c.containers@.len() && has_hit(#[trigger] c.containers@[i], x, y)
    ||| exists|i: int| 0 <= i < c.buttons@.len() && (#[trigger] c.buttons@[i]).covers(x, y)
}

/// `b` is a button of `c` or of a container below it.
pub open spec fn holds_button<M>(c: WidgetContainer<M>, b: Button<M>) -> bool
    decreases c,
{
    ||| exists|i: int| 0 <= i < c.containers@.len() && holds_button(#[trigger] c.containers@[i], b)
    ||| exists|i: int| 0 <= i < c.buttons@.len() && #[trigger] c.buttons@[i] == b
}

impl<Message> WidgetContainer<Message> {
    /// The button that an event at `(event_x, event_y)` falls on, if any:
    /// the child containers are searched first, in order and depth first,
    /// then this container's own buttons in order.
    pub fn is_widget_interacted(&self, event_x: i16, event_y: i16) -> (hit: Option<&Button<Message>>)
        ensures
            match hit {
                Some(b) => first_hit(*self, event_x as int, event_y as int) == Some(*b),
                None => first_hit(*self, event_x as int, event_y as int) is None,
            },
        decreases *self,
    {
        let ghost x = event_x as int;
        let ghost y = event_y as int;
        let mut i: usize = 0;
        while i < self.containers.len()
            invariant
                i <= self.containers@.len(),
                x == event_x as int,
                y == event_y as int,
                children_first_hit(*self, i as int, x, y) is None,
            decreases self.containers@.len() - i,
        {
            if let Some(button) = self.containers[i].is_widget_interacted(event_x, event_y) {
                proof {
                    lemma_children_first_hit_stable(
                        *self,
                        i + 1,
                        self.containers@.len() as int,
                        x,
                        y,
                    );
                }
                return Some(button);
            }
            i += 1;
        }
        let mut i: usize = 0;
        while i < self.buttons.len()
            invariant
                i <= self.buttons@.len(),
                x == event_x as int,
                y == event_y as int,
                children_first_hit(*self, self.containers@.len() as int, x, y) is None,
                buttons_first_hit(self.buttons@, i as int, x, y) is None,
            decreases self.buttons@.len() - i,
        {
            let button = &self.buttons[i];
            if button.is_button_interacted(event_x, event_y) {
                proof {
                    lemma_buttons_first_hit_stable(
                        self.buttons@,
                        i + 1,
                        self.buttons@.len() as int,
                        x,
                        y,
                    );
                }
                return Some(button);
            }
            i += 1;
        }
        None
    }
}

/// The first hit among the first `n` buttons covers the point and is one of
/// them; there is none exactly when none of them covers the point.
pub proof fn lemma_buttons_first_hit<M>(bs: Seq<Button<M>>, n: int, x: int, y: int)
    requires
        0 <= n <= bs.len(),
    ensures
        match buttons_first_hit(bs, n, x, y) {
            Some(b) => b.covers(x, y) && exists|i: int| 0 <= i < n && #[trigger] bs[i] == b,
            None => forall|i: int| 0 <= i < n ==> !(#[trigger] bs[i]).covers(x, y),
        },
    decreases n,
{
    if n > 0 {
        lemma_buttons_first_hit(bs, n - 1, x, y);
        match buttons_first_hit(bs, n - 1, x, y) {
            Some(b) => {
                let i = choose|i: int| 0 <= i < n - 1 && #[trigger] bs[i] == b;
                assert(bs[i] == b);
            },
            None => {
                if bs[n - 1].covers(x, y) {
                    assert(bs[n - 1] == bs[n - 1]);
                }
            },
        }
    }
}

/// The hit-test law: the button an event is delivered to covers the event's
/// position and belongs to the tree, and an event is delivered to no button
/// exactly when no button anywhere in the tree covers its position.
pub proof fn lemma_first_hit_sound_and_complete<M>(c: WidgetContainer<M>, x: int, y: int)
    ensures
        match first_hit(c, x, y) {
            Some(b) => b.covers(x, y) && holds_button(c, b),
            None => !has_hit(c, x, y),
        },
    decreases c,
{
    lemma_children_first_hit(c, c.containers@.len() as int, x, y);
    lemma_buttons_first_hit(c.buttons@, c.buttons@.len() as int, x, y);
    match children_first_hit(c, c.containers@.len() as int, x, y) {
        Some(b) => {},
        None => {
            match buttons_first_hit(c.buttons@, c.buttons@.len() as int, x, y) {
                Some(b) => {
                    let i = choose|i: int| 0 <= i < c.buttons@.len() && #[trigger] c.buttons@[i] == b;
                    assert(c.buttons@[i] == b);
                },
                None => {},
            }
        },
    }
}

/// The search over the first `n` children finds a covering button held by
/// one of them, or finds nothing exactly when none of them holds one.
proof fn lemma_children_first_hit<M>(c: WidgetContainer<M>, n: int, x: int, y: int)
    requires
        0 <= n <= c.containers@.len(),
    ensures
        match children_first_hit(c, n, x, y) {
            Some(b) => b.covers(x, y) && exists|i: int|
                0 <= i < n && holds_button(#[trigger] c.containers@[i], b),
            None => forall|i: int| 0 <= i < n ==> !has_hit(#[trigger] c.containers@[i], x, y),
        },
    decreases c, n,
{
    if n > 0 {
        lemma_children_first_hit(c, n - 1, x, y);
        lemma_first_hit_sound_and_complete(c.containers@[n - 1], x, y);
        match children_first_hit(c, n - 1, x, y) {
            Some(b) => {
                let i = choose|i: int| 0 <= i < n - 1 && holds_button(#[trigger] c.containers@[i], b);
                assert(holds_button(c.containers@[i], b));
            },
            None => {
                match first_hit(c.containers@[n - 1], x, y) {
                    Some(b) => {
                        assert(holds_button(c.containers@[n - 1], b));
                    },
                    None => {},
                }
            },
        }
    }
}


/// Once the search over a prefix of the buttons has found a hit, searching a
/// longer prefix finds the same one.
proof fn lemma_buttons_first_hit_stable<M>(bs: Seq<Button<M>>, n: int, m: int, x: int, y: int)
    requires
        n <= m,
        buttons_first_hit(bs, n, x, y) is Some,
    ensures
        buttons_first_hit(bs, m, x, y) == buttons_first_hit(bs, n, x, y),
    decreases m - n,
{
    if n < m {
        lemma_buttons_first_hit_stable(bs, n, m - 1, x, y);
    }
}

/// Once the search over a prefix of the children has found a hit, searching
/// a longer prefix finds the same one.
proof fn lemma_children_first_hit_stable<M>(
    c: WidgetContainer<M>,
    n: int,
    m: int,
    x: int,
    y: int,
)
    requires
        n <= m <= c.containers@.len(),
        children_first_hit(c, n, x, y) is Some,
    ensures
        children_first_hit(c, m, x, y) == children_first_hit(c, n, x, y),
    decreases m - n,
{
    if n < m {
        lemma_children_first_hit_stable(c, n, m - 1, x, y);
    }
}


/// A click anywhere on the rectangle of a container's last button (as
/// `create_button` lays it out, with a width and height that are not
/// negative) is answered by some button of the container.
pub proof fn lemma_new_button_answers_clicks<M>(
    c: WidgetContainer<M>,
    x: int,
    y: int,
    w: int,
    h: int,
    px: int,
    py: int,
)
    requires
        c.buttons@.len() > 0,
        is_outline(c.buttons@.last().points, x, y, w, h),
        x <= px <= x + w,
        y <= py <= y + h,
    ensures
        first_hit(c, px, py) is Some,
{
    let i = c.buttons@.len() - 1;
    assert(c.buttons@[i].covers(px, py));
    assert(has_hit(c, px, py));
    lemma_first_hit_sound_and_complete(c, px, py);
}

} // verus!
