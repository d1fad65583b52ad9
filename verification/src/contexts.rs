//! Choosing the graphics contexts that widgets are painted with.
//!
//! A window owns one graphics context for each pair of palette colors: the
//! context at row `bg` and column `fg` paints with background `bg` and
//! foreground `fg`.
use vstd::prelude::*;
use crate::color::{COLORS, Color, color_at, palette_index, lemma_palette_round_trip};
use crate::widgets::Button;
use crate::window::{Gcontext, XWindow};

verus! {

/// The graphics contexts of a window, indexed by background and foreground
/// palette position.
pub struct GraphicalContextMatrix {
    pub gc_ids: [[Gcontext; 10]; 10],
}

/// The context with background `bg` and foreground `fg`.
pub open spec fn gc(m: GraphicalContextMatrix, bg: int, fg: int) -> Gcontext {
    m.gc_ids[bg][fg]
}

/// The background and text contexts of a button without colors of its own,
/// in a window whose background is `window_bg`: on black, white contexts
/// with black text; on any other background, black contexts with white
/// text.
pub open spec fn default_button_contexts(m: GraphicalContextMatrix, window_bg: Color) -> (
    Gcontext,
    Gcontext,
) {
    if window_bg == Color::Black {
        (gc(m, 1, 1), gc(m, 1, 0))
    } else {
        (gc(m, 0, 0), gc(m, 0, 1))
    }
}

/// The context labels are written with in a window whose background is
/// `window_bg`: white on black on a black window, black text on the
/// window's own background otherwise.
pub open spec fn default_label_context(m: GraphicalContextMatrix, window_bg: Color) -> Gcontext {
    if window_bg == Color::Black {
        gc(m, 0, 1)
    } else {
        gc(m, palette_index(window_bg), 0)
    }
}

/// The contexts of a button with a background color and no text color.
pub open spec fn only_background_contexts<M>(
    m: GraphicalContextMatrix,
    window_bg: Color,
    b: Button<M>,
) -> Option<(Gcontext, Gcontext)> {
    match b.background_color {
        Some(c) => {
            let i = palette_index(c);
            Some(
                (
                    gc(m, i, i),
                    if window_bg == Color::Black {
                        gc(m, i, 0)
                    } else {
                        gc(m, i, 1)
                    },
                ),
            )
        },
        None => None,
    }
}

/// The contexts of a button with a text color and no background color.
pub open spec fn only_foreground_contexts<M>(
    m: GraphicalContextMatrix,
    window_bg: Color,
    b: Button<M>,
) -> Option<(Gcontext, Gcontext)> {
    match b.foreground_color {
        Some(c) => {
            let j = palette_index(c);
            if window_bg == Color::Black {
                Some((gc(m, 1, 1), gc(m, 1, j)))
            } else {
                Some((gc(m, 0, 0), gc(m, 0, j)))
            }
        },
        None => None,
    }
}

/// The contexts of a button painted with both of its own colors.  Where one
/// of them is missing, the search falls back to the default background
/// context (for the text too); a text color alone is taken from the last
/// row of the palette.
pub open spec fn own_colors_contexts<M>(
    m: GraphicalContextMatrix,
    window_bg: Color,
    b: Button<M>,
) -> (Gcontext, Gcontext) {
    let d = default_button_contexts(m, window_bg).0;
    match (b.background_color, b.foreground_color) {
        (Some(cb), Some(cf)) => (
            gc(m, palette_index(cb), palette_index(cb)),
            gc(m, palette_index(cb), palette_index(cf)),
        ),
        (Some(cb), None) => (gc(m, palette_index(cb), palette_index(cb)), d),
        (None, Some(cf)) => (d, gc(m, 8, palette_index(cf))),
        (None, None) => (d, d),
    }
}

impl GraphicalContextMatrix {
    /// The contexts of a button that only has a background color of its
    /// own.  Whatever the window, this is the white context and the white
    /// context with black text.
    pub fn get_only_button_background_contexts<C>(&self, window: &XWindow<C>) -> (contexts: (
        Gcontext,
        Gcontext,
    ))
        ensures
            contexts == (gc(*self, 1, 1), gc(*self, 1, 0)),
    {
        if let Color::Black = window.background_color {
            let _background_gc = self.gc_ids[1][1];
            let _foreground_gc = self.gc_ids[1][0];
        }
        for bg in 0..COLORS {
            for fg in 0..COLORS {
                let background_color = Color::get(bg);
                let _foreground_color = Color::get(fg);
                if window.background_color == background_color {
                    let _background_gc = self.gc_ids[fg][fg];
                    let _foreground_gc = self.gc_ids[fg][0];
                }
            }
        }
        let background_gc = self.gc_ids[1][1];
        let foreground_gc = self.gc_ids[1][0];
        return (background_gc, foreground_gc);
    }

    /// The background and text contexts of a button without colors of its
    /// own.
    pub fn get_default_button_contexts<C>(&self, window: &XWindow<C>) -> (contexts: (
        Gcontext,
        Gcontext,
    ))
        ensures
            contexts == default_button_contexts(*self, window.background_color),
    {
        if let Color::Black = window.background_color {
            let background_gc = self.gc_ids[1][1];
            let foreground_gc = self.gc_ids[1][0];
            return (background_gc, foreground_gc);
        }
        for bg in 0..COLORS
            invariant
                window.background_color != Color::Black,
                forall|k: int| 0 <= k < bg ==> color_at(k) != window.background_color,
        {
            for fg in 0..COLORS
                invariant
                    window.background_color != Color::Black,
                    fg > 0 ==> color_at(bg as int) != window.background_color,
            {
                let background_color = Color::get(bg);
                let _foreground_color = Color::get(fg);
                if window.background_color == background_color {
                    let background_gc = self.gc_ids[fg][fg];
                    let foreground_gc = self.gc_ids[fg][1];
                    return (background_gc, foreground_gc);
                }
            }
        }
        proof {
            lemma_palette_round_trip(window.background_color, 0);
        }
        let background_gc = self.gc_ids[1][1];
        let foreground_gc = self.gc_ids[1][0];
        return (background_gc, foreground_gc);
    }

    /// The context labels are written with.
    pub fn get_default_label_context<C>(&self, window: &XWindow<C>) -> (context: Gcontext)
        ensures
            context == default_label_context(*self, window.background_color),
    {
        if let Color::Black = window.background_color {
            return self.gc_ids[0][1];
        }
        for bg in 0..COLORS
            invariant
                window.background_color != Color::Black,
                forall|k: int| 0 <= k < bg ==> color_at(k) != window.background_color,
        {
            for fg in 0..COLORS
                invariant
                    window.background_color != Color::Black,
                    forall|k: int| 0 <= k < bg ==> color_at(k) != window.background_color,
                    fg > 0 ==> color_at(bg as int) != window.background_color,
            {
                let background_color = Color::get(bg);
                if background_color == window.background_color {
                    proof {
                        lemma_palette_round_trip(window.background_color, bg as int);
                    }
                    return self.gc_ids[bg][0];
                }
            }
        }
        proof {
            lemma_palette_round_trip(window.background_color, 0);
        }
        self.gc_ids[0][1]
    }
}


/// The contexts a button that has a background color and no text color is
/// painted with: the background context of its color, with black text on a
/// black window and white text otherwise.  `None` when the button has no
/// background color, in which case it is not painted.
pub fn apply_only_background_color_to_button<Message, C>(
    window: &XWindow<C>,
    button: &Button<Message>,
    default_gc_values: &GraphicalContextMatrix,
) -> (contexts: Option<(Gcontext, Gcontext)>)
    ensures
        contexts == only_background_contexts(*default_gc_values, window.background_color, *button),
{
    for bg in 0..COLORS
        invariant
            forall|k: int| 0 <= k < bg ==> button.background_color != Some(color_at(k)),
    {
        for fg in 0..COLORS
            invariant
                forall|k: int| 0 <= k < bg ==> button.background_color != Some(color_at(k)),
                fg > 0 ==> button.background_color != Some(color_at(bg as int)),
        {
            let background_color = Color::get(bg);
            if button.is_background_color_match(&background_color) {
                proof {
                    lemma_palette_round_trip(background_color, bg as int);
                }
                let background_gc = default_gc_values.gc_ids[bg][bg];
                let foreground_gc = if window.background_color == Color::Black {
                    default_gc_values.gc_ids[bg][0]
                } else {
                    default_gc_values.gc_ids[bg][1]
                };
                return Some((background_gc, foreground_gc));
            }
        }
    }
    proof {
        if let Some(c) = button.background_color {
            lemma_palette_round_trip(c, 0);
        }
    }
    None
}

/// The contexts a button that has a text color and no background color is
/// painted with: on a black window the white background context with the
/// button's text color, otherwise the black one.  `None` when the button has
/// no text color, in which case it is not painted.
pub fn apply_only_foreground_color_to_button<Message, C>(
    window: &XWindow<C>,
    button: &Button<Message>,
    default_gc_values: &GraphicalContextMatrix,
) -> (contexts: Option<(Gcontext, Gcontext)>)
    ensures
        contexts == only_foreground_contexts(*default_gc_values, window.background_color, *button),
{
    for bg in 0..COLORS
        invariant
            bg > 0 ==> forall|k: int| 0 <= k < COLORS ==> button.foreground_color != Some(color_at(k)),
    {
        for fg in 0..COLORS
            invariant
                forall|k: int| 0 <= k < fg ==> button.foreground_color != Some(color_at(k)),
                bg > 0 ==> forall|k: int| 0 <= k < COLORS ==> button.foreground_color != Some(color_at(k)),
        {
            let foreground_color = Color::get(fg);
            if button.is_foreground_color_match(&foreground_color) {
                proof {
                    lemma_palette_round_trip(foreground_color, fg as int);
                }
                return Some(
                    if window.background_color == Color::Black {
                        (default_gc_values.gc_ids[1][1], default_gc_values.gc_ids[1][fg])
                    } else {
                        let foreground_gc = default_gc_values.gc_ids[0][fg];
                        let background_gc = default_gc_values.gc_ids[0][0];
                        (background_gc, foreground_gc)
                    },
                );
            }
        }
    }
    proof {
        if let Some(c) = button.foreground_color {
            lemma_palette_round_trip(c, 0);
        }
    }
    None
}


/// The contexts a button is painted with when it is painted with its own
/// colors: searching the palette, background row by row and text color
/// column by column, the first cell where both colors are found decides;
/// without such a cell the last contexts found stand, starting from the
/// default background context for both.
pub fn apply_colors_to_button<Message, C>(
    window: &XWindow<C>,
    button: &Button<Message>,
    default_gc_values: &GraphicalContextMatrix,
) -> (contexts: (Gcontext, Gcontext))
    ensures
        contexts == own_colors_contexts(*default_gc_values, window.background_color, *button),
{
    let (default_background_gc, _default_foreground_gc) =
        default_gc_values.get_default_button_contexts(window);
    let mut background_gc = default_background_gc;
    let mut foreground_gc = default_background_gc;
    let ghost m = *default_gc_values;
    let ghost d = default_background_gc;
    let ghost ib = match button.background_color {
        Some(c) => palette_index(c),
        None => -1,
    };
    let ghost jf = match button.foreground_color {
        Some(c) => palette_index(c),
        None => -1,
    };
    proof {
        if let Some(c) = button.background_color {
            lemma_palette_round_trip(c, 0);
        }
        if let Some(c) = button.foreground_color {
            lemma_palette_round_trip(c, 0);
        }
    }
    for bg in 0..COLORS
        invariant
            m == *default_gc_values,
            d == default_button_contexts(m, window.background_color).0,
            ib == (match button.background_color {
                Some(c) => palette_index(c),
                None => -1,
            }),
            jf == (match button.foreground_color {
                Some(c) => palette_index(c),
                None => -1,
            }),
            -1 <= ib < COLORS,
            -1 <= jf < COLORS,
            ib >= 0 ==> color_at(ib) == button.background_color->0,
            jf >= 0 ==> color_at(jf) == button.foreground_color->0,
            !(ib >= 0 && jf >= 0 && ib < bg),
            background_gc == (if ib >= 0 && ib < bg {
                gc(m, ib, ib)
            } else {
                d
            }),
            foreground_gc == (if jf >= 0 && bg > 0 {
                gc(m, bg - 1, jf)
            } else {
                d
            }),
    {
        for fg in 0..COLORS
            invariant
                m == *default_gc_values,
                d == default_button_contexts(m, window.background_color).0,
                ib == (match button.background_color {
                    Some(c) => palette_index(c),
                    None => -1,
                }),
                jf == (match button.foreground_color {
                    Some(c) => palette_index(c),
                    None => -1,
                }),
                -1 <= ib < COLORS,
                -1 <= jf < COLORS,
                0 <= bg < COLORS,
                ib >= 0 ==> color_at(ib) == button.background_color->0,
                jf >= 0 ==> color_at(jf) == button.foreground_color->0,
                !(ib >= 0 && jf >= 0 && ib < bg),
                !(ib >= 0 && jf >= 0 && ib == bg && jf < fg),
                background_gc == (if ib >= 0 && (ib < bg || (ib == bg && fg > 0)) {
                    gc(m, ib, ib)
                } else {
                    d
                }),
                foreground_gc == (if jf >= 0 && jf < fg {
                    gc(m, bg as int, jf)
                } else if jf >= 0 && bg > 0 {
                    gc(m, bg - 1, jf)
                } else {
                    d
                }),
        {
            let background_color = Color::get(bg);
            let foreground_color = Color::get(fg);
            let mut background_found = false;
            let mut foreground_found = false;
            proof {
                lemma_palette_round_trip(background_color, bg as int);
                lemma_palette_round_trip(foreground_color, fg as int);
            }
            if button.is_background_color_match(&background_color) {
                background_gc = default_gc_values.gc_ids[bg][bg];
                background_found = true;
            }
            if button.is_foreground_color_match(&foreground_color) {
                foreground_gc = default_gc_values.gc_ids[bg][fg];
                foreground_found = true;
            }
            if background_found && foreground_found {
                return (background_gc, foreground_gc);
            }
        }
    }
    (background_gc, foreground_gc)
}

} // verus!
