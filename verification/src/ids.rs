//! Identifiers of widgets.
//!
//! Every container, button and label gets a 128-bit identifier made from
//! random bytes.  Fetching the random bytes is left to the program; the
//! library turns them into identifiers and hands them out over a widget tree
//! in a fixed order.
use vstd::prelude::*;
use crate::layout::WidgetContainer;
use crate::hit::holds_button;
use crate::widgets::{Button, Label};

verus! {

/// The number that `bytes` spell in base 256, most significant byte first.
pub open spec fn be_value(bytes: Seq<u8>) -> nat
    decreases bytes.len(),
{
    if bytes.len() == 0 {
        0
    } else {
        be_value(bytes.drop_last()) * 256 + bytes.last() as nat
    }
}

/// `256` to the power `n`.
pub open spec fn pow256(n: nat) -> nat
    decreases n,
{
    if n == 0 {
        1
    } else {
        pow256((n - 1) as nat) * 256
    }
}

/// `v` with bits 60 to 63 set to `1000`: bit 63 set, bits 60 to 62 clear.
pub open spec fn mark_uuid(v: u128) -> u128 {
    (v & !0xF000_0000_0000_0000u128) | 0x8000_0000_0000_0000u128
}

proof fn lemma_be_value_bound(bytes: Seq<u8>)
    ensures
        be_value(bytes) < pow256(bytes.len()),
    decreases bytes.len(),
{
    if bytes.len() > 0 {
        let rest = bytes.drop_last();
        lemma_be_value_bound(rest);
        let v = be_value(rest);
        let p = pow256(rest.len());
        let b = bytes.last();
        assert(v * 256 + b < p * 256) by (nonlinear_arith)
            requires
                v < p,
                b < 256,
        ;
    }
}

/// The identifier made from sixteen random bytes: the bytes read as a
/// big-endian number, with bits 60 to 63 then set to `1000`.
pub fn uuid_from_bytes(bytes: [u8; 16]) -> (uuid: u128)
    ensures
        uuid == mark_uuid(be_value(bytes@) as u128),
{
    let mut uuid: u128 = 0;
    let mut i: usize = 0;
    while i < 16
        invariant
            i <= 16,
            bytes@.len() == 16,
            uuid as nat == be_value(bytes@.take(i as int)),
            be_value(bytes@.take(i as int)) < pow256(i as nat),
        decreases 16 - i,
    {
        assert(bytes@.take(i + 1).drop_last() =~= bytes@.take(i as int));
        proof {
            lemma_be_value_bound(bytes@.take(i + 1));
            assert(pow256(16) == 0x1_0000_0000_0000_0000_0000_0000_0000_0000) by {
                reveal_with_fuel(pow256, 17);
            }
            lemma_pow256_monotone((i + 1) as nat, 16);
        }
        uuid = uuid * 256 + bytes[i] as u128;
        i += 1;
    }
    assert(bytes@.take(16) =~= bytes@);
    let v = uuid;
    uuid &= !(0xF000_0000_0000_0000u128);
    uuid |= 0x4000_0000_0000_0000u128;
    uuid &= !(0xC000_0000_0000_0000u128);
    uuid |= 0x8000_0000_0000_0000u128;
    assert(uuid == mark_uuid(v)) by (bit_vector)
        requires
            uuid == (((((v & !0xF000_0000_0000_0000u128) | 0x4000_0000_0000_0000u128)
                & !0xC000_0000_0000_0000u128) | 0x8000_0000_0000_0000u128)),
    ;
    uuid
}

proof fn lemma_pow256_monotone(a: nat, b: nat)
    requires
        a <= b,
    ensures
        pow256(a) <= pow256(b),
    decreases b - a,
{
    if a < b {
        lemma_pow256_monotone(a, (b - 1) as nat);
    }
}

/// Marking keeps every bit of the number but bits 60 to 63, which become
/// `1000`.
pub proof fn lemma_mark_uuid_bits(v: u128)
    ensures
        (mark_uuid(v) >> 60u128) & 0xFu128 == 8,
        mark_uuid(v) & !0xF000_0000_0000_0000u128 == v & !0xF000_0000_0000_0000u128,
{
    assert((((v & !0xF000_0000_0000_0000u128) | 0x8000_0000_0000_0000u128) >> 60u128) & 0xFu128
        == 8) by (bit_vector);
    assert(((v & !0xF000_0000_0000_0000u128) | 0x8000_0000_0000_0000u128)
        & !0xF000_0000_0000_0000u128 == v & !0xF000_0000_0000_0000u128) by (bit_vector);
}


/// The identifiers of the first `n` child containers of `c` and of
/// everything below them, in the order `tree_ids` lists them.
pub open spec fn children_ids<M>(c: WidgetContainer<M>, n: int) -> Seq<u128>
    decreases c, n,
{
    if n <= 0 || n > c.containers@.len() {
        Seq::<u128>::empty()
    } else {
        children_ids(c, n - 1) + tree_ids(c.containers@[n - 1])
    }
}

/// The identifiers of the buttons, in order.
pub open spec fn button_ids<M>(bs: Seq<Button<M>>) -> Seq<u128> {
    bs.map_values(|b: Button<M>| b.id)
}

/// The identifiers of the labels, in order.
pub open spec fn label_ids(ls: Seq<Label>) -> Seq<u128> {
    ls.map_values(|l: Label| l.id)
}

/// The identifiers in the tree of `c`: its own, then those of each child
/// container's tree in order, then its buttons', then its labels'.
pub open spec fn tree_ids<M>(c: WidgetContainer<M>) -> Seq<u128>
    decreases c, c.containers@.len() + 1,
{
    seq![c.id] + children_ids(c, c.containers@.len() as int) + button_ids(c.buttons@) + label_ids(
        c.labels@,
    )
}

/// Two buttons agree on everything but their identifiers.
pub open spec fn same_button_but_id<M>(a: Button<M>, b: Button<M>) -> bool {
    &&& a.text == b.text
    &&& a.points == b.points
    &&& a.message == b.message
    &&& a.hover == b.hover
    &&& a.foreground_color == b.foreground_color
    &&& a.background_color == b.background_color
    &&& a.border == b.border
    &&& a.border_color == b.border_color
}

/// Two labels agree on everything but their identifiers.
pub open spec fn same_label_but_id(a: Label, b: Label) -> bool {
    &&& a.text == b.text
    &&& a.begin_x == b.begin_x
    &&& a.begin_y == b.begin_y
    &&& a.end_x == b.end_x
    &&& a.end_y == b.end_y
    &&& a.text_color == b.text_color
}

/// Two trees agree on everything but their identifiers.
pub open spec fn same_tree_but_ids<M>(a: WidgetContainer<M>, b: WidgetContainer<M>) -> bool
    decreases a,
{
    &&& a.widget_count == b.widget_count
    &&& a.x == b.x
    &&& a.y == b.y
    &&& a.widget_spacing_x == b.widget_spacing_x
    &&& a.widget_spacing_y == b.widget_spacing_y
    &&& a.container_type == b.container_type
    &&& a.background_color == b.background_color
    &&& a.buttons@.len() == b.buttons@.len()
    &&& forall|i: int|
        0 <= i < a.buttons@.len() ==> same_button_but_id(#[trigger] a.buttons@[i], b.buttons@[i])
    &&& a.labels@.len() == b.labels@.len()
    &&& forall|i: int|
        0 <= i < a.labels@.len() ==> same_label_but_id(#[trigger] a.labels@[i], b.labels@[i])
    &&& a.containers@.len() == b.containers@.len()
    &&& forall|i: int|
        0 <= i < a.containers@.len() ==> same_tree_but_ids(
            #[trigger] a.containers@[i],
            b.containers@[i],
        )
}

/// `children_ids` over the first `n` children only looks at those children.
proof fn lemma_children_ids_frame<M>(a: WidgetContainer<M>, b: WidgetContainer<M>, n: int)
    requires
        0 <= n <= a.containers@.len(),
        n <= b.containers@.len(),
        forall|k: int| 0 <= k < n ==> a.containers@[k] == b.containers@[k],
    ensures
        children_ids(a, n) == children_ids(b, n),
    decreases n,
{
    if n > 0 {
        lemma_children_ids_frame(a, b, n - 1);
    }
}

/// Every tree agrees with itself on everything but identifiers.
pub proof fn lemma_same_tree_but_ids_refl<M>(c: WidgetContainer<M>)
    ensures
        same_tree_but_ids(c, c),
    decreases c,
{
    assert forall|i: int| 0 <= i < c.containers@.len() implies same_tree_but_ids(
        #[trigger] c.containers@[i],
        c.containers@[i],
    ) by {
        lemma_same_tree_but_ids_refl(c.containers@[i]);
    }
}

/// Handing out `ids[p..q]` over the old identifiers `a` and then `ids[q..r]`
/// over the old identifiers `b` is handing out `ids[p..r]` over `a + b`.
proof fn lemma_consume(ids: Seq<u128>, a: Seq<u128>, b: Seq<u128>, p: int, q: int, r: int)
    requires
        0 <= p <= q <= ids.len(),
        q - p <= a.len(),
        q < ids.len() ==> q - p == a.len(),
        r == (if q + b.len() <= ids.len() {
            q + b.len()
        } else {
            ids.len() as int
        }),
    ensures
        ids.subrange(p, q) + a.skip(q - p) + (ids.subrange(q, r) + b.skip(r - q)) == ids.subrange(
            p,
            r,
        ) + (a + b).skip(r - p),
        r - p <= (a + b).len(),
        r < ids.len() ==> r - p == (a + b).len(),
{
    if q < ids.len() {
        assert(a.skip(q - p) =~= Seq::<u128>::empty());
        assert((a + b).skip(r - p) =~= b.skip(r - q));
        assert(ids.subrange(p, q) + ids.subrange(q, r) =~= ids.subrange(p, r));
        assert(ids.subrange(p, q) + a.skip(q - p) + (ids.subrange(q, r) + b.skip(r - q))
            =~= ids.subrange(p, r) + (a + b).skip(r - p));
    } else {
        assert(ids.subrange(q, r) =~= Seq::<u128>::empty());
        assert(b.skip(r - q) =~= b);
        assert((a + b).skip(r - p) =~= a.skip(q - p) + b);
        assert(ids.subrange(p, q) + a.skip(q - p) + (ids.subrange(q, r) + b.skip(r - q))
            =~= ids.subrange(p, r) + (a + b).skip(r - p));
    }
}

/// Gives the tree of `container` the identifiers `ids[pos..]` in the order
/// of `tree_ids`, as far as they go.
fn assign_ids_from<Message>(
    container: &mut WidgetContainer<Message>,
    ids: &[u128],
    pos: usize,
) -> (next: usize)
    requires
        pos <= ids@.len(),
    ensures
        next == (if pos + tree_ids(*old(container)).len() <= ids@.len() {
            pos + tree_ids(*old(container)).len()
        } else {
            ids@.len() as int
        }),
        tree_ids(*final(container)) == ids@.subrange(pos as int, next as int) + tree_ids(
            *old(container),
        ).skip(next - pos),
        same_tree_but_ids(*final(container), *old(container)),
    decreases *old(container),
{
    let ghost o = *container;
    if pos >= ids.len() {
        assert(ids@.subrange(pos as int, pos as int) =~= Seq::<u128>::empty());
        assert(tree_ids(*container).skip(0) =~= tree_ids(*container));
        proof {
            lemma_same_tree_but_ids_refl(*container);
        }
        return pos;
    }
    container.id = ids[pos];
    let p0 = pos;
    let mut pos = pos + 1;
    let mut i: usize = 0;
    assert(seq![container.id] + children_ids(*container, 0) =~= ids@.subrange(p0 as int, pos as int)
        + (seq![o.id] + children_ids(o, 0)).skip(pos - p0));
    while i < container.containers.len()
        invariant
            o == *old(container),
            p0 < pos <= ids@.len(),
            i <= container.containers@.len(),
            container.containers@.len() == o.containers@.len(),
            container.id == ids@[p0 as int],
            container.buttons == o.buttons,
            container.labels == o.labels,
            container.widget_count == o.widget_count,
            container.x == o.x,
            container.y == o.y,
            container.widget_spacing_x == o.widget_spacing_x,
            container.widget_spacing_y == o.widget_spacing_y,
            container.container_type == o.container_type,
            container.background_color == o.background_color,
            forall|k: int|
                i <= k < container.containers@.len() ==> container.containers@[k]
                    == o.containers@[k],
            forall|k: int|
                0 <= k < i ==> same_tree_but_ids(
                    #[trigger] container.containers@[k],
                    o.containers@[k],
                ),
            seq![container.id] + children_ids(*container, i as int) == ids@.subrange(
                p0 as int,
                pos as int,
            ) + (seq![o.id] + children_ids(o, i as int)).skip(pos - p0),
            pos - p0 <= (seq![o.id] + children_ids(o, i as int)).len(),
            pos < ids@.len() ==> pos - p0 == (seq![o.id] + children_ids(o, i as int)).len(),
        decreases container.containers@.len() - i,
    {
        let ghost before = *container;
        let ghost kid = o.containers@[i as int];
        let ghost pos_before = pos;
        assert(decreases_to!(o => o.containers@[i as int]));
        pos = assign_ids_from(&mut container.containers[i], ids, pos);
        proof {
            lemma_children_ids_frame(*container, before, i as int);
            let old_prefix = seq![o.id] + children_ids(o, i as int);
            assert(seq![o.id] + children_ids(o, i + 1) =~= old_prefix + tree_ids(kid));
            assert(seq![container.id] + children_ids(*container, i + 1) =~= seq![container.id]
                + children_ids(*container, i as int) + tree_ids(container.containers@[i as int]));
            lemma_consume(
                ids@,
                old_prefix,
                tree_ids(kid),
                p0 as int,
                pos_before as int,
                pos as int,
            );
        }
        i += 1;
    }
    let pos1 = pos;
    let ghost after_children = *container;
    let mut i: usize = 0;
    while i < container.buttons.len()
        invariant
            p0 < pos1 <= ids@.len(),
            i <= container.buttons@.len(),
            container.buttons@.len() == o.buttons@.len(),
            container.id == after_children.id,
            container.containers == after_children.containers,
            container.labels == o.labels,
            container.widget_count == o.widget_count,
            container.x == o.x,
            container.y == o.y,
            container.widget_spacing_x == o.widget_spacing_x,
            container.widget_spacing_y == o.widget_spacing_y,
            container.container_type == o.container_type,
            container.background_color == o.background_color,
            pos == (if pos1 + i <= ids@.len() {
                pos1 + i
            } else {
                ids@.len() as int
            }),
            forall|k: int|
                0 <= k < container.buttons@.len() ==> same_button_but_id(
                    #[trigger] container.buttons@[k],
                    o.buttons@[k],
                ),
            forall|k: int|
                0 <= k < i ==> (#[trigger] container.buttons@[k]).id == (if pos1 + k < ids@.len() {
                    ids@[pos1 + k]
                } else {
                    o.buttons@[k].id
                }),
            forall|k: int|
                i <= k < container.buttons@.len() ==> (#[trigger] container.buttons@[k]).id
                    == o.buttons@[k].id,
        decreases container.buttons@.len() - i,
    {
        if pos < ids.len() {
            container.buttons[i].id = ids[pos];
            pos += 1;
        }
        i += 1;
    }
    let pos2 = pos;
    assert(button_ids(container.buttons@) =~= ids@.subrange(pos1 as int, pos2 as int) + button_ids(
        o.buttons@,
    ).skip(pos2 - pos1));
    let ghost after_buttons = *container;
    let mut i: usize = 0;
    while i < container.labels.len()
        invariant
            p0 < pos1 <= pos2 <= ids@.len(),
            i <= container.labels@.len(),
            container.labels@.len() == o.labels@.len(),
            container.id == after_children.id,
            container.containers == after_children.containers,
            container.buttons == after_buttons.buttons,
            container.widget_count == o.widget_count,
            container.x == o.x,
            container.y == o.y,
            container.widget_spacing_x == o.widget_spacing_x,
            container.widget_spacing_y == o.widget_spacing_y,
            container.container_type == o.container_type,
            container.background_color == o.background_color,
            pos == (if pos2 + i <= ids@.len() {
                pos2 + i
            } else {
                ids@.len() as int
            }),
            forall|k: int|
                0 <= k < container.labels@.len() ==> same_label_but_id(
                    #[trigger] container.labels@[k],
                    o.labels@[k],
                ),
            forall|k: int|
                0 <= k < i ==> (#[trigger] container.labels@[k]).id == (if pos2 + k < ids@.len() {
                    ids@[pos2 + k]
                } else {
                    o.labels@[k].id
                }),
            forall|k: int|
                i <= k < container.labels@.len() ==> (#[trigger] container.labels@[k]).id
                    == o.labels@[k].id,
        decreases container.labels@.len() - i,
    {
        if pos < ids.len() {
            container.labels[i].id = ids[pos];
            pos += 1;
        }
        i += 1;
    }
    assert(label_ids(container.labels@) =~= ids@.subrange(pos2 as int, pos as int) + label_ids(
        o.labels@,
    ).skip(pos - pos2));
    proof {
        let pc_old = seq![o.id] + children_ids(o, o.containers@.len() as int);
        let pc_new = seq![container.id] + children_ids(*container, o.containers@.len() as int);
        lemma_children_ids_frame(*container, after_children, o.containers@.len() as int);
        lemma_consume(ids@, pc_old, button_ids(o.buttons@), p0 as int, pos1 as int, pos2 as int);
        lemma_consume(
            ids@,
            pc_old + button_ids(o.buttons@),
            label_ids(o.labels@),
            p0 as int,
            pos2 as int,
            pos as int,
        );
        assert(tree_ids(*container) =~= pc_new + button_ids(container.buttons@) + label_ids(
            container.labels@,
        ));
        assert(tree_ids(o) =~= pc_old + button_ids(o.buttons@) + label_ids(o.labels@));
    }
    pos
}


/// `n`, or `usize::MAX` if `n` is larger.
pub open spec fn saturate(n: int) -> int {
    if n <= usize::MAX {
        n
    } else {
        usize::MAX as int
    }
}

/// How many identifiers the tree of `container` takes (`usize::MAX` if
/// more).
pub fn id_count<Message>(container: &WidgetContainer<Message>) -> (n: usize)
    ensures
        n == saturate(tree_ids(*container).len() as int),
    decreases *container,
{
    let mut n: usize = 1;
    let mut i: usize = 0;
    while i < container.containers.len()
        invariant
            i <= container.containers@.len(),
            n == saturate(1 + children_ids(*container, i as int).len() as int),
        decreases container.containers@.len() - i,
    {
        let k = id_count(&container.containers[i]);
        n = n.saturating_add(k);
        assert(children_ids(*container, i + 1).len() == children_ids(*container, i as int).len()
            + tree_ids(container.containers@[i as int]).len());
        i += 1;
    }
    n = n.saturating_add(container.buttons.len());
    n = n.saturating_add(container.labels.len());
    n
}

/// Gives the widgets of `container` the identifiers in `ids`: the container
/// itself first, then the trees of its child containers in order, then its
/// buttons, then its labels.  When `ids` runs out, the remaining widgets
/// keep their identifiers.  Returns how many identifiers were used; nothing
/// else about the tree changes.
pub fn assign_ids<Message>(container: &mut WidgetContainer<Message>, ids: &[u128]) -> (used: usize)
    ensures
        used == (if tree_ids(*old(container)).len() <= ids@.len() {
            tree_ids(*old(container)).len() as int
        } else {
            ids@.len() as int
        }),
        tree_ids(*final(container)) == ids@.take(used as int) + tree_ids(*old(container)).skip(
            used as int,
        ),
        same_tree_but_ids(*final(container), *old(container)),
{
    let used = assign_ids_from(container, ids, 0);
    assert(ids@.subrange(0, used as int) =~= ids@.take(used as int));
    used
}


/// `d` is `c` or a container anywhere below it.
pub open spec fn holds_container<M>(c: WidgetContainer<M>, d: WidgetContainer<M>) -> bool
    decreases c,
{
    ||| c == d
    ||| exists|i: int| 0 <= i < c.containers@.len() && holds_container(#[trigger] c.containers@[i], d)
}

/// `l` is a label of `c` or of a container anywhere below it.
pub open spec fn holds_label<M>(c: WidgetContainer<M>, l: Label) -> bool
    decreases c,
{
    ||| exists|i: int| 0 <= i < c.containers@.len() && holds_label(#[trigger] c.containers@[i], l)
    ||| exists|i: int| 0 <= i < c.labels@.len() && #[trigger] c.labels@[i] == l
}

proof fn lemma_children_ids_prefix<M>(c: WidgetContainer<M>, i: int, n: int)
    requires
        0 <= i <= n <= c.containers@.len(),
    ensures
        children_ids(c, i).len() <= children_ids(c, n).len(),
        children_ids(c, n).subrange(0, children_ids(c, i).len() as int) == children_ids(c, i),
    decreases n - i,
{
    if i < n {
        lemma_children_ids_prefix(c, i, n - 1);
        let a = children_ids(c, n - 1);
        let b = tree_ids(c.containers@[n - 1]);
        assert((a + b).subrange(0, children_ids(c, i).len() as int) =~= a.subrange(
            0,
            children_ids(c, i).len() as int,
        ));
    } else {
        assert(children_ids(c, n).subrange(0, children_ids(c, n).len() as int) =~= children_ids(
            c,
            n,
        ));
    }
}

/// The identifiers of a child container's whole tree form one unbroken
/// block of the identifiers of its parent's tree.
pub proof fn lemma_child_ids_block<M>(c: WidgetContainer<M>, i: int)
    requires
        0 <= i < c.containers@.len(),
    ensures
        exists|off: int|
            #![trigger tree_ids(c).subrange(off, off + tree_ids(c.containers@[i]).len())]
            1 <= off && off + tree_ids(c.containers@[i]).len() <= tree_ids(c).len()
                && tree_ids(c).subrange(off, off + tree_ids(c.containers@[i]).len()) == tree_ids(
                c.containers@[i],
            ),
{
    let n = c.containers@.len() as int;
    let kid = tree_ids(c.containers@[i]);
    let pre = children_ids(c, i);
    lemma_children_ids_prefix(c, i + 1, n);
    let all = children_ids(c, n);
    assert(children_ids(c, i + 1) == pre + kid);
    let off: int = 1 + pre.len() as int;
    let t = tree_ids(c);
    assert(t == seq![c.id] + all + button_ids(c.buttons@) + label_ids(c.labels@));
    assert forall|k: int| 0 <= k < kid.len() implies t.subrange(off, off + kid.len())[k] == kid[k] by {
        assert(all.subrange(0, (pre + kid).len() as int)[pre.len() + k] == (pre + kid)[pre.len()
            + k]);
    }
    assert(t.subrange(off, off + kid.len()) =~= kid);
}

/// Every container of the tree, at any depth, is among the identifiers
/// handed out over the tree.
pub proof fn lemma_tree_ids_cover_containers<M>(c: WidgetContainer<M>, d: WidgetContainer<M>)
    requires
        holds_container(c, d),
    ensures
        tree_ids(c).contains(d.id),
    decreases c,
{
    if c == d {
        assert(tree_ids(c)[0] == d.id);
    } else {
        let i = choose|i: int| 0 <= i < c.containers@.len() && holds_container(#[trigger] c.containers@[i], d);
        lemma_tree_ids_cover_containers(c.containers@[i], d);
        lemma_child_ids_in_parent(c, i, d.id);
    }
}

/// Every button of the tree, at any depth, has its identifier among those
/// handed out over the tree.
pub proof fn lemma_tree_ids_cover_buttons<M>(c: WidgetContainer<M>, b: Button<M>)
    requires
        holds_button(c, b),
    ensures
        tree_ids(c).contains(b.id),
    decreases c,
{
    if exists|i: int| 0 <= i < c.containers@.len() && holds_button(#[trigger] c.containers@[i], b) {
        let i = choose|i: int| 0 <= i < c.containers@.len() && holds_button(#[trigger] c.containers@[i], b);
        lemma_tree_ids_cover_buttons(c.containers@[i], b);
        lemma_child_ids_in_parent(c, i, b.id);
    } else {
        let i = choose|i: int| 0 <= i < c.buttons@.len() && #[trigger] c.buttons@[i] == b;
        let pre = seq![c.id] + children_ids(c, c.containers@.len() as int);
        let t = tree_ids(c);
        assert(t == pre + button_ids(c.buttons@) + label_ids(c.labels@));
        assert(t[pre.len() + i] == b.id);
    }
}

/// Every label of the tree, at any depth, has its identifier among those
/// handed out over the tree.
pub proof fn lemma_tree_ids_cover_labels<M>(c: WidgetContainer<M>, l: Label)
    requires
        holds_label(c, l),
    ensures
        tree_ids(c).contains(l.id),
    decreases c,
{
    if exists|i: int| 0 <= i < c.containers@.len() && holds_label(#[trigger] c.containers@[i], l) {
        let i = choose|i: int| 0 <= i < c.containers@.len() && holds_label(#[trigger] c.containers@[i], l);
        lemma_tree_ids_cover_labels(c.containers@[i], l);
        lemma_child_ids_in_parent(c, i, l.id);
    } else {
        let i = choose|i: int| 0 <= i < c.labels@.len() && #[trigger] c.labels@[i] == l;
        let pre = seq![c.id] + children_ids(c, c.containers@.len() as int) + button_ids(c.buttons@);
        let t = tree_ids(c);
        assert(t == pre + label_ids(c.labels@));
        assert(t[pre.len() + i] == l.id);
    }
}

proof fn lemma_child_ids_in_parent<M>(c: WidgetContainer<M>, i: int, id: u128)
    requires
        0 <= i < c.containers@.len(),
        tree_ids(c.containers@[i]).contains(id),
    ensures
        tree_ids(c).contains(id),
{
    lemma_child_ids_block(c, i);
    let kid = tree_ids(c.containers@[i]);
    let off = choose|off: int|
        #![trigger tree_ids(c).subrange(off, off + tree_ids(c.containers@[i]).len())]
        1 <= off && off + tree_ids(c.containers@[i]).len() <= tree_ids(c).len()
            && tree_ids(c).subrange(off, off + tree_ids(c.containers@[i]).len()) == tree_ids(
            c.containers@[i],
        );
    let k = choose|k: int| 0 <= k < kid.len() && kid[k] == id;
    assert(tree_ids(c).subrange(off, off + kid.len())[k] == id);
    assert(tree_ids(c)[off + k] == id);
}

} // verus!
