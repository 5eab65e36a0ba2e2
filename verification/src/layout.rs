//! The layout pass.
//!
//! `compute` turns a widget tree plus an available box into the layout map:
//! one depth-first recursion that assigns every reachable paintable or
//! hit-testable node an absolute rectangle and a paint-order index.  The
//! mathematical meaning of the pass is the recursive fold [`layout_node`];
//! the executable pass is proved to produce exactly that fold.
//!
//! Per node kind:
//! - a rectangle or text leaf inserts its own record and stops;
//! - an empty leaf inserts nothing;
//! - padding insets the box, clamping each dimension at zero, and recurses;
//! - a row (column) divides the width (height) by the total flex weight and
//!   places children at cumulative offsets, each `weight x unit` wide; a row
//!   or column whose total weight is zero places nothing;
//! - a stack gives every child the same box and an increasing paint order;
//! - a gesture wrapper lays out its child, then inserts its own record with
//!   no paint payload, the rectangle dispatch will hit-test against.

use vstd::arithmetic::div_mod::{
    lemma_div_nonincreasing, lemma_div_pos_is_pos, lemma_fundamental_div_mod,
    lemma_mod_division_less_than_divisor,
};
use vstd::arithmetic::mul::{
    lemma_mul_inequality, lemma_mul_is_distributive_add_other_way, lemma_mul_nonnegative,
};
use vstd::prelude::*;

use crate::record::{map_wf, rec_bounds, slots_model, ComputedWidget, CwModel, LayoutMap, RenderModel, RenderObject, Style, TextStyle};
use crate::widgets::{flex_wf, node_wf, nodes_wf, Node, Ui};
use crate::{MAX_COORD, MAX_DIM, MAX_NODES, MAX_Z};

verus! {

/// One padding subtraction: the available extent minus two insets, clamped
/// at zero so a child is never given a negative box.
pub open spec fn pad_dim(avail: int, a: int, b: int) -> int {
    if avail - a - b < 0 {
        0
    } else {
        avail - a - b
    }
}

/// Total flex weight of a row or column.
pub open spec fn sum_flex(flex: Seq<u64>) -> int
    decreases flex.len(),
{
    if flex.len() == 0 {
        0
    } else {
        sum_flex(flex.drop_last()) + flex.last()
    }
}

/// The slot table before any record is inserted: one empty slot per node.
pub open spec fn empty_slots(n: int) -> Seq<Option<CwModel>> {
    Seq::new(n as nat, |j: int| None)
}

/// Meaning of laying out the subtree rooted at node `i` into slot table `m`
/// at position `(x, y)`, paint order `z`, and available box `w` by `h`.
pub open spec fn layout_node(
    nodes: Seq<Node>,
    i: int,
    x: int,
    y: int,
    z: int,
    w: int,
    h: int,
    m: Seq<Option<CwModel>>,
) -> Seq<Option<CwModel>>
    decreases i, 1int, 0int,
{
    if 0 <= i < nodes.len() && m.len() == nodes.len() {
        match nodes[i] {
            Node::Rect(r) => m.update(
                i,
                Some(
                    CwModel {
                        x,
                        y,
                        z,
                        width: w,
                        height: h,
                        render: Some(
                            RenderModel::Quad {
                                color: Some(r.color),
                                border_radius: r.border_radius as int,
                            },
                        ),
                    },
                ),
            ),
            Node::Label(t) => m.update(
                i,
                Some(
                    CwModel {
                        x,
                        y,
                        z,
                        width: w,
                        height: h,
                        render: Some(
                            RenderModel::Glyphs {
                                text: t.text@,
                                font: t.font@,
                                size: t.size as int,
                                color: t.color,
                            },
                        ),
                    },
                ),
            ),
            Node::Blank(_) => m,
            Node::Pad(p) => {
                if p.child < i {
                    layout_node(
                        nodes,
                        p.child as int,
                        x + p.padding.0,
                        y + p.padding.1,
                        z,
                        pad_dim(w, p.padding.0 as int, p.padding.2 as int),
                        pad_dim(h, p.padding.1 as int, p.padding.3 as int),
                        m,
                    )
                } else {
                    m
                }
            },
            Node::Gesture(g) => {
                if g.background < i {
                    layout_node(nodes, g.background as int, x, y, z, w, h, m).update(
                        i,
                        Some(CwModel { x, y, z, width: w, height: h, render: None }),
                    )
                } else {
                    m
                }
            },
            Node::RowBox(r) => {
                let total = sum_flex(r.flex@);
                if total > 0 {
                    layout_row(nodes, i, r.children@, r.flex@, 0, 0, x, y, z, w / total, h, m)
                } else {
                    m
                }
            },
            Node::ColumnBox(c) => {
                let total = sum_flex(c.flex@);
                if total > 0 {
                    layout_col(nodes, i, c.children@, c.flex@, 0, 0, x, y, z, w, h / total, m)
                } else {
                    m
                }
            },
            Node::StackBox(s) => layout_stack(nodes, i, s.children@, 0, x, y, z, w, h, m),
        }
    } else {
        m
    }
}

/// Fold of a row's children from index `k` on: child `k` is placed at the
/// cumulative flex offset `prev x unit` and given `flex[k] x unit` of the
/// width, then the rest of the children follow.
pub open spec fn layout_row(
    nodes: Seq<Node>,
    parent: int,
    ch: Seq<usize>,
    flex: Seq<u64>,
    k: int,
    prev: int,
    x: int,
    y: int,
    z: int,
    unit: int,
    h: int,
    m: Seq<Option<CwModel>>,
) -> Seq<Option<CwModel>>
    decreases parent, 0int, ch.len() - k,
{
    if 0 <= k < ch.len() && ch.len() == flex.len() && ch[k] < parent && 0 <= parent {
        let m1 = layout_node(nodes, ch[k] as int, x + prev * unit, y, z, flex[k] * unit, h, m);
        layout_row(nodes, parent, ch, flex, k + 1, prev + flex[k], x, y, z, unit, h, m1)
    } else {
        m
    }
}

/// Fold of a column's children, the symmetric split of the height.
pub open spec fn layout_col(
    nodes: Seq<Node>,
    parent: int,
    ch: Seq<usize>,
    flex: Seq<u64>,
    k: int,
    prev: int,
    x: int,
    y: int,
    z: int,
    w: int,
    unit: int,
    m: Seq<Option<CwModel>>,
) -> Seq<Option<CwModel>>
    decreases parent, 0int, ch.len() - k,
{
    if 0 <= k < ch.len() && ch.len() == flex.len() && ch[k] < parent && 0 <= parent {
        let m1 = layout_node(nodes, ch[k] as int, x, y + prev * unit, z, w, flex[k] * unit, m);
        layout_col(nodes, parent, ch, flex, k + 1, prev + flex[k], x, y, z, w, unit, m1)
    } else {
        m
    }
}

/// Fold of a stack's children: identical boxes, paint order `z + k`.
pub open spec fn layout_stack(
    nodes: Seq<Node>,
    parent: int,
    ch: Seq<usize>,
    k: int,
    x: int,
    y: int,
    z: int,
    w: int,
    h: int,
    m: Seq<Option<CwModel>>,
) -> Seq<Option<CwModel>>
    decreases parent, 0int, ch.len() - k,
{
    if 0 <= k < ch.len() && ch[k] < parent && 0 <= parent {
        let m1 = layout_node(nodes, ch[k] as int, x, y, z + k, w, h, m);
        layout_stack(nodes, parent, ch, k + 1, x, y, z, w, h, m1)
    } else {
        m
    }
}

/// Geometry bounds threaded through the recursion.  The slack term
/// `(i + 1) * MAX_DIM` pays for the at most `i` levels of padding offsets
/// below node `i`, so no coordinate ever reaches `MAX_COORD`.
pub open spec fn geom_ok(i: int, x: int, y: int, z: int, w: int, h: int) -> bool {
    &&& 0 <= x
    &&& 0 <= y
    &&& 0 <= z
    &&& 0 <= w <= MAX_DIM
    &&& 0 <= h <= MAX_DIM
    &&& x + w + (i + 1) * (MAX_DIM as int) <= MAX_COORD
    &&& y + h + (i + 1) * (MAX_DIM as int) <= MAX_COORD
    &&& z + (i + 1) * (MAX_NODES as int) <= MAX_Z
}

/// Division facts used when a row or column splits its extent: the unit is
/// nonnegative, no larger than the extent, and `total` units fit in it.
proof fn lemma_div_mul_bounds(w: int, t: int)
    requires
        0 <= w,
        0 < t,
    ensures
        0 <= w / t,
        t * (w / t) <= w,
        w / t <= w,
{
    lemma_div_pos_is_pos(w, t);
    lemma_fundamental_div_mod(w, t);
    lemma_mod_division_less_than_divisor(w, t);
    lemma_div_nonincreasing(w, t);
}

/// A total flex weight is never negative.
pub proof fn lemma_sum_flex_nonneg(flex: Seq<u64>)
    ensures
        0 <= sum_flex(flex),
    decreases flex.len(),
{
    if flex.len() > 0 {
        lemma_sum_flex_nonneg(flex.drop_last());
    }
}

/// A bounded weight vector has a bounded total.
pub proof fn lemma_sum_flex_bound(flex: Seq<u64>)
    requires
        flex_wf(flex),
    ensures
        sum_flex(flex) <= flex.len() * (MAX_DIM as int),
    decreases flex.len(),
{
    if flex.len() > 0 {
        assert(flex_wf(flex.drop_last()));
        lemma_sum_flex_bound(flex.drop_last());
    }
}

/// Summing one more weight extends the prefix total by exactly that weight.
pub proof fn lemma_sum_flex_step(flex: Seq<u64>, k: int)
    requires
        0 <= k < flex.len(),
    ensures
        sum_flex(flex.subrange(0, k + 1)) == sum_flex(flex.subrange(0, k)) + flex[k],
{
    assert(flex.subrange(0, k + 1).drop_last() =~= flex.subrange(0, k));
    assert(flex.subrange(0, k + 1).last() == flex[k]);
}

/// A prefix total never exceeds the whole total.
pub proof fn lemma_sum_flex_prefix_le(flex: Seq<u64>, k: int)
    requires
        0 <= k <= flex.len(),
    ensures
        sum_flex(flex.subrange(0, k)) <= sum_flex(flex),
    decreases flex.len() - k,
{
    if k == flex.len() {
        assert(flex.subrange(0, k) =~= flex);
    } else {
        lemma_sum_flex_step(flex, k);
        lemma_sum_flex_prefix_le(flex, k + 1);
    }
}

/// The layout map `m` holds a record for every gesture wrapper that the
/// dispatch pass can reach from node `i`.  Dispatch requires this: a gesture
/// asked to hit-test without a record would have to fail, and the layout
/// pass is proved to never leave one out.
pub open spec fn covers(nodes: Seq<Node>, i: int, m: Seq<Option<CwModel>>) -> bool
    decreases i, 1int, 0int,
{
    if 0 <= i < nodes.len() {
        match nodes[i] {
            Node::Gesture(_) => i < m.len() && m[i] is Some,
            Node::Pad(p) => p.child < i ==> covers(nodes, p.child as int, m),
            Node::RowBox(r) => covers_kids(nodes, i, r.children@, 0, m),
            Node::ColumnBox(c) => covers_kids(nodes, i, c.children@, 0, m),
            Node::StackBox(s) => covers_kids(nodes, i, s.children@, 0, m),
            _ => true,
        }
    } else {
        true
    }
}

/// Coverage of a container's children from index `k` on.
pub open spec fn covers_kids(
    nodes: Seq<Node>,
    parent: int,
    ch: Seq<usize>,
    k: int,
    m: Seq<Option<CwModel>>,
) -> bool
    decreases parent, 0int, ch.len() - k,
{
    if 0 <= k < ch.len() && ch[k] < parent && 0 <= parent {
        covers(nodes, ch[k] as int, m) && covers_kids(nodes, parent, ch, k + 1, m)
    } else {
        true
    }
}

/// Coverage only ever looks at which slots are filled, so filling more slots
/// never breaks it.
pub proof fn lemma_covers_mono(
    nodes: Seq<Node>,
    i: int,
    m1: Seq<Option<CwModel>>,
    m2: Seq<Option<CwModel>>,
)
    requires
        covers(nodes, i, m1),
        m1.len() == m2.len(),
        forall|j: int| 0 <= j < m1.len() && (#[trigger] m1[j]) is Some ==> m2[j] is Some,
    ensures
        covers(nodes, i, m2),
    decreases i, 1int, 0int,
{
    if 0 <= i < nodes.len() {
        match nodes[i] {
            Node::Pad(p) => {
                if p.child < i {
                    lemma_covers_mono(nodes, p.child as int, m1, m2);
                }
            },
            Node::RowBox(r) => {
                lemma_covers_kids_mono(nodes, i, r.children@, 0, m1, m2);
            },
            Node::ColumnBox(c) => {
                lemma_covers_kids_mono(nodes, i, c.children@, 0, m1, m2);
            },
            Node::StackBox(s) => {
                lemma_covers_kids_mono(nodes, i, s.children@, 0, m1, m2);
            },
            _ => {},
        }
    }
}

/// Companion of [`lemma_covers_mono`] for a container's children.
pub proof fn lemma_covers_kids_mono(
    nodes: Seq<Node>,
    parent: int,
    ch: Seq<usize>,
    k: int,
    m1: Seq<Option<CwModel>>,
    m2: Seq<Option<CwModel>>,
)
    requires
        covers_kids(nodes, parent, ch, k, m1),
        m1.len() == m2.len(),
        forall|j: int| 0 <= j < m1.len() && (#[trigger] m1[j]) is Some ==> m2[j] is Some,
    ensures
        covers_kids(nodes, parent, ch, k, m2),
    decreases parent, 0int, ch.len() - k,
{
    if 0 <= k < ch.len() && ch[k] < parent && 0 <= parent {
        lemma_covers_mono(nodes, ch[k] as int, m1, m2);
        lemma_covers_kids_mono(nodes, parent, ch, k + 1, m1, m2);
    }
}

/// Filling slot `i` with a bounded record keeps the table well formed.
proof fn lemma_map_wf_update(m: Seq<Option<CwModel>>, i: int, c: CwModel)
    requires
        map_wf(m),
        0 <= i < m.len(),
        rec_bounds(c),
    ensures
        map_wf(m.update(i, Some(c))),
{
    let m2 = m.update(i, Some(c));
    assert forall|j: int| 0 <= j < m2.len() implies (#[trigger] m2[j] matches Some(cc)
        ==> rec_bounds(cc)) by {
        if j != i {
            assert(m2[j] == m[j]);
        }
    }
}

/// No row or column that the dispatch pass can reach from node `i` has a
/// zero total flex weight.  Such a container lays out none of its children,
/// so a gesture below it would have no record to hit-test against; the
/// layout pass guarantees coverage exactly when this holds.
pub open spec fn no_empty_split(nodes: Seq<Node>, i: int) -> bool
    decreases i, 1int, 0int,
{
    if 0 <= i < nodes.len() {
        match nodes[i] {
            Node::Pad(p) => p.child < i ==> no_empty_split(nodes, p.child as int),
            Node::RowBox(r) => sum_flex(r.flex@) > 0 && kids_no_empty_split(
                nodes,
                i,
                r.children@,
                0,
            ),
            Node::ColumnBox(c) => sum_flex(c.flex@) > 0 && kids_no_empty_split(
                nodes,
                i,
                c.children@,
                0,
            ),
            Node::StackBox(s) => kids_no_empty_split(nodes, i, s.children@, 0),
            _ => true,
        }
    } else {
        true
    }
}

/// Companion of [`no_empty_split`] over a container's children.
pub open spec fn kids_no_empty_split(nodes: Seq<Node>, parent: int, ch: Seq<usize>, k: int) -> bool
    decreases parent, 0int, ch.len() - k,
{
    if 0 <= k < ch.len() && ch[k] < parent && 0 <= parent {
        no_empty_split(nodes, ch[k] as int) && kids_no_empty_split(nodes, parent, ch, k + 1)
    } else {
        true
    }
}

/// The layout fold keeps the table's length and never empties a slot.
pub proof fn lemma_layout_preserve(
    nodes: Seq<Node>,
    i: int,
    x: int,
    y: int,
    z: int,
    w: int,
    h: int,
    m: Seq<Option<CwModel>>,
)
    ensures
        layout_node(nodes, i, x, y, z, w, h, m).len() == m.len(),
        forall|j: int|
            0 <= j < m.len() && (#[trigger] m[j]) is Some ==> layout_node(
                nodes,
                i,
                x,
                y,
                z,
                w,
                h,
                m,
            )[j] is Some,
    decreases i, 1int, 0int,
{
    if 0 <= i < nodes.len() && m.len() == nodes.len() {
        match nodes[i] {
            Node::Pad(p) => {
                if p.child < i {
                    lemma_layout_preserve(
                        nodes,
                        p.child as int,
                        x + p.padding.0,
                        y + p.padding.1,
                        z,
                        pad_dim(w, p.padding.0 as int, p.padding.2 as int),
                        pad_dim(h, p.padding.1 as int, p.padding.3 as int),
                        m,
                    );
                }
            },
            Node::Gesture(g) => {
                if g.background < i {
                    lemma_layout_preserve(nodes, g.background as int, x, y, z, w, h, m);
                }
            },
            Node::RowBox(r) => {
                let total = sum_flex(r.flex@);
                if total > 0 {
                    lemma_layout_row_preserve(
                        nodes,
                        i,
                        r.children@,
                        r.flex@,
                        0,
                        0,
                        x,
                        y,
                        z,
                        w / total,
                        h,
                        m,
                    );
                }
            },
            Node::ColumnBox(c) => {
                let total = sum_flex(c.flex@);
                if total > 0 {
                    lemma_layout_col_preserve(
                        nodes,
                        i,
                        c.children@,
                        c.flex@,
                        0,
                        0,
                        x,
                        y,
                        z,
                        w,
                        h / total,
                        m,
                    );
                }
            },
            Node::StackBox(s) => {
                lemma_layout_stack_preserve(nodes, i, s.children@, 0, x, y, z, w, h, m);
            },
            _ => {},
        }
    }
}

/// Companion of [`lemma_layout_preserve`] for the row fold.
proof fn lemma_layout_row_preserve(
    nodes: Seq<Node>,
    parent: int,
    ch: Seq<usize>,
    flex: Seq<u64>,
    k: int,
    prev: int,
    x: int,
    y: int,
    z: int,
    unit: int,
    h: int,
    m: Seq<Option<CwModel>>,
)
    ensures
        layout_row(nodes, parent, ch, flex, k, prev, x, y, z, unit, h, m).len() == m.len(),
        forall|j: int|
            0 <= j < m.len() && (#[trigger] m[j]) is Some ==> layout_row(
                nodes,
                parent,
                ch,
                flex,
                k,
                prev,
                x,
                y,
                z,
                unit,
                h,
                m,
            )[j] is Some,
    decreases parent, 0int, ch.len() - k,
{
    if 0 <= k < ch.len() && ch.len() == flex.len() && ch[k] < parent && 0 <= parent {
        let m1 = layout_node(nodes, ch[k] as int, x + prev * unit, y, z, flex[k] * unit, h, m);
        lemma_layout_preserve(nodes, ch[k] as int, x + prev * unit, y, z, flex[k] * unit, h, m);
        lemma_layout_row_preserve(
            nodes,
            parent,
            ch,
            flex,
            k + 1,
            prev + flex[k],
            x,
            y,
            z,
            unit,
            h,
            m1,
        );
    }
}

/// Companion of [`lemma_layout_preserve`] for the column fold.
proof fn lemma_layout_col_preserve(
    nodes: Seq<Node>,
    parent: int,
    ch: Seq<usize>,
    flex: Seq<u64>,
    k: int,
    prev: int,
    x: int,
    y: int,
    z: int,
    w: int,
    unit: int,
    m: Seq<Option<CwModel>>,
)
    ensures
        layout_col(nodes, parent, ch, flex, k, prev, x, y, z, w, unit, m).len() == m.len(),
        forall|j: int|
            0 <= j < m.len() && (#[trigger] m[j]) is Some ==> layout_col(
                nodes,
                parent,
                ch,
                flex,
                k,
                prev,
                x,
                y,
                z,
                w,
                unit,
                m,
            )[j] is Some,
    decreases parent, 0int, ch.len() - k,
{
    if 0 <= k < ch.len() && ch.len() == flex.len() && ch[k] < parent && 0 <= parent {
        let m1 = layout_node(nodes, ch[k] as int, x, y + prev * unit, z, w, flex[k] * unit, m);
        lemma_layout_preserve(nodes, ch[k] as int, x, y + prev * unit, z, w, flex[k] * unit, m);
        lemma_layout_col_preserve(
            nodes,
            parent,
            ch,
            flex,
            k + 1,
            prev + flex[k],
            x,
            y,
            z,
            w,
            unit,
            m1,
        );
    }
}

/// Companion of [`lemma_layout_preserve`] for the stack fold.
proof fn lemma_layout_stack_preserve(
    nodes: Seq<Node>,
    parent: int,
    ch: Seq<usize>,
    k: int,
    x: int,
    y: int,
    z: int,
    w: int,
    h: int,
    m: Seq<Option<CwModel>>,
)
    ensures
        layout_stack(nodes, parent, ch, k, x, y, z, w, h, m).len() == m.len(),
        forall|j: int|
            0 <= j < m.len() && (#[trigger] m[j]) is Some ==> layout_stack(
                nodes,
                parent,
                ch,
                k,
                x,
                y,
                z,
                w,
                h,
                m,
            )[j] is Some,
    decreases parent, 0int, ch.len() - k,
{
    if 0 <= k < ch.len() && ch[k] < parent && 0 <= parent {
        let m1 = layout_node(nodes, ch[k] as int, x, y, z + k, w, h, m);
        lemma_layout_preserve(nodes, ch[k] as int, x, y, z + k, w, h, m);
        lemma_layout_stack_preserve(nodes, parent, ch, k + 1, x, y, z, w, h, m1);
    }
}

/// The layout pass leaves a record for every gesture the dispatch pass can
/// reach, provided no zero-weight row or column stands in the way.
pub proof fn lemma_layout_covers(
    nodes: Seq<Node>,
    i: int,
    x: int,
    y: int,
    z: int,
    w: int,
    h: int,
    m: Seq<Option<CwModel>>,
)
    requires
        nodes_wf(nodes),
        m.len() == nodes.len(),
        0 <= i < nodes.len(),
        no_empty_split(nodes, i),
    ensures
        covers(nodes, i, layout_node(nodes, i, x, y, z, w, h, m)),
    decreases i, 1int, 0int,
{
    assert(node_wf(nodes, i));
    let res = layout_node(nodes, i, x, y, z, w, h, m);
    match nodes[i] {
        Node::Pad(p) => {
            lemma_layout_covers(
                nodes,
                p.child as int,
                x + p.padding.0,
                y + p.padding.1,
                z,
                pad_dim(w, p.padding.0 as int, p.padding.2 as int),
                pad_dim(h, p.padding.1 as int, p.padding.3 as int),
                m,
            );
        },
        Node::Gesture(g) => {
            lemma_layout_preserve(nodes, g.background as int, x, y, z, w, h, m);
            assert(res[i] is Some);
        },
        Node::RowBox(r) => {
            let total = sum_flex(r.flex@);
            lemma_layout_row_covers(nodes, i, r.children@, r.flex@, 0, 0, x, y, z, w / total, h, m);
        },
        Node::ColumnBox(c) => {
            let total = sum_flex(c.flex@);
            lemma_layout_col_covers(nodes, i, c.children@, c.flex@, 0, 0, x, y, z, w, h / total, m);
        },
        Node::StackBox(s) => {
            lemma_layout_stack_covers(nodes, i, s.children@, 0, x, y, z, w, h, m);
        },
        _ => {},
    }
}

/// Companion of [`lemma_layout_covers`] for the row fold.
proof fn lemma_layout_row_covers(
    nodes: Seq<Node>,
    parent: int,
    ch: Seq<usize>,
    flex: Seq<u64>,
    k: int,
    prev: int,
    x: int,
    y: int,
    z: int,
    unit: int,
    h: int,
    m: Seq<Option<CwModel>>,
)
    requires
        nodes_wf(nodes),
        m.len() == nodes.len(),
        0 <= parent < nodes.len(),
        ch.len() == flex.len(),
        kids_no_empty_split(nodes, parent, ch, k),
    ensures
        covers_kids(nodes, parent, ch, k, layout_row(nodes, parent, ch, flex, k, prev, x, y, z, unit, h, m)),
    decreases parent, 0int, ch.len() - k,
{
    if 0 <= k < ch.len() && ch[k] < parent && 0 <= parent {
        let cx = x + prev * unit;
        let cw = flex[k] * unit;
        let m1 = layout_node(nodes, ch[k] as int, cx, y, z, cw, h, m);
        let res = layout_row(nodes, parent, ch, flex, k + 1, prev + flex[k], x, y, z, unit, h, m1);
        lemma_layout_covers(nodes, ch[k] as int, cx, y, z, cw, h, m);
        lemma_layout_preserve(nodes, ch[k] as int, cx, y, z, cw, h, m);
        lemma_layout_row_covers(
            nodes,
            parent,
            ch,
            flex,
            k + 1,
            prev + flex[k],
            x,
            y,
            z,
            unit,
            h,
            m1,
        );
        lemma_layout_row_preserve(
            nodes,
            parent,
            ch,
            flex,
            k + 1,
            prev + flex[k],
            x,
            y,
            z,
            unit,
            h,
            m1,
        );
        lemma_covers_mono(nodes, ch[k] as int, m1, res);
    }
}

/// Companion of [`lemma_layout_covers`] for the column fold.
proof fn lemma_layout_col_covers(
    nodes: Seq<Node>,
    parent: int,
    ch: Seq<usize>,
    flex: Seq<u64>,
    k: int,
    prev: int,
    x: int,
    y: int,
    z: int,
    w: int,
    unit: int,
    m: Seq<Option<CwModel>>,
)
    requires
        nodes_wf(nodes),
        m.len() == nodes.len(),
        0 <= parent < nodes.len(),
        ch.len() == flex.len(),
        kids_no_empty_split(nodes, parent, ch, k),
    ensures
        covers_kids(nodes, parent, ch, k, layout_col(nodes, parent, ch, flex, k, prev, x, y, z, w, unit, m)),
    decreases parent, 0int, ch.len() - k,
{
    if 0 <= k < ch.len() && ch[k] < parent && 0 <= parent {
        let cy = y + prev * unit;
        let chh = flex[k] * unit;
        let m1 = layout_node(nodes, ch[k] as int, x, cy, z, w, chh, m);
        let res = layout_col(nodes, parent, ch, flex, k + 1, prev + flex[k], x, y, z, w, unit, m1);
        lemma_layout_covers(nodes, ch[k] as int, x, cy, z, w, chh, m);
        lemma_layout_preserve(nodes, ch[k] as int, x, cy, z, w, chh, m);
        lemma_layout_col_covers(
            nodes,
            parent,
            ch,
            flex,
            k + 1,
            prev + flex[k],
            x,
            y,
            z,
            w,
            unit,
            m1,
        );
        lemma_layout_col_preserve(
            nodes,
            parent,
            ch,
            flex,
            k + 1,
            prev + flex[k],
            x,
            y,
            z,
            w,
            unit,
            m1,
        );
        lemma_covers_mono(nodes, ch[k] as int, m1, res);
    }
}

/// Companion of [`lemma_layout_covers`] for the stack fold.
proof fn lemma_layout_stack_covers(
    nodes: Seq<Node>,
    parent: int,
    ch: Seq<usize>,
    k: int,
    x: int,
    y: int,
    z: int,
    w: int,
    h: int,
    m: Seq<Option<CwModel>>,
)
    requires
        nodes_wf(nodes),
        m.len() == nodes.len(),
        0 <= parent < nodes.len(),
        kids_no_empty_split(nodes, parent, ch, k),
    ensures
        covers_kids(nodes, parent, ch, k, layout_stack(nodes, parent, ch, k, x, y, z, w, h, m)),
    decreases parent, 0int, ch.len() - k,
{
    if 0 <= k < ch.len() && ch[k] < parent && 0 <= parent {
        let m1 = layout_node(nodes, ch[k] as int, x, y, z + k, w, h, m);
        let res = layout_stack(nodes, parent, ch, k + 1, x, y, z, w, h, m1);
        lemma_layout_covers(nodes, ch[k] as int, x, y, z + k, w, h, m);
        lemma_layout_preserve(nodes, ch[k] as int, x, y, z + k, w, h, m);
        lemma_layout_stack_covers(nodes, parent, ch, k + 1, x, y, z, w, h, m1);
        lemma_layout_stack_preserve(nodes, parent, ch, k + 1, x, y, z, w, h, m1);
        lemma_covers_mono(nodes, ch[k] as int, m1, res);
    }
}

/// Geometry facts for one row or column child: the cumulative offset and the
/// child's extent are nonnegative and together stay within the available
/// extent.
proof fn lemma_split_child_geom(prev: int, fx: int, total: int, unit: int, w: int)
    requires
        0 <= prev,
        0 <= fx,
        prev + fx <= total,
        0 < total,
        0 <= w,
        unit == w / total,
    ensures
        0 <= unit <= w,
        0 <= prev * unit,
        0 <= fx * unit,
        prev * unit + fx * unit <= w,
    {
    lemma_div_mul_bounds(w, total);
    lemma_mul_nonnegative(prev, unit);
    lemma_mul_nonnegative(fx, unit);
    lemma_mul_inequality(prev + fx, total, unit);
    lemma_mul_is_distributive_add_other_way(unit, prev, fx);
}

/// The executable layout recursion: produces exactly the [`layout_node`]
/// fold, fills only bounded records, never clears a slot, and covers every
/// gesture reachable from `i`.
#[verifier::loop_isolation(false)]
fn compute_node(
    ui: &Ui,
    i: usize,
    x: i64,
    y: i64,
    z: u64,
    w: i64,
    h: i64,
    map: &mut Vec<Option<ComputedWidget>>,
)
    requires
        ui.wf(),
        i < ui.nodes@.len(),
        old(map)@.len() == ui.nodes@.len(),
        geom_ok(i as int, x as int, y as int, z as int, w as int, h as int),
    ensures
        final(map)@.len() == old(map)@.len(),
        slots_model(final(map)@) == layout_node(
            ui.nodes@,
            i as int,
            x as int,
            y as int,
            z as int,
            w as int,
            h as int,
            slots_model(old(map)@),
        ),
        forall|j: int|
            0 <= j < old(map)@.len() && (#[trigger] slots_model(old(map)@)[j]) is Some
                ==> slots_model(final(map)@)[j] is Some,
        map_wf(slots_model(old(map)@)) ==> map_wf(slots_model(final(map)@)),
    decreases i,
{
    let ghost nodes = ui.nodes@;
    let ghost m0 = slots_model(map@);
    proof {
        assert(node_wf(nodes, i as int));
    }
    match &ui.nodes[i] {
        Node::Rect(r) => {
            let rec = ComputedWidget {
                x,
                y,
                z,
                width: w,
                height: h,
                render: Some(
                    RenderObject::Rectangle {
                        style: Style { color: Some(r.color), border_radius: r.border_radius },
                    },
                ),
            };
            proof {
                assert(rec_bounds(rec@));
                if map_wf(m0) {
                    lemma_map_wf_update(m0, i as int, rec@);
                }
            }
            map.set(i, Some(rec));
            proof {
                assert(slots_model(map@) =~= m0.update(i as int, Some(rec@)));
            }
        },
        Node::Label(t) => {
            let rec = ComputedWidget {
                x,
                y,
                z,
                width: w,
                height: h,
                render: Some(
                    RenderObject::Text {
                        text: t.text.clone(),
                        style: TextStyle {
                            font: t.font.clone(),
                            color: t.color,
                            size: t.size,
                        },
                    },
                ),
            };
            proof {
                assert(rec_bounds(rec@));
                if map_wf(m0) {
                    lemma_map_wf_update(m0, i as int, rec@);
                }
            }
            map.set(i, Some(rec));
            proof {
                assert(slots_model(map@) =~= m0.update(i as int, Some(rec@)));
            }
        },
        Node::Blank(_) => {
        },
        Node::Pad(p) => {
            let left = p.padding.0;
            let top = p.padding.1;
            let right = p.padding.2;
            let bottom = p.padding.3;
            let mut cw = w - left - right;
            if cw < 0 {
                cw = 0;
            }
            let mut chh = h - top - bottom;
            if chh < 0 {
                chh = 0;
            }
            compute_node(ui, p.child, x + left, y + top, z, cw, chh, map);
        },
        Node::Gesture(g) => {
            compute_node(ui, g.background, x, y, z, w, h, map);
            let ghost m1 = slots_model(map@);
            let rec = ComputedWidget { x, y, z, width: w, height: h, render: None };
            proof {
                assert(rec_bounds(rec@));
                if map_wf(m0) {
                    lemma_map_wf_update(m1, i as int, rec@);
                }
            }
            map.set(i, Some(rec));
            proof {
                assert(slots_model(map@) =~= m1.update(i as int, Some(rec@)));
            }
        },
        Node::RowBox(row) => {
            let n = row.children.len();
            let mut total: u64 = 0;
            let mut k: usize = 0;
            while k < n
                invariant
                    k <= n,
                    total == sum_flex(row.flex@.subrange(0, k as int)),
                    total <= (k as int) * (MAX_DIM as int),
                decreases n - k,
            {
                proof {
                    lemma_sum_flex_step(row.flex@, k as int);
                }
                total = total + row.flex[k];
                k = k + 1;
            }
            proof {
                assert(row.flex@.subrange(0, n as int) =~= row.flex@);
                lemma_sum_flex_nonneg(row.flex@);
            }
            if total == 0 {
                return ;
            }
            let unit: i64 = w / (total as i64);
            proof {
                lemma_div_mul_bounds(w as int, total as int);
            }
            let mut prev: u64 = 0;
            let mut k2: usize = 0;
            while k2 < n
                invariant
                    k2 <= n,
                    prev == sum_flex(row.flex@.subrange(0, k2 as int)),
                    0 <= prev <= total,
                    map@.len() == nodes.len(),
                    layout_row(
                        nodes,
                        i as int,
                        row.children@,
                        row.flex@,
                        k2 as int,
                        prev as int,
                        x as int,
                        y as int,
                        z as int,
                        unit as int,
                        h as int,
                        slots_model(map@),
                    ) == layout_row(
                        nodes,
                        i as int,
                        row.children@,
                        row.flex@,
                        0,
                        0,
                        x as int,
                        y as int,
                        z as int,
                        unit as int,
                        h as int,
                        m0,
                    ),
                    forall|j: int|
                        0 <= j < m0.len() && (#[trigger] m0[j]) is Some ==> slots_model(
                            map@,
                        )[j] is Some,
                    map_wf(m0) ==> map_wf(slots_model(map@)),
                decreases n - k2,
            {
                let child = row.children[k2];
                let fx = row.flex[k2];
                proof {
                    lemma_sum_flex_step(row.flex@, k2 as int);
                    lemma_sum_flex_prefix_le(row.flex@, k2 as int + 1);
                    lemma_split_child_geom(
                        prev as int,
                        fx as int,
                        total as int,
                        unit as int,
                        w as int,
                    );
                }
                let off: i64 = (prev as i64) * unit;
                let cwid: i64 = (fx as i64) * unit;
                compute_node(ui, child, x + off, y, z, cwid, h, map);
                prev = prev + fx;
                k2 = k2 + 1;
            }
        },
        Node::ColumnBox(col) => {
            let n = col.children.len();
            let mut total: u64 = 0;
            let mut k: usize = 0;
            while k < n
                invariant
                    k <= n,
                    total == sum_flex(col.flex@.subrange(0, k as int)),
                    total <= (k as int) * (MAX_DIM as int),
                decreases n - k,
            {
                proof {
                    lemma_sum_flex_step(col.flex@, k as int);
                }
                total = total + col.flex[k];
                k = k + 1;
            }
            proof {
                assert(col.flex@.subrange(0, n as int) =~= col.flex@);
                lemma_sum_flex_nonneg(col.flex@);
            }
            if total == 0 {
                return ;
            }
            let unit: i64 = h / (total as i64);
            proof {
                lemma_div_mul_bounds(h as int, total as int);
            }
            let mut prev: u64 = 0;
            let mut k2: usize = 0;
            while k2 < n
                invariant
                    k2 <= n,
                    prev == sum_flex(col.flex@.subrange(0, k2 as int)),
                    0 <= prev <= total,
                    map@.len() == nodes.len(),
                    layout_col(
                        nodes,
                        i as int,
                        col.children@,
                        col.flex@,
                        k2 as int,
                        prev as int,
                        x as int,
                        y as int,
                        z as int,
                        w as int,
                        unit as int,
                        slots_model(map@),
                    ) == layout_col(
                        nodes,
                        i as int,
                        col.children@,
                        col.flex@,
                        0,
                        0,
                        x as int,
                        y as int,
                        z as int,
                        w as int,
                        unit as int,
                        m0,
                    ),
                    forall|j: int|
                        0 <= j < m0.len() && (#[trigger] m0[j]) is Some ==> slots_model(
                            map@,
                        )[j] is Some,
                    map_wf(m0) ==> map_wf(slots_model(map@)),
                decreases n - k2,
            {
                let child = col.children[k2];
                let fx = col.flex[k2];
                proof {
                    lemma_sum_flex_step(col.flex@, k2 as int);
                    lemma_sum_flex_prefix_le(col.flex@, k2 as int + 1);
                    lemma_split_child_geom(
                        prev as int,
                        fx as int,
                        total as int,
                        unit as int,
                        h as int,
                    );
                }
                let off: i64 = (prev as i64) * unit;
                let chht: i64 = (fx as i64) * unit;
                compute_node(ui, child, x, y + off, z, w, chht, map);
                prev = prev + fx;
                k2 = k2 + 1;
            }
        },
        Node::StackBox(st) => {
            let n = st.children.len();
            let mut k: usize = 0;
            while k < n
                invariant
                    k <= n,
                    map@.len() == nodes.len(),
                    layout_stack(
                        nodes,
                        i as int,
                        st.children@,
                        k as int,
                        x as int,
                        y as int,
                        z as int,
                        w as int,
                        h as int,
                        slots_model(map@),
                    ) == layout_stack(
                        nodes,
                        i as int,
                        st.children@,
                        0,
                        x as int,
                        y as int,
                        z as int,
                        w as int,
                        h as int,
                        m0,
                    ),
                    forall|j: int|
                        0 <= j < m0.len() && (#[trigger] m0[j]) is Some ==> slots_model(
                            map@,
                        )[j] is Some,
                    map_wf(m0) ==> map_wf(slots_model(map@)),
                decreases n - k,
            {
                let child = st.children[k];
                compute_node(ui, child, x, y, z + (k as u64), w, h, map);
                k = k + 1;
            }
        },
    }
}

/// The layout pass: rebuilds the whole layout map from scratch for the
/// subtree rooted at `root` laid out at the origin of a `width` by `height`
/// window box.  The result is exactly the [`layout_node`] fold over an empty
/// table; every record in it is bounded and every gesture wrapper reachable
/// from `root` has one.
pub fn compute(ui: &Ui, root: usize, width: i64, height: i64) -> (m: LayoutMap)
    requires
        ui.wf(),
        root < ui.nodes@.len(),
        0 <= width <= MAX_DIM,
        0 <= height <= MAX_DIM,
    ensures
        m@.len() == ui.nodes@.len(),
        m@ == layout_node(
            ui.nodes@,
            root as int,
            0,
            0,
            0,
            width as int,
            height as int,
            empty_slots(ui.nodes@.len() as int),
        ),
        map_wf(m@),
        no_empty_split(ui.nodes@, root as int) ==> covers(ui.nodes@, root as int, m@),
{
    let n = ui.nodes.len();
    let mut slots: Vec<Option<ComputedWidget>> = Vec::new();
    let mut k: usize = 0;
    while k < n
        invariant
            k <= n,
            slots@.len() == k,
            forall|j: int| 0 <= j < k ==> (#[trigger] slots@[j]) is None,
        decreases n - k,
    {
        slots.push(None);
        k = k + 1;
    }
    proof {
        assert(slots_model(slots@) =~= empty_slots(ui.nodes@.len() as int));
        assert(map_wf(slots_model(slots@)));
    }
    compute_node(ui, root, 0, 0, 0, width, height, &mut slots);
    proof {
        if no_empty_split(ui.nodes@, root as int) {
            lemma_layout_covers(
                ui.nodes@,
                root as int,
                0,
                0,
                0,
                width as int,
                height as int,
                empty_slots(ui.nodes@.len() as int),
            );
        }
    }
    LayoutMap { slots }
}

} // verus!
