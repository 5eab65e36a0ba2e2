//! Laws of the layout pass, stated and proved against the same folds the
//! executable passes are specified by.

use vstd::arithmetic::div_mod::lemma_fundamental_div_mod;
use vstd::arithmetic::mul::lemma_mul_is_distributive_add_other_way;
use vstd::prelude::*;

use crate::layout::{empty_slots, layout_col, layout_node, layout_row, layout_stack, pad_dim, sum_flex};
use crate::record::CwModel;
use crate::widgets::Node;

verus! {

/// The extent a row (or column) grants its `k`-th child: the child's flex
/// weight times the unit `avail / total`.
pub open spec fn row_extent(flex: Seq<u64>, avail: int, k: int) -> int {
    flex[k] * (avail / sum_flex(flex))
}

/// Sum of all the extents a row or column grants, written as the weights
/// scaled by a common unit.
pub open spec fn sum_scaled(flex: Seq<u64>, unit: int) -> int
    decreases flex.len(),
{
    if flex.len() == 0 {
        0
    } else {
        sum_scaled(flex.drop_last(), unit) + flex.last() * unit
    }
}

/// Whether `idx` occurs among the children `ch[k..]`.
pub open spec fn among(ch: Seq<usize>, k: int, idx: int) -> bool {
    exists|j: int| k <= j < ch.len() && ch[j] == idx
}

/// Padding insets that meet or exceed the available box resolve the child's
/// extent to exactly zero, never a negative value; smaller insets leave
/// exactly the box minus the two insets.
pub proof fn lemma_padding_clamps(avail: int, a: int, b: int)
    ensures
        0 <= pad_dim(avail, a, b),
        a + b >= avail ==> pad_dim(avail, a, b) == 0,
        a + b <= avail ==> pad_dim(avail, a, b) == avail - a - b,
{
}

/// A padding node lays out its child, and nothing else, in the inset box
/// with both dimensions clamped at zero.
pub proof fn lemma_padding_child_box(
    nodes: Seq<Node>,
    i: int,
    x: int,
    y: int,
    z: int,
    w: int,
    h: int,
    m: Seq<Option<CwModel>>,
)
    requires
        0 <= i < nodes.len(),
        m.len() == nodes.len(),
        nodes[i] matches Node::Pad(p) && p.child < i,
    ensures
        ({
            let p = nodes[i]->Pad_0;
            layout_node(nodes, i, x, y, z, w, h, m) == layout_node(
                nodes,
                p.child as int,
                x + p.padding.0,
                y + p.padding.1,
                z,
                pad_dim(w, p.padding.0 as int, p.padding.2 as int),
                pad_dim(h, p.padding.1 as int, p.padding.3 as int),
                m,
            )
        }),
{
}

/// Scaling a weight vector by a unit scales its total: the sum of the
/// extents equals the total weight times the unit.
proof fn lemma_sum_scaled_total(flex: Seq<u64>, unit: int)
    ensures
        sum_scaled(flex, unit) == sum_flex(flex) * unit,
    decreases flex.len(),
{
    if flex.len() == 0 {
    } else {
        lemma_sum_scaled_total(flex.drop_last(), unit);
        lemma_mul_is_distributive_add_other_way(
            unit,
            sum_flex(flex.drop_last()),
            flex.last() as int,
        );
    }
}

/// Row and column extents are proportional to the flex weights, exactly, in
/// cross-product form: `extent_i * weight_j == extent_j * weight_i`.
pub proof fn lemma_flex_proportional(flex: Seq<u64>, avail: int, i: int, j: int)
    requires
        0 <= i < flex.len(),
        0 <= j < flex.len(),
    ensures
        row_extent(flex, avail, i) * flex[j] == row_extent(flex, avail, j) * flex[i],
{
    let u = avail / sum_flex(flex);
    assert((flex[i] * u) * flex[j] == (flex[j] * u) * flex[i]) by (nonlinear_arith);
}

/// The extents a row or column grants sum to the parent's extent minus the
/// integer-division remainder; when the total weight divides the extent
/// evenly they sum to exactly the parent's extent.  (With a remainder the
/// division leaves it unassigned: weights `[1, 2]` over an extent of 10
/// grant 3 and 6.)
pub proof fn lemma_flex_sum(flex: Seq<u64>, avail: int)
    requires
        sum_flex(flex) > 0,
    ensures
        sum_scaled(flex, avail / sum_flex(flex)) == avail - avail % sum_flex(flex),
        avail % sum_flex(flex) == 0 ==> sum_scaled(flex, avail / sum_flex(flex)) == avail,
{
    let total = sum_flex(flex);
    lemma_sum_scaled_total(flex, avail / total);
    lemma_fundamental_div_mod(avail, total);
}

/// Two layout passes over the same unmutated tree and the same box produce
/// the same map: the fold is a function of its arguments alone, so the pass
/// is idempotent.
pub proof fn lemma_compute_idempotent(
    nodes: Seq<Node>,
    root: int,
    w: int,
    h: int,
    m1: Seq<Option<CwModel>>,
    m2: Seq<Option<CwModel>>,
)
    requires
        m1 == layout_node(nodes, root, 0, 0, 0, w, h, empty_slots(nodes.len() as int)),
        m2 == layout_node(nodes, root, 0, 0, 0, w, h, empty_slots(nodes.len() as int)),
    ensures
        m1 == m2,
{
}

/// Stack children all receive the parent's own box and strictly increasing
/// paint-order indices, one step per child: laid out from index `k` on,
/// child `j` of a stack of pairwise distinct leaf renderables ends with a
/// record at exactly `(x, y, z + j, w, h)`, and no other slot changes.
pub proof fn lemma_stack_records_from(
    nodes: Seq<Node>,
    parent: int,
    ch: Seq<usize>,
    k: int,
    x: int,
    y: int,
    z: int,
    w: int,
    h: int,
    m: Seq<Option<CwModel>>,
)
    requires
        0 <= k,
        0 <= parent <= nodes.len(),
        m.len() == nodes.len(),
        forall|j: int| 0 <= j < ch.len() ==> (#[trigger] ch[j]) < parent,
        forall|j: int|
            0 <= j < ch.len() ==> (nodes[(#[trigger] ch[j]) as int] is Rect || nodes[ch[j] as int]
                is Label),
        forall|j1: int, j2: int| 0 <= j1 < j2 < ch.len() ==> ch[j1] != ch[j2],
    ensures
        ({
            let res = layout_stack(nodes, parent, ch, k, x, y, z, w, h, m);
            &&& res.len() == m.len()
            &&& forall|j: int|
                k <= j < ch.len() ==> ((#[trigger] res[ch[j] as int]) matches Some(c) && c.x == x
                    && c.y == y && c.width == w && c.height == h && c.z == z + j)
            &&& forall|idx: int|
                0 <= idx < m.len() && !among(ch, k, idx) ==> (#[trigger] res[idx]) == m[idx]
        }),
    decreases ch.len() - k,
{
    let res = layout_stack(nodes, parent, ch, k, x, y, z, w, h, m);
    if 0 <= k < ch.len() && ch[k] < parent && 0 <= parent {
        let m1 = layout_node(nodes, ch[k] as int, x, y, z + k, w, h, m);
        crate::layout::lemma_layout_preserve(nodes, ch[k] as int, x, y, z + k, w, h, m);
        lemma_stack_records_from(nodes, parent, ch, k + 1, x, y, z, w, h, m1);
        assert(!among(ch, k + 1, ch[k] as int)) by {
            assert forall|j: int| k + 1 <= j < ch.len() implies ch[j] != ch[k] by {}
        }
        assert(res[ch[k] as int] == m1[ch[k] as int]);
        assert forall|idx: int|
            0 <= idx < m.len() && !among(ch, k, idx) implies (#[trigger] res[idx]) == m[idx] by {
            assert(ch[k] as int != idx);
            assert(!among(ch, k + 1, idx));
            assert(m1[idx] == m[idx]);
        }
    } else {
        if k < ch.len() {
            assert(ch[k] < parent);
        }
    }
}

/// The stack law at a stack node itself: every child of a stack of pairwise
/// distinct leaf renderables gets the stack's own box and paint order
/// `z + j`, so the indices strictly increase in child order.
pub proof fn lemma_stack_records(
    nodes: Seq<Node>,
    i: int,
    x: int,
    y: int,
    z: int,
    w: int,
    h: int,
    m: Seq<Option<CwModel>>,
)
    requires
        0 <= i < nodes.len(),
        m.len() == nodes.len(),
        nodes[i] is StackBox,
        forall|j: int|
            0 <= j < spec_kids(nodes[i]).len() ==> (#[trigger] spec_kids(nodes[i])[j]) < i,
        forall|j: int|
            0 <= j < spec_kids(nodes[i]).len() ==> (nodes[(#[trigger] spec_kids(nodes[i])[j]) as int]
                is Rect || nodes[spec_kids(nodes[i])[j] as int] is Label),
        forall|j1: int, j2: int|
            0 <= j1 < j2 < spec_kids(nodes[i]).len() ==> spec_kids(nodes[i])[j1] != spec_kids(
                nodes[i],
            )[j2],
    ensures
        ({
            let ch = spec_kids(nodes[i]);
            let res = layout_node(nodes, i, x, y, z, w, h, m);
            &&& forall|j: int|
                0 <= j < ch.len() ==> ((#[trigger] res[ch[j] as int]) matches Some(c) && c.x == x
                    && c.y == y && c.width == w && c.height == h && c.z == z + j)
            &&& forall|j1: int, j2: int|
                0 <= j1 < j2 < ch.len() ==> ((res[ch[j1] as int]->0).z < (res[ch[j2] as int]->0).z)
        }),
{
    let ch = spec_kids(nodes[i]);
    lemma_stack_records_from(nodes, i, ch, 0, x, y, z, w, h, m);
}

/// The children of a stack node, for stating the stack law.
pub open spec fn spec_kids(n: Node) -> Seq<usize> {
    crate::widgets::spec_children(n)
}

/// Row children that are pairwise distinct leaf renderables end with records
/// at cumulative offsets and extents exactly proportional to their weights:
/// laid out from index `k` on with the prefix weight `prev` consumed, child
/// `j` gets the box `(x + prefix_j x unit, y, flex_j x unit, h)` at paint
/// order `z`, and no other slot changes.
pub proof fn lemma_row_records_from(
    nodes: Seq<Node>,
    parent: int,
    ch: Seq<usize>,
    flex: Seq<u64>,
    k: int,
    x: int,
    y: int,
    z: int,
    unit: int,
    h: int,
    m: Seq<Option<CwModel>>,
)
    requires
        0 <= k,
        0 <= parent <= nodes.len(),
        m.len() == nodes.len(),
        ch.len() == flex.len(),
        forall|j: int| 0 <= j < ch.len() ==> (#[trigger] ch[j]) < parent,
        forall|j: int|
            0 <= j < ch.len() ==> (nodes[(#[trigger] ch[j]) as int] is Rect || nodes[ch[j] as int]
                is Label),
        forall|j1: int, j2: int| 0 <= j1 < j2 < ch.len() ==> ch[j1] != ch[j2],
    ensures
        ({
            let res = layout_row(
                nodes,
                parent,
                ch,
                flex,
                k,
                sum_flex(flex.subrange(0, k)),
                x,
                y,
                z,
                unit,
                h,
                m,
            );
            &&& res.len() == m.len()
            &&& forall|j: int|
                k <= j < ch.len() ==> ((#[trigger] res[ch[j] as int]) matches Some(c) && c.x == x
                    + sum_flex(flex.subrange(0, j)) * unit && c.y == y && c.width == flex[j] * unit
                    && c.height == h && c.z == z)
            &&& forall|idx: int|
                0 <= idx < m.len() && !among(ch, k, idx) ==> (#[trigger] res[idx]) == m[idx]
        }),
    decreases ch.len() - k,
{
    let prev = sum_flex(flex.subrange(0, k));
    let res = layout_row(nodes, parent, ch, flex, k, prev, x, y, z, unit, h, m);
    if 0 <= k < ch.len() && ch[k] < parent && 0 <= parent {
        let m1 = layout_node(nodes, ch[k] as int, x + prev * unit, y, z, flex[k] * unit, h, m);
        crate::layout::lemma_layout_preserve(nodes, ch[k] as int, x + prev * unit, y, z, flex[k] * unit, h, m);
        crate::layout::lemma_sum_flex_step(flex, k);
        lemma_row_records_from(nodes, parent, ch, flex, k + 1, x, y, z, unit, h, m1);
        assert(!among(ch, k + 1, ch[k] as int)) by {
            assert forall|j: int| k + 1 <= j < ch.len() implies ch[j] != ch[k] by {}
        }
        assert(res[ch[k] as int] == m1[ch[k] as int]);
        assert forall|idx: int|
            0 <= idx < m.len() && !among(ch, k, idx) implies (#[trigger] res[idx]) == m[idx] by {
            assert(ch[k] as int != idx);
            assert(!among(ch, k + 1, idx));
            assert(m1[idx] == m[idx]);
        }
    } else {
        if k < ch.len() {
            assert(ch[k] < parent);
        }
    }
}

/// Column children that are pairwise distinct leaf renderables end with
/// records at cumulative offsets and extents exactly proportional to their
/// weights, the symmetric split of the height.
pub proof fn lemma_col_records_from(
    nodes: Seq<Node>,
    parent: int,
    ch: Seq<usize>,
    flex: Seq<u64>,
    k: int,
    x: int,
    y: int,
    z: int,
    w: int,
    unit: int,
    m: Seq<Option<CwModel>>,
)
    requires
        0 <= k,
        0 <= parent <= nodes.len(),
        m.len() == nodes.len(),
        ch.len() == flex.len(),
        forall|j: int| 0 <= j < ch.len() ==> (#[trigger] ch[j]) < parent,
        forall|j: int|
            0 <= j < ch.len() ==> (nodes[(#[trigger] ch[j]) as int] is Rect || nodes[ch[j] as int]
                is Label),
        forall|j1: int, j2: int| 0 <= j1 < j2 < ch.len() ==> ch[j1] != ch[j2],
    ensures
        ({
            let res = layout_col(
                nodes,
                parent,
                ch,
                flex,
                k,
                sum_flex(flex.subrange(0, k)),
                x,
                y,
                z,
                w,
                unit,
                m,
            );
            &&& res.len() == m.len()
            &&& forall|j: int|
                k <= j < ch.len() ==> ((#[trigger] res[ch[j] as int]) matches Some(c) && c.x == x
                    && c.y == y + sum_flex(flex.subrange(0, j)) * unit && c.width == w && c.height
                    == flex[j] * unit && c.z == z)
            &&& forall|idx: int|
                0 <= idx < m.len() && !among(ch, k, idx) ==> (#[trigger] res[idx]) == m[idx]
        }),
    decreases ch.len() - k,
{
    let prev = sum_flex(flex.subrange(0, k));
    let res = layout_col(nodes, parent, ch, flex, k, prev, x, y, z, w, unit, m);
    if 0 <= k < ch.len() && ch[k] < parent && 0 <= parent {
        let m1 = layout_node(nodes, ch[k] as int, x, y + prev * unit, z, w, flex[k] * unit, m);
        crate::layout::lemma_layout_preserve(
            nodes,
            ch[k] as int,
            x,
            y + prev * unit,
            z,
            w,
            flex[k] * unit,
            m,
        );
        crate::layout::lemma_sum_flex_step(flex, k);
        lemma_col_records_from(nodes, parent, ch, flex, k + 1, x, y, z, w, unit, m1);
        assert(!among(ch, k + 1, ch[k] as int)) by {
            assert forall|j: int| k + 1 <= j < ch.len() implies ch[j] != ch[k] by {}
        }
        assert(res[ch[k] as int] == m1[ch[k] as int]);
        assert forall|idx: int|
            0 <= idx < m.len() && !among(ch, k, idx) implies (#[trigger] res[idx]) == m[idx] by {
            assert(ch[k] as int != idx);
            assert(!among(ch, k + 1, idx));
            assert(m1[idx] == m[idx]);
        }
    } else {
        if k < ch.len() {
            assert(ch[k] < parent);
        }
    }
}

/// The flex weights of a row or column node, for stating the split laws.
pub open spec fn spec_weights(n: Node) -> Seq<u64> {
    match n {
        Node::RowBox(w) => w.flex@,
        Node::ColumnBox(w) => w.flex@,
        _ => Seq::empty(),
    }
}

/// The split law at a row node itself: every child that is a leaf
/// renderable, in a row of pairwise distinct leaf renderables with a
/// positive total weight, ends with a record `row_extent` wide at the
/// cumulative offset of the weights before it, with the row's own height,
/// vertical position and paint order.
pub proof fn lemma_row_records(
    nodes: Seq<Node>,
    i: int,
    x: int,
    y: int,
    z: int,
    w: int,
    h: int,
    m: Seq<Option<CwModel>>,
)
    requires
        0 <= i < nodes.len(),
        m.len() == nodes.len(),
        nodes[i] is RowBox,
        spec_kids(nodes[i]).len() == spec_weights(nodes[i]).len(),
        sum_flex(spec_weights(nodes[i])) > 0,
        forall|j: int|
            0 <= j < spec_kids(nodes[i]).len() ==> (#[trigger] spec_kids(nodes[i])[j]) < i,
        forall|j: int|
            0 <= j < spec_kids(nodes[i]).len() ==> (nodes[(#[trigger] spec_kids(nodes[i])[j]) as int]
                is Rect || nodes[spec_kids(nodes[i])[j] as int] is Label),
        forall|j1: int, j2: int|
            0 <= j1 < j2 < spec_kids(nodes[i]).len() ==> spec_kids(nodes[i])[j1] != spec_kids(
                nodes[i],
            )[j2],
    ensures
        ({
            let ch = spec_kids(nodes[i]);
            let flex = spec_weights(nodes[i]);
            let unit = w / sum_flex(flex);
            let res = layout_node(nodes, i, x, y, z, w, h, m);
            forall|j: int|
                0 <= j < ch.len() ==> ((#[trigger] res[ch[j] as int]) matches Some(c) && c.x == x
                    + sum_flex(flex.subrange(0, j)) * unit && c.y == y && c.width == row_extent(
                    flex,
                    w,
                    j,
                ) && c.height == h && c.z == z)
        }),
{
    let ch = spec_kids(nodes[i]);
    let flex = spec_weights(nodes[i]);
    let unit = w / sum_flex(flex);
    lemma_row_records_from(nodes, i, ch, flex, 0, x, y, z, unit, h, m);
}

/// The split law at a column node itself, the symmetric statement over the
/// height.
pub proof fn lemma_col_records(
    nodes: Seq<Node>,
    i: int,
    x: int,
    y: int,
    z: int,
    w: int,
    h: int,
    m: Seq<Option<CwModel>>,
)
    requires
        0 <= i < nodes.len(),
        m.len() == nodes.len(),
        nodes[i] is ColumnBox,
        spec_kids(nodes[i]).len() == spec_weights(nodes[i]).len(),
        sum_flex(spec_weights(nodes[i])) > 0,
        forall|j: int|
            0 <= j < spec_kids(nodes[i]).len() ==> (#[trigger] spec_kids(nodes[i])[j]) < i,
        forall|j: int|
            0 <= j < spec_kids(nodes[i]).len() ==> (nodes[(#[trigger] spec_kids(nodes[i])[j]) as int]
                is Rect || nodes[spec_kids(nodes[i])[j] as int] is Label),
        forall|j1: int, j2: int|
            0 <= j1 < j2 < spec_kids(nodes[i]).len() ==> spec_kids(nodes[i])[j1] != spec_kids(
                nodes[i],
            )[j2],
    ensures
        ({
            let ch = spec_kids(nodes[i]);
            let flex = spec_weights(nodes[i]);
            let unit = h / sum_flex(flex);
            let res = layout_node(nodes, i, x, y, z, w, h, m);
            forall|j: int|
                0 <= j < ch.len() ==> ((#[trigger] res[ch[j] as int]) matches Some(c) && c.x == x
                    && c.y == y + sum_flex(flex.subrange(0, j)) * unit && c.width == w && c.height
                    == row_extent(flex, h, j) && c.z == z)
        }),
{
    let ch = spec_kids(nodes[i]);
    let flex = spec_weights(nodes[i]);
    let unit = h / sum_flex(flex);
    lemma_col_records_from(nodes, i, ch, flex, 0, x, y, z, w, unit, m);
}

} // verus!
