//! The dispatch pass.
//!
//! `dispatch` routes one pointer event through the tree against the layout
//! map of the last `compute`.  It is a bubble-up-by-returning model: a
//! container offers the event to each child in order; a child that consumes
//! it returns `None` and the walk stops descending into later siblings; a
//! child that ignores it returns the event unchanged for the next sibling.
//! Leaf renderables never consume anything.  The gesture wrapper is the only
//! node that hit-tests: presses and releases inside its rectangle fire the
//! matching handler and consume the event, and a move firing an enter
//! (outside to inside) or leave (inside to outside) transition does the
//! same.  Whether any handler changed shared state is OR-accumulated into
//! the returned flag, seeded by the caller's own flag.
//!
//! The meaning of the pass is the fold [`dispatch_node_spec`]; the
//! executable pass is proved to produce exactly that fold, and to leave the
//! tree untouched whenever it hands the event back.

use vstd::prelude::*;

use crate::event::Event;
use crate::record::{hit, map_wf, rec_bounds, ComputedWidget, CwModel, LayoutMap};
use crate::layout::{covers, covers_kids};
use crate::color::Color;
use crate::widgets::{
    lemma_wf_update_leaf, node_wf, opt_handler_ok, spec_children, Handler, MouseGesture, Node,
    Pressed, Rectangle, Ui,
};
use crate::{MAX_COORD, MAX_DIM, MAX_Z};

verus! {

/// Everything one dispatch step determines: the tree and notification queue
/// afterwards, the event remainder (`None` when consumed), and the
/// OR-accumulated state-changed flag.
pub struct DispatchOut {
    pub nodes: Seq<Node>,
    pub emitted: Seq<Pressed>,
    pub remaining: Option<Event>,
    pub changed: bool,
}

/// Writing a color into a rectangle leaf; any other target leaves the tree
/// unchanged (well-formedness rules such targets out).
pub open spec fn set_rect_color(nodes: Seq<Node>, cell: usize, color: Color) -> Seq<Node> {
    if cell < nodes.len() {
        match nodes[cell as int] {
            Node::Rect(r) => nodes.update(
                cell as int,
                Node::Rect(Rectangle { color, border_radius: r.border_radius, id: r.id }),
            ),
            _ => nodes,
        }
    } else {
        nodes
    }
}

/// What firing an optional handler does: the new tree, the new notification
/// queue, and whether shared state changed.
pub open spec fn run_handler_spec(
    nodes: Seq<Node>,
    emitted: Seq<Pressed>,
    h: Option<Handler>,
    button: u8,
) -> (Seq<Node>, Seq<Pressed>, bool) {
    match h {
        None => (nodes, emitted, false),
        Some(Handler::SetColor { cell, color }) => (set_rect_color(nodes, cell, color), emitted, true),
        Some(Handler::SetColorEmit { cell, color, tag }) => (
            set_rect_color(nodes, cell, color),
            emitted.push(Pressed { tag, button }),
            true,
        ),
        Some(Handler::Emit { tag }) => (nodes, emitted.push(Pressed { tag, button }), false),
    }
}

/// One gesture wrapper's reaction to an event, given its own layout record.
/// Enter and leave transitions carry no button; their notifications use 0.
pub open spec fn gesture_spec(
    nodes: Seq<Node>,
    emitted: Seq<Pressed>,
    i: int,
    g: MouseGesture,
    ev: Event,
    prev: bool,
    m: Seq<Option<CwModel>>,
) -> DispatchOut {
    if 0 <= i < m.len() && m[i] is Some {
        let c = m[i]->0;
        match ev {
            Event::MouseDown { x, y, button } => {
                if hit(c, x as int, y as int) {
                    let (n2, e2, ch) = run_handler_spec(nodes, emitted, g.click_callback, button);
                    DispatchOut { nodes: n2, emitted: e2, remaining: None, changed: prev || ch }
                } else {
                    DispatchOut { nodes, emitted, remaining: Some(ev), changed: prev }
                }
            },
            Event::MouseUp { x, y, button } => {
                if hit(c, x as int, y as int) {
                    let (n2, e2, ch) = run_handler_spec(nodes, emitted, g.release_callback, button);
                    DispatchOut { nodes: n2, emitted: e2, remaining: None, changed: prev || ch }
                } else {
                    DispatchOut { nodes, emitted, remaining: Some(ev), changed: prev }
                }
            },
            Event::MouseMove { prev_x, prev_y, x, y } => {
                let now_in = hit(c, x as int, y as int);
                let was_in = hit(c, prev_x as int, prev_y as int);
                if now_in && !was_in {
                    let (n2, e2, ch) = run_handler_spec(nodes, emitted, g.enter_callback, 0);
                    DispatchOut { nodes: n2, emitted: e2, remaining: None, changed: prev || ch }
                } else if !now_in && was_in {
                    let (n2, e2, ch) = run_handler_spec(nodes, emitted, g.leave_callback, 0);
                    DispatchOut { nodes: n2, emitted: e2, remaining: None, changed: prev || ch }
                } else {
                    DispatchOut { nodes, emitted, remaining: Some(ev), changed: prev }
                }
            },
        }
    } else {
        DispatchOut { nodes, emitted, remaining: Some(ev), changed: prev }
    }
}

/// Meaning of dispatching event `ev` into the subtree rooted at node `i`.
pub open spec fn dispatch_node_spec(
    nodes: Seq<Node>,
    emitted: Seq<Pressed>,
    i: int,
    ev: Event,
    prev: bool,
    m: Seq<Option<CwModel>>,
) -> DispatchOut
    decreases i, 1int, 0int,
{
    if 0 <= i < nodes.len() {
        match nodes[i] {
            Node::Rect(_) => DispatchOut { nodes, emitted, remaining: Some(ev), changed: prev },
            Node::Label(_) => DispatchOut { nodes, emitted, remaining: Some(ev), changed: prev },
            Node::Blank(_) => DispatchOut { nodes, emitted, remaining: Some(ev), changed: prev },
            Node::Pad(p) => {
                if p.child < i {
                    dispatch_node_spec(nodes, emitted, p.child as int, ev, prev, m)
                } else {
                    DispatchOut { nodes, emitted, remaining: Some(ev), changed: prev }
                }
            },
            Node::Gesture(g) => gesture_spec(nodes, emitted, i, g, ev, prev, m),
            Node::RowBox(r) => dispatch_kids_spec(
                nodes,
                emitted,
                i,
                r.children@,
                0,
                Some(ev),
                prev,
                m,
            ),
            Node::ColumnBox(c) => dispatch_kids_spec(
                nodes,
                emitted,
                i,
                c.children@,
                0,
                Some(ev),
                prev,
                m,
            ),
            Node::StackBox(s) => dispatch_kids_spec(
                nodes,
                emitted,
                i,
                s.children@,
                0,
                Some(ev),
                prev,
                m,
            ),
        }
    } else {
        DispatchOut { nodes, emitted, remaining: Some(ev), changed: prev }
    }
}

/// Fold of a container's children from index `k` on: the `(event, flag)`
/// pair is threaded through the children in order, and the walk stops as
/// soon as a child consumes the event.
pub open spec fn dispatch_kids_spec(
    nodes: Seq<Node>,
    emitted: Seq<Pressed>,
    parent: int,
    ch: Seq<usize>,
    k: int,
    cur: Option<Event>,
    flag: bool,
    m: Seq<Option<CwModel>>,
) -> DispatchOut
    decreases parent, 0int, ch.len() - k,
{
    if 0 <= k < ch.len() && ch[k] < parent && 0 <= parent {
        match cur {
            None => DispatchOut { nodes, emitted, remaining: None, changed: flag },
            Some(e) => {
                let o = dispatch_node_spec(nodes, emitted, ch[k] as int, e, flag, m);
                dispatch_kids_spec(o.nodes, o.emitted, parent, ch, k + 1, o.remaining, o.changed, m)
            },
        }
    } else {
        DispatchOut { nodes, emitted, remaining: cur, changed: flag }
    }
}

/// Node for node: a pass that only rewrites the color of rectangle leaves
/// relates the trees it maps between like this — every node keeps its kind,
/// its id and its children, and only a rectangle's color may differ.
pub open spec fn same_shape_node(a: Node, b: Node) -> bool {
    match a {
        Node::Rect(ra) => b matches Node::Rect(rb) && ra.border_radius == rb.border_radius
            && ra.id == rb.id,
        _ => b == a,
    }
}

/// The whole-tree form of [`same_shape_node`].
pub open spec fn same_shape(a: Seq<Node>, b: Seq<Node>) -> bool {
    &&& a.len() == b.len()
    &&& forall|i: int| 0 <= i < a.len() ==> same_shape_node(#[trigger] a[i], b[i])
}

/// Firing a handler only recolors a rectangle leaf.
proof fn lemma_handler_same_shape(
    nodes: Seq<Node>,
    emitted: Seq<Pressed>,
    h: Option<Handler>,
    button: u8,
)
    ensures
        same_shape(nodes, run_handler_spec(nodes, emitted, h, button).0),
{
}

/// Dispatch only recolors rectangle leaves: the tree after a dispatch step
/// has the same shape as the tree before it.
pub proof fn lemma_dispatch_same_shape(
    nodes: Seq<Node>,
    emitted: Seq<Pressed>,
    i: int,
    ev: Event,
    prev: bool,
    m: Seq<Option<CwModel>>,
)
    ensures
        same_shape(nodes, dispatch_node_spec(nodes, emitted, i, ev, prev, m).nodes),
    decreases i, 1int, 0int,
{
    if 0 <= i < nodes.len() {
        match nodes[i] {
            Node::Pad(p) => {
                if p.child < i {
                    lemma_dispatch_same_shape(nodes, emitted, p.child as int, ev, prev, m);
                }
            },
            Node::Gesture(g) => {
                match ev {
                    Event::MouseDown { button, .. } => {
                        lemma_handler_same_shape(nodes, emitted, g.click_callback, button);
                    },
                    Event::MouseUp { button, .. } => {
                        lemma_handler_same_shape(nodes, emitted, g.release_callback, button);
                    },
                    Event::MouseMove { .. } => {
                        lemma_handler_same_shape(nodes, emitted, g.enter_callback, 0);
                        lemma_handler_same_shape(nodes, emitted, g.leave_callback, 0);
                    },
                }
            },
            Node::RowBox(r) => {
                lemma_dispatch_kids_same_shape(nodes, emitted, i, r.children@, 0, Some(ev), prev, m);
            },
            Node::ColumnBox(c) => {
                lemma_dispatch_kids_same_shape(nodes, emitted, i, c.children@, 0, Some(ev), prev, m);
            },
            Node::StackBox(s) => {
                lemma_dispatch_kids_same_shape(nodes, emitted, i, s.children@, 0, Some(ev), prev, m);
            },
            _ => {},
        }
    }
}

/// Companion of [`lemma_dispatch_same_shape`] for a container's children.
proof fn lemma_dispatch_kids_same_shape(
    nodes: Seq<Node>,
    emitted: Seq<Pressed>,
    parent: int,
    ch: Seq<usize>,
    k: int,
    cur: Option<Event>,
    flag: bool,
    m: Seq<Option<CwModel>>,
)
    ensures
        same_shape(nodes, dispatch_kids_spec(nodes, emitted, parent, ch, k, cur, flag, m).nodes),
    decreases parent, 0int, ch.len() - k,
{
    if 0 <= k < ch.len() && ch[k] < parent && 0 <= parent {
        match cur {
            None => {},
            Some(e) => {
                let o = dispatch_node_spec(nodes, emitted, ch[k] as int, e, flag, m);
                lemma_dispatch_same_shape(nodes, emitted, ch[k] as int, e, flag, m);
                lemma_dispatch_kids_same_shape(
                    o.nodes,
                    o.emitted,
                    parent,
                    ch,
                    k + 1,
                    o.remaining,
                    o.changed,
                    m,
                );
                assert forall|j: int|
                    0 <= j < nodes.len() implies same_shape_node(
                    #[trigger] nodes[j],
                    dispatch_kids_spec(nodes, emitted, parent, ch, k, cur, flag, m).nodes[j],
                ) by {
                    assert(same_shape_node(nodes[j], o.nodes[j]));
                }
            },
        }
    }
}

/// A tree of the same shape is covered by the same maps: coverage only ever
/// looks at node kinds and edges, which dispatch never changes.  Together
/// with [`lemma_dispatch_same_shape`] this lets a host keep dispatching
/// against one layout map until a dispatch reports a state change.
pub proof fn lemma_same_shape_covers(
    a: Seq<Node>,
    b: Seq<Node>,
    i: int,
    m: Seq<Option<CwModel>>,
)
    requires
        same_shape(a, b),
        covers(a, i, m),
    ensures
        covers(b, i, m),
    decreases i, 1int, 0int,
{
    if 0 <= i < a.len() {
        assert(same_shape_node(a[i], b[i]));
        match a[i] {
            Node::Pad(p) => {
                if p.child < i {
                    lemma_same_shape_covers(a, b, p.child as int, m);
                }
            },
            Node::RowBox(r) => {
                lemma_same_shape_covers_kids(a, b, i, r.children@, 0, m);
            },
            Node::ColumnBox(c) => {
                lemma_same_shape_covers_kids(a, b, i, c.children@, 0, m);
            },
            Node::StackBox(s) => {
                lemma_same_shape_covers_kids(a, b, i, s.children@, 0, m);
            },
            _ => {},
        }
    }
}

/// Companion of [`lemma_same_shape_covers`] for a container's children.
proof fn lemma_same_shape_covers_kids(
    a: Seq<Node>,
    b: Seq<Node>,
    parent: int,
    ch: Seq<usize>,
    k: int,
    m: Seq<Option<CwModel>>,
)
    requires
        same_shape(a, b),
        covers_kids(a, parent, ch, k, m),
    ensures
        covers_kids(b, parent, ch, k, m),
    decreases parent, 0int, ch.len() - k,
{
    if 0 <= k < ch.len() && ch[k] < parent && 0 <= parent {
        lemma_same_shape_covers(a, b, ch[k] as int, m);
        lemma_same_shape_covers_kids(a, b, parent, ch, k + 1, m);
    }
}

/// Consumption stops sibling propagation: once the child at index `k` of a
/// container consumes the event, the fold over the children ends with that
/// child's outcome, and the siblings after it never observe the event.
pub proof fn lemma_consumption_stops_siblings(
    nodes: Seq<Node>,
    emitted: Seq<Pressed>,
    parent: int,
    ch: Seq<usize>,
    k: int,
    e: Event,
    flag: bool,
    m: Seq<Option<CwModel>>,
)
    requires
        0 <= k < ch.len(),
        ch[k] < parent,
        0 <= parent,
        dispatch_node_spec(nodes, emitted, ch[k] as int, e, flag, m).remaining is None,
    ensures
        ({
            let o = dispatch_node_spec(nodes, emitted, ch[k] as int, e, flag, m);
            dispatch_kids_spec(nodes, emitted, parent, ch, k, Some(e), flag, m) == (DispatchOut {
                nodes: o.nodes,
                emitted: o.emitted,
                remaining: None,
                changed: o.changed,
            })
        }),
{
    let o = dispatch_node_spec(nodes, emitted, ch[k] as int, e, flag, m);
    let rest = dispatch_kids_spec(o.nodes, o.emitted, parent, ch, k + 1, None, o.changed, m);
    assert(rest == (DispatchOut {
        nodes: o.nodes,
        emitted: o.emitted,
        remaining: None,
        changed: o.changed,
    }));
}

/// Writes a color into the rectangle leaf `cell`.
fn set_color(ui: &mut Ui, cell: usize, color: Color)
    requires
        old(ui).wf(),
        cell < old(ui).nodes@.len(),
        old(ui).nodes@[cell as int] is Rect,
    ensures
        final(ui).wf(),
        final(ui).nodes@ == set_rect_color(old(ui).nodes@, cell, color),
        final(ui).emitted@ == old(ui).emitted@,
{
    proof {
        assert(node_wf(ui.nodes@, cell as int));
    }
    let (br, id) = match &ui.nodes[cell] {
        Node::Rect(r) => (r.border_radius, r.id),
        _ => (0, 0),
    };
    let node = Node::Rect(Rectangle { color, border_radius: br, id });
    proof {
        lemma_wf_update_leaf(ui.nodes@, cell as int, node);
    }
    ui.nodes.set(cell, node);
}

/// Fires an optional handler with the given button code.
fn run_handler(ui: &mut Ui, h: Option<Handler>, button: u8) -> (changed: bool)
    requires
        old(ui).wf(),
        opt_handler_ok(h, old(ui).nodes@),
    ensures
        final(ui).wf(),
        ({
            let (n2, e2, ch) = run_handler_spec(old(ui).nodes@, old(ui).emitted@, h, button);
            &&& final(ui).nodes@ == n2
            &&& final(ui).emitted@ == e2
            &&& changed == ch
        }),
        final(ui).nodes@.len() == old(ui).nodes@.len(),
{
    match h {
        None => false,
        Some(Handler::SetColor { cell, color }) => {
            set_color(ui, cell, color);
            true
        },
        Some(Handler::SetColorEmit { cell, color, tag }) => {
            set_color(ui, cell, color);
            ui.emitted.push(Pressed { tag, button });
            true
        },
        Some(Handler::Emit { tag }) => {
            ui.emitted.push(Pressed { tag, button });
            false
        },
    }
}

/// The executable dispatch recursion: produces exactly the
/// [`dispatch_node_spec`] fold, keeps the arena well formed, and leaves it
/// untouched whenever it hands the event back unconsumed.
#[verifier::loop_isolation(false)]
fn dispatch_node(
    ui: &mut Ui,
    i: usize,
    event: Event,
    prev: bool,
    map: &LayoutMap,
) -> (r: (Option<Event>, bool))
    requires
        old(ui).wf(),
        i < old(ui).nodes@.len(),
        map@.len() == old(ui).nodes@.len(),
        map_wf(map@),
        covers(old(ui).nodes@, i as int, map@),
    ensures
        final(ui).wf(),
        final(ui).nodes@.len() == old(ui).nodes@.len(),
        ({
            let o = dispatch_node_spec(
                old(ui).nodes@,
                old(ui).emitted@,
                i as int,
                event,
                prev,
                map@,
            );
            &&& final(ui).nodes@ == o.nodes
            &&& final(ui).emitted@ == o.emitted
            &&& r.0 == o.remaining
            &&& r.1 == o.changed
        }),
        r.0 is Some ==> final(ui).nodes@ == old(ui).nodes@ && final(ui).emitted@ == old(
            ui,
        ).emitted@,
    decreases i,
{
    let ghost nodes0 = ui.nodes@;
    let ghost emitted0 = ui.emitted@;
    proof {
        assert(node_wf(nodes0, i as int));
    }
    match &ui.nodes[i] {
        Node::Rect(_) => (Some(event), prev),
        Node::Label(_) => (Some(event), prev),
        Node::Blank(_) => (Some(event), prev),
        Node::Pad(p) => {
            let child = p.child;
            dispatch_node(ui, child, event, prev, map)
        },
        Node::Gesture(g) => {
            let gg = *g;
            match &map.slots[i] {
                Some(rec) => {
                    match event {
                        Event::MouseDown { x, y, button } => {
                            if rec.in_hitbox(x, y, gg.border_radius) {
                                let changed = run_handler(ui, gg.click_callback, button);
                                (None, prev || changed)
                            } else {
                                (Some(event), prev)
                            }
                        },
                        Event::MouseUp { x, y, button } => {
                            if rec.in_hitbox(x, y, gg.border_radius) {
                                let changed = run_handler(ui, gg.release_callback, button);
                                (None, prev || changed)
                            } else {
                                (Some(event), prev)
                            }
                        },
                        Event::MouseMove { prev_x, prev_y, x, y } => {
                            let now_in = rec.in_hitbox(x, y, gg.border_radius);
                            let was_in = rec.in_hitbox(prev_x, prev_y, gg.border_radius);
                            if now_in && !was_in {
                                let changed = run_handler(ui, gg.enter_callback, 0);
                                (None, prev || changed)
                            } else if !now_in && was_in {
                                let changed = run_handler(ui, gg.leave_callback, 0);
                                (None, prev || changed)
                            } else {
                                (Some(event), prev)
                            }
                        },
                    }
                },
                None => {
                    proof {
                        assert(false);
                    }
                    (Some(event), prev)
                },
            }
        },
        Node::RowBox(_) | Node::ColumnBox(_) | Node::StackBox(_) => {
            let ghost chs = spec_children(nodes0[i as int]);
            let n = ui.child_count(i);
            let mut cur: Option<Event> = Some(event);
            let mut flag = prev;
            let mut k: usize = 0;
            while k < n && cur.is_some()
                invariant
                    k <= n,
                    ui.wf(),
                    ui.nodes@.len() == nodes0.len(),
                    cur is Some ==> ui.nodes@ == nodes0 && ui.emitted@ == emitted0,
                    dispatch_kids_spec(
                        ui.nodes@,
                        ui.emitted@,
                        i as int,
                        chs,
                        k as int,
                        cur,
                        flag,
                        map@,
                    ) == dispatch_kids_spec(
                        nodes0,
                        emitted0,
                        i as int,
                        chs,
                        0,
                        Some(event),
                        prev,
                        map@,
                    ),
                    covers_kids(nodes0, i as int, chs, k as int, map@),
                decreases n - k,
            {
                let child = ui.child_at(i, k);
                let e = match cur {
                    Some(e) => e,
                    None => event,
                };
                let r = dispatch_node(ui, child, e, flag, map);
                cur = r.0;
                flag = r.1;
                k = k + 1;
            }
            (cur, flag)
        },
    }
}

/// Decides whether the map covers every gesture reachable from node `i`.
#[verifier::loop_isolation(false)]
fn covers_check(ui: &Ui, i: usize, map: &LayoutMap) -> (r: bool)
    requires
        ui.wf(),
        i < ui.nodes@.len(),
    ensures
        r == covers(ui.nodes@, i as int, map@),
    decreases i,
{
    proof {
        assert(node_wf(ui.nodes@, i as int));
    }
    match &ui.nodes[i] {
        Node::Gesture(_) => i < map.slots.len() && map.slots[i].is_some(),
        Node::Pad(p) => {
            let child = p.child;
            covers_check(ui, child, map)
        },
        Node::RowBox(_) | Node::ColumnBox(_) | Node::StackBox(_) => {
            let ghost chs = spec_children(ui.nodes@[i as int]);
            let n = ui.child_count(i);
            let mut res = true;
            let mut k: usize = n;
            while k > 0
                invariant
                    k <= n,
                    n == chs.len(),
                    res == covers_kids(ui.nodes@, i as int, chs, k as int, map@),
                decreases k,
            {
                k = k - 1;
                let child = ui.child_at(i, k);
                let c = covers_check(ui, child, map);
                res = res && c;
            }
            res
        },
        _ => true,
    }
}

/// Decides whether one record satisfies the bounds the layout pass promises.
fn rec_bounds_check(c: &ComputedWidget) -> (r: bool)
    ensures
        r == rec_bounds(c@),
{
    0 <= c.x && 0 <= c.y && 0 <= c.width && c.width <= MAX_DIM && 0 <= c.height && c.height
        <= MAX_DIM && c.x <= MAX_COORD - c.width && c.y <= MAX_COORD - c.height && c.z <= MAX_Z
}

/// Decides whether `map` can be dispatched against for the subtree rooted at
/// `root`: it has one slot per node, every record in it is bounded, and
/// every reachable gesture has a record.  A map returned by `compute` for
/// the same `ui` and `root` always passes; a host holding a map of unknown
/// provenance tests it with this and treats a failure as the fatal error a
/// dispatch before any layout is.
pub fn dispatch_ready(ui: &Ui, root: usize, map: &LayoutMap) -> (r: bool)
    requires
        ui.wf(),
        root < ui.nodes@.len(),
    ensures
        r == (map@.len() == ui.nodes@.len() && map_wf(map@) && covers(
            ui.nodes@,
            root as int,
            map@,
        )),
{
    if map.slots.len() != ui.node_count() {
        return false;
    }
    let n = map.slots.len();
    let mut j: usize = 0;
    while j < n
        invariant
            j <= n,
            n == map@.len(),
            forall|k: int| 0 <= k < j ==> (#[trigger] map@[k] matches Some(c) ==> rec_bounds(c)),
        decreases n - j,
    {
        let ok = match &map.slots[j] {
            Some(c) => rec_bounds_check(c),
            None => true,
        };
        if !ok {
            assert(!(map@[j as int] matches Some(c) ==> rec_bounds(c)));
            return false;
        }
        j = j + 1;
    }
    covers_check(ui, root, map)
}

/// Routes one pointer event through the subtree rooted at `root` against
/// the layout map produced by the last layout pass.  Returns the event
/// remainder (`None` when some node consumed it) and the state-changed
/// flag, seeded by `prev_state_change`; when the flag comes back true the
/// host loop must run `compute` again before painting.
///
/// The map must hold a record for every gesture wrapper dispatch can reach
/// (which a layout pass of the same subtree guarantees): a gesture asked to
/// hit-test without a record has no defined answer, and such a call is
/// rejected here rather than treated as a zero-sized rectangle.
pub fn dispatch(
    ui: &mut Ui,
    root: usize,
    event: Event,
    prev_state_change: bool,
    map: &LayoutMap,
) -> (r: (Option<Event>, bool))
    requires
        old(ui).wf(),
        root < old(ui).nodes@.len(),
        map@.len() == old(ui).nodes@.len(),
        map_wf(map@),
        covers(old(ui).nodes@, root as int, map@),
    ensures
        final(ui).wf(),
        final(ui).nodes@.len() == old(ui).nodes@.len(),
        ({
            let o = dispatch_node_spec(
                old(ui).nodes@,
                old(ui).emitted@,
                root as int,
                event,
                prev_state_change,
                map@,
            );
            &&& final(ui).nodes@ == o.nodes
            &&& final(ui).emitted@ == o.emitted
            &&& r.0 == o.remaining
            &&& r.1 == o.changed
        }),
        r.0 is Some ==> final(ui).nodes@ == old(ui).nodes@ && final(ui).emitted@ == old(
            ui,
        ).emitted@,
        same_shape(old(ui).nodes@, final(ui).nodes@),
{
    proof {
        lemma_dispatch_same_shape(
            ui.nodes@,
            ui.emitted@,
            root as int,
            event,
            prev_state_change,
            map@,
        );
    }
    dispatch_node(ui, root, event, prev_state_change, map)
}

} // verus!
