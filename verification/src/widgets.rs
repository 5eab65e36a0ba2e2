//! The widget tree.
//!
//! Nodes live in an arena owned by [`Ui`]; a node's id is its index.  Ids are
//! handed out monotonically at construction time and children are always
//! built before their parents, so every edge points from a node to a
//! strictly smaller index.  That ordering is the well-formedness invariant
//! every builder establishes and both passes rely on for termination.
//!
//! A widget is one of: a leaf renderable ([`Rectangle`], [`Text`],
//! [`Empty`]), a single-child decorator ([`Padding`], [`MouseGesture`]), or a
//! multi-child combinator ([`Row`], [`Column`], [`Stack`]).  Gesture
//! callbacks are plain [`Handler`] values: what they do to shared state is
//! data the dispatch pass interprets, so the whole reaction to a pointer
//! event stays inside the verified library.

use vstd::prelude::*;

use crate::color::Color;
use crate::{MAX_DIM, MAX_NODES};

pub use crate::button::Button;
pub use crate::state::State;

verus! {

/// A notification pushed by a [`Handler`] for the host loop to drain: `tag`
/// identifies the widget that fired, `button` the mouse button involved
/// (0 for enter/leave transitions, which carry no button).
#[derive(Clone, Copy, Debug, PartialEq, Eq, Structural)]
pub struct Pressed {
    pub tag: u64,
    pub button: u8,
}

/// What a gesture callback does when it fires.  A handler reports whether it
/// mutated shared state that the next layout pass will read; emitting a
/// notification alone does not.
#[derive(Clone, Copy, Debug, PartialEq, Eq, Structural)]
pub enum Handler {
    /// Write `color` into the rectangle leaf with id `cell`; reports a state
    /// change.
    SetColor { cell: usize, color: Color },
    /// Write `color` into the rectangle leaf with id `cell` and push a
    /// [`Pressed`] notification; reports a state change.
    SetColorEmit { cell: usize, color: Color, tag: u64 },
    /// Push a [`Pressed`] notification only; reports no state change.
    Emit { tag: u64 },
}

/// A color rectangle leaf.
#[derive(Clone, Copy, Debug)]
pub struct Rectangle {
    pub color: Color,
    pub border_radius: i64,
    pub id: usize,
}

/// A text leaf.
#[derive(Debug)]
pub struct Text {
    pub text: String,
    pub id: usize,
    pub size: u32,
    pub font: String,
    pub color: Color,
}

/// A leaf that occupies space but neither paints nor reacts.
#[derive(Clone, Copy, Debug)]
pub struct Empty {
    pub id: usize,
}

/// A single-child wrapper that insets its child by four offsets
/// (left, top, right, bottom).
#[derive(Clone, Copy, Debug)]
pub struct Padding {
    pub padding: (i64, i64, i64, i64),
    pub child: usize,
    pub id: usize,
}

/// A single-child wrapper that hit-tests pointer events against its own
/// layout rectangle and fires the matching handler.
#[derive(Clone, Copy, Debug)]
pub struct MouseGesture {
    pub background: usize,
    pub click_callback: Option<Handler>,
    pub release_callback: Option<Handler>,
    pub enter_callback: Option<Handler>,
    pub leave_callback: Option<Handler>,
    pub border_radius: i64,
    pub id: usize,
}

/// A combinator that splits the available width across its children in
/// proportion to their flex weights.
#[derive(Debug)]
pub struct Row {
    pub children: Vec<usize>,
    pub flex: Vec<u64>,
    pub id: usize,
}

/// A combinator that splits the available height across its children in
/// proportion to their flex weights.
#[derive(Debug)]
pub struct Column {
    pub children: Vec<usize>,
    pub flex: Vec<u64>,
    pub id: usize,
}

/// A combinator that gives every child the same box but an increasing
/// paint-order index, painting them back to front.
#[derive(Debug)]
pub struct Stack {
    pub children: Vec<usize>,
    pub id: usize,
}

/// One node of the widget tree.
#[derive(Debug)]
pub enum Node {
    Rect(Rectangle),
    Label(Text),
    Blank(Empty),
    Pad(Padding),
    Gesture(MouseGesture),
    RowBox(Row),
    ColumnBox(Column),
    StackBox(Stack),
}

impl Node {
    /// The id stored in the node; well-formedness pins it to the node's
    /// index in the arena.
    pub open spec fn spec_id(&self) -> int {
        match self {
            Node::Rect(w) => w.id as int,
            Node::Label(w) => w.id as int,
            Node::Blank(w) => w.id as int,
            Node::Pad(w) => w.id as int,
            Node::Gesture(w) => w.id as int,
            Node::RowBox(w) => w.id as int,
            Node::ColumnBox(w) => w.id as int,
            Node::StackBox(w) => w.id as int,
        }
    }

    /// Stable identity of the widget, the join key into the layout map.
    pub fn get_id(&self) -> (id: usize)
        ensures
            id as int == self.spec_id(),
    {
        match self {
            Node::Rect(w) => w.id,
            Node::Label(w) => w.id,
            Node::Blank(w) => w.id,
            Node::Pad(w) => w.id,
            Node::Gesture(w) => w.id,
            Node::RowBox(w) => w.id,
            Node::ColumnBox(w) => w.id,
            Node::StackBox(w) => w.id,
        }
    }
}

/// The ordered children of a container node; empty for leaves and for the
/// single-child wrappers, which are walked through their own field.
pub open spec fn spec_children(n: Node) -> Seq<usize> {
    match n {
        Node::RowBox(w) => w.children@,
        Node::ColumnBox(w) => w.children@,
        Node::StackBox(w) => w.children@,
        _ => Seq::empty(),
    }
}

impl Ui {
    /// Number of children of the container node `i`.
    pub fn child_count(&self, i: usize) -> (n: usize)
        requires
            i < self.nodes@.len(),
        ensures
            n == spec_children(self.nodes@[i as int]).len(),
    {
        match &self.nodes[i] {
            Node::RowBox(w) => w.children.len(),
            Node::ColumnBox(w) => w.children.len(),
            Node::StackBox(w) => w.children.len(),
            _ => 0,
        }
    }

    /// The `k`-th child of the container node `i`.
    pub fn child_at(&self, i: usize, k: usize) -> (c: usize)
        requires
            i < self.nodes@.len(),
            k < spec_children(self.nodes@[i as int]).len(),
        ensures
            c == spec_children(self.nodes@[i as int])[k as int],
    {
        match &self.nodes[i] {
            Node::RowBox(w) => w.children[k],
            Node::ColumnBox(w) => w.children[k],
            Node::StackBox(w) => w.children[k],
            _ => 0,
        }
    }
}

/// A handler may only target an existing rectangle leaf.
pub open spec fn handler_ok(h: Handler, nodes: Seq<Node>) -> bool {
    match h {
        Handler::SetColor { cell, .. } => cell < nodes.len() && nodes[cell as int] is Rect,
        Handler::SetColorEmit { cell, .. } => cell < nodes.len() && nodes[cell as int] is Rect,
        Handler::Emit { .. } => true,
    }
}

/// An optional handler is fine when absent or valid.
pub open spec fn opt_handler_ok(h: Option<Handler>, nodes: Seq<Node>) -> bool {
    h matches Some(hh) ==> handler_ok(hh, nodes)
}

/// Children of node `parent` all have strictly smaller indices, and there
/// are not more of them than the arena can hold nodes.
pub open spec fn kids_wf(ch: Seq<usize>, parent: int) -> bool {
    &&& ch.len() <= MAX_NODES
    &&& forall|k: int| 0 <= k < ch.len() ==> (#[trigger] ch[k]) < parent
}

/// Every flex weight is bounded by `MAX_DIM`.
pub open spec fn flex_wf(flex: Seq<u64>) -> bool {
    forall|k: int| 0 <= k < flex.len() ==> (#[trigger] flex[k]) <= MAX_DIM as u64
}

/// Well-formedness of the node at index `i` of the arena.
pub open spec fn node_wf(nodes: Seq<Node>, i: int) -> bool {
    &&& nodes[i].spec_id() == i
    &&& match nodes[i] {
        Node::Rect(w) => 0 <= w.border_radius <= MAX_DIM,
        Node::Label(_) => true,
        Node::Blank(_) => true,
        Node::Pad(w) => {
            &&& w.child < i
            &&& 0 <= w.padding.0 <= MAX_DIM
            &&& 0 <= w.padding.1 <= MAX_DIM
            &&& 0 <= w.padding.2 <= MAX_DIM
            &&& 0 <= w.padding.3 <= MAX_DIM
        },
        Node::Gesture(w) => {
            &&& w.background < i
            &&& 0 <= w.border_radius <= MAX_DIM
            &&& opt_handler_ok(w.click_callback, nodes)
            &&& opt_handler_ok(w.release_callback, nodes)
            &&& opt_handler_ok(w.enter_callback, nodes)
            &&& opt_handler_ok(w.leave_callback, nodes)
        },
        Node::RowBox(w) => {
            &&& kids_wf(w.children@, i)
            &&& w.flex@.len() == w.children@.len()
            &&& flex_wf(w.flex@)
        },
        Node::ColumnBox(w) => {
            &&& kids_wf(w.children@, i)
            &&& w.flex@.len() == w.children@.len()
            &&& flex_wf(w.flex@)
        },
        Node::StackBox(w) => kids_wf(w.children@, i),
    }
}

/// Well-formedness of a whole arena.
pub open spec fn nodes_wf(nodes: Seq<Node>) -> bool {
    &&& nodes.len() <= MAX_NODES
    &&& forall|i: int| 0 <= i < nodes.len() ==> #[trigger] node_wf(nodes, i)
}

/// The arena owning the widget tree, plus the queue of notifications that
/// handlers emitted during dispatch for the host loop to drain.
#[derive(Debug)]
pub struct Ui {
    pub nodes: Vec<Node>,
    pub emitted: Vec<Pressed>,
}

impl Ui {
    /// Every builder keeps this invariant; both passes require it.
    pub open spec fn wf(&self) -> bool {
        nodes_wf(self.nodes@)
    }

    /// An empty arena.
    pub fn new() -> (ui: Ui)
        ensures
            ui.nodes@.len() == 0,
            ui.emitted@.len() == 0,
            ui.wf(),
    {
        Ui { nodes: Vec::new(), emitted: Vec::new() }
    }

    /// Number of nodes built so far; also the id the next node will get.
    pub fn node_count(&self) -> (n: usize)
        ensures
            n == self.nodes@.len(),
    {
        self.nodes.len()
    }

    /// Drops all pending notifications.
    pub fn clear_emitted(&mut self)
        ensures
            final(self).nodes@ == old(self).nodes@,
            final(self).emitted@.len() == 0,
    {
        self.emitted = Vec::new();
    }
}

/// Extending a well-formed arena with a node that is well formed at the new
/// index keeps the whole arena well formed: no clause of an existing node
/// looks past its own index.
pub proof fn lemma_wf_push(nodes: Seq<Node>, n: Node)
    requires
        nodes_wf(nodes),
        nodes.len() + 1 <= MAX_NODES,
        node_wf(nodes.push(n), nodes.len() as int),
    ensures
        nodes_wf(nodes.push(n)),
{
    let nodes2 = nodes.push(n);
    assert forall|i: int| 0 <= i < nodes2.len() implies node_wf(nodes2, i) by {
        if i < nodes.len() {
            assert(node_wf(nodes, i));
            assert(nodes2[i] == nodes[i]);
            match nodes[i] {
                Node::Gesture(w) => {
                    assert(opt_handler_ok(w.click_callback, nodes2)) by {
                        lemma_handler_push(w.click_callback, nodes, n);
                    }
                    assert(opt_handler_ok(w.release_callback, nodes2)) by {
                        lemma_handler_push(w.release_callback, nodes, n);
                    }
                    assert(opt_handler_ok(w.enter_callback, nodes2)) by {
                        lemma_handler_push(w.enter_callback, nodes, n);
                    }
                    assert(opt_handler_ok(w.leave_callback, nodes2)) by {
                        lemma_handler_push(w.leave_callback, nodes, n);
                    }
                },
                _ => {},
            }
        }
    }
}

/// A handler that was valid before a push stays valid after it.
proof fn lemma_handler_push(h: Option<Handler>, nodes: Seq<Node>, n: Node)
    requires
        opt_handler_ok(h, nodes),
    ensures
        opt_handler_ok(h, nodes.push(n)),
{
    match h {
        Some(Handler::SetColor { cell, .. }) => {
            assert(nodes.push(n)[cell as int] == nodes[cell as int]);
        },
        Some(Handler::SetColorEmit { cell, .. }) => {
            assert(nodes.push(n)[cell as int] == nodes[cell as int]);
        },
        _ => {},
    }
}

/// Overwriting a rectangle or text leaf in place, with a node of the same
/// kind and the same id, keeps the arena well formed; in particular every
/// handler that targeted the slot still points at a rectangle.
pub proof fn lemma_wf_update_leaf(nodes: Seq<Node>, t: int, n: Node)
    requires
        nodes_wf(nodes),
        0 <= t < nodes.len(),
        nodes[t] is Rect || nodes[t] is Label,
        nodes[t] is Rect ==> n is Rect,
        nodes[t] is Label ==> n is Label,
        n.spec_id() == t,
        n matches Node::Rect(w) ==> 0 <= w.border_radius <= MAX_DIM,
    ensures
        nodes_wf(nodes.update(t, n)),
{
    let nodes2 = nodes.update(t, n);
    assert forall|i: int| 0 <= i < nodes2.len() implies node_wf(nodes2, i) by {
        assert(node_wf(nodes, i));
        if i != t {
            assert(nodes2[i] == nodes[i]);
            match nodes[i] {
                Node::Gesture(w) => {
                    lemma_handler_update_leaf(w.click_callback, nodes, t, n);
                    lemma_handler_update_leaf(w.release_callback, nodes, t, n);
                    lemma_handler_update_leaf(w.enter_callback, nodes, t, n);
                    lemma_handler_update_leaf(w.leave_callback, nodes, t, n);
                },
                _ => {},
            }
        }
    }
}

/// A handler that was valid before a leaf was overwritten in kind-preserving
/// fashion stays valid after it.
proof fn lemma_handler_update_leaf(h: Option<Handler>, nodes: Seq<Node>, t: int, n: Node)
    requires
        opt_handler_ok(h, nodes),
        0 <= t < nodes.len(),
        nodes[t] is Rect ==> n is Rect,
    ensures
        opt_handler_ok(h, nodes.update(t, n)),
{
}

/// Configuration of a [`Text`] leaf before it is allocated.
#[derive(Debug)]
pub struct TextBuilder {
    pub text: String,
    pub size: u32,
    pub font: String,
    pub color: Color,
}

impl Text {
    /// Starts building a text leaf; the color defaults to opaque black.
    pub fn new(text: String, size: u32, font: String) -> (b: TextBuilder)
        ensures
            b.text == text,
            b.size == size,
            b.font == font,
            b.color == (Color { r: 0u8, g: 0u8, b: 0u8, a: 255u8 }),
    {
        TextBuilder { text, font, color: Color { r: 0, g: 0, b: 0, a: 255 }, size }
    }
}

impl TextBuilder {
    /// Sets the text color.
    pub fn color(self, color: Color) -> (b: Self)
        ensures
            b.text == self.text,
            b.size == self.size,
            b.font == self.font,
            b.color == color,
    {
        TextBuilder { color, ..self }
    }

    /// Allocates the leaf in the arena and returns its id.
    pub fn build(self, ui: &mut Ui) -> (id: usize)
        requires
            old(ui).wf(),
            old(ui).nodes@.len() < MAX_NODES,
        ensures
            final(ui).wf(),
            id == old(ui).nodes@.len(),
            final(ui).nodes@ == old(ui).nodes@.push(
                (Node::Label(Text {
                    text: self.text,
                    id,
                    size: self.size,
                    font: self.font,
                    color: self.color,
                })),
            ),
            final(ui).emitted@ == old(ui).emitted@,
    {
        let id = ui.nodes.len();
        let node = Node::Label(Text {
            text: self.text,
            id,
            size: self.size,
            font: self.font,
            color: self.color,
        });
        proof {
            lemma_wf_push(ui.nodes@, node);
        }
        ui.nodes.push(node);
        id
    }

    /// Allocates the leaf and binds the given cell to it.
    pub fn build_stateful(self, ui: &mut Ui, state: &mut crate::state::State) -> (id: usize)
        requires
            old(ui).wf(),
            old(ui).nodes@.len() < MAX_NODES,
            !old(state).is_bound(),
        ensures
            final(ui).wf(),
            id == old(ui).nodes@.len(),
            final(ui).nodes@ == old(ui).nodes@.push(
                (Node::Label(Text {
                    text: self.text,
                    id,
                    size: self.size,
                    font: self.font,
                    color: self.color,
                })),
            ),
            final(ui).emitted@ == old(ui).emitted@,
            final(state).is_bound(),
            final(state).target_id() == id,
    {
        let id = self.build(ui);
        state.bind(id);
        id
    }
}

/// Configuration of a [`Rectangle`] leaf before it is allocated.
#[derive(Clone, Copy, Debug)]
pub struct RectangleBuilder {
    pub color: Color,
    pub border_radius: i64,
}

impl Rectangle {
    /// Starts building a color rectangle; the border radius defaults to 0.
    pub fn new(color: Color) -> (b: RectangleBuilder)
        ensures
            b.color == color,
            b.border_radius == 0,
    {
        RectangleBuilder { color, border_radius: 0 }
    }
}

impl RectangleBuilder {
    /// Sets the border radius.
    pub fn border(self, border_radius: i64) -> (b: Self)
        requires
            0 <= border_radius <= MAX_DIM,
        ensures
            b.color == self.color,
            b.border_radius == border_radius,
    {
        RectangleBuilder { border_radius, ..self }
    }

    /// Allocates the leaf in the arena and returns its id.
    pub fn build(self, ui: &mut Ui) -> (id: usize)
        requires
            old(ui).wf(),
            old(ui).nodes@.len() < MAX_NODES,
            0 <= self.border_radius <= MAX_DIM,
        ensures
            final(ui).wf(),
            id == old(ui).nodes@.len(),
            final(ui).nodes@ == old(ui).nodes@.push(
                (Node::Rect(Rectangle { color: self.color, border_radius: self.border_radius, id })),
            ),
            final(ui).emitted@ == old(ui).emitted@,
    {
        let id = ui.nodes.len();
        let node = Node::Rect(Rectangle { color: self.color, border_radius: self.border_radius, id });
        proof {
            lemma_wf_push(ui.nodes@, node);
        }
        ui.nodes.push(node);
        id
    }

    /// Allocates the leaf and binds the given cell to it.
    pub fn build_stateful(self, ui: &mut Ui, state: &mut crate::state::State) -> (id: usize)
        requires
            old(ui).wf(),
            old(ui).nodes@.len() < MAX_NODES,
            0 <= self.border_radius <= MAX_DIM,
            !old(state).is_bound(),
        ensures
            final(ui).wf(),
            id == old(ui).nodes@.len(),
            final(ui).nodes@ == old(ui).nodes@.push(
                (Node::Rect(Rectangle { color: self.color, border_radius: self.border_radius, id })),
            ),
            final(ui).emitted@ == old(ui).emitted@,
            final(state).is_bound(),
            final(state).target_id() == id,
    {
        let id = self.build(ui);
        state.bind(id);
        id
    }
}

impl Empty {
    /// Allocates a leaf that occupies space but neither paints nor reacts.
    pub fn new(ui: &mut Ui) -> (id: usize)
        requires
            old(ui).wf(),
            old(ui).nodes@.len() < MAX_NODES,
        ensures
            final(ui).wf(),
            id == old(ui).nodes@.len(),
            final(ui).nodes@ == old(ui).nodes@.push((Node::Blank(Empty { id }))),
            final(ui).emitted@ == old(ui).emitted@,
    {
        let id = ui.nodes.len();
        let node = Node::Blank(Empty { id });
        proof {
            lemma_wf_push(ui.nodes@, node);
        }
        ui.nodes.push(node);
        id
    }
}

/// Configuration of a [`MouseGesture`] wrapper before it is allocated.
#[derive(Clone, Copy, Debug)]
pub struct MouseGestureBuilder {
    pub background: usize,
    pub click_callback: Option<Handler>,
    pub release_callback: Option<Handler>,
    pub enter_callback: Option<Handler>,
    pub leave_callback: Option<Handler>,
    pub border_radius: i64,
}

impl MouseGesture {
    /// Starts building a gesture wrapper around the given child.
    pub fn new(background: usize) -> (b: MouseGestureBuilder)
        ensures
            b.background == background,
            b.click_callback is None,
            b.release_callback is None,
            b.enter_callback is None,
            b.leave_callback is None,
            b.border_radius == 0,
    {
        MouseGestureBuilder {
            background,
            border_radius: 0,
            click_callback: None,
            release_callback: None,
            enter_callback: None,
            leave_callback: None,
        }
    }
}

impl MouseGestureBuilder {
    /// Sets the handler fired by a `MouseDown` inside the wrapper.
    pub fn on_click(self, on_click: Handler) -> (b: Self)
        ensures
            b == (MouseGestureBuilder { click_callback: Some(on_click), ..self }),
    {
        MouseGestureBuilder { click_callback: Some(on_click), ..self }
    }

    /// Sets the handler fired by a `MouseUp` inside the wrapper.
    pub fn on_release(self, on_release: Handler) -> (b: Self)
        ensures
            b == (MouseGestureBuilder { release_callback: Some(on_release), ..self }),
    {
        MouseGestureBuilder { release_callback: Some(on_release), ..self }
    }

    /// Sets the handler fired when the pointer enters the wrapper.
    pub fn on_enter(self, on_enter: Handler) -> (b: Self)
        ensures
            b == (MouseGestureBuilder { enter_callback: Some(on_enter), ..self }),
    {
        MouseGestureBuilder { enter_callback: Some(on_enter), ..self }
    }

    /// Sets the handler fired when the pointer leaves the wrapper.
    pub fn on_leave(self, on_leave: Handler) -> (b: Self)
        ensures
            b == (MouseGestureBuilder { leave_callback: Some(on_leave), ..self }),
    {
        MouseGestureBuilder { leave_callback: Some(on_leave), ..self }
    }

    /// Sets the border radius used when the wrapper's rectangle is painted.
    pub fn border(self, border_radius: i64) -> (b: Self)
        requires
            0 <= border_radius <= MAX_DIM,
        ensures
            b == (MouseGestureBuilder { border_radius, ..self }),
    {
        MouseGestureBuilder { border_radius, ..self }
    }

    /// Allocates the wrapper in the arena and returns its id.
    pub fn build(self, ui: &mut Ui) -> (id: usize)
        requires
            old(ui).wf(),
            old(ui).nodes@.len() < MAX_NODES,
            self.background < old(ui).nodes@.len(),
            0 <= self.border_radius <= MAX_DIM,
            opt_handler_ok(self.click_callback, old(ui).nodes@),
            opt_handler_ok(self.release_callback, old(ui).nodes@),
            opt_handler_ok(self.enter_callback, old(ui).nodes@),
            opt_handler_ok(self.leave_callback, old(ui).nodes@),
        ensures
            final(ui).wf(),
            id == old(ui).nodes@.len(),
            final(ui).nodes@ == old(ui).nodes@.push(
                (Node::Gesture(MouseGesture {
                    background: self.background,
                    click_callback: self.click_callback,
                    release_callback: self.release_callback,
                    enter_callback: self.enter_callback,
                    leave_callback: self.leave_callback,
                    border_radius: self.border_radius,
                    id,
                })),
            ),
            final(ui).emitted@ == old(ui).emitted@,
    {
        let id = ui.nodes.len();
        let node = Node::Gesture(MouseGesture {
            background: self.background,
            click_callback: self.click_callback,
            release_callback: self.release_callback,
            enter_callback: self.enter_callback,
            leave_callback: self.leave_callback,
            border_radius: self.border_radius,
            id,
        });
        proof {
            lemma_handler_push(self.click_callback, ui.nodes@, node);
            lemma_handler_push(self.release_callback, ui.nodes@, node);
            lemma_handler_push(self.enter_callback, ui.nodes@, node);
            lemma_handler_push(self.leave_callback, ui.nodes@, node);
            lemma_wf_push(ui.nodes@, node);
        }
        ui.nodes.push(node);
        id
    }
}

/// Configuration of a [`Padding`] wrapper before it is allocated.
#[derive(Clone, Copy, Debug)]
pub struct PaddingBuilder {
    pub padding: (i64, i64, i64, i64),
    pub child: usize,
}

impl Padding {
    /// Starts building a padding wrapper around the given child, with all
    /// four insets at 0.
    pub fn new(child: usize) -> (b: PaddingBuilder)
        ensures
            b.child == child,
            b.padding == (0i64, 0i64, 0i64, 0i64),
    {
        PaddingBuilder { child, padding: (0, 0, 0, 0) }
    }
}

impl PaddingBuilder {
    /// Sets the same inset on all four sides.
    pub fn all(self, pad: i64) -> (b: Self)
        requires
            0 <= pad <= MAX_DIM,
        ensures
            b.child == self.child,
            b.padding == (pad, pad, pad, pad),
    {
        PaddingBuilder { padding: (pad, pad, pad, pad), ..self }
    }

    /// Sets one inset for left and right and another for top and bottom.
    pub fn symmetrical(self, horizontal: i64, vertical: i64) -> (b: Self)
        requires
            0 <= horizontal <= MAX_DIM,
            0 <= vertical <= MAX_DIM,
        ensures
            b.child == self.child,
            b.padding == (horizontal, vertical, horizontal, vertical),
    {
        PaddingBuilder { padding: (horizontal, vertical, horizontal, vertical), ..self }
    }

    /// Sets the four insets (left, top, right, bottom) one by one.
    pub fn each(self, left: i64, top: i64, right: i64, bottom: i64) -> (b: Self)
        requires
            0 <= left <= MAX_DIM,
            0 <= top <= MAX_DIM,
            0 <= right <= MAX_DIM,
            0 <= bottom <= MAX_DIM,
        ensures
            b.child == self.child,
            b.padding == (left, top, right, bottom),
    {
        PaddingBuilder { padding: (left, top, right, bottom), ..self }
    }

    /// Allocates the wrapper in the arena and returns its id.
    pub fn build(self, ui: &mut Ui) -> (id: usize)
        requires
            old(ui).wf(),
            old(ui).nodes@.len() < MAX_NODES,
            self.child < old(ui).nodes@.len(),
            0 <= self.padding.0 <= MAX_DIM,
            0 <= self.padding.1 <= MAX_DIM,
            0 <= self.padding.2 <= MAX_DIM,
            0 <= self.padding.3 <= MAX_DIM,
        ensures
            final(ui).wf(),
            id == old(ui).nodes@.len(),
            final(ui).nodes@ == old(ui).nodes@.push(
                (Node::Pad(Padding { padding: self.padding, child: self.child, id })),
            ),
            final(ui).emitted@ == old(ui).emitted@,
    {
        let id = ui.nodes.len();
        let node = Node::Pad(Padding { padding: self.padding, child: self.child, id });
        proof {
            lemma_wf_push(ui.nodes@, node);
        }
        ui.nodes.push(node);
        id
    }
}

/// Configuration of a [`Row`] before it is allocated.
#[derive(Debug)]
pub struct RowBuilder {
    pub children: Vec<usize>,
    pub flex: Vec<u64>,
}

impl Row {
    /// Starts building a row with no children.
    pub fn new() -> (b: RowBuilder)
        ensures
            b.children@.len() == 0,
            b.flex@.len() == 0,
    {
        RowBuilder { children: Vec::new(), flex: Vec::new() }
    }
}

impl RowBuilder {
    /// Appends a child with flex weight 1.
    pub fn add(self, child: usize) -> (b: Self)
        ensures
            b.children@ == self.children@.push(child),
            b.flex@ == self.flex@.push(1u64),
    {
        let mut b = self;
        b.children.push(child);
        b.flex.push(1);
        b
    }

    /// Appends a child with the given flex weight.
    pub fn add_flex(self, child: usize, flex: u64) -> (b: Self)
        ensures
            b.children@ == self.children@.push(child),
            b.flex@ == self.flex@.push(flex),
    {
        let mut b = self;
        b.children.push(child);
        b.flex.push(flex);
        b
    }

    /// Allocates the row in the arena and returns its id.
    pub fn build(self, ui: &mut Ui) -> (id: usize)
        requires
            old(ui).wf(),
            old(ui).nodes@.len() < MAX_NODES,
            self.children@.len() == self.flex@.len(),
            self.children@.len() <= MAX_NODES,
            forall|k: int|
                0 <= k < self.children@.len() ==> (#[trigger] self.children@[k])
                    < old(ui).nodes@.len(),
            flex_wf(self.flex@),
        ensures
            final(ui).wf(),
            id == old(ui).nodes@.len(),
            final(ui).nodes@ == old(ui).nodes@.push(
                (Node::RowBox(Row { children: self.children, flex: self.flex, id })),
            ),
            final(ui).emitted@ == old(ui).emitted@,
    {
        let id = ui.nodes.len();
        let node = Node::RowBox(Row { children: self.children, flex: self.flex, id });
        proof {
            lemma_wf_push(ui.nodes@, node);
        }
        ui.nodes.push(node);
        id
    }
}

/// Configuration of a [`Column`] before it is allocated.
#[derive(Debug)]
pub struct ColumnBuilder {
    pub children: Vec<usize>,
    pub flex: Vec<u64>,
}

impl Column {
    /// Starts building a column with no children.
    pub fn new() -> (b: ColumnBuilder)
        ensures
            b.children@.len() == 0,
            b.flex@.len() == 0,
    {
        ColumnBuilder { children: Vec::new(), flex: Vec::new() }
    }
}

impl ColumnBuilder {
    /// Appends a child with flex weight 1.
    pub fn add(self, child: usize) -> (b: Self)
        ensures
            b.children@ == self.children@.push(child),
            b.flex@ == self.flex@.push(1u64),
    {
        let mut b = self;
        b.children.push(child);
        b.flex.push(1);
        b
    }

    /// Appends a child with the given flex weight.
    pub fn add_flex(self, child: usize, flex: u64) -> (b: Self)
        ensures
            b.children@ == self.children@.push(child),
            b.flex@ == self.flex@.push(flex),
    {
        let mut b = self;
        b.children.push(child);
        b.flex.push(flex);
        b
    }

    /// Allocates the column in the arena and returns its id.
    pub fn build(self, ui: &mut Ui) -> (id: usize)
        requires
            old(ui).wf(),
            old(ui).nodes@.len() < MAX_NODES,
            self.children@.len() == self.flex@.len(),
            self.children@.len() <= MAX_NODES,
            forall|k: int|
                0 <= k < self.children@.len() ==> (#[trigger] self.children@[k])
                    < old(ui).nodes@.len(),
            flex_wf(self.flex@),
        ensures
            final(ui).wf(),
            id == old(ui).nodes@.len(),
            final(ui).nodes@ == old(ui).nodes@.push(
                (Node::ColumnBox(Column { children: self.children, flex: self.flex, id })),
            ),
            final(ui).emitted@ == old(ui).emitted@,
    {
        let id = ui.nodes.len();
        let node = Node::ColumnBox(Column { children: self.children, flex: self.flex, id });
        proof {
            lemma_wf_push(ui.nodes@, node);
        }
        ui.nodes.push(node);
        id
    }
}

/// Configuration of a [`Stack`] before it is allocated.
#[derive(Debug)]
pub struct StackBuilder {
    pub children: Vec<usize>,
}

impl Stack {
    /// Starts building a stack with no children.
    pub fn new() -> (b: StackBuilder)
        ensures
            b.children@.len() == 0,
    {
        StackBuilder { children: Vec::new() }
    }
}

impl StackBuilder {
    /// Appends a child painted on top of the ones added before it.
    pub fn add(self, child: usize) -> (b: Self)
        ensures
            b.children@ == self.children@.push(child),
    {
        let mut b = self;
        b.children.push(child);
        b
    }

    /// Allocates the stack in the arena and returns its id.
    pub fn build(self, ui: &mut Ui) -> (id: usize)
        requires
            old(ui).wf(),
            old(ui).nodes@.len() < MAX_NODES,
            self.children@.len() <= MAX_NODES,
            forall|k: int|
                0 <= k < self.children@.len() ==> (#[trigger] self.children@[k])
                    < old(ui).nodes@.len(),
        ensures
            final(ui).wf(),
            id == old(ui).nodes@.len(),
            final(ui).nodes@ == old(ui).nodes@.push(
                (Node::StackBox(Stack { children: self.children, id })),
            ),
            final(ui).emitted@ == old(ui).emitted@,
    {
        let id = ui.nodes.len();
        let node = Node::StackBox(Stack { children: self.children, id });
        proof {
            lemma_wf_push(ui.nodes@, node);
        }
        ui.nodes.push(node);
        id
    }
}

} // verus!
