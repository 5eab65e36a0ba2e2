//! The shared-state cell.
//!
//! A [`State`] starts unbound and is attached exactly once, by a stateful
//! builder, to the rectangle or text leaf it exposes.  After binding,
//! `borrow` and `borrow_mut` read and overwrite that leaf's payload through
//! the [`Ui`] arena.  Reading or writing an unbound cell is rejected by
//! precondition rather than performed, and exclusive access is enforced
//! statically by the `&mut Ui` a write needs, so the dynamic reader/writer
//! discipline of a runtime-checked cell has no failure path left here.

use vstd::prelude::*;

use crate::widgets::{lemma_wf_update_leaf, Empty, Node, Ui};
use crate::MAX_DIM;

verus! {

/// A late-bindable handle onto the shared payload of one leaf node.
#[derive(Clone, Copy, Debug)]
pub struct State {
    pub target: Option<usize>,
}

impl State {
    /// Whether the cell has been attached to a node yet.
    pub open spec fn is_bound(&self) -> bool {
        self.target is Some
    }

    /// The id of the node the cell is bound to; meaningless while unbound.
    pub open spec fn target_id(&self) -> int {
        match self.target {
            Some(t) => t as int,
            None => -1,
        }
    }

    /// A fresh, unbound cell.
    pub fn new() -> (s: State)
        ensures
            !s.is_bound(),
    {
        State { target: None }
    }

    /// Attaches the cell to the node with id `id`.  A cell is bound exactly
    /// once, by the stateful builder of the leaf it will expose.
    pub fn bind(&mut self, id: usize)
        requires
            !old(self).is_bound(),
        ensures
            final(self).is_bound(),
            final(self).target_id() == id,
    {
        self.target = Some(id);
    }

    /// Reads the bound leaf back out of the arena.
    pub fn borrow(&self, ui: &Ui) -> (n: Node)
        requires
            self.is_bound(),
            0 <= self.target_id() < ui.nodes@.len(),
            ui.nodes@[self.target_id()] is Rect || ui.nodes@[self.target_id()] is Label,
        ensures
            n == ui.nodes@[self.target_id()],
    {
        let t = match self.target {
            Some(t) => t,
            None => 0,
        };
        match &ui.nodes[t] {
            Node::Rect(w) => Node::Rect(*w),
            Node::Label(w) => Node::Label(crate::widgets::Text {
                text: w.text.clone(),
                id: w.id,
                size: w.size,
                font: w.font.clone(),
                color: w.color,
            }),
            _ => {
                proof {
                    assert(false);
                }
                Node::Blank(Empty { id: 0 })
            },
        }
    }

    /// Overwrites the bound leaf's payload.  The new value must be a leaf of
    /// the same kind carrying the same id, so the tree's shape and the
    /// arena's invariant are preserved.
    pub fn borrow_mut(&self, ui: &mut Ui, value: Node)
        requires
            old(ui).wf(),
            self.is_bound(),
            0 <= self.target_id() < old(ui).nodes@.len(),
            old(ui).nodes@[self.target_id()] is Rect ==> value is Rect,
            old(ui).nodes@[self.target_id()] is Label ==> value is Label,
            old(ui).nodes@[self.target_id()] is Rect || old(ui).nodes@[self.target_id()] is Label,
            value.spec_id() == self.target_id(),
            value matches Node::Rect(w) ==> 0 <= w.border_radius <= MAX_DIM,
        ensures
            final(ui).wf(),
            final(ui).nodes@ == old(ui).nodes@.update(self.target_id(), value),
            final(ui).emitted@ == old(ui).emitted@,
    {
        let t = match self.target {
            Some(t) => t,
            None => 0,
        };
        proof {
            lemma_wf_update_leaf(ui.nodes@, t as int, value);
        }
        ui.nodes.set(t, value);
    }
}

} // verus!
