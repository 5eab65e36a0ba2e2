//! A small retained-mode UI toolkit: a tree of declaratively built widgets
//! that is laid out against a window box, hit-tested against pointer events,
//! and partially mutated at runtime through externally held state cells.
//!
//! The two core passes are `compute`, which turns a widget tree plus an
//! available rectangle into a flat table of absolute positions, sizes and
//! paint order, and `dispatch`, which routes pointer events through the tree
//! with bubbling, hit-testing and enter/leave tracking, reporting whether
//! shared state changed and the layout became stale.

mod button;
pub mod color;
mod dispatch;
mod event;
mod glyph;
mod layout;
mod paint;
mod props;
mod record;
mod state;
pub mod widgets;

pub use button::{button_release_handler, Button};
pub use color::Color;
pub use event::Event;
pub use state::State;
pub use record::{ComputedWidget, CwModel, LayoutMap, RenderModel, RenderObject, Style, TextStyle};
pub use record::{hit, map_wf, opt_cw_model, opt_render_model, rec_bounds, slots_model};
pub use dispatch::{
    dispatch, dispatch_kids_spec, dispatch_node_spec, dispatch_ready, gesture_spec,
    lemma_consumption_stops_siblings, lemma_dispatch_same_shape, lemma_same_shape_covers,
    run_handler_spec, same_shape, same_shape_node, set_rect_color, DispatchOut,
};
pub use glyph::Character;
pub use layout::{
    compute, covers, covers_kids, empty_slots, geom_ok, kids_no_empty_split, layout_col,
    layout_node, layout_row, layout_stack, no_empty_split, pad_dim, sum_flex,
};
pub use paint::{paint_order, paintable, slot_z};
pub use props::{
    among, lemma_col_records, lemma_col_records_from, lemma_compute_idempotent,
    lemma_flex_proportional, lemma_flex_sum, lemma_padding_child_box, lemma_padding_clamps,
    lemma_row_records, lemma_row_records_from, lemma_stack_records, lemma_stack_records_from,
    row_extent, spec_kids, spec_weights, sum_scaled,
};

use vstd::prelude::*;

verus! {

/// Hard limits that keep every coordinate computed by the layout pass well
/// inside `i64`, however deep the tree is.  A widget tree holds at most
/// `MAX_NODES` nodes; paddings, border radii, flex weights and the window box
/// are bounded by `MAX_DIM`.
pub const MAX_NODES: usize = 0x10000;

/// Upper bound on a single dimension, padding inset, border radius or flex
/// weight accepted by the builders and by `compute`.
pub const MAX_DIM: i64 = 0x1000_0000;

/// Every absolute coordinate produced by the layout pass stays below this.
pub const MAX_COORD: i64 = 0x1000_0000_0000_0000;

/// Every paint-order index produced by the layout pass stays below this.
pub const MAX_Z: u64 = 0x1000_0000_0000_0000;

} // verus!
