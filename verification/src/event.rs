//! Pointer events, in absolute window coordinates.

use vstd::prelude::*;

verus! {

/// A pointer event.  Coordinates are absolute window coordinates; no
/// transform is applied during dispatch except hit-testing against each
/// node's own absolute rectangle from the layout map.
#[derive(Clone, Copy, Debug, PartialEq, Eq, Structural)]
pub enum Event {
    MouseDown { x: i64, y: i64, button: u8 },
    MouseUp { x: i64, y: i64, button: u8 },
    MouseMove { prev_x: i64, prev_y: i64, x: i64, y: i64 },
}

} // verus!
