//! The layout map: the flat, id-keyed table of resolved per-node geometry and
//! paint data produced by one layout pass.
//!
//! The table is dense with respect to widget identity: slot `i` belongs to the
//! node with id `i`.  Nodes that produce no record (an empty leaf, a node
//! outside the computed subtree) leave their slot at `None`; a record whose
//! `render` is `None` participates in hit-testing but paints nothing.

use vstd::prelude::*;

use crate::color::Color;
use crate::{MAX_COORD, MAX_DIM, MAX_Z};

verus! {

/// Paint style of a filled rectangle.
#[derive(Clone, Copy, Debug)]
pub struct Style {
    pub color: Option<Color>,
    pub border_radius: i64,
}

/// Paint style of a run of text.
#[derive(Debug)]
pub struct TextStyle {
    pub font: String,
    pub color: Color,
    pub size: u32,
}

/// What a record paints: a filled rectangle or a run of text.
#[derive(Debug)]
pub enum RenderObject {
    Rectangle { style: Style },
    Text { text: String, style: TextStyle },
}

/// One resolved layout record: absolute position, size, paint-order index and
/// an optional paint payload.
#[derive(Debug)]
pub struct ComputedWidget {
    pub x: i64,
    pub y: i64,
    pub z: u64,
    pub width: i64,
    pub height: i64,
    pub render: Option<RenderObject>,
}

/// Mathematical value of a paint payload.
pub enum RenderModel {
    Quad { color: Option<Color>, border_radius: int },
    Glyphs { text: Seq<char>, font: Seq<char>, size: int, color: Color },
}

/// Mathematical value of one layout record.
pub struct CwModel {
    pub x: int,
    pub y: int,
    pub z: int,
    pub width: int,
    pub height: int,
    pub render: Option<RenderModel>,
}

impl View for RenderObject {
    type V = RenderModel;

    open spec fn view(&self) -> RenderModel {
        match self {
            RenderObject::Rectangle { style } => RenderModel::Quad {
                color: style.color,
                border_radius: style.border_radius as int,
            },
            RenderObject::Text { text, style } => RenderModel::Glyphs {
                text: text@,
                font: style.font@,
                size: style.size as int,
                color: style.color,
            },
        }
    }
}

/// Mathematical value of an optional paint payload.
pub open spec fn opt_render_model(o: Option<RenderObject>) -> Option<RenderModel> {
    match o {
        Some(r) => Some(r@),
        None => None,
    }
}

impl View for ComputedWidget {
    type V = CwModel;

    open spec fn view(&self) -> CwModel {
        CwModel {
            x: self.x as int,
            y: self.y as int,
            z: self.z as int,
            width: self.width as int,
            height: self.height as int,
            render: opt_render_model(self.render),
        }
    }
}

/// Mathematical value of one slot of the layout map.
pub open spec fn opt_cw_model(o: Option<ComputedWidget>) -> Option<CwModel> {
    match o {
        Some(c) => Some(c@),
        None => None,
    }
}

/// Mathematical value of a whole slot table.
pub open spec fn slots_model(s: Seq<Option<ComputedWidget>>) -> Seq<Option<CwModel>> {
    s.map_values(|o: Option<ComputedWidget>| opt_cw_model(o))
}

/// Bounds that every record produced by the layout pass satisfies; they keep
/// hit-testing arithmetic inside `i64`.
pub open spec fn rec_bounds(c: CwModel) -> bool {
    &&& 0 <= c.x
    &&& 0 <= c.y
    &&& 0 <= c.width <= MAX_DIM
    &&& 0 <= c.height <= MAX_DIM
    &&& c.x + c.width <= MAX_COORD
    &&& c.y + c.height <= MAX_COORD
    &&& 0 <= c.z <= MAX_Z
}

/// A layout map is well formed when every present record is bounded.
pub open spec fn map_wf(m: Seq<Option<CwModel>>) -> bool {
    forall|i: int| 0 <= i < m.len() ==> (#[trigger] m[i] matches Some(c) ==> rec_bounds(c))
}

/// Containment of an absolute point in a record's rectangle: closed on the
/// left and top edges, open on the right and bottom ones.
pub open spec fn hit(c: CwModel, x: int, y: int) -> bool {
    x >= c.x && y >= c.y && x < c.x + c.width && y < c.y + c.height
}

impl ComputedWidget {
    /// Rectangular containment test used by the dispatch pass.  The border
    /// radius is accepted but deliberately ignored: rounded corners are never
    /// excluded during hit-testing, only during rendering.
    pub fn in_hitbox(&self, x: i64, y: i64, _border_radius: i64) -> (r: bool)
        requires
            rec_bounds(self@),
        ensures
            r == hit(self@, x as int, y as int),
    {
        x >= self.x && y >= self.y && x < self.x + self.width && y < self.y + self.height
    }
}

/// The table produced by one layout pass, rebuilt from scratch on every pass
/// and read-only to dispatch and to the renderer.
#[derive(Debug)]
pub struct LayoutMap {
    pub slots: Vec<Option<ComputedWidget>>,
}

impl View for LayoutMap {
    type V = Seq<Option<CwModel>>;

    open spec fn view(&self) -> Seq<Option<CwModel>> {
        slots_model(self.slots@)
    }
}

/// Compares two paint styles.
fn style_eq(a: &Style, b: &Style) -> (r: bool)
    ensures
        r == (a.color == b.color && a.border_radius == b.border_radius),
{
    let colors_eq = match a.color {
        None => b.color.is_none(),
        Some(ca) => match b.color {
            Some(cb) => ca == cb,
            None => false,
        },
    };
    colors_eq && a.border_radius == b.border_radius
}

/// Compares two paint payloads by mathematical value.
fn render_eq(a: &RenderObject, b: &RenderObject) -> (r: bool)
    ensures
        r == (a@ == b@),
{
    match a {
        RenderObject::Rectangle { style: sa } => match b {
            RenderObject::Rectangle { style: sb } => style_eq(sa, sb),
            RenderObject::Text { .. } => false,
        },
        RenderObject::Text { text: ta, style: sa } => match b {
            RenderObject::Text { text: tb, style: sb } => {
                *ta == *tb && sa.font == sb.font && sa.color == sb.color && sa.size == sb.size
            }
            RenderObject::Rectangle { .. } => false,
        },
    }
}

/// Compares two layout records by mathematical value.
fn cw_eq(a: &ComputedWidget, b: &ComputedWidget) -> (r: bool)
    ensures
        r == (a@ == b@),
{
    let geometry_eq = a.x == b.x && a.y == b.y && a.z == b.z && a.width == b.width && a.height
        == b.height;
    let payload_eq = match &a.render {
        None => b.render.is_none(),
        Some(ra) => match &b.render {
            Some(rb) => render_eq(ra, rb),
            None => false,
        },
    };
    geometry_eq && payload_eq
}

impl LayoutMap {
    /// Number of slots; equals the number of nodes of the tree it was
    /// computed for.
    pub fn len(&self) -> (n: usize)
        ensures
            n == self@.len(),
    {
        self.slots.len()
    }

    /// Whether two layout maps hold exactly the same records, slot by slot.
    pub fn same_as(&self, other: &LayoutMap) -> (r: bool)
        ensures
            r == (self@ =~= other@),
    {
        if self.slots.len() != other.slots.len() {
            return false;
        }
        let n = self.slots.len();
        let mut i: usize = 0;
        while i < n
            invariant
                n == self@.len(),
                n == other@.len(),
                i <= n,
                forall|j: int| 0 <= j < i ==> self@[j] == other@[j],
            decreases n - i,
        {
            let slot_eq = match &self.slots[i] {
                None => other.slots[i].is_none(),
                Some(a) => match &other.slots[i] {
                    Some(b) => cw_eq(a, b),
                    None => false,
                },
            };
            if !slot_eq {
                assert(self@[i as int] != other@[i as int]);
                return false;
            }
            i = i + 1;
        }
        true
    }
}

} // verus!
