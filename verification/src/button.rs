//! The button composite.
//!
//! A button is not a node kind of its own but a constructed sub-tree: a
//! gesture wrapper around a stack of a color rectangle (bound to a shared
//! state cell) and an optional user child.  All of its visual feedback is
//! expressed as dispatch-time mutation of that cell, which the next layout
//! pass reads back: press writes the active color, release writes the hover
//! color and emits the pressed notification, enter writes the hover color,
//! leave writes the base color.

use vstd::prelude::*;

use crate::color::Color;
use crate::state::State;
use crate::widgets::{
    Handler, MouseGesture, MouseGestureBuilder, Node, Rectangle, Stack, Ui,
};
use crate::{MAX_DIM, MAX_NODES};

verus! {

/// Configuration of a button before it is allocated.
#[derive(Clone, Copy, Debug)]
pub struct Button {
    pub child: Option<usize>,
    pub base_color: Color,
    pub hover_color: Color,
    pub active_color: Color,
    pub pressed_tag: Option<u64>,
    pub border_radius: i64,
}

/// The handler a button installs for a release: it restores the hover color
/// and, when a pressed tag was configured, emits that tag with the button
/// code.
pub open spec fn button_release_handler(cell: usize, hover: Color, tag: Option<u64>) -> Handler {
    match tag {
        Some(t) => Handler::SetColorEmit { cell, color: hover, tag: t },
        None => Handler::SetColor { cell, color: hover },
    }
}

impl Button {
    /// Starts configuring a button; hover and active colors default to the
    /// base color, so an unconfigured button shows no feedback.
    pub fn new(base_color: Color) -> (b: Button)
        ensures
            b.child is None,
            b.base_color == base_color,
            b.hover_color == base_color,
            b.active_color == base_color,
            b.pressed_tag is None,
            b.border_radius == 0,
    {
        Button {
            child: None,
            pressed_tag: None,
            base_color,
            hover_color: base_color,
            active_color: base_color,
            border_radius: 0,
        }
    }

    /// Sets the widget painted on top of the button's rectangle.
    pub fn child(self, child: usize) -> (b: Self)
        ensures
            b == (Button { child: Some(child), ..self }),
    {
        Button { child: Some(child), ..self }
    }

    /// Sets the color shown while the pointer rests on the button.
    pub fn hover(self, color: Color) -> (b: Self)
        ensures
            b == (Button { hover_color: color, ..self }),
    {
        Button { hover_color: color, ..self }
    }

    /// Sets the color shown while the button is pressed.
    pub fn active(self, color: Color) -> (b: Self)
        ensures
            b == (Button { active_color: color, ..self }),
    {
        Button { active_color: color, ..self }
    }

    /// Sets the border radius of the button's rectangle.
    pub fn border(self, border: i64) -> (b: Self)
        requires
            0 <= border <= MAX_DIM,
        ensures
            b == (Button { border_radius: border, ..self }),
    {
        Button { border_radius: border, ..self }
    }

    /// Registers the tag emitted, with the mouse button code, when the
    /// button is released.
    pub fn on_pressed(self, tag: u64) -> (b: Self)
        ensures
            b == (Button { pressed_tag: Some(tag), ..self }),
    {
        Button { pressed_tag: Some(tag), ..self }
    }

    /// Allocates the button's three nodes: the rectangle leaf (bound to
    /// `rect_state`), the stack of rectangle and optional child, and the
    /// gesture wrapper whose handlers write the configured colors into the
    /// cell.  Returns the wrapper's id, the root of the button.
    pub fn build_state(self, ui: &mut Ui, rect_state: &mut State) -> (id: usize)
        requires
            old(ui).wf(),
            old(ui).nodes@.len() + 3 <= MAX_NODES,
            self.child matches Some(c) ==> c < old(ui).nodes@.len(),
            0 <= self.border_radius <= MAX_DIM,
            !old(rect_state).is_bound(),
        ensures
            final(ui).wf(),
            final(ui).nodes@.len() == old(ui).nodes@.len() + 3,
            id == old(ui).nodes@.len() + 2,
            final(ui).emitted@ == old(ui).emitted@,
            final(rect_state).is_bound(),
            final(rect_state).target_id() == old(ui).nodes@.len(),
            forall|j: int|
                0 <= j < old(ui).nodes@.len() ==> final(ui).nodes@[j] == old(ui).nodes@[j],
            ({
                let n0 = old(ui).nodes@.len() as int;
                &&& final(ui).nodes@[n0] == (Node::Rect(
                    Rectangle {
                        color: self.base_color,
                        border_radius: self.border_radius,
                        id: n0 as usize,
                    },
                ))
                &&& (final(ui).nodes@[n0 + 1] matches Node::StackBox(s) && s.id == (n0 + 1) as usize
                    && s.children@ == (match self.child {
                    Some(c) => seq![n0 as usize, c],
                    None => seq![n0 as usize],
                }))
                &&& final(ui).nodes@[n0 + 2] == (Node::Gesture(
                    MouseGesture {
                        background: (n0 + 1) as usize,
                        click_callback: Some(
                            Handler::SetColor { cell: n0 as usize, color: self.active_color },
                        ),
                        release_callback: Some(
                            button_release_handler(n0 as usize, self.hover_color, self.pressed_tag),
                        ),
                        enter_callback: Some(
                            Handler::SetColor { cell: n0 as usize, color: self.hover_color },
                        ),
                        leave_callback: Some(
                            Handler::SetColor { cell: n0 as usize, color: self.base_color },
                        ),
                        border_radius: self.border_radius,
                        id: (n0 + 2) as usize,
                    },
                ))
            }),
    {
        let rect = Rectangle::new(self.base_color).border(self.border_radius).build_stateful(
            ui,
            rect_state,
        );
        let mut stack_builder = Stack::new().add(rect);
        if let Some(child) = self.child {
            stack_builder = stack_builder.add(child);
        }
        let stack = stack_builder.build(ui);
        let release = match self.pressed_tag {
            Some(tag) => Handler::SetColorEmit { cell: rect, color: self.hover_color, tag },
            None => Handler::SetColor { cell: rect, color: self.hover_color },
        };
        let id = MouseGesture::new(stack).border(self.border_radius).on_click(
            Handler::SetColor { cell: rect, color: self.active_color },
        ).on_release(release).on_enter(
            Handler::SetColor { cell: rect, color: self.hover_color },
        ).on_leave(Handler::SetColor { cell: rect, color: self.base_color }).build(ui);
        id
    }
}

} // verus!
