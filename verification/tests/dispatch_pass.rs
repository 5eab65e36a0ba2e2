//! Tests of the dispatch pass: pass-through leaves, gesture hit-testing,
//! enter/leave transitions, consumption stopping sibling propagation, and
//! the readiness check.

use winkel::widgets::{Handler, MouseGesture, Node, Pressed, Rectangle, Row, Stack, Ui};
use winkel::{color, compute, dispatch, dispatch_ready, Event, LayoutMap, State};

#[test]
fn leaves_pass_events_through_unchanged() {
    let mut ui = Ui::new();
    let r = Rectangle::new(color::red()).build(&mut ui);
    let map = compute(&ui, r, 100, 100);
    let ev = Event::MouseDown { x: 10, y: 10, button: 0 };
    let (rem, changed) = dispatch(&mut ui, r, ev, false, &map);
    assert_eq!(rem, Some(ev));
    assert!(!changed);
    let (_, still) = dispatch(&mut ui, r, ev, true, &map);
    assert!(still);
}

#[test]
fn mouse_down_inside_fires_click_and_consumes() {
    let mut ui = Ui::new();
    let rect = Rectangle::new(color::red()).build(&mut ui);
    let g = MouseGesture::new(rect).on_click(Handler::Emit { tag: 9 }).build(&mut ui);
    let map = compute(&ui, g, 100, 50);
    let (rem, changed) = dispatch(&mut ui, g, Event::MouseDown { x: 5, y: 5, button: 2 }, false, &map);
    assert!(rem.is_none());
    assert!(!changed, "an emit-only handler reports no state change");
    assert_eq!(ui.emitted, vec![Pressed { tag: 9, button: 2 }]);
}

#[test]
fn mouse_down_outside_passes_through() {
    let mut ui = Ui::new();
    let rect = Rectangle::new(color::red()).build(&mut ui);
    let g = MouseGesture::new(rect).on_click(Handler::Emit { tag: 9 }).build(&mut ui);
    let map = compute(&ui, g, 100, 50);
    let ev = Event::MouseDown { x: 100, y: 5, button: 0 };
    let (rem, changed) = dispatch(&mut ui, g, ev, false, &map);
    assert_eq!(rem, Some(ev));
    assert!(!changed);
    assert!(ui.emitted.is_empty());
}

#[test]
fn mouse_up_inside_fires_release() {
    let mut ui = Ui::new();
    let rect = Rectangle::new(color::red()).build(&mut ui);
    let g = MouseGesture::new(rect).on_release(Handler::Emit { tag: 4 }).build(&mut ui);
    let map = compute(&ui, g, 80, 20);
    let (rem, _) = dispatch(&mut ui, g, Event::MouseUp { x: 79, y: 19, button: 1 }, false, &map);
    assert!(rem.is_none());
    assert_eq!(ui.emitted, vec![Pressed { tag: 4, button: 1 }]);
}

#[test]
fn mouse_move_enter_and_leave_transitions() {
    let mut ui = Ui::new();
    let rect = Rectangle::new(color::red()).build(&mut ui);
    let g = MouseGesture::new(rect)
        .on_enter(Handler::Emit { tag: 1 })
        .on_leave(Handler::Emit { tag: 2 })
        .build(&mut ui);
    let map = compute(&ui, g, 100, 50);

    // outside -> inside fires only the enter handler
    let (rem, _) = dispatch(
        &mut ui,
        g,
        Event::MouseMove { prev_x: -1, prev_y: -1, x: 50, y: 25 },
        false,
        &map,
    );
    assert!(rem.is_none());
    assert_eq!(ui.emitted, vec![Pressed { tag: 1, button: 0 }]);

    // inside -> outside fires only the leave handler
    let (rem, _) = dispatch(
        &mut ui,
        g,
        Event::MouseMove { prev_x: 50, prev_y: 25, x: -1, y: -1 },
        false,
        &map,
    );
    assert!(rem.is_none());
    assert_eq!(
        ui.emitted,
        vec![Pressed { tag: 1, button: 0 }, Pressed { tag: 2, button: 0 }]
    );

    // strictly inside on both ends fires neither and passes through
    let ev = Event::MouseMove { prev_x: 10, prev_y: 10, x: 20, y: 20 };
    let (rem, _) = dispatch(&mut ui, g, ev, false, &map);
    assert_eq!(rem, Some(ev));

    // outside on both ends fires neither and passes through
    let ev = Event::MouseMove { prev_x: -5, prev_y: -5, x: 200, y: 200 };
    let (rem, _) = dispatch(&mut ui, g, ev, false, &map);
    assert_eq!(rem, Some(ev));
    assert_eq!(ui.emitted.len(), 2);
}

#[test]
fn consumption_stops_sibling_propagation_in_a_row() {
    let mut ui = Ui::new();
    let ra = Rectangle::new(color::red()).build(&mut ui);
    let ga = MouseGesture::new(ra).on_click(Handler::Emit { tag: 1 }).build(&mut ui);
    let rb = Rectangle::new(color::green()).build(&mut ui);
    let gb = MouseGesture::new(rb).on_click(Handler::Emit { tag: 2 }).build(&mut ui);
    let row = Row::new().add(ga).add(gb).build(&mut ui);
    let map = compute(&ui, row, 100, 50);
    let (rem, _) = dispatch(&mut ui, row, Event::MouseDown { x: 10, y: 10, button: 0 }, false, &map);
    assert!(rem.is_none());
    assert_eq!(ui.emitted, vec![Pressed { tag: 1, button: 0 }]);
}

#[test]
fn consumption_stops_sibling_propagation_with_overlapping_rectangles() {
    let mut ui = Ui::new();
    let ra = Rectangle::new(color::red()).build(&mut ui);
    let ga = MouseGesture::new(ra).on_click(Handler::Emit { tag: 1 }).build(&mut ui);
    let rb = Rectangle::new(color::green()).build(&mut ui);
    let gb = MouseGesture::new(rb).on_click(Handler::Emit { tag: 2 }).build(&mut ui);
    // a stack gives both wrappers the same hit rectangle
    let stack = Stack::new().add(ga).add(gb).build(&mut ui);
    let map = compute(&ui, stack, 100, 50);
    let (rem, _) = dispatch(&mut ui, stack, Event::MouseDown { x: 40, y: 40, button: 0 }, false, &map);
    assert!(rem.is_none());
    assert_eq!(ui.emitted, vec![Pressed { tag: 1, button: 0 }]);
}

#[test]
fn unconsumed_event_walks_every_sibling() {
    let mut ui = Ui::new();
    let ra = Rectangle::new(color::red()).build(&mut ui);
    let ga = MouseGesture::new(ra).on_click(Handler::Emit { tag: 1 }).build(&mut ui);
    let rb = Rectangle::new(color::green()).build(&mut ui);
    let gb = MouseGesture::new(rb).on_click(Handler::Emit { tag: 2 }).build(&mut ui);
    let row = Row::new().add(ga).add(gb).build(&mut ui);
    let map = compute(&ui, row, 100, 50);
    // inside B's half only: A passes it on, B consumes
    let (rem, _) = dispatch(&mut ui, row, Event::MouseDown { x: 75, y: 10, button: 0 }, false, &map);
    assert!(rem.is_none());
    assert_eq!(ui.emitted, vec![Pressed { tag: 2, button: 0 }]);
}

#[test]
fn set_color_handler_updates_cell_and_reports_change() {
    let mut ui = Ui::new();
    let mut cell = State::new();
    let rect = Rectangle::new(color::red()).build_stateful(&mut ui, &mut cell);
    let g = MouseGesture::new(rect)
        .on_click(Handler::SetColor { cell: rect, color: color::green() })
        .build(&mut ui);
    let map = compute(&ui, g, 60, 60);
    let (rem, changed) = dispatch(&mut ui, g, Event::MouseDown { x: 30, y: 30, button: 0 }, false, &map);
    assert!(rem.is_none());
    assert!(changed);
    match cell.borrow(&ui) {
        Node::Rect(r) => assert_eq!(r.color, color::green()),
        _ => panic!("cell must point at the rectangle leaf"),
    }
}

#[test]
fn dispatch_ready_accepts_computed_map_and_rejects_others() {
    let mut ui = Ui::new();
    let rect = Rectangle::new(color::red()).build(&mut ui);
    let g = MouseGesture::new(rect).build(&mut ui);
    let map = compute(&ui, g, 100, 50);
    assert!(dispatch_ready(&ui, g, &map));
    // an empty map misses the gesture's record
    let empty = LayoutMap { slots: Vec::new() };
    assert!(!dispatch_ready(&ui, g, &empty));
    let nones = LayoutMap { slots: vec![None, None] };
    assert!(!dispatch_ready(&ui, g, &nones));
}

#[test]
fn hit_testing_is_closed_on_top_left_and_open_on_bottom_right() {
    let mut ui = Ui::new();
    let rect = Rectangle::new(color::red()).build(&mut ui);
    let g = MouseGesture::new(rect).on_click(Handler::Emit { tag: 1 }).build(&mut ui);
    let map = compute(&ui, g, 100, 50);
    for (x, y, hit) in [
        (0, 0, true),
        (99, 49, true),
        (100, 25, false),
        (50, 50, false),
        (-1, 0, false),
    ] {
        let (rem, _) = dispatch(&mut ui, g, Event::MouseDown { x, y, button: 0 }, false, &map);
        assert_eq!(rem.is_none(), hit, "point ({x},{y})");
    }
}

#[test]
fn dispatch_ready_rejects_gesture_under_zero_weight_row() {
    let mut ui = Ui::new();
    let rect = Rectangle::new(color::red()).build(&mut ui);
    let g = MouseGesture::new(rect).on_click(Handler::Emit { tag: 1 }).build(&mut ui);
    let row = Row::new().add_flex(g, 0).build(&mut ui);
    // the zero-weight row lays out none of its children, so the gesture has
    // no rectangle to hit-test against and dispatching must be refused
    let map = compute(&ui, row, 100, 50);
    assert!(map.slots[g].is_none());
    assert!(!dispatch_ready(&ui, row, &map));
}
