//! Tests of the shared-state cell, the builders' bookkeeping, the glyph
//! metrics record, and the button composite end to end.

use winkel::widgets::{Node, Pressed, Rectangle, Text, Ui};
use winkel::{color, compute, dispatch, Button, Character, Event, RenderObject, State};

#[test]
fn colors_expose_their_channels() {
    let c = color::Color::new(1, 2, 3, 4);
    assert_eq!((c.r, c.g, c.b, c.a), (1, 2, 3, 4));
    assert_eq!(color::red(), color::Color::new(255, 0, 0, 255));
    assert_eq!(color::yellow(), color::Color::new(255, 255, 0, 255));
    assert_eq!(color::green(), color::Color::new(0, 255, 0, 255));
    assert_ne!(color::white(), color::black());
}

#[test]
fn ids_are_handed_out_in_construction_order() {
    let mut ui = Ui::new();
    let a = Rectangle::new(color::red()).build(&mut ui);
    let b = Rectangle::new(color::green()).build(&mut ui);
    let t = Text::new("x".to_string(), 10, "f.ttf".to_string()).build(&mut ui);
    assert_eq!((a, b, t), (0, 1, 2));
    assert_eq!(ui.node_count(), 3);
    assert_eq!(ui.nodes[1].get_id(), 1);
}

#[test]
fn state_cell_binds_and_reads_back() {
    let mut ui = Ui::new();
    let mut cell = State::new();
    let rect = Rectangle::new(color::magenta()).border(3).build_stateful(&mut ui, &mut cell);
    match cell.borrow(&ui) {
        Node::Rect(r) => {
            assert_eq!(r.color, color::magenta());
            assert_eq!(r.border_radius, 3);
            assert_eq!(r.id, rect);
        }
        _ => panic!("cell must be bound to the rectangle"),
    }
}

#[test]
fn state_cell_overwrites_payload_in_place() {
    let mut ui = Ui::new();
    let mut cell = State::new();
    let rect = Rectangle::new(color::magenta()).build_stateful(&mut ui, &mut cell);
    cell.borrow_mut(
        &mut ui,
        Node::Rect(Rectangle { color: color::cyan(), border_radius: 0, id: rect }),
    );
    match cell.borrow(&ui) {
        Node::Rect(r) => assert_eq!(r.color, color::cyan()),
        _ => panic!("cell must stay bound to the rectangle"),
    }
}

#[test]
fn text_cell_binds_too() {
    let mut ui = Ui::new();
    let mut cell = State::new();
    let t = Text::new("hi".to_string(), 12, "f.ttf".to_string()).build_stateful(&mut ui, &mut cell);
    match cell.borrow(&ui) {
        Node::Label(label) => {
            assert_eq!(label.text, "hi");
            assert_eq!(label.id, t);
        }
        _ => panic!("cell must be bound to the text leaf"),
    }
}

#[test]
fn character_getters_return_the_metrics() {
    let c = Character::new(2, 14, 8, 16, 640, 33);
    assert_eq!(c.left(), 2);
    assert_eq!(c.top(), 14);
    assert_eq!(c.width(), 8);
    assert_eq!(c.height(), 16);
    assert_eq!(c.advance(), 640);
    assert_eq!(c.texture(), 33);
}

#[test]
fn button_builds_three_nodes_and_binds_the_cell() {
    let mut ui = Ui::new();
    let mut cell = State::new();
    let button = Button::new(color::red())
        .hover(color::yellow())
        .active(color::green())
        .border(8)
        .build_state(&mut ui, &mut cell);
    assert_eq!(ui.node_count(), 3);
    assert_eq!(button, 2);
    match cell.borrow(&ui) {
        Node::Rect(r) => {
            assert_eq!(r.color, color::red());
            assert_eq!(r.border_radius, 8);
        }
        _ => panic!("cell must be bound to the button's rectangle"),
    }
}

#[test]
fn button_with_child_stacks_it_on_top() {
    let mut ui = Ui::new();
    let label = Text::new("ok".to_string(), 12, "f.ttf".to_string()).build(&mut ui);
    let mut cell = State::new();
    let button = Button::new(color::blue()).child(label).build_state(&mut ui, &mut cell);
    let map = compute(&ui, button, 100, 40);
    let rect_rec = map.slots[1].as_ref().unwrap();
    let label_rec = map.slots[label].as_ref().unwrap();
    assert_eq!((rect_rec.x, rect_rec.y, rect_rec.width, rect_rec.height), (0, 0, 100, 40));
    assert_eq!((label_rec.x, label_rec.y, label_rec.width, label_rec.height), (0, 0, 100, 40));
    assert!(rect_rec.z < label_rec.z);
}

#[test]
fn button_end_to_end_hover_press_release() {
    let mut ui = Ui::new();
    let mut cell = State::new();
    let button = Button::new(color::red())
        .hover(color::yellow())
        .active(color::green())
        .on_pressed(7)
        .build_state(&mut ui, &mut cell);
    let rect = 0;

    // the button fills a 100 x 40 window
    let map = compute(&ui, button, 100, 40);

    // moving in from outside turns the rectangle yellow and reports a change
    let (rem, changed) = dispatch(
        &mut ui,
        button,
        Event::MouseMove { prev_x: -1, prev_y: -1, x: 50, y: 20 },
        false,
        &map,
    );
    assert!(rem.is_none());
    assert!(changed);
    match cell.borrow(&ui) {
        Node::Rect(r) => assert_eq!(r.color, color::yellow()),
        _ => panic!("cell must be bound to the rectangle"),
    }

    // recomputing reports the rectangle record with the hover color
    let map = compute(&ui, button, 100, 40);
    match &map.slots[rect].as_ref().unwrap().render {
        Some(RenderObject::Rectangle { style }) => {
            assert_eq!(style.color, Some(color::yellow()));
        }
        _ => panic!("expected the button's rectangle record"),
    }

    // pressing turns it green
    let (rem, changed) = dispatch(
        &mut ui,
        button,
        Event::MouseDown { x: 50, y: 20, button: 0 },
        false,
        &map,
    );
    assert!(rem.is_none());
    assert!(changed);
    match cell.borrow(&ui) {
        Node::Rect(r) => assert_eq!(r.color, color::green()),
        _ => panic!("cell must be bound to the rectangle"),
    }

    // releasing restores hover and fires the pressed notification once
    let map = compute(&ui, button, 100, 40);
    let (rem, changed) = dispatch(
        &mut ui,
        button,
        Event::MouseUp { x: 50, y: 20, button: 0 },
        false,
        &map,
    );
    assert!(rem.is_none());
    assert!(changed);
    match cell.borrow(&ui) {
        Node::Rect(r) => assert_eq!(r.color, color::yellow()),
        _ => panic!("cell must be bound to the rectangle"),
    }
    assert_eq!(ui.emitted, vec![Pressed { tag: 7, button: 0 }]);

    // leaving restores the base color
    let map = compute(&ui, button, 100, 40);
    let (rem, changed) = dispatch(
        &mut ui,
        button,
        Event::MouseMove { prev_x: 50, prev_y: 20, x: -1, y: -1 },
        false,
        &map,
    );
    assert!(rem.is_none());
    assert!(changed);
    match cell.borrow(&ui) {
        Node::Rect(r) => assert_eq!(r.color, color::red()),
        _ => panic!("cell must be bound to the rectangle"),
    }
}
