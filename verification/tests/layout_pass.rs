//! Tests of the layout pass: per-kind records, padding clamps, flex splits,
//! stack paint order, idempotence, and paint ordering.

use winkel::color;
use winkel::compute;
use winkel::paint_order;
use winkel::widgets::{Column, Empty, MouseGesture, Padding, Rectangle, Row, Stack, Text, Ui};
use winkel::{LayoutMap, RenderObject};

#[test]
fn rectangle_record_has_geometry_and_style() {
    let mut ui = Ui::new();
    let r = Rectangle::new(color::red()).border(5).build(&mut ui);
    let map = compute(&ui, r, 100, 40);
    assert_eq!(map.slots.len(), 1);
    let rec = map.slots[r].as_ref().unwrap();
    assert_eq!((rec.x, rec.y, rec.z, rec.width, rec.height), (0, 0, 0, 100, 40));
    match &rec.render {
        Some(RenderObject::Rectangle { style }) => {
            assert_eq!(style.color, Some(color::red()));
            assert_eq!(style.border_radius, 5);
        }
        _ => panic!("expected a rectangle payload"),
    }
}

#[test]
fn text_record_carries_text_and_style() {
    let mut ui = Ui::new();
    let t = Text::new("Hello World".to_string(), 20, "Raleway-Regular.ttf".to_string())
        .color(color::blue())
        .build(&mut ui);
    let map = compute(&ui, t, 200, 60);
    let rec = map.slots[t].as_ref().unwrap();
    assert_eq!((rec.width, rec.height), (200, 60));
    match &rec.render {
        Some(RenderObject::Text { text, style }) => {
            assert_eq!(text, "Hello World");
            assert_eq!(style.font, "Raleway-Regular.ttf");
            assert_eq!(style.size, 20);
            assert_eq!(style.color, color::blue());
        }
        _ => panic!("expected a text payload"),
    }
}

#[test]
fn empty_leaf_places_no_record() {
    let mut ui = Ui::new();
    let e = Empty::new(&mut ui);
    let map = compute(&ui, e, 100, 100);
    assert!(map.slots[e].is_none());
}

#[test]
fn padding_insets_child() {
    let mut ui = Ui::new();
    let rect = Rectangle::new(color::blue()).build(&mut ui);
    let pad = Padding::new(rect).each(10, 20, 30, 40).build(&mut ui);
    let map = compute(&ui, pad, 100, 100);
    let rec = map.slots[rect].as_ref().unwrap();
    assert_eq!((rec.x, rec.y), (10, 20));
    assert_eq!((rec.width, rec.height), (60, 40));
    assert!(map.slots[pad].is_none());
}

#[test]
fn padding_exceeding_box_clamps_child_to_zero() {
    let mut ui = Ui::new();
    let rect = Rectangle::new(color::blue()).build(&mut ui);
    let pad = Padding::new(rect).all(60).build(&mut ui);
    let map = compute(&ui, pad, 100, 40);
    let rec = map.slots[rect].as_ref().unwrap();
    assert_eq!((rec.x, rec.y), (60, 60));
    assert_eq!(rec.width, 0);
    assert_eq!(rec.height, 0);
}

#[test]
fn row_splits_width_equally_by_default() {
    let mut ui = Ui::new();
    let a = Rectangle::new(color::red()).build(&mut ui);
    let b = Rectangle::new(color::green()).build(&mut ui);
    let row = Row::new().add(a).add(b).build(&mut ui);
    let map = compute(&ui, row, 100, 30);
    let ra = map.slots[a].as_ref().unwrap();
    let rb = map.slots[b].as_ref().unwrap();
    assert_eq!((ra.x, ra.width, ra.height), (0, 50, 30));
    assert_eq!((rb.x, rb.width, rb.height), (50, 50, 30));
    assert_eq!((ra.y, rb.y), (0, 0));
}

#[test]
fn row_splits_width_proportionally_to_flex() {
    let mut ui = Ui::new();
    let a = Rectangle::new(color::red()).build(&mut ui);
    let b = Rectangle::new(color::green()).build(&mut ui);
    let row = Row::new().add_flex(a, 1).add_flex(b, 2).build(&mut ui);
    let map = compute(&ui, row, 90, 30);
    let ra = map.slots[a].as_ref().unwrap();
    let rb = map.slots[b].as_ref().unwrap();
    assert_eq!((ra.x, ra.width), (0, 30));
    assert_eq!((rb.x, rb.width), (30, 60));
    assert_eq!(ra.width + rb.width, 90);
}

#[test]
fn column_splits_height_proportionally_to_flex() {
    let mut ui = Ui::new();
    let a = Rectangle::new(color::red()).build(&mut ui);
    let b = Rectangle::new(color::green()).build(&mut ui);
    let col = Column::new().add_flex(a, 3).add_flex(b, 1).build(&mut ui);
    let map = compute(&ui, col, 50, 80);
    let ra = map.slots[a].as_ref().unwrap();
    let rb = map.slots[b].as_ref().unwrap();
    assert_eq!((ra.y, ra.height, ra.width), (0, 60, 50));
    assert_eq!((rb.y, rb.height, rb.width), (60, 20, 50));
}

#[test]
fn row_with_indivisible_width_leaves_the_remainder_unassigned() {
    let mut ui = Ui::new();
    let a = Rectangle::new(color::red()).build(&mut ui);
    let b = Rectangle::new(color::green()).build(&mut ui);
    let row = Row::new().add_flex(a, 1).add_flex(b, 2).build(&mut ui);
    let map = compute(&ui, row, 10, 10);
    let ra = map.slots[a].as_ref().unwrap();
    let rb = map.slots[b].as_ref().unwrap();
    // unit = 10 / 3 = 3: widths 3 and 6, one pixel stays unassigned
    assert_eq!((ra.x, ra.width), (0, 3));
    assert_eq!((rb.x, rb.width), (3, 6));
    assert_eq!(ra.width + rb.width, 9);
}

#[test]
fn containers_without_children_place_nothing() {
    let mut ui = Ui::new();
    let row = Row::new().build(&mut ui);
    let col = Column::new().build(&mut ui);
    let stack = Stack::new().build(&mut ui);
    for root in [row, col, stack] {
        let map = compute(&ui, root, 100, 100);
        assert!(map.slots.iter().all(|s| s.is_none()));
    }
}

#[test]
fn zero_total_flex_places_no_children() {
    let mut ui = Ui::new();
    let a = Rectangle::new(color::red()).build(&mut ui);
    let row = Row::new().add_flex(a, 0).build(&mut ui);
    let map = compute(&ui, row, 100, 30);
    assert!(map.slots[a].is_none());
    assert!(map.slots[row].is_none());
}

#[test]
fn stack_children_share_geometry_with_increasing_paint_order() {
    let mut ui = Ui::new();
    let a = Rectangle::new(color::red()).build(&mut ui);
    let b = Rectangle::new(color::green()).build(&mut ui);
    let c = Rectangle::new(color::blue()).build(&mut ui);
    let stack = Stack::new().add(a).add(b).add(c).build(&mut ui);
    let map = compute(&ui, stack, 120, 80);
    let ra = map.slots[a].as_ref().unwrap();
    let rb = map.slots[b].as_ref().unwrap();
    let rc = map.slots[c].as_ref().unwrap();
    for rec in [ra, rb, rc] {
        assert_eq!((rec.x, rec.y, rec.width, rec.height), (0, 0, 120, 80));
    }
    assert_eq!((ra.z, rb.z, rc.z), (0, 1, 2));
    assert!(ra.z < rb.z && rb.z < rc.z);
}

#[test]
fn gesture_wrapper_records_hit_rectangle_without_paint() {
    let mut ui = Ui::new();
    let rect = Rectangle::new(color::cyan()).build(&mut ui);
    let g = MouseGesture::new(rect).build(&mut ui);
    let map = compute(&ui, g, 100, 50);
    let rg = map.slots[g].as_ref().unwrap();
    assert_eq!((rg.x, rg.y, rg.width, rg.height), (0, 0, 100, 50));
    assert!(rg.render.is_none());
    let rr = map.slots[rect].as_ref().unwrap();
    assert_eq!((rr.x, rr.y, rr.width, rr.height), (0, 0, 100, 50));
}

#[test]
fn compute_twice_yields_identical_maps() {
    let mut ui = Ui::new();
    let a = Rectangle::new(color::red()).build(&mut ui);
    let t = Text::new("label".to_string(), 14, "font.ttf".to_string()).build(&mut ui);
    let row = Row::new().add_flex(a, 2).add(t).build(&mut ui);
    let pad = Padding::new(row).symmetrical(7, 3).build(&mut ui);
    let m1 = compute(&ui, pad, 301, 199);
    let m2 = compute(&ui, pad, 301, 199);
    assert!(m1.same_as(&m2));
    let m3 = compute(&ui, pad, 302, 199);
    assert!(!m1.same_as(&m3));
}

#[test]
fn paint_order_sorts_paintable_records_by_z() {
    let mut ui = Ui::new();
    let a = Rectangle::new(color::red()).build(&mut ui);
    let b = Rectangle::new(color::green()).build(&mut ui);
    let stack = Stack::new().add(a).add(b).build(&mut ui);
    let g = MouseGesture::new(stack).build(&mut ui);
    let map = compute(&ui, g, 64, 64);
    let ids = paint_order(&map);
    // the gesture record paints nothing, so only the two rectangles remain
    assert_eq!(ids, vec![a, b]);
}

#[test]
fn paint_order_on_empty_map_is_empty() {
    let map = LayoutMap { slots: Vec::new() };
    assert!(paint_order(&map).is_empty());
}
