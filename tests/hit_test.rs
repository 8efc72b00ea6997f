use dynamin::{PaintStep, Point, Size, SubControl, Ui};

#[test]
fn child_at_point_picks_the_sibling_under_the_point() {
    let mut ui = Ui::new();
    let parent = SubControl::new(&mut ui).id;
    let a = SubControl::new(&mut ui).id;
    let b = SubControl::new(&mut ui).id;
    ui.set_location(a, Point::new(0, 0));
    ui.set_size(a, Size::new(50, 50));
    ui.set_location(b, Point::new(60, 0));
    ui.set_size(b, Size::new(50, 50));
    ui.push_child(parent, a);
    ui.push_child(parent, b);
    assert_eq!(ui.child_at_point(parent, 70, 10), Some(b));
    assert_eq!(ui.child_at_point(parent, 10, 10), Some(a));
    assert_eq!(ui.child_at_point(parent, 55, 10), None);
    assert_eq!(ui.child_at_point(parent, 10, 60), None);
}

#[test]
fn box_edges_and_overlap() {
    let mut ui = Ui::new();
    let parent = SubControl::new(&mut ui).id;
    let a = SubControl::new(&mut ui).id;
    let b = SubControl::new(&mut ui).id;
    ui.set_location(a, Point::new(10, 10));
    ui.set_size(a, Size::new(20, 20));
    ui.set_location(b, Point::new(20, 20));
    ui.set_size(b, Size::new(20, 20));
    ui.push_child(parent, a);
    ui.push_child(parent, b);
    assert_eq!(ui.child_at_point(parent, 10, 10), Some(a));
    assert_eq!(ui.child_at_point(parent, 29, 29), Some(a));
    assert_eq!(ui.child_at_point(parent, 30, 30), Some(b));
    assert_eq!(ui.child_at_point(parent, 40, 40), None);
    assert_eq!(ui.child_at_point(parent, 9, 10), None);
    let empty = SubControl::new(&mut ui).id;
    ui.set_size(empty, Size::new(0, 10));
    let holder = SubControl::new(&mut ui).id;
    ui.push_child(holder, empty);
    assert_eq!(ui.child_at_point(holder, 0, 0), None);
}

#[test]
fn descendant_at_point_translates_into_each_child() {
    let mut ui = Ui::new();
    let root = SubControl::new(&mut ui).id;
    let child = SubControl::new(&mut ui).id;
    let grandchild = SubControl::new(&mut ui).id;
    ui.set_location(child, Point::new(10, 10));
    ui.set_size(child, Size::new(100, 100));
    ui.set_location(grandchild, Point::new(5, 5));
    ui.set_size(grandchild, Size::new(20, 20));
    ui.push_child(root, child);
    ui.push_child(child, grandchild);
    assert_eq!(ui.descendant_at_point(root, 17, 17), Some(grandchild));
    assert_eq!(ui.descendant_at_point(root, 12, 12), Some(child));
    assert_eq!(ui.descendant_at_point(root, 34, 34), Some(grandchild));
    assert_eq!(ui.descendant_at_point(root, 35, 35), Some(child));
    assert_eq!(ui.descendant_at_point(root, 5, 5), None);
}

#[test]
fn paint_steps_are_depth_first_with_a_translation_per_level() {
    let mut ui = Ui::new();
    let root = SubControl::new(&mut ui).id;
    let a = SubControl::new(&mut ui).id;
    let b = SubControl::new(&mut ui).id;
    let g = SubControl::new(&mut ui).id;
    ui.set_location(a, Point::new(1, 2));
    ui.set_location(b, Point::new(3, 4));
    ui.set_location(g, Point::new(5, 6));
    ui.push_child(root, a);
    ui.push_child(root, b);
    ui.push_child(a, g);
    let steps = ui.paint_steps(root);
    assert_eq!(
        steps,
        vec![
            PaintStep::Deliver(root),
            PaintStep::Save,
            PaintStep::Translate(Point::new(1, 2)),
            PaintStep::Deliver(a),
            PaintStep::Save,
            PaintStep::Translate(Point::new(5, 6)),
            PaintStep::Deliver(g),
            PaintStep::Restore,
            PaintStep::Restore,
            PaintStep::Save,
            PaintStep::Translate(Point::new(3, 4)),
            PaintStep::Deliver(b),
            PaintStep::Restore,
        ]
    );
    assert_eq!(ui.paint_steps(g), vec![PaintStep::Deliver(g)]);
}
