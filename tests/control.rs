use dynamin::control::{u8_to_visibility, visibility_to_u8};
use dynamin::{
    set_tab_order, Button, ControlId, Point, Size, SubControl, SubControlData, Ui, Visibility,
    Window, WindowBorderStyle,
};

#[test]
fn test_set_tab_order() {
    let mut ui = Ui::new();
    let parent = SubControl::new(&mut ui);
    let child0 = SubControl::new(&mut ui);
    let child1 = SubControl::new(&mut ui);
    ui.push_child(parent.id, child0.id);
    ui.push_child(parent.id, child1.id);
    let children: Vec<ControlId> = ui.children(parent.id).as_slice().to_vec();
    set_tab_order(&mut ui, 4, &children);
    assert_eq!(ui.tab_index(child0.id), 4);
    assert_eq!(ui.tab_index(child1.id), 5);
}

#[test]
fn tab_order_gives_consecutive_indices() {
    let mut ui = Ui::new();
    let c: Vec<ControlId> = (0..4).map(|_| SubControl::new(&mut ui).id).collect();
    let order = vec![c[2], c[0], c[3], c[1]];
    set_tab_order(&mut ui, 10, &order);
    assert_eq!(ui.tab_index(c[2]), 10);
    assert_eq!(ui.tab_index(c[0]), 11);
    assert_eq!(ui.tab_index(c[3]), 12);
    assert_eq!(ui.tab_index(c[1]), 13);
}

#[test]
fn tab_order_up_to_the_largest_index() {
    let mut ui = Ui::new();
    let a = SubControl::new(&mut ui).id;
    let b = SubControl::new(&mut ui).id;
    set_tab_order(&mut ui, 65534, &[a, b]);
    assert_eq!(ui.tab_index(a), 65534);
    assert_eq!(ui.tab_index(b), 65535);
}

#[test]
fn tab_order_repeated_control_keeps_last_place() {
    let mut ui = Ui::new();
    let a = SubControl::new(&mut ui).id;
    let b = SubControl::new(&mut ui).id;
    set_tab_order(&mut ui, 0, &[a, b, a]);
    assert_eq!(ui.tab_index(a), 2);
    assert_eq!(ui.tab_index(b), 1);
}

#[test]
fn new_control_defaults() {
    let d = SubControlData::new();
    assert_eq!(d.location(), Point::new(0, 0));
    assert_eq!(d.size(), Size::new(50, 50));
    assert_eq!(d.visibility(), Visibility::Visible);
    assert_eq!(d.tab_index(), 0);
    assert!(!d.focusable());
    assert_eq!(d.children().len(), 0);
    assert_eq!(d.children().owner_of(), None);
    assert_eq!(d.parent(), None);
    assert_eq!(d.event_handlers().len(), 0);
}

#[test]
fn location_and_size_read_back_exactly() {
    let mut ui = Ui::new();
    let c = SubControl::new(&mut ui).id;
    ui.set_location(c, Point::new(-7, 123));
    ui.set_size(c, Size::new(75, 23));
    assert_eq!(ui.location(c), Point::new(-7, 123));
    assert_eq!(ui.size(c), Size::new(75, 23));
    let b = Button::new(&mut ui).id;
    ui.set_location(b, Point::new(50, 90));
    assert_eq!(ui.location(b), Point::new(50, 90));
}

#[test]
fn each_geometry_or_visibility_change_asks_one_repaint() {
    let mut ui = Ui::new();
    let a = SubControl::new(&mut ui).id;
    let b = SubControl::new(&mut ui).id;
    assert!(ui.take_repaints().is_empty());
    ui.set_location(a, Point::new(1, 2));
    assert_eq!(ui.take_repaints(), vec![a]);
    ui.set_size(b, Size::new(3, 4));
    ui.set_visibility(a, Visibility::Gone);
    ui.set_location(a, Point::new(1, 2));
    assert_eq!(ui.take_repaints(), vec![b, a, a]);
    ui.set_tab_index(a, 3);
    ui.set_focusable(a, true);
    assert!(ui.take_repaints().is_empty());
    ui.repaint_later(b);
    assert_eq!(ui.take_repaints(), vec![b]);
}

#[test]
fn visibility_and_flags_are_independent() {
    let mut ui = Ui::new();
    let c = SubControl::new(&mut ui).id;
    for v in [Visibility::Invisible, Visibility::Gone, Visibility::Visible] {
        ui.set_visibility(c, v);
        assert_eq!(ui.visibility(c), v);
        assert!(!ui.focusable(c));
    }
    ui.set_focusable(c, true);
    assert!(ui.focusable(c));
    ui.set_visibility(c, Visibility::Gone);
    assert!(ui.focusable(c));
    assert_eq!(ui.visibility(c), Visibility::Gone);
    ui.set_focusable(c, false);
    assert_eq!(ui.visibility(c), Visibility::Gone);
}

#[test]
fn visibility_codes() {
    assert_eq!(visibility_to_u8(Visibility::Visible), 0);
    assert_eq!(visibility_to_u8(Visibility::Invisible), 1);
    assert_eq!(visibility_to_u8(Visibility::Gone), 2);
    for v in [Visibility::Visible, Visibility::Invisible, Visibility::Gone] {
        assert_eq!(u8_to_visibility(visibility_to_u8(v)), v);
    }
}

#[test]
fn push_child_links_parent_and_keeps_order() {
    let mut ui = Ui::new();
    let p = SubControl::new(&mut ui).id;
    let a = SubControl::new(&mut ui).id;
    let b = Button::new(&mut ui).id;
    assert_eq!(ui.parent(a), None);
    ui.push_child(p, a);
    ui.push_child(p, b);
    assert_eq!(ui.children(p).as_slice(), &[a, b]);
    assert_eq!(ui.children(p).owner_of(), Some(p));
    assert_eq!(ui.parent(a), Some(p));
    assert_eq!(ui.parent(b), Some(p));
    ui.clear_children(p);
    assert_eq!(ui.children(p).len(), 0);
}

#[test]
fn window_hosts_one_child_and_is_found_from_descendants() {
    let mut ui = Ui::new();
    let win = Window::new(&mut ui);
    assert!(ui.is_window(win.id));
    assert_eq!(ui.visibility(win.id), Visibility::Gone);
    let first = SubControl::new(&mut ui).id;
    let second = SubControl::new(&mut ui).id;
    let leaf = Button::new(&mut ui).id;
    ui.push_child(second, leaf);
    assert_eq!(ui.window(leaf), None);
    win.set_child(&mut ui, first);
    win.set_child(&mut ui, second);
    assert_eq!(ui.children(win.id).as_slice(), &[second]);
    assert_eq!(ui.window(leaf), Some(win));
    assert_eq!(ui.window(win.id), Some(win));
}

#[test]
fn window_state() {
    let mut ui = Ui::new();
    let win = Window::new(&mut ui);
    let c = SubControl::new(&mut ui).id;
    assert!(ui.window_data(c).is_none());
    {
        let w = ui.window_data(win.id).unwrap();
        assert_eq!(w.text, "");
        assert!(w.resizable);
        assert_eq!(w.border_style, WindowBorderStyle::Normal);
    }
    win.set_text(&mut ui, "Tester");
    ui.set_resizable(win.id, false);
    ui.set_border_style(win.id, WindowBorderStyle::Tool);
    let w = ui.window_data(win.id).unwrap();
    assert_eq!(w.text, "Tester");
    assert!(!w.resizable);
    assert_eq!(w.border_style, WindowBorderStyle::Tool);
}

#[test]
fn controls_above_follow_parent_links() {
    let mut ui = Ui::new();
    let a = SubControl::new(&mut ui).id;
    let b = SubControl::new(&mut ui).id;
    let c = SubControl::new(&mut ui).id;
    ui.push_child(a, b);
    ui.push_child(b, c);
    assert!(ui.is_above(a, c));
    assert!(ui.is_above(b, c));
    assert!(ui.is_above(c, c));
    assert!(!ui.is_above(c, a));
    assert!(!ui.is_above(b, a));
}
