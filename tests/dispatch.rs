use dynamin::button::own_event;
use dynamin::{
    hot_transition, Button, Call, ClickEvent, ControlId, Dispatcher, Event, EventRoute, HandlerId,
    MouseDraggedEvent, MouseEnteredEvent, MouseLeftEvent, MouseMovedEvent, MouseUpEvent, Point,
    Size, Step, SubControl, Ui, Window, WindowEvent,
};

/// Records every call and reacts as configured.
#[derive(Default)]
struct Script {
    log: Vec<(u64, ControlId, Event)>,
    handled_by: Option<u64>,
    reenter_from: Option<u64>,
    queue_from: Option<(u64, Event)>,
    add_from: Option<(u64, u64)>,
    queued_seen_at_return: Vec<usize>,
}

impl Script {
    fn handle(&mut self, ui: &mut Ui, call: &Call, route: &mut EventRoute) {
        let handler = call.handler;
        self.log.push((handler.0, call.target, route.event));
        if self.handled_by == Some(handler.0) {
            route.handled = true;
        }
        if self.reenter_from == Some(handler.0) && route.event != Event::User(99) {
            let inner = Dispatcher::send(call.chain.clone(), call.target, Event::User(99));
            run(ui, self, inner);
        }
        if let Some((h, e)) = self.queue_from {
            if h == handler.0 && route.event != e {
                route.queue_self_event(e);
                self.queued_seen_at_return.push(self.log.len());
            }
        }
        if let Some((h, new_handler)) = self.add_from {
            if h == handler.0 {
                ui.add_handler(call.target, HandlerId(new_handler));
            }
        }
    }
}

/// Carries a dispatch out, running the handlers it asks for.
fn run(ui: &mut Ui, script: &mut Script, mut d: Dispatcher) {
    loop {
        match d.step(ui) {
            Step::Call(call) => {
                let mut route = EventRoute::new(call.event);
                script.handle(ui, &call, &mut route);
                d.finish_call(route);
            }
            Step::Busy => {}
            Step::Done => break,
            Step::Waiting => panic!("a handler call was not finished"),
        }
    }
}

fn send(ui: &mut Ui, script: &mut Script, target: ControlId, event: Event) {
    run(ui, script, Dispatcher::send(Vec::new(), target, event));
}

fn control_with_three(ui: &mut Ui) -> ControlId {
    let c = SubControl::new(ui).id;
    ui.add_handler(c, HandlerId(1));
    ui.add_handler(c, HandlerId(2));
    ui.add_handler(c, HandlerId(3));
    c
}

fn handler_order(script: &Script) -> Vec<(u64, Event)> {
    script.log.iter().map(|(h, _, e)| (*h, *e)).collect()
}

fn expect_call(d: &mut Dispatcher, ui: &mut Ui) -> Call {
    loop {
        match d.step(ui) {
            Step::Call(call) => return call,
            Step::Busy => {}
            _ => panic!("expected a handler call"),
        }
    }
}

#[test]
fn handlers_run_newest_first() {
    let mut ui = Ui::new();
    let c = control_with_three(&mut ui);
    let mut script = Script::default();
    send(&mut ui, &mut script, c, Event::User(1));
    assert_eq!(
        handler_order(&script),
        vec![(3, Event::User(1)), (2, Event::User(1)), (1, Event::User(1))]
    );
    assert!(script.log.iter().all(|(_, control, _)| *control == c));
}

#[test]
fn handled_stops_the_pass() {
    let mut ui = Ui::new();
    let c = control_with_three(&mut ui);
    let mut script = Script { handled_by: Some(2), ..Script::default() };
    send(&mut ui, &mut script, c, Event::User(1));
    assert_eq!(handler_order(&script), vec![(3, Event::User(1)), (2, Event::User(1))]);
}

#[test]
fn reentrant_send_skips_the_running_handler() {
    let mut ui = Ui::new();
    let c = control_with_three(&mut ui);
    let mut script = Script { reenter_from: Some(2), ..Script::default() };
    send(&mut ui, &mut script, c, Event::User(1));
    assert_eq!(
        handler_order(&script),
        vec![
            (3, Event::User(1)),
            (2, Event::User(1)),
            (3, Event::User(99)),
            (1, Event::User(99)),
            (1, Event::User(1)),
        ]
    );
    script.log.clear();
    script.reenter_from = None;
    send(&mut ui, &mut script, c, Event::User(5));
    assert_eq!(handler_order(&script).len(), 3);
}

#[test]
fn two_handlers_with_a_reentrant_one() {
    let mut ui = Ui::new();
    let c = SubControl::new(&mut ui).id;
    ui.add_handler(c, HandlerId(1));
    ui.add_handler(c, HandlerId(2));
    let mut script = Script { reenter_from: Some(2), ..Script::default() };
    send(&mut ui, &mut script, c, Event::User(1));
    assert_eq!(
        handler_order(&script),
        vec![(2, Event::User(1)), (1, Event::User(99)), (1, Event::User(1))]
    );
}

#[test]
fn steps_name_each_handler_with_its_chain() {
    let mut ui = Ui::new();
    let c = control_with_three(&mut ui);
    let mut d = Dispatcher::send(Vec::new(), c, Event::User(1));
    let call = expect_call(&mut d, &mut ui);
    assert_eq!((call.target, call.handler, call.event), (c, HandlerId(3), Event::User(1)));
    assert_eq!(call.chain, vec![(c, 3)]);
    assert!(matches!(d.step(&mut ui), Step::Waiting));
    let mut route = EventRoute::new(call.event);
    route.event = Event::User(2);
    d.finish_call(route);
    let call = expect_call(&mut d, &mut ui);
    assert_eq!((call.handler, call.event), (HandlerId(2), Event::User(2)));
    let mut route = EventRoute::new(call.event);
    route.handled = true;
    d.finish_call(route);
    loop {
        match d.step(&mut ui) {
            Step::Busy => {}
            Step::Done => break,
            _ => panic!("no handler runs after handled"),
        }
    }
}

#[test]
fn a_handler_on_the_chain_is_skipped() {
    let mut ui = Ui::new();
    let c = control_with_three(&mut ui);
    let mut d = Dispatcher::send(vec![(c, 3)], c, Event::User(1));
    let call = expect_call(&mut d, &mut ui);
    assert_eq!(call.handler, HandlerId(2));
    assert_eq!(call.chain, vec![(c, 3), (c, 2)]);
}

#[test]
fn self_events_come_after_the_pass() {
    let mut ui = Ui::new();
    let c = SubControl::new(&mut ui).id;
    ui.add_handler(c, HandlerId(1));
    ui.add_handler(c, HandlerId(2));
    let mut script = Script { queue_from: Some((2, Event::User(7))), ..Script::default() };
    send(&mut ui, &mut script, c, Event::User(1));
    assert_eq!(
        handler_order(&script),
        vec![
            (2, Event::User(1)),
            (1, Event::User(1)),
            (2, Event::User(7)),
            (1, Event::User(7)),
        ]
    );
    assert_eq!(script.queued_seen_at_return, vec![1]);
}

#[test]
fn queued_events_are_delivered_even_after_handled() {
    let mut ui = Ui::new();
    let c = control_with_three(&mut ui);
    let mut script = Script {
        handled_by: Some(2),
        queue_from: Some((3, Event::User(7))),
        ..Script::default()
    };
    send(&mut ui, &mut script, c, Event::User(1));
    assert_eq!(
        handler_order(&script),
        vec![(3, Event::User(1)), (2, Event::User(1)), (3, Event::User(7)), (2, Event::User(7))]
    );
}

#[test]
fn queued_events_come_back_in_order() {
    let mut route = EventRoute::new(Event::User(1));
    route.queue_self_event(Event::User(2));
    route.queue_self_event(Event::User(3));
    assert_eq!(route.event, Event::User(1));
    assert!(!route.handled);
    assert_eq!(route.into_self_events(), vec![Event::User(2), Event::User(3)]);
    assert!(EventRoute::new(Event::User(4)).into_self_events().is_empty());
}

#[test]
fn handlers_added_during_a_pass_wait_for_the_next() {
    let mut ui = Ui::new();
    let c = SubControl::new(&mut ui).id;
    ui.add_handler(c, HandlerId(1));
    let mut script = Script { add_from: Some((1, 9)), ..Script::default() };
    send(&mut ui, &mut script, c, Event::User(1));
    assert_eq!(handler_order(&script), vec![(1, Event::User(1))]);
    script.add_from = None;
    send(&mut ui, &mut script, c, Event::User(2));
    assert_eq!(
        handler_order(&script),
        vec![(1, Event::User(1)), (9, Event::User(2)), (1, Event::User(2))]
    );
}

#[test]
fn a_handler_added_during_a_pass_sees_the_queued_events() {
    let mut ui = Ui::new();
    let c = SubControl::new(&mut ui).id;
    ui.add_handler(c, HandlerId(1));
    let mut script = Script {
        add_from: Some((1, 9)),
        queue_from: Some((1, Event::User(7))),
        ..Script::default()
    };
    send(&mut ui, &mut script, c, Event::User(1));
    assert_eq!(
        handler_order(&script),
        vec![(1, Event::User(1)), (9, Event::User(7)), (1, Event::User(7))]
    );
}

#[test]
fn button_turns_mouse_up_into_click() {
    let mut ui = Ui::new();
    let b = Button::new(&mut ui);
    b.on_click_event(&mut ui, HandlerId(10));
    ui.add_handler(b.id, HandlerId(11));
    let mut script = Script::default();
    send(&mut ui, &mut script, b.id, Event::MouseUp(MouseUpEvent {}));
    assert_eq!(
        handler_order(&script),
        vec![
            (11, Event::MouseUp(MouseUpEvent {})),
            (11, Event::Click(ClickEvent)),
            (10, Event::Click(ClickEvent)),
        ]
    );
    script.log.clear();
    send(&mut ui, &mut script, b.id, Event::User(3));
    assert_eq!(handler_order(&script), vec![(11, Event::User(3))]);
}

#[test]
fn plain_control_does_not_click() {
    let mut ui = Ui::new();
    let c = SubControl::new(&mut ui).id;
    ui.on_click_event(c, HandlerId(10));
    let mut script = Script::default();
    send(&mut ui, &mut script, c, Event::MouseUp(MouseUpEvent {}));
    assert!(script.log.is_empty());
}

#[test]
fn own_reaction_of_each_control() {
    assert_eq!(own_event(true, Event::MouseUp(MouseUpEvent {})), Some(Event::Click(ClickEvent)));
    assert_eq!(own_event(false, Event::MouseUp(MouseUpEvent {})), None);
    assert_eq!(own_event(true, Event::User(3)), None);
    assert_eq!(own_event(true, Event::Click(ClickEvent)), None);
}

#[test]
fn window_events_reach_window_handlers() {
    let mut ui = Ui::new();
    let win = Window::new(&mut ui);
    win.add_event_handler(&mut ui, HandlerId(4));
    win.add_event_handler(&mut ui, HandlerId(5));
    let mut script = Script::default();
    run(&mut ui, &mut script, win.send_event(WindowEvent::Closing));
    assert_eq!(
        handler_order(&script),
        vec![(5, Event::Window(WindowEvent::Closing)), (4, Event::Window(WindowEvent::Closing))]
    );
}

#[test]
fn hot_control_moves_notify_both_sides_once() {
    let mut ui = Ui::new();
    let x = SubControl::new(&mut ui).id;
    let y = SubControl::new(&mut ui).id;
    ui.add_handler(x, HandlerId(1));
    ui.add_handler(y, HandlerId(2));
    let mut script = Script::default();
    let d = ui.set_hot_control(Some(x));
    run(&mut ui, &mut script, d);
    assert_eq!(script.log, vec![(1, x, Event::MouseEntered(MouseEnteredEvent))]);
    assert_eq!(ui.hot_control(), Some(x));
    script.log.clear();
    let d = ui.set_hot_control(Some(y));
    run(&mut ui, &mut script, d);
    assert_eq!(
        script.log,
        vec![
            (1, x, Event::MouseLeft(MouseLeftEvent)),
            (2, y, Event::MouseEntered(MouseEnteredEvent)),
        ]
    );
    assert_eq!(ui.hot_control(), Some(y));
    script.log.clear();
    let d = ui.set_hot_control(Some(y));
    run(&mut ui, &mut script, d);
    assert!(script.log.is_empty());
    let d = ui.set_hot_control(None);
    run(&mut ui, &mut script, d);
    assert_eq!(script.log, vec![(2, y, Event::MouseLeft(MouseLeftEvent))]);
    assert_eq!(ui.hot_control(), None);
}

#[test]
fn hot_control_is_compared_by_name_not_contents() {
    let mut ui = Ui::new();
    let x = SubControl::new(&mut ui).id;
    let y = SubControl::new(&mut ui).id;
    ui.add_handler(x, HandlerId(1));
    ui.add_handler(y, HandlerId(2));
    let mut script = Script::default();
    ui.set_hot(Some(x));
    let d = ui.set_hot_control(Some(y));
    run(&mut ui, &mut script, d);
    assert_eq!(
        script.log,
        vec![
            (1, x, Event::MouseLeft(MouseLeftEvent)),
            (2, y, Event::MouseEntered(MouseEnteredEvent)),
        ]
    );
    assert_eq!(ui.hot_control(), Some(y));
}

#[test]
fn hot_transition_decides_who_is_told() {
    let a = ControlId(0);
    let b = ControlId(1);
    assert_eq!(hot_transition(Some(a), Some(b)), (Some(a), Some(b)));
    assert_eq!(hot_transition(Some(a), Some(a)), (None, None));
    assert_eq!(hot_transition(None, None), (None, None));
    assert_eq!(hot_transition(None, Some(b)), (None, Some(b)));
}

fn tester_window(ui: &mut Ui) -> (Window, ControlId, ControlId) {
    let win = Window::new(ui);
    let parent = SubControl::new(ui).id;
    ui.set_size(parent, Size::new(200, 200));
    let b = Button::new(ui);
    ui.set_location(b.id, Point::new(50, 50));
    ui.set_size(b.id, Size::new(75, 23));
    ui.push_child(parent, b.id);
    win.set_child(ui, parent);
    (win, parent, b.id)
}

#[test]
fn pointer_events_go_to_the_deepest_control_under_the_point() {
    let mut ui = Ui::new();
    let (win, parent, button) = tester_window(&mut ui);
    assert_eq!(ui.pointer_target(win.id, 60, 60), Some(button));
    assert_eq!(ui.pointer_target(win.id, 10, 10), Some(parent));
    assert_eq!(ui.pointer_target(win.id, 500, 500), Some(parent));
    let empty = Window::new(&mut ui);
    assert_eq!(ui.pointer_target(empty.id, 10, 10), None);

    ui.on_click_event(button, HandlerId(10));
    let mut script = Script::default();
    let d = ui.pointer_event(win.id, 60, 60, Event::MouseUp(MouseUpEvent {}));
    run(&mut ui, &mut script, d);
    assert_eq!(script.log, vec![(10, button, Event::Click(ClickEvent))]);
}

#[test]
fn pointer_moves_track_the_hot_control() {
    let mut ui = Ui::new();
    let (win, parent, button) = tester_window(&mut ui);
    ui.add_handler(parent, HandlerId(1));
    ui.add_handler(button, HandlerId(2));
    let mut script = Script::default();
    let d = ui.pointer_moved(win.id, 60, 60, false);
    run(&mut ui, &mut script, d);
    assert_eq!(
        script.log,
        vec![
            (2, button, Event::MouseEntered(MouseEnteredEvent)),
            (2, button, Event::MouseMoved(MouseMovedEvent {})),
        ]
    );
    script.log.clear();
    let d = ui.pointer_moved(win.id, 10, 10, true);
    run(&mut ui, &mut script, d);
    assert_eq!(
        script.log,
        vec![
            (2, button, Event::MouseLeft(MouseLeftEvent)),
            (1, parent, Event::MouseEntered(MouseEnteredEvent)),
            (1, parent, Event::MouseDragged(MouseDraggedEvent {})),
        ]
    );
    script.log.clear();
    let d = ui.pointer_left();
    run(&mut ui, &mut script, d);
    assert_eq!(script.log, vec![(1, parent, Event::MouseLeft(MouseLeftEvent))]);
    assert_eq!(ui.hot_control(), None);
}
