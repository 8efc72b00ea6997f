//! Event dispatch as a state machine. The library decides which handler runs
//! next, on which control, with which event; the application runs it and hands
//! the route back.
//!
//! A dispatch walks the handlers that the control's list held when the pass
//! began, the one added last first. Handlers added meanwhile wait for the
//! next pass. Each pass carries the chain of handlers that are executing
//! around it (those that started it, directly or through their control's own
//! reaction); a handler on that chain is skipped, so that a handler that sends
//! on its own list is not entered twice, while the others still run. The
//! pass ends right after a handler sets `handled`, or at the oldest handler.
//! Then the events that handlers queued on the route are dispatched to the same
//! control one after the other, each over the list as it is when its pass
//! starts.

use vstd::prelude::*;

use crate::button::own_event;
use crate::control::ControlId;
use crate::event::{Event, MouseEnteredEvent, MouseLeftEvent};
use crate::event_vec::{own_reaction, queued, EventRoute, Handler, HandlerId};
use crate::ui::{hot_transition_spec, move_event, Ui, UiView};

verus! {

/// A pass over one control's handlers.
pub struct Pass {
    pub target: ControlId,
    /// The event as the next handler will find it.
    pub event: Event,
    /// The control's handlers when the pass began, oldest first.
    pub snapshot: Vec<Handler>,
    pub button: bool,
    /// The handlers at `below` and above have been visited.
    pub below: usize,
    pub handled: bool,
    /// The events queued by the handlers of this pass, in order.
    pub queued: Vec<Event>,
    /// The handlers executing around this pass, as (control, index) pairs.
    pub chain: Vec<(ControlId, usize)>,
}

pub struct PassView {
    pub target: ControlId,
    pub event: Event,
    pub snapshot: Seq<Handler>,
    pub button: bool,
    pub below: nat,
    pub handled: bool,
    pub queued: Seq<Event>,
    pub chain: Seq<(ControlId, usize)>,
}

impl View for Pass {
    type V = PassView;

    open spec fn view(&self) -> PassView {
        PassView {
            target: self.target,
            event: self.event,
            snapshot: self.snapshot@,
            button: self.button,
            below: self.below as nat,
            handled: self.handled,
            queued: self.queued@,
            chain: self.chain@,
        }
    }
}

/// Work still to do, done from the end of the list backwards.
pub enum Work {
    /// Dispatch an event to a control, inside the given chain.
    Deliver(ControlId, Event, Vec<(ControlId, usize)>),
    /// Go on with a pass.
    Run(Pass),
    /// Record the control under the pointer.
    SetHot(Option<ControlId>),
}

pub enum WorkView {
    Deliver(ControlId, Event, Seq<(ControlId, usize)>),
    Run(PassView),
    SetHot(Option<ControlId>),
}

impl View for Work {
    type V = WorkView;

    open spec fn view(&self) -> WorkView {
        match self {
            Work::Deliver(t, e, c) => WorkView::Deliver(*t, *e, c@),
            Work::Run(p) => WorkView::Run(p@),
            Work::SetHot(h) => WorkView::SetHot(*h),
        }
    }
}

/// A handler that the application is to run now: handler `handler` of
/// `target`, with a route carrying `event`. Events it sends from inside go out
/// with `chain`, which holds this very handler.
pub struct Call {
    pub target: ControlId,
    pub handler: HandlerId,
    pub event: Event,
    pub chain: Vec<(ControlId, usize)>,
}

pub struct CallView {
    pub target: ControlId,
    pub handler: HandlerId,
    pub event: Event,
    pub chain: Seq<(ControlId, usize)>,
}

impl View for Call {
    type V = CallView;

    open spec fn view(&self) -> CallView {
        CallView { target: self.target, handler: self.handler, event: self.event, chain: self.chain@ }
    }
}

/// What one step did.
pub enum Step {
    /// The application is to run this handler and then call `finish_call`.
    Call(Call),
    /// The step made progress inside the library.
    Busy,
    /// Nothing is left to do.
    Done,
    /// A handler call is still to be finished.
    Waiting,
}

pub struct Dispatcher {
    work: Vec<Work>,
    calling: bool,
}

pub struct DispatcherView {
    pub work: Seq<WorkView>,
    /// A handler call is under way.
    pub calling: bool,
}

impl View for Dispatcher {
    type V = DispatcherView;

    closed spec fn view(&self) -> DispatcherView {
        DispatcherView { work: self.work@.map_values(|w: Work| w@), calling: self.calling }
    }
}

/// The pass that a dispatch of `e` to `t` inside `chain` starts in state
/// `ui`: over the handlers that `t` has then, none visited yet.
pub open spec fn start_pass(ui: UiView, t: ControlId, e: Event, chain: Seq<(ControlId, usize)>) -> PassView {
    let snapshot = if ui.valid(t) {
        ui.data(t).handlers
    } else {
        Seq::empty()
    };
    PassView {
        target: t,
        event: e,
        snapshot,
        button: ui.valid(t) && ui.is_button(t),
        below: snapshot.len(),
        handled: false,
        queued: Seq::empty(),
        chain,
    }
}

/// Whether a pass is over: a handler set `handled`, or every handler was
/// visited.
pub open spec fn pass_over(p: PassView) -> bool {
    p.handled || p.below == 0 || p.below > p.snapshot.len()
}

/// The dispatches of the events a finished pass queued, the first queued
/// event last, so that it is done first.
pub open spec fn follow_ups(p: PassView) -> Seq<WorkView> {
    Seq::new(
        p.queued.len(),
        |k: int| WorkView::Deliver(p.target, p.queued[p.queued.len() - 1 - k], p.chain),
    )
}

/// The work after one step on `w` in state `ui`.
pub open spec fn next_work(w: Seq<WorkView>, ui: UiView) -> Seq<WorkView> {
    let rest = w.drop_last();
    match w.last() {
        WorkView::SetHot(_) => rest,
        WorkView::Deliver(t, e, c) => rest.push(WorkView::Run(start_pass(ui, t, e, c))),
        WorkView::Run(p) => if pass_over(p) {
            rest + follow_ups(p)
        } else {
            let i = (p.below - 1) as nat;
            let base = rest.push(WorkView::Run(PassView { below: i, ..p }));
            if p.chain.contains((p.target, i as usize)) {
                base
            } else {
                match p.snapshot[i as int] {
                    Handler::Own => match own_reaction(p.button, p.event) {
                        Some(e) => base.push(
                            WorkView::Deliver(p.target, e, p.chain.push((p.target, i as usize))),
                        ),
                        None => base,
                    },
                    _ => base,
                }
            }
        },
    }
}

/// The handler call that one step on `w` asks for, if any: the next handler of
/// the running pass, unless it is executing already, when it is an
/// application handler (a click handler only for a click).
pub open spec fn next_call(w: Seq<WorkView>) -> Option<CallView> {
    match w.last() {
        WorkView::Run(p) => if pass_over(p) {
            None
        } else {
            let i = (p.below - 1) as nat;
            let call = |h: HandlerId|
                CallView {
                    target: p.target,
                    handler: h,
                    event: p.event,
                    chain: p.chain.push((p.target, i as usize)),
                };
            if p.chain.contains((p.target, i as usize)) {
                None
            } else {
                match p.snapshot[i as int] {
                    Handler::Custom(h) => Some(call(h)),
                    Handler::OnClick(h) => if p.event is Click {
                        Some(call(h))
                    } else {
                        None
                    },
                    Handler::Own => None,
                }
            }
        },
        _ => None,
    }
}

/// The arena after one step on `w`: only a `SetHot` changes it, to the given
/// control if it still exists.
pub open spec fn next_ui(ui: UiView, w: Seq<WorkView>) -> UiView {
    match w.last() {
        WorkView::SetHot(c) => UiView {
            hot: match c {
                Some(x) => if ui.valid(x) {
                    Some(x)
                } else {
                    None
                },
                None => None,
            },
            ..ui
        },
        _ => ui,
    }
}

/// Whether the top of the work is a pass whose handler call is under way.
pub open spec fn awaiting(d: DispatcherView) -> bool {
    d.calling && d.work.len() > 0 && d.work.last() is Run
}

/// The work after the application handed back a handler call's route: the
/// pass goes on with the event as the handler left it, its `handled` flag, and
/// the events it queued after those of the pass.
pub open spec fn after_call(d: DispatcherView, event: Event, handled: bool, more: Seq<Event>) -> Seq<
    WorkView,
> {
    if awaiting(d) {
        let p = d.work.last()->Run_0;
        d.work.drop_last().push(
            WorkView::Run(PassView { event, handled, queued: p.queued + more, ..p }),
        )
    } else {
        d.work
    }
}

/// The work of moving the hot control from `old` to `new`: a `MouseLeftEvent`
/// to the old control, then recording the new one, then a
/// `MouseEnteredEvent` to it; nothing when they are the same.
pub open spec fn hot_work(old: Option<ControlId>, new: Option<ControlId>) -> Seq<WorkView> {
    let t = hot_transition_spec(old, new);
    let enter = match t.1 {
        Some(y) => seq![WorkView::Deliver(y, Event::MouseEntered(MouseEnteredEvent), Seq::empty())],
        None => Seq::empty(),
    };
    let set = if old != new {
        seq![WorkView::SetHot(new)]
    } else {
        Seq::empty()
    };
    let leave = match t.0 {
        Some(x) => seq![WorkView::Deliver(x, Event::MouseLeft(MouseLeftEvent), Seq::empty())],
        None => Seq::empty(),
    };
    enter + set + leave
}

/// Moving the pointer from control `x` to another control `y` sends exactly
/// one `MouseLeftEvent`, to `x`, then records `y`, then sends exactly one
/// `MouseEnteredEvent`, to `y`; moving to no control only sends the
/// `MouseLeftEvent` and records none; staying on the same control (by name)
/// does nothing.
pub proof fn lemma_hot_moves(x: ControlId, y: ControlId, h: Option<ControlId>)
    ensures
        x != y ==> hot_work(Some(x), Some(y)) == seq![
            WorkView::Deliver(y, Event::MouseEntered(MouseEnteredEvent), Seq::empty()),
            WorkView::SetHot(Some(y)),
            WorkView::Deliver(x, Event::MouseLeft(MouseLeftEvent), Seq::empty()),
        ],
        hot_work(Some(x), None) == seq![
            WorkView::SetHot(None),
            WorkView::Deliver(x, Event::MouseLeft(MouseLeftEvent), Seq::empty()),
        ],
        hot_work(h, h).len() == 0,
{
    if x != y {
        assert(hot_work(Some(x), Some(y)) =~= seq![
            WorkView::Deliver(y, Event::MouseEntered(MouseEnteredEvent), Seq::empty()),
            WorkView::SetHot(Some(y)),
            WorkView::Deliver(x, Event::MouseLeft(MouseLeftEvent), Seq::empty()),
        ]);
    }
    assert(hot_work(Some(x), None) =~= seq![
        WorkView::SetHot(None),
        WorkView::Deliver(x, Event::MouseLeft(MouseLeftEvent), Seq::empty()),
    ]);
}

/// A step on a pass that is not over visits the newest handler not visited
/// yet, and moves the pass one handler down. A handler on the pass's chain
/// (executing around it) is not called again, and its control's own reaction
/// is not repeated; every other application handler is called, with the event
/// as the previous handler left it and a chain that holds it.
pub proof fn lemma_step_on_pass(w: Seq<WorkView>, ui: UiView)
    requires
        w.len() > 0,
        w.last() is Run,
        !pass_over(w.last()->Run_0),
    ensures
        ({
            let p = w.last()->Run_0;
            let i = (p.below - 1) as nat;
            let rest = w.drop_last().push(WorkView::Run(PassView { below: i, ..p }));
            &&& p.chain.contains((p.target, i as usize)) ==> next_call(w) is None && next_work(w, ui)
                == rest
            &&& !p.chain.contains((p.target, i as usize)) && p.snapshot[i as int] is Custom
                ==> next_call(w) == Some(
                CallView {
                    target: p.target,
                    handler: p.snapshot[i as int]->Custom_0,
                    event: p.event,
                    chain: p.chain.push((p.target, i as usize)),
                },
            ) && next_work(w, ui) == rest
        }),
{
}

fn copy_chain(c: &Vec<(ControlId, usize)>) -> (r: Vec<(ControlId, usize)>)
    ensures
        r@ == c@,
{
    let mut r: Vec<(ControlId, usize)> = Vec::new();
    let mut k: usize = 0;
    while k < c.len()
        invariant
            k <= c@.len(),
            r@ == c@.take(k as int),
        decreases c@.len() - k,
    {
        r.push(c[k]);
        assert(r@ =~= c@.take(k + 1));
        k = k + 1;
    }
    assert(c@.take(c@.len() as int) =~= c@);
    r
}

fn chain_contains(c: &Vec<(ControlId, usize)>, t: ControlId, i: usize) -> (r: bool)
    ensures
        r == c@.contains((t, i)),
{
    let mut k: usize = 0;
    while k < c.len()
        invariant
            k <= c@.len(),
            forall|j: int| 0 <= j < k ==> c@[j] != (t, i),
        decreases c@.len() - k,
    {
        let (ct, ci) = c[k];
        if ct.0 == t.0 && ci == i {
            assert(c@[k as int] == (t, i));
            return true;
        }
        k = k + 1;
    }
    false
}

impl Dispatcher {
    /// A dispatch of `event` to `target`. `chain` names the handlers executing
    /// around it: empty at the top, `Call::chain` from inside a handler.
    pub fn send(chain: Vec<(ControlId, usize)>, target: ControlId, event: Event) -> (r: Dispatcher)
        ensures
            r@.work == seq![WorkView::Deliver(target, event, chain@)],
            !r@.calling,
    {
        let mut work: Vec<Work> = Vec::new();
        work.push(Work::Deliver(target, event, chain));
        let r = Dispatcher { work, calling: false };
        assert(r@.work =~= seq![WorkView::Deliver(target, event, chain@)]);
        r
    }

    pub(crate) fn from_work(work: Vec<Work>) -> (r: Dispatcher)
        ensures
            r@.work == work@.map_values(|w: Work| w@),
            !r@.calling,
    {
        Dispatcher { work, calling: false }
    }

    /// Takes one step.
    pub fn step(&mut self, ui: &mut Ui) -> (r: Step)
        ensures
            old(self)@.calling ==> r is Waiting && final(self)@ == old(self)@ && final(ui)@ == old(
                ui,
            )@,
            !old(self)@.calling && old(self)@.work.len() == 0 ==> r is Done && final(self)@ == old(
                self,
            )@ && final(ui)@ == old(ui)@,
            !old(self)@.calling && old(self)@.work.len() > 0 ==> final(self)@.work == next_work(
                old(self)@.work,
                old(ui)@,
            ) && final(ui)@ == next_ui(old(ui)@, old(self)@.work),
            !old(self)@.calling && old(self)@.work.len() > 0 ==> match next_call(old(self)@.work) {
                Some(c) => r is Call && r->Call_0@ == c && final(self)@.calling,
                None => r is Busy && !final(self)@.calling,
            },
    {
        if self.calling {
            return Step::Waiting;
        }
        let ghost w0 = self@.work;
        let ghost v = self.work@;
        let top = match self.work.pop() {
            None => {
                return Step::Done;
            },
            Some(top) => top,
        };
        proof {
            assert(self.work@ =~= v.drop_last());
            assert(self@.work =~= w0.drop_last());
        }
        match top {
            Work::SetHot(c) => {
                let now = match c {
                    Some(x) => if ui.contains(x) {
                        Some(x)
                    } else {
                        None
                    },
                    None => None,
                };
                ui.set_hot(now);
                Step::Busy
            },
            Work::Deliver(t, e, chain) => {
                let p = if ui.contains(t) {
                    let snapshot = ui.event_handlers(t).handlers();
                    let n = snapshot.len();
                    Pass {
                        target: t,
                        event: e,
                        snapshot,
                        button: ui.is_button(t),
                        below: n,
                        handled: false,
                        queued: Vec::new(),
                        chain,
                    }
                } else {
                    Pass {
                        target: t,
                        event: e,
                        snapshot: Vec::new(),
                        button: false,
                        below: 0,
                        handled: false,
                        queued: Vec::new(),
                        chain,
                    }
                };
                assert(p@ == start_pass(ui@, t, e, chain@)) by {
                    assert(p@.snapshot =~= start_pass(ui@, t, e, chain@).snapshot);
                    assert(p@.queued =~= Seq::<Event>::empty());
                }
                self.work.push(Work::Run(p));
                assert(self@.work =~= next_work(w0, ui@));
                Step::Busy
            },
            Work::Run(p) => self.run_step(p, Ghost(w0), Ghost(ui@)),
        }
    }

    /// One step of a running pass `p`, taken off the top of `w0`.
    fn run_step(&mut self, p: Pass, Ghost(w0): Ghost<Seq<WorkView>>, Ghost(u): Ghost<UiView>) -> (r: Step)
        requires
            !old(self)@.calling,
            w0.len() > 0,
            w0.last() == WorkView::Run(p@),
            old(self)@.work == w0.drop_last(),
        ensures
            final(self)@.work == next_work(w0, u),
            match next_call(w0) {
                Some(c) => r is Call && r->Call_0@ == c && final(self)@.calling,
                None => r is Busy && !final(self)@.calling,
            },
    {
        let mut p = p;
        let ghost pv = p@;
        if p.handled || p.below == 0 || p.below > p.snapshot.len() {
            let mut k: usize = p.queued.len();
            while k > 0
                invariant
                    k <= p@.queued.len(),
                    p@ == pv,
                    !self.calling,
                    self@.work == w0.drop_last() + follow_ups(pv).take(pv.queued.len() - k),
                decreases k,
            {
                k = k - 1;
                let ghost before = self@.work;
                self.work.push(Work::Deliver(p.target, p.queued[k], copy_chain(&p.chain)));
                proof {
                    assert(self@.work =~= before.push(
                        WorkView::Deliver(pv.target, pv.queued[k as int], pv.chain),
                    ));
                    assert(follow_ups(pv).take(pv.queued.len() - k) =~= follow_ups(pv).take(
                        pv.queued.len() - k - 1,
                    ).push(WorkView::Deliver(pv.target, pv.queued[k as int], pv.chain)));
                }
            }
            proof {
                assert(follow_ups(pv).take(pv.queued.len() as int) =~= follow_ups(pv));
            }
            return Step::Busy;
        }
        let i = p.below - 1;
        p.below = i;
        let h = p.snapshot[i];
        let t = p.target;
        let event = p.event;
        let button = p.button;
        let skip = chain_contains(&p.chain, t, i);
        let mut inner = copy_chain(&p.chain);
        inner.push((t, i));
        let ghost rest = self@.work;
        self.work.push(Work::Run(p));
        proof {
            assert(self@.work =~= rest.push(WorkView::Run(PassView { below: i as nat, ..pv })));
        }
        if skip {
            return Step::Busy;
        }
        match h {
            Handler::Own => {
                let ghost base = self@.work;
                if let Some(e) = own_event(button, event) {
                    self.work.push(Work::Deliver(t, e, inner));
                    proof {
                        assert(self@.work =~= base.push(WorkView::Deliver(t, e, inner@)));
                    }
                }
                Step::Busy
            },
            Handler::Custom(id) => {
                self.calling = true;
                Step::Call(Call { target: t, handler: id, event, chain: inner })
            },
            Handler::OnClick(id) => {
                if let Event::Click(_) = event {
                    self.calling = true;
                    Step::Call(Call { target: t, handler: id, event, chain: inner })
                } else {
                    Step::Busy
                }
            },
        }
    }

    /// Takes back the route of the handler call that the last step asked for:
    /// the pass goes on with the event as the handler left it, its `handled`
    /// flag, and the events it queued added to those of the pass.
    pub fn finish_call(&mut self, route: EventRoute)
        ensures
            !final(self)@.calling,
            final(self)@.work == after_call(
                old(self)@,
                route.event,
                route.handled,
                queued(route.self_events),
            ),
    {
        let was_calling = self.calling;
        self.calling = false;
        if !was_calling {
            return;
        }
        let ghost w0 = self@.work;
        let ghost v = self.work@;
        match self.work.pop() {
            None => {},
            Some(top) => {
                proof {
                    assert(self.work@ =~= v.drop_last());
                    assert(self@.work =~= w0.drop_last());
                }
                match top {
                    Work::Run(p) => {
                        let mut p = p;
                        let ghost pv = p@;
                        let event = route.event;
                        let handled = route.handled;
                        let mut more = route.into_self_events();
                        p.event = event;
                        p.handled = handled;
                        p.queued.append(&mut more);
                        let ghost rest = self@.work;
                        self.work.push(Work::Run(p));
                        proof {
                            assert(self@.work =~= rest.push(WorkView::Run(p@)));
                        }
                    },
                    other => {
                        let ghost rest = self@.work;
                        self.work.push(other);
                        proof {
                            assert(self@.work =~= w0);
                        }
                    },
                }
            },
        }
    }
}

fn hot_work_vec(old: Option<ControlId>, new: Option<ControlId>) -> (r: Vec<Work>)
    ensures
        r@.map_values(|w: Work| w@) == hot_work(old, new),
{
    let (leave, enter) = crate::ui::hot_transition(old, new);
    let mut r: Vec<Work> = Vec::new();
    if let Some(y) = enter {
        r.push(Work::Deliver(y, Event::MouseEntered(MouseEnteredEvent), Vec::new()));
    }
    if old != new {
        r.push(Work::SetHot(new));
    }
    if let Some(x) = leave {
        r.push(Work::Deliver(x, Event::MouseLeft(MouseLeftEvent), Vec::new()));
    }
    assert(r@.map_values(|w: Work| w@) =~= hot_work(old, new));
    r
}

impl Ui {
    /// The dispatch that moves the hot control to `control`: when that differs
    /// from the recorded one (by name, not by contents), a `MouseLeftEvent`
    /// to the old control, then the record changes, then a
    /// `MouseEnteredEvent` to the new one; nothing when it is the same.
    pub fn set_hot_control(&self, control: Option<ControlId>) -> (r: Dispatcher)
        ensures
            r@.work == hot_work(self@.hot, control),
            !r@.calling,
    {
        Dispatcher::from_work(hot_work_vec(self.hot_control(), control))
    }

    /// The dispatch of a pointer event at `(x, y)` in `window` to the control
    /// under the point; nothing when the window has no child.
    pub fn pointer_event(&self, window: ControlId, x: i32, y: i32, event: Event) -> (r: Dispatcher)
        requires
            self@.valid(window),
        ensures
            r@.work == match self@.pointer_target(window, x as int, y as int) {
                Some(t) => seq![WorkView::Deliver(t, event, Seq::empty())],
                None => Seq::empty(),
            },
            !r@.calling,
    {
        let mut work: Vec<Work> = Vec::new();
        if let Some(t) = self.pointer_target(window, x, y) {
            work.push(Work::Deliver(t, event, Vec::new()));
        }
        let r = Dispatcher::from_work(work);
        assert(r@.work =~= match self@.pointer_target(window, x as int, y as int) {
            Some(t) => seq![WorkView::Deliver(t, event, Seq::empty())],
            None => Seq::<WorkView>::empty(),
        });
        r
    }

    /// The pointer moved to `(x, y)` in `window`: the control under it becomes
    /// the hot control, then it gets a `MouseDraggedEvent` if a button is held
    /// and a `MouseMovedEvent` otherwise.
    pub fn pointer_moved(&self, window: ControlId, x: i32, y: i32, dragging: bool) -> (r: Dispatcher)
        requires
            self@.valid(window),
        ensures
            r@.work == match self@.pointer_target(window, x as int, y as int) {
                Some(t) => seq![WorkView::Deliver(t, move_event(dragging), Seq::empty())] + hot_work(
                    self@.hot,
                    Some(t),
                ),
                None => Seq::empty(),
            },
            !r@.calling,
    {
        let mut work: Vec<Work> = Vec::new();
        if let Some(t) = self.pointer_target(window, x, y) {
            let event = if dragging {
                Event::MouseDragged(crate::event::MouseDraggedEvent {  })
            } else {
                Event::MouseMoved(crate::event::MouseMovedEvent {  })
            };
            work.push(Work::Deliver(t, event, Vec::new()));
            let mut hot = hot_work_vec(self.hot_control(), Some(t));
            work.append(&mut hot);
        }
        let r = Dispatcher::from_work(work);
        assert(r@.work =~= match self@.pointer_target(window, x as int, y as int) {
            Some(t) => seq![WorkView::Deliver(t, move_event(dragging), Seq::empty())] + hot_work(
                self@.hot,
                Some(t),
            ),
            None => Seq::<WorkView>::empty(),
        });
        r
    }

    /// The pointer left the window: the hot control, if any, gets a
    /// `MouseLeftEvent` and none is recorded any more.
    pub fn pointer_left(&self) -> (r: Dispatcher)
        ensures
            r@.work == hot_work(self@.hot, None),
            !r@.calling,
    {
        self.set_hot_control(None)
    }
}

} // verus!
