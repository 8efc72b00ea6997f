//! Ordered, append-only lists of event handlers, and the route that carries
//! an event through one handler call.

use smallvec::SmallVec;
use vstd::prelude::*;

use crate::event::{ClickEvent, Event};

verus! {

/// The application's name for one of its handlers.
#[derive(Clone, Copy, Debug, PartialEq, Eq, Structural)]
pub struct HandlerId(pub u64);

/// A handler in a list: the control's built-in reaction, installed when the
/// control is registered, or one that the application added, which runs for
/// every event or for clicks alone.
#[derive(Clone, Copy, Debug, PartialEq, Eq, Structural)]
pub enum Handler {
    Own,
    Custom(HandlerId),
    OnClick(HandlerId),
}

pub struct EventHandlerVec {
    entries: Vec<Handler>,
}

impl View for EventHandlerVec {
    type V = Seq<Handler>;

    closed spec fn view(&self) -> Seq<Handler> {
        self.entries@
    }
}

/// What a control's own handler sends to the same control on `event`: a
/// button turns a released mouse button into a click.
pub open spec fn own_reaction(button: bool, event: Event) -> Option<Event> {
    if button && event is MouseUp {
        Some(Event::Click(ClickEvent))
    } else {
        None
    }
}

impl EventHandlerVec {
    pub fn new() -> (r: EventHandlerVec)
        ensures
            r@ == Seq::<Handler>::empty(),
    {
        EventHandlerVec { entries: Vec::new() }
    }

    pub fn len(&self) -> (r: usize)
        ensures
            r == self@.len(),
    {
        self.entries.len()
    }

    pub fn get(&self, i: usize) -> (r: Handler)
        requires
            i < self@.len(),
        ensures
            r == self@[i as int],
    {
        self.entries[i]
    }

    /// A copy of the list, oldest first: the snapshot that a pass walks.
    pub fn handlers(&self) -> (r: Vec<Handler>)
        ensures
            r@ == self@,
    {
        let mut r: Vec<Handler> = Vec::new();
        let mut i: usize = 0;
        while i < self.entries.len()
            invariant
                i <= self@.len(),
                r@ == self@.take(i as int),
            decreases self@.len() - i,
        {
            r.push(self.entries[i]);
            assert(r@ =~= self@.take(i + 1));
            i = i + 1;
        }
        assert(self@.take(self@.len() as int) =~= self@);
        r
    }

    /// Appends a handler of the application. It is the first to run in the
    /// dispatches that start after this call.
    pub fn add(&mut self, handler: HandlerId)
        ensures
            final(self)@ == old(self)@.push(
                Handler::Custom(handler),
            ),
    {
        self.entries.push(Handler::Custom(handler));
    }

    pub(crate) fn add_entry(&mut self, handler: Handler)
        ensures
            final(self)@ == old(self)@.push(handler),
    {
        self.entries.push(handler);
    }

    pub(crate) fn add_own(&mut self)
        ensures
            final(self)@ == old(self)@.push(Handler::Own),
    {
        self.entries.push(Handler::Own);
    }
}

impl Default for EventHandlerVec {
    fn default() -> (r: EventHandlerVec)
        ensures
            r@ == Seq::<Handler>::empty(),
    {
        EventHandlerVec::new()
    }
}

/// The events that handlers queued for delivery to the control they run on,
/// held in a small vector that stores one event without allocating.
#[verifier::external_body]
pub struct SelfEventQueue {
    events: SmallVec<[Event; 1]>,
}

/// The events held in a self-event queue, oldest first.
pub uninterp spec fn queued(q: SelfEventQueue) -> Seq<Event>;

impl SelfEventQueue {
    /// Relies on `SmallVec::new`: a new vector holds no item.
    #[verifier::external_body]
    fn new() -> (r: SelfEventQueue)
        ensures
            queued(r) == Seq::<Event>::empty(),
    {
        SelfEventQueue { events: SmallVec::new() }
    }

    /// Relies on `SmallVec::push`: the item is appended after the others.
    #[verifier::external_body]
    fn push(&mut self, e: Event)
        ensures
            queued(*final(self)) == queued(*old(self)).push(e),
    {
        self.events.push(e)
    }

    /// Relies on `SmallVec::into_vec`: the same items in the same order.
    #[verifier::external_body]
    fn into_vec(self) -> (r: Vec<Event>)
        ensures
            r@ == queued(self),
    {
        self.events.into_vec()
    }
}

/// The context of one dispatch: the event, whether a handler has declared it
/// handled (which ends the pass), and the events that handlers want delivered
/// to the same control once the pass is over.
pub struct EventRoute {
    pub event: Event,
    pub handled: bool,
    pub self_events: SelfEventQueue,
}

impl EventRoute {
    pub fn new(event: Event) -> (r: EventRoute)
        ensures
            r.event == event,
            !r.handled,
            queued(r.self_events) == Seq::<Event>::empty(),
    {
        EventRoute { event, handled: false, self_events: SelfEventQueue::new() }
    }

    /// Queues `event` for the same control. Nothing is delivered now: the
    /// queue is read only after the current pass has ended.
    pub fn queue_self_event(&mut self, event: Event)
        ensures
            queued(final(self).self_events) == queued(old(self).self_events).push(event),
            final(self).event == old(self).event,
            final(self).handled == old(self).handled,
    {
        self.self_events.push(event);
    }

    pub fn into_self_events(self) -> (r: Vec<Event>)
        ensures
            r@ == queued(self.self_events),
    {
        self.self_events.into_vec()
    }
}

} // verus!
