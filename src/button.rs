//! A push button: a plain control whose own handler turns a released mouse
//! button into a `ClickEvent` on the same control.

use vstd::prelude::*;

use crate::control::{new_control_view, ControlId, SubControlData};
use crate::event::{ClickEvent, Event};
use crate::event_vec::{own_reaction, Handler, HandlerId};
use crate::ui::{ControlKind, Ui};

verus! {

/// What a control's own handler sends to the same control when it receives
/// `event`: a button answers a released mouse button with a click; other
/// events, and other controls, send nothing.
pub fn own_event(button: bool, event: Event) -> (r: Option<Event>)
    ensures
        r == own_reaction(button, event),
{
    if button {
        if let Event::MouseUp(_) = event {
            return Some(Event::Click(ClickEvent));
        }
    }
    None
}

/// A handle on a button of a `Ui`.
#[derive(Clone, Copy, Debug, PartialEq, Eq, Structural)]
pub struct Button {
    pub id: ControlId,
}

impl Button {
    /// Stores a new button in `ui` and registers it.
    pub fn new(ui: &mut Ui) -> (r: Button)
        ensures
            r.id.0 == old(ui)@.nodes.len(),
            final(ui)@ == old(ui)@.with_new_control(ControlKind::Button, new_control_view()),
    {
        let ghost v = ui@;
        let id = ui.add_control(ControlKind::Button, SubControlData::new());
        ui.register_handle(id);
        assert(ui@.nodes =~= v.with_new_control(ControlKind::Button, new_control_view()).nodes);
        Button { id }
    }

    pub fn id(&self) -> (r: ControlId)
        ensures
            r == self.id,
    {
        self.id
    }

    /// Adds a handler that runs for the clicks of this button alone.
    pub fn on_click_event(&self, ui: &mut Ui, handler: HandlerId)
        requires
            old(ui)@.valid(self.id),
        ensures
            final(ui)@ == old(ui)@.with_data(
                self.id,
                crate::control::SubControlView {
                    handlers: old(ui)@.data(self.id).handlers.push(
                        Handler::OnClick(handler),
                    ),
                    ..old(ui)@.data(self.id)
                },
            ),
    {
        ui.on_click_event(self.id, handler);
    }
}

} // verus!
