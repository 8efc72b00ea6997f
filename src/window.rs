//! The root control: a window hosts at most one child subtree and holds the
//! state that the windowing layer mirrors onto the native window.

use vstd::prelude::*;

use crate::control::{new_control_view, ControlId, SubControlData, SubControlView, Visibility};
use crate::dispatch::{Dispatcher, WorkView};
use crate::event::{Event, WindowEvent};
use crate::event_vec::{Handler, HandlerId};
use crate::ui::{ControlKind, Ui};

verus! {

/// The style of border around a window.
#[derive(Clone, Copy, Debug, PartialEq, Eq, Structural)]
pub enum WindowBorderStyle {
    /// The window has no border around it.
    Borderless,
    /// The window has a normal title bar and border around it.
    Normal,
    /// The window has a border suited for a non-modal auxiliary window.
    Tool,
}

/// What a window holds beyond the storage of every control.
pub struct WindowData {
    pub text: String,
    pub resizable: bool,
    pub border_style: WindowBorderStyle,
}

impl WindowData {
    /// No title, resizable, with a normal border.
    pub fn new() -> (r: WindowData)
        ensures
            r.text@ == Seq::<char>::empty(),
            r.resizable,
            r.border_style == WindowBorderStyle::Normal,
    {
        WindowData { text: String::new(), resizable: true, border_style: WindowBorderStyle::Normal }
    }
}

/// A handle on a window of a `Ui`.
#[derive(Clone, Copy, Debug, PartialEq, Eq, Structural)]
pub struct Window {
    pub id: ControlId,
}

impl Window {
    /// Stores a new window in `ui`: hidden (`Gone`) until shown, untitled,
    /// resizable, with a normal border, no child and no handler. Its children
    /// list is bound so that it can host a child.
    pub fn new(ui: &mut Ui) -> (r: Window)
        ensures
            r.id.0 == old(ui)@.nodes.len(),
            final(ui)@.nodes.len() == old(ui)@.nodes.len() + 1,
            forall|i: int| 0 <= i < old(ui)@.nodes.len() ==> final(ui)@.nodes[i] == old(ui)@.nodes[i],
            final(ui)@.hot == old(ui)@.hot,
            final(ui)@.repaints == old(ui)@.repaints,
            final(ui)@.is_window(r.id),
            final(ui)@.window(r.id).text@ == Seq::<char>::empty(),
            final(ui)@.window(r.id).resizable,
            final(ui)@.window(r.id).border_style == WindowBorderStyle::Normal,
            final(ui)@.data(r.id) == (SubControlView {
                owner: Some(r.id),
                bits: final(ui)@.data(r.id).bits,
                ..new_control_view()
            }),
            final(ui)@.data(r.id).visibility() == Visibility::Gone,
            final(ui)@.data(r.id).enabled(),
    {
        let mut data = SubControlData::new();
        data.set_visibility(Visibility::Gone);
        let id = ui.add_control(ControlKind::Window(WindowData::new()), data);
        ui.bind(id);
        Window { id }
    }

    pub fn id(&self) -> (r: ControlId)
        ensures
            r == self.id,
    {
        self.id
    }

    /// Makes `child` the one child of this window, replacing any other.
    pub fn set_child(&self, ui: &mut Ui, child: ControlId)
        requires
            old(ui)@.valid(self.id),
            old(ui)@.valid(child),
            old(ui)@.is_window(self.id),
            old(ui)@.data(self.id).owner is Some,
            !old(ui)@.is_window(child),
            !old(ui)@.above(child, self.id, old(ui)@.nodes.len()),
        ensures
            final(ui)@ == old(ui)@.with_data(
                self.id,
                SubControlView { children: Seq::empty(), ..old(ui)@.data(self.id) },
            ).after_push(self.id, child),
            final(ui)@.data(self.id).children == seq![child],
    {
        ui.set_child(self.id, child);
    }

    /// Sets the title of this window.
    pub fn set_text(&self, ui: &mut Ui, text: &str)
        requires
            old(ui)@.valid(self.id),
            old(ui)@.is_window(self.id),
        ensures
            final(ui)@.window_only_changed(old(ui)@, self.id),
            final(ui)@.window(self.id).text@ == text@,
            final(ui)@.window(self.id).resizable == old(ui)@.window(self.id).resizable,
            final(ui)@.window(self.id).border_style == old(ui)@.window(self.id).border_style,
    {
        ui.set_text(self.id, text);
    }

    /// Appends an application handler to this window's list.
    pub fn add_event_handler(&self, ui: &mut Ui, handler: HandlerId)
        requires
            old(ui)@.valid(self.id),
        ensures
            final(ui)@ == old(ui)@.with_data(
                self.id,
                SubControlView {
                    handlers: old(ui)@.data(self.id).handlers.push(
                        Handler::Custom(handler),
                    ),
                    ..old(ui)@.data(self.id)
                },
            ),
    {
        ui.add_handler(self.id, handler);
    }

    /// A dispatch of a window event to this window's handlers, by the same
    /// rules as every dispatch: the handler added last runs first.
    pub fn send_event(&self, event: WindowEvent) -> (r: Dispatcher)
        ensures
            r@.work == seq![WorkView::Deliver(self.id, Event::Window(event), Seq::empty())],
            !r@.calling,
    {
        Dispatcher::send(Vec::new(), self.id, Event::Window(event))
    }
}

} // verus!
