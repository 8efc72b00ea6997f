//! The payloads routed through handler lists. Events form a closed set of
//! variants; applications route their own events as `Event::User` with a code
//! of their choosing.

use vstd::prelude::*;

verus! {

#[derive(Clone, Copy, Debug, PartialEq, Eq, Structural)]
pub enum MouseButton {
    Left,
    Middle,
    Right,
    Back,
    Forward,
}

#[derive(Clone, Copy, Debug, PartialEq, Eq, Structural)]
pub struct MouseDownEvent {}

#[derive(Clone, Copy, Debug, PartialEq, Eq, Structural)]
pub struct MouseUpEvent {}

#[derive(Clone, Copy, Debug, PartialEq, Eq, Structural)]
pub struct MouseMovedEvent {}

#[derive(Clone, Copy, Debug, PartialEq, Eq, Structural)]
pub struct MouseDraggedEvent {}

/// Sent to a control when the pointer starts hovering over it.
#[derive(Clone, Copy, Debug, PartialEq, Eq, Structural)]
pub struct MouseEnteredEvent;

/// Sent to a control when the pointer stops hovering over it.
#[derive(Clone, Copy, Debug, PartialEq, Eq, Structural)]
pub struct MouseLeftEvent;

/// Sent to a control when it is to paint itself. The painter lives with the
/// windowing layer, which has already moved its origin to the control's
/// top-left corner.
#[derive(Clone, Copy, Debug, PartialEq, Eq, Structural)]
pub struct PaintingEvent {}

/// Sent by a button when it has been clicked.
#[derive(Clone, Copy, Debug, PartialEq, Eq, Structural)]
pub struct ClickEvent;

#[derive(Clone, Copy, Debug, PartialEq, Eq, Structural)]
pub enum WindowEvent {
    /// The user clicked the close button of the window.
    Closing,
}

/// Every payload that a handler list can carry.
#[derive(Clone, Copy, Debug, PartialEq, Eq, Structural)]
pub enum Event {
    MouseDown(MouseDownEvent),
    MouseUp(MouseUpEvent),
    MouseMoved(MouseMovedEvent),
    MouseDragged(MouseDraggedEvent),
    MouseEntered(MouseEnteredEvent),
    MouseLeft(MouseLeftEvent),
    Painting(PaintingEvent),
    Click(ClickEvent),
    Window(WindowEvent),
    User(u64),
}

} // verus!
