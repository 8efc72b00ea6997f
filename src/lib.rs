//! A retained-mode widget toolkit core: a tree of controls held in an arena,
//! hit-testing and painting order over that tree, and reentrancy-safe event
//! routing through per-control handler lists.

pub mod bitfield;
pub mod button;
pub mod control;
pub mod dispatch;
pub mod event;
pub mod event_vec;
pub mod geometry;
pub mod ui;
pub mod text;
pub mod win32;
pub mod window;

pub use bitfield::BitField;
pub use button::Button;
pub use control::{ChildrenVec, ControlId, SubControl, SubControlData, Visibility};
pub use event::{
    ClickEvent, Event, MouseButton, MouseDownEvent, MouseDraggedEvent, MouseEnteredEvent,
    MouseLeftEvent, MouseMovedEvent, MouseUpEvent, PaintingEvent, WindowEvent,
};
pub use dispatch::{Call, Dispatcher, Step};
pub use event_vec::{EventHandlerVec, EventRoute, Handler, HandlerId};
pub use geometry::{Point, Size};
pub use ui::{hot_transition, set_tab_order, ControlKind, PaintStep, Ui};
pub use window::{Window, WindowBorderStyle, WindowData};
