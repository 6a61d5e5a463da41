//! What a button does with the mouse: the decisions of its event handlers.

use crate::event::{Target, WidgetId};
use vstd::prelude::*;

verus! {

/// Whether a mouse button went down or came up.
#[derive(Clone, Copy, Debug, PartialEq, Eq, Structural)]
pub enum ElementState {
    Pressed,
    Released,
}

/// What a handler of a widget press sees of an input event.
#[derive(Clone, Copy, Debug, PartialEq, Eq, Structural)]
pub enum InputEvent {
    MouseInput(ElementState),
    Other,
}

/// A property that a widget has or has not.
#[derive(Clone, Copy, Debug, PartialEq, Eq, Hash, Structural)]
pub enum WidgetProperty {
    Pressed,
    Activated,
}

/// Asks a widget to take on a property, or to give it up.
#[derive(Clone, Copy, Debug, PartialEq, Eq, Structural)]
pub struct ChangePropEvent {
    pub property: WidgetProperty,
    pub add: bool,
}

/// How a toggle button is drawn.
#[derive(Clone, Copy, Debug, PartialEq, Eq, Structural)]
pub enum ButtonLook {
    ActivatedPressed,
    Activated,
    UnactivatedPressed,
    Unactivated,
}

/// Shows whether a button is held down.
pub struct ButtonDownHandler {}

/// Shows whether a toggle button is activated.
pub struct ToggleEventHandler {}

impl ButtonDownHandler {
    /// On a mouse button event, asks the widget and all its descendants to be
    /// pressed while the button is down. Other events are ignored.
    pub fn handle_event(&mut self, widget_id: WidgetId, event: InputEvent) -> (out: Option<
        (Target, ChangePropEvent),
    >)
        ensures
            out == match event {
                InputEvent::MouseInput(state) => Some(
                    (
                        Target::SubTree(widget_id),
                        ChangePropEvent {
                            property: WidgetProperty::Pressed,
                            add: state == ElementState::Pressed,
                        },
                    ),
                ),
                InputEvent::Other => None::<(Target, ChangePropEvent)>,
            },
    {
        match event {
            InputEvent::MouseInput(state) => {
                let pressed = match state {
                    ElementState::Pressed => true,
                    ElementState::Released => false,
                };
                Some(
                    (
                        Target::SubTree(widget_id),
                        ChangePropEvent { property: WidgetProperty::Pressed, add: pressed },
                    ),
                )
            },
            InputEvent::Other => None,
        }
    }
}

impl ToggleEventHandler {
    /// When the mouse button comes up, asks the widget and all its descendants
    /// to be activated if the widget was not, and not to be if it was. Other
    /// events are ignored.
    pub fn handle_event(&mut self, widget_id: WidgetId, event: InputEvent, activated: bool) -> (out:
        Option<(Target, ChangePropEvent)>)
        ensures
            out == match event {
                InputEvent::MouseInput(ElementState::Released) => Some(
                    (
                        Target::SubTree(widget_id),
                        ChangePropEvent { property: WidgetProperty::Activated, add: !activated },
                    ),
                ),
                _ => None::<(Target, ChangePropEvent)>,
            },
    {
        match event {
            InputEvent::MouseInput(ElementState::Released) => Some(
                (
                    Target::SubTree(widget_id),
                    ChangePropEvent { property: WidgetProperty::Activated, add: !activated },
                ),
            ),
            _ => None,
        }
    }
}

/// How a toggle button with the given properties is drawn.
pub fn button_look(pressed: bool, activated: bool) -> (look: ButtonLook)
    ensures
        look == if pressed && activated {
            ButtonLook::ActivatedPressed
        } else if activated {
            ButtonLook::Activated
        } else if pressed {
            ButtonLook::UnactivatedPressed
        } else {
            ButtonLook::Unactivated
        },
{
    if pressed && activated {
        ButtonLook::ActivatedPressed
    } else if activated {
        ButtonLook::Activated
    } else if pressed {
        ButtonLook::UnactivatedPressed
    } else {
        ButtonLook::Unactivated
    }
}

/// The text that a toggle button shows: one when it is activated, the other
/// when it is not.
pub fn button_text<'a>(activated: bool, on_text: &'a str, off_text: &'a str) -> (text: &'a str)
    ensures
        text == if activated {
            on_text
        } else {
            off_text
        },
{
    if activated {
        on_text
    } else {
        off_text
    }
}

} // verus!
