use vstd::prelude::*;

use crate::state::State;
use crate::types::{CVarValue, Event, Message};

verus! {

/// What happened to a key, as the windowing system reports it.
#[derive(Debug, Clone, Copy, PartialEq, Eq, Structural)]
pub enum KeyAction {
    Press,
    Release,
    Repeat,
}

/// The size of the window's framebuffer, kept current from resize events.
#[derive(Debug, Clone, Copy, PartialEq, Eq, Structural)]
pub struct WindowSize {
    pub width: u32,
    pub height: u32,
}

impl WindowSize {
    /// Takes the new size from a resize event; any other event changes nothing.
    pub fn on_event(&mut self, event: &Event)
        ensures
            match *event {
                Message::WindowResized(w, h) => *final(self) == (WindowSize { width: w, height: h }),
                _ => *final(self) == *old(self),
            },
    {
        if let Message::WindowResized(width, height) = event {
            self.width = *width;
            self.height = *height;
        }
    }
}

/// The message for a key event: presses and releases are posted, repeats are not.
/// Key codes and scancodes are passed on by their bits.
pub fn key_message(key: i32, scancode: i32, action: KeyAction) -> (r: Option<Message>)
    ensures
        r == match action {
            KeyAction::Press => Some(Message::KeyPressed(key as u32, scancode as u32)),
            KeyAction::Release => Some(Message::KeyReleased(key as u32, scancode as u32)),
            KeyAction::Repeat => None::<Message>,
        },
{
    let k = #[verifier::truncate] (key as u32);
    let s = #[verifier::truncate] (scancode as u32);
    match action {
        KeyAction::Press => Some(Message::KeyPressed(k, s)),
        KeyAction::Release => Some(Message::KeyReleased(k, s)),
        KeyAction::Repeat => None,
    }
}

/// The message for a new framebuffer size; the sizes are passed on by their bits.
pub fn resize_message(width: i32, height: i32) -> (r: Message)
    ensures
        r == Message::WindowResized(width as u32, height as u32),
{
    Message::WindowResized(#[verifier::truncate] (width as u32), #[verifier::truncate] (height as u32))
}

/// Mirrors a resize event into the `window_width` and `window_height`
/// variables, when they are registered; any other event changes nothing.
pub fn record_window_size(state: &mut State, event: &Event)
    requires
        old(state).wf(),
    ensures
        final(state).wf(),
        match *event {
            Message::WindowResized(w, h) => {
                let m1 = if old(state)@.contains_key("window_width"@) {
                    old(state)@.insert("window_width"@, CVarValue::Int(w as i32))
                } else {
                    old(state)@
                };
                &&& m1.contains_key("window_height"@) ==> final(state)@ == m1.insert(
                    "window_height"@,
                    CVarValue::Int(h as i32),
                )
                &&& !m1.contains_key("window_height"@) ==> final(state)@ == m1
            },
            _ => final(state)@ == old(state)@,
        },
{
    if let Message::WindowResized(width, height) = event {
        state.set("window_width", CVarValue::Int(#[verifier::truncate] (*width as i32)));
        state.set("window_height", CVarValue::Int(#[verifier::truncate] (*height as i32)));
    }
}

} // verus!
