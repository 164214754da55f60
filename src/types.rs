use vstd::prelude::*;

verus! {

/// The value of a configuration variable.
///
/// A float is held by its IEEE-754 bit pattern (`f32::to_bits`), so that the
/// library itself never computes with floating point.
#[derive(Debug, Clone, PartialEq)]
pub enum CVarValue {
    Int(i32),
    Float(u32),
    Str(String),
}

impl CVarValue {
    /// The integer held; only an `Int` may be asked for one.
    pub fn as_int(&self) -> (r: i32)
        requires
            self is Int,
        ensures
            r == self->Int_0,
    {
        match self {
            CVarValue::Int(v) => *v,
            _ => vstd::pervasive::unreached(),
        }
    }

    /// The bit pattern of the float held; only a `Float` may be asked for one.
    pub fn as_float(&self) -> (r: u32)
        requires
            self is Float,
        ensures
            r == self->Float_0,
    {
        match self {
            CVarValue::Float(v) => *v,
            _ => vstd::pervasive::unreached(),
        }
    }

    /// The text held; only a `Str` may be asked for it.
    pub fn as_str(&self) -> (r: &str)
        requires
            self is Str,
        ensures
            r@ == self->Str_0@,
    {
        match self {
            CVarValue::Str(v) => v.as_str(),
            _ => vstd::pervasive::unreached(),
        }
    }
}

/// Severity of a log record carried on the bus.
#[derive(Debug, Clone, Copy, PartialEq, Eq)]
pub enum LogLevel {
    Error,
    Warn,
    Info,
    Debug,
    Trace,
}

/// Everything that crosses a subsystem boundary through the bus.
#[derive(Debug, Clone, PartialEq)]
pub enum Message {
    /// Asks the renderer to load the static model found at `path`.
    LoadStaticModel { path: String },
    /// The model with identifier `id` is loaded and may be drawn.
    StaticModelReady { id: u128 },
    /// A log record.
    Log { level: LogLevel, message: String },
    /// Cursor position, in whole pixels.
    MouseMoved(u32, u32),
    /// New framebuffer width and height.
    WindowResized(u32, u32),
    /// Key code and scancode of a pressed key.
    KeyPressed(u32, u32),
    /// Key code and scancode of a released key.
    KeyReleased(u32, u32),
}

/// The name under which subsystems handle messages.
pub type Event = Message;

/// A queue of messages in arrival order.
pub type MessageQueue = std::collections::VecDeque<Message>;

impl Message {
    /// A copy of this message, equal to it.
    pub fn duplicate(&self) -> (r: Message)
        ensures
            r == *self,
    {
        match self {
            Message::LoadStaticModel { path } => Message::LoadStaticModel { path: path.clone() },
            Message::StaticModelReady { id } => Message::StaticModelReady { id: *id },
            Message::Log { level, message } => Message::Log { level: *level, message: message.clone() },
            Message::MouseMoved(x, y) => Message::MouseMoved(*x, *y),
            Message::WindowResized(w, h) => Message::WindowResized(*w, *h),
            Message::KeyPressed(k, s) => Message::KeyPressed(*k, *s),
            Message::KeyReleased(k, s) => Message::KeyReleased(*k, *s),
        }
    }
}

/// What the renderer is asked to draw in the next frame.
#[derive(Debug, Clone, Copy, PartialEq, Eq)]
pub enum DrawCommands {
    StaticModel { id: u128 },
}

} // verus!
