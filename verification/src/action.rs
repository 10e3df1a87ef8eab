//! Actions carried on the dispatch bus, the key events that produce them and
//! the event responses that handlers return.

use vstd::prelude::*;

verus! {

/// One step of work routed through the dispatch loop each tick.
#[derive(Debug, Clone)]
pub enum Action {
    Tick,
    Render,
    Resize(u16, u16),
    Suspend,
    Resume,
    Quit,
    Refresh,
    Error(String),
    Help,
    FocusNext,
    FocusPrev,
    Focus,
    UnFocus,
    Up,
    Down,
    Submit,
    Update,
    Tab(u32),
    TabNext,
    TabPrev,
    Go,
    Back,
    ToggleFullScreen,
    StatusLine(String),
    TimedStatusLine(String, u64),
    FocusFooter(String, Option<String>),
    FooterResult(String, Option<String>),
    Noop,
    NewCall(Option<String>),
    HangUp(Option<String>),
    Dial,
    History,
    CloseHistory,
    AddQuery(String),
    RemoveQuery(String),
    AddHeader(String),
    RemoveHeader(String),
    OpenRequestPayload(String),
    SaveResponsePayload(String),
}

/// The application-level mode; a single home screen for now.
#[derive(Debug, Copy, Clone, PartialEq, Eq, Structural)]
pub enum Mode {
    Home,
}

/// What a handler answers to an event: pass it on or stop propagation,
/// in both cases emitting an action.
#[derive(Debug, Clone)]
pub enum EventResponse<T> {
    Continue(T),
    Stop(T),
}

/// The key presses the core reacts to, as plain values.
#[derive(Debug, Copy, Clone, PartialEq, Eq, Structural)]
pub enum Key {
    Esc,
    Enter,
    Backspace,
    Left,
    Right,
    Up,
    Down,
    Char(char),
}

} // verus!
