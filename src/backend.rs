//! What the window manager needs from a windowing backend (X11, Wayland, ...)
//! and the events a backend reports.
use vstd::prelude::*;
use crate::rectangle::Rectangle;

verus! {

/// A cross-section of the events that backends generate.
#[derive(Copy, Clone, Debug, PartialEq, Eq)]
pub enum Event<Window> {
    /// Something on the backend changed, e.g. a screen was resized.
    BackendChanged,
    /// A new window has been created.
    WindowCreated(Window),
    /// A window has been closed or killed.
    WindowClosed(Window),
    /// A window has been hidden, but is still around.
    WindowHid(Window),
    /// A window has been revealed from hidden status.
    WindowRevealed(Window),
    /// A window is requesting a change of its geometry.
    WindowChangeRequest(Window, Rectangle),
    /// The mouse pointer has entered a window's frame.
    MouseEnter(Option<Window>),
    /// The mouse pointer has left a window's frame.
    MouseLeave(Option<Window>),
    /// A button has been pressed.
    ButtonPressed(Window, Option<Window>),
    /// A button has been released.
    ButtonReleased,
    /// A key has been pressed.
    KeyPressed(Window),
    /// An unknown or unimportant event.
    Unknown,
}

/// A failure of the backend, with a description of what went wrong.
#[derive(Clone, Debug, PartialEq, Eq)]
pub struct BackendError {
    pub message: String,
}

/// The operations that the window manager uses on a backend.
pub trait Backend: Sized {
    /// The backend's window identifier.
    type Window;

    /// Connects to the backend.
    fn new() -> Result<Self, BackendError>;

    /// Whether the window is a dock that layouts should leave alone.
    fn is_dock(&self, window: Self::Window) -> bool;

    /// Whether the window is one to manage (not an override-redirect helper).
    fn is_window(&self, window: Self::Window) -> bool;

    /// The screens, each with its position and size.
    fn screens(&self) -> Vec<Rectangle>;

    /// Number of screens.
    fn number_of_screens(&self) -> usize;

    /// The window's title.
    fn window_name(&self, window: Self::Window) -> String;

    /// The window's class name.
    fn class_name(&self, window: Self::Window) -> String;

    /// All windows the backend knows of.
    fn windows(&self) -> Result<Vec<Self::Window>, BackendError>;

    /// Resizes the window.
    fn resize_window(&self, window: Self::Window, width: u32, height: u32);

    /// Moves the window's upper left corner to the given position.
    fn move_window(&self, window: Self::Window, x: u32, y: u32);

    /// Shows a hidden window.
    fn show_window(&self, window: Self::Window);

    /// Hides a shown window.
    fn hide_window(&self, window: Self::Window);

    /// Gives the window the input focus.
    fn focus_window(&self, window: Self::Window);

    /// Blocks until the backend has an event.
    fn event(&self) -> Event<Self::Window>;
}

} // verus!
