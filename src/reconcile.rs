//! The decisions of the run loop: how a workspace follows the events that
//! the backend reports.
use vstd::prelude::*;
use crate::backend::Event;
use crate::workspace::{Workspace, WorkspaceModel};

verus! {

/// Width given to a window when it is taken under management.
pub const NEW_WINDOW_WIDTH: u32 = 50;

/// Height given to a window when it is taken under management.
pub const NEW_WINDOW_HEIGHT: u32 = 50;

/// What the run loop is to do on the backend after a decision.
#[derive(Copy, Clone, Debug, PartialEq, Eq)]
pub enum Command<W> {
    /// Nothing.
    Idle,
    /// Ask the backend whether the window is one to manage, and hand the
    /// answer to [`handle_classified`].
    Classify(W),
    /// Resize the window to the given width and height.
    Resize(W, u32, u32),
}

/// The workspace after `event`: a closed window is removed; every other
/// event leaves the workspace as it is.
pub open spec fn after_event<W>(ws: WorkspaceModel<W>, event: Event<W>) -> WorkspaceModel<W> {
    match event {
        Event::WindowClosed(w) => ws.remove(w),
        _ => ws,
    }
}

/// The command that follows `event`: a created window is to be classified.
pub open spec fn command_for<W>(event: Event<W>) -> Command<W> {
    match event {
        Event::WindowCreated(w) => Command::Classify(w),
        _ => Command::Idle,
    }
}

/// Decides what an event from the backend does to the workspace, and what
/// the run loop is to ask of the backend next.
pub fn handle_event<W: Copy + Eq>(workspace: &Workspace<W>, event: &Event<W>) -> (r: (
    Workspace<W>,
    Command<W>,
))
    requires
        vstd::laws_eq::obeys_concrete_eq::<W>(),
    ensures
        r.0@ == after_event(workspace@, *event),
        r.1 == command_for(*event),
{
    match event {
        Event::WindowCreated(w) => (workspace.clone(), Command::Classify(*w)),
        Event::WindowClosed(w) => (workspace.remove(*w), Command::Idle),
        _ => (workspace.clone(), Command::Idle),
    }
}

/// Decides what the backend's answer on a created window does: a window to
/// manage is added, focused and given the initial size; any other is left
/// alone.
pub fn handle_classified<W: Copy + Eq>(workspace: &Workspace<W>, window: W, manageable: bool) -> (r: (
    Workspace<W>,
    Command<W>,
))
    ensures
        manageable ==> r.0@ == workspace@.add(window),
        manageable ==> r.1 == Command::Resize(window, NEW_WINDOW_WIDTH, NEW_WINDOW_HEIGHT),
        !manageable ==> r.0@ == workspace@,
        !manageable ==> r.1 == Command::<W>::Idle,
{
    if manageable {
        (workspace.add(window), Command::Resize(window, NEW_WINDOW_WIDTH, NEW_WINDOW_HEIGHT))
    } else {
        (workspace.clone(), Command::Idle)
    }
}

} // verus!
