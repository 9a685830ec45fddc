//! State core of a tiling window manager: an immutable focus stack over
//! window identifiers, the workspaces and screens built on it, and the
//! decisions that keep a workspace in step with window-system events.

mod seqs;

pub mod backend;
pub mod reconcile;
pub mod rectangle;
pub mod screen;
pub mod stack;
pub mod workspace;

pub use backend::{Backend, BackendError, Event};
pub use rectangle::Rectangle;
pub use screen::Screen;
pub use stack::{Stack, StackModel};
pub use workspace::{Workspace, WorkspaceModel};
