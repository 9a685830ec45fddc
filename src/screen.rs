use vstd::prelude::*;
use crate::stack::Stack;
use crate::workspace::{Workspace, applicable, mapped, mapped_option};

verus! {

/// A visible screen: the workspace it shows and the id of the output it is
/// shown on.
pub struct Screen<W> {
    pub workspace: Workspace<W>,
    pub screen_id: u32,
}

impl<W: Copy> Clone for Screen<W> {
    /// A copy showing the same workspace on the same output.
    fn clone(&self) -> (r: Screen<W>)
        ensures
            r.workspace@ == self.workspace@,
            r.screen_id == self.screen_id,
    {
        Screen { workspace: self.workspace.clone(), screen_id: self.screen_id }
    }
}

impl<W: Copy + Eq> Screen<W> {
    /// Creates a screen showing `workspace` on output `screen_id`.
    pub fn new(workspace: Workspace<W>, screen_id: u32) -> (r: Screen<W>)
        ensures
            r.workspace == workspace,
            r.screen_id == screen_id,
    {
        Screen { workspace, screen_id }
    }

    /// Whether the shown workspace contains the given window.
    pub fn contains(&self, window: W) -> (r: bool)
        requires
            vstd::laws_eq::obeys_concrete_eq::<W>(),
        ensures
            r == self.workspace@.contains(window),
    {
        self.workspace.contains(window)
    }

    /// Number of windows on the shown workspace.
    pub fn len(&self) -> (r: usize)
        requires
            self.workspace@.len() <= usize::MAX,
        ensures
            r == self.workspace@.len(),
    {
        self.workspace.len()
    }

    /// The windows of the shown workspace, in stacking order.
    pub fn windows(&self) -> (r: Vec<W>)
        ensures
            r@ == self.workspace@.windows(),
    {
        self.workspace.windows()
    }

    /// A screen on the same output showing what `f` makes of the workspace.
    pub fn map_workspace<F: Fn(Workspace<W>) -> Workspace<W>>(&self, f: F) -> (r: Screen<W>)
        requires
            forall|t: Workspace<W>| t@ == self.workspace@ ==> call_requires(f, (t,)),
        ensures
            r.screen_id == self.screen_id,
            exists|t: Workspace<W>| t@ == self.workspace@ && call_ensures(f, (t,), r.workspace),
    {
        let workspace = f(self.workspace.clone());
        Screen::new(workspace, self.screen_id)
    }

    /// A screen on the same output whose stack is what `f` makes of it.
    pub fn map<F: Fn(Stack<W>) -> Stack<W>>(&self, f: F) -> (r: Screen<W>)
        requires
            applicable(f, self.workspace.stack),
        ensures
            r.screen_id == self.screen_id,
            r.workspace.id == self.workspace.id,
            r.workspace.tag@ == self.workspace.tag@,
            mapped(f, self.workspace.stack, r.workspace.stack),
    {
        Screen::new(self.workspace.map(f), self.screen_id)
    }

    /// As [`Screen::map`], where `f` may leave no stack.
    pub fn map_option<F: Fn(Stack<W>) -> Option<Stack<W>>>(&self, f: F) -> (r: Screen<W>)
        requires
            applicable(f, self.workspace.stack),
        ensures
            r.screen_id == self.screen_id,
            r.workspace.id == self.workspace.id,
            r.workspace.tag@ == self.workspace.tag@,
            mapped_option(f, self.workspace.stack, r.workspace.stack),
    {
        Screen::new(self.workspace.map_option(f), self.screen_id)
    }

    /// As [`Screen::map`], where a workspace without a stack gets `default`.
    pub fn map_or<F: Fn(Stack<W>) -> Stack<W>>(&self, default: Stack<W>, f: F) -> (r: Screen<W>)
        requires
            applicable(f, self.workspace.stack),
        ensures
            r.screen_id == self.screen_id,
            r.workspace.id == self.workspace.id,
            r.workspace.tag@ == self.workspace.tag@,
            self.workspace.stack is None ==> r.workspace.stack == Some(default),
            self.workspace.stack is Some ==> mapped(f, self.workspace.stack, r.workspace.stack),
    {
        Screen::new(self.workspace.map_or(default, f), self.screen_id)
    }
}

} // verus!
