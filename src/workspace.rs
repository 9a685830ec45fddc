use vstd::prelude::*;
use crate::stack::{
    Stack, StackModel, decides, kept_by, lemma_contains_parts, lemma_stack_filter_congruent,
    lemma_stack_filter_members, model_of,
};

verus! {

/// The mathematical content of a [`Workspace`].
pub struct WorkspaceModel<W> {
    pub id: u32,
    pub tag: Seq<char>,
    pub stack: Option<StackModel<W>>,
}

/// The predicate that holds of every element but `w`.
pub open spec fn other_than<W>(w: W) -> spec_fn(W) -> bool {
    |x: W| x != w
}

impl<W> WorkspaceModel<W> {
    /// Number of managed windows.
    pub open spec fn len(self) -> nat {
        match self.stack {
            Some(s) => s.len(),
            None => 0,
        }
    }

    /// The managed windows in stacking order.
    pub open spec fn windows(self) -> Seq<W> {
        match self.stack {
            Some(s) => s.integrate(),
            None => Seq::empty(),
        }
    }

    /// Whether `w` is managed here.
    pub open spec fn contains(self, w: W) -> bool {
        self.windows().contains(w)
    }

    /// The focused window, if any.
    pub open spec fn peek(self) -> Option<W> {
        match self.stack {
            Some(s) => Some(s.focus),
            None => None,
        }
    }

    /// `w` is added and focused; an empty workspace gets a stack of its own.
    pub open spec fn add(self, w: W) -> WorkspaceModel<W> {
        WorkspaceModel {
            id: self.id,
            tag: self.tag,
            stack: Some(
                match self.stack {
                    Some(s) => s.add(w),
                    None => StackModel { focus: w, up: Seq::empty(), down: Seq::empty() },
                },
            ),
        }
    }

    /// `w` is removed; the workspace becomes empty when it was the last one.
    pub open spec fn remove(self, w: W) -> WorkspaceModel<W> {
        WorkspaceModel {
            id: self.id,
            tag: self.tag,
            stack: match self.stack {
                Some(s) => s.filter(other_than(w)),
                None => None,
            },
        }
    }
}

/// Adding a window to an empty workspace gives a workspace of that one
/// window, focused; removing it again gives an empty workspace.
pub proof fn lemma_add_remove_on_empty<W>(ws: WorkspaceModel<W>, w: W)
    requires
        ws.stack is None,
    ensures
        ws.add(w).len() == 1,
        ws.add(w).peek() == Some(w),
        ws.add(w).windows() == seq![w],
        ws.add(w).remove(w).len() == 0,
        ws.add(w).remove(w).peek() is None,
{
    let s = ws.add(w).stack.unwrap();
    assert(s.integrate() =~= seq![w]);
    reveal_with_fuel(Seq::filter, 2);
    assert((seq![w] + Seq::<W>::empty()).filter(other_than(w)) =~= Seq::<W>::empty());
    assert(Seq::<W>::empty().filter(other_than(w)) =~= Seq::<W>::empty());
}

/// After adding a window, the workspace contains it, has it focused and
/// still contains every window it contained before.
pub proof fn lemma_add_members<W>(ws: WorkspaceModel<W>, w: W)
    ensures
        ws.add(w).contains(w),
        ws.add(w).peek() == Some(w),
        forall|x: W| ws.contains(x) ==> #[trigger] ws.add(w).contains(x),
{
    broadcast use vstd::seq_lib::group_seq_properties;

    let t = ws.add(w).stack.unwrap();
    lemma_contains_parts(t, w);
    assert forall|x: W| ws.contains(x) implies #[trigger] ws.add(w).contains(x) by {
        lemma_contains_parts(t, x);
        let s = ws.stack.unwrap();
        lemma_contains_parts(s, x);
    }
}

/// After removing a window, the workspace no longer contains it, contains
/// every other window it contained before and no new one, and is empty
/// exactly when that window was the only one.
pub proof fn lemma_remove_members<W>(ws: WorkspaceModel<W>, w: W)
    ensures
        !ws.remove(w).contains(w),
        forall|x: W| x != w ==> (#[trigger] ws.remove(w).contains(x) <==> ws.contains(x)),
        ws.remove(w).stack is None <==> (forall|x: W| ws.contains(x) ==> x == w),
{
    broadcast use vstd::seq_lib::group_seq_properties;

    let r = ws.remove(w);
    if ws.stack is Some {
        let s = ws.stack.unwrap();
        lemma_stack_filter_members(s, other_than(w));
        assert forall|x: W| #[trigger] r.contains(x) <==> (ws.contains(x) && x != w) by {
            if r.stack is Some {
                assert(r.stack.unwrap().contains(x) <==> (s.contains(x) && other_than(w)(x)));
            }
        }
        if r.stack is None {
            assert forall|x: W| ws.contains(x) implies x == w by {
                assert(s.contains(x) ==> !other_than(w)(x));
            }
        }
        if forall|x: W| ws.contains(x) ==> x == w {
            assert forall|x: W| s.contains(x) implies !other_than(w)(x) by {
                assert(ws.contains(x));
            }
        }
    } else {
        assert forall|x: W| ws.contains(x) implies x == w by {
            assert(ws.windows() =~= Seq::<W>::empty());
        }
    }
}

/// `f` may be called on any copy of the stack `s` holds.
pub open spec fn applicable<W, R, F: Fn(Stack<W>) -> R>(f: F, s: Option<Stack<W>>) -> bool {
    match s {
        Some(s) => forall|t: Stack<W>| t@ == s@ ==> call_requires(f, (t,)),
        None => true,
    }
}

/// `r` is what `f` returned on a copy of the stack `s` holds, wrapped in
/// `Some`; `None` stays `None`.
pub open spec fn mapped<W, F: Fn(Stack<W>) -> Stack<W>>(
    f: F,
    s: Option<Stack<W>>,
    r: Option<Stack<W>>,
) -> bool {
    match s {
        Some(s) => r matches Some(n) && exists|t: Stack<W>| t@ == s@ && call_ensures(f, (t,), n),
        None => r is None,
    }
}

/// `r` is what `f` returned on a copy of the stack `s` holds; `None` stays
/// `None`.
pub open spec fn mapped_option<W, F: Fn(Stack<W>) -> Option<Stack<W>>>(
    f: F,
    s: Option<Stack<W>>,
    r: Option<Stack<W>>,
) -> bool {
    match s {
        Some(s) => exists|t: Stack<W>| t@ == s@ && call_ensures(f, (t,), r),
        None => r is None,
    }
}

/// A named, identified container of windows, with a stack when it manages
/// at least one window.
///
/// A workspace is never changed in place: each operation that would modify
/// it returns a new workspace instead.
pub struct Workspace<W> {
    pub id: u32,
    pub tag: String,
    pub stack: Option<Stack<W>>,
}

impl<W> View for Workspace<W> {
    type V = WorkspaceModel<W>;

    open spec fn view(&self) -> WorkspaceModel<W> {
        WorkspaceModel { id: self.id, tag: self.tag@, stack: model_of(self.stack) }
    }
}

/// A copy of an optional stack.
fn copy_stack<W: Copy>(s: &Option<Stack<W>>) -> (r: Option<Stack<W>>)
    ensures
        model_of(r) == model_of(*s),
{
    match s {
        Some(s) => Some(s.clone()),
        None => None,
    }
}

impl<W: Copy> Clone for Workspace<W> {
    /// A copy with the same id, tag and windows.
    fn clone(&self) -> (r: Workspace<W>)
        ensures
            r@ == self@,
    {
        Workspace { id: self.id, tag: self.tag.clone(), stack: copy_stack(&self.stack) }
    }
}

impl<W: Copy + Eq> Workspace<W> {
    /// Creates a new workspace.
    pub fn new(id: u32, tag: &str, stack: Option<Stack<W>>) -> (r: Workspace<W>)
        ensures
            r.id == id,
            r.tag@ == tag@,
            r.stack == stack,
    {
        Workspace { id, tag: tag.to_owned(), stack }
    }

    /// Adds a window and focuses it, creating the stack if there is none.
    pub fn add(&self, window: W) -> (r: Workspace<W>)
        ensures
            r@ == self@.add(window),
    {
        let stack = match &self.stack {
            Some(s) => s.add(window),
            None => Stack::from(window),
        };
        Workspace { id: self.id, tag: self.tag.clone(), stack: Some(stack) }
    }

    /// Removes the given window; the stack goes when it was the last one.
    pub fn remove(&self, window: W) -> (r: Workspace<W>)
        requires
            vstd::laws_eq::obeys_concrete_eq::<W>(),
        ensures
            r@ == self@.remove(window),
    {
        let stack = match &self.stack {
            Some(s) => {
                let f = |x: &W| -> (b: bool)
                    requires
                        vstd::laws_eq::obeys_concrete_eq::<W>(),
                    ensures
                        b == (*x != window),
                    {
                        proof {
                            reveal(vstd::laws_eq::obeys_concrete_eq);
                        }
                        *x != window
                    };
                let r = s.filter(f);
                proof {
                    assert(decides(f));
                    assert forall|x: W| s@.contains(x) implies kept_by(f)(x) == other_than(window)(x) by {
                        assert(call_ensures(f, (&x,), kept_by(f)(x)));
                    }
                    lemma_stack_filter_congruent(s@, kept_by(f), other_than(window));
                }
                r
            },
            None => None,
        };
        Workspace { id: self.id, tag: self.tag.clone(), stack }
    }

    /// Number of windows in this workspace.
    pub fn len(&self) -> (r: usize)
        requires
            self@.len() <= usize::MAX,
        ensures
            r == self@.len(),
    {
        match &self.stack {
            Some(s) => s.len(),
            None => 0,
        }
    }

    /// Whether this workspace manages no window.
    pub fn is_empty(&self) -> (r: bool)
        requires
            self@.len() <= usize::MAX,
        ensures
            r == (self@.len() == 0),
            r == self.stack.is_none(),
    {
        self.len() == 0
    }

    /// Whether this workspace manages the given window.
    pub fn contains(&self, window: W) -> (r: bool)
        requires
            vstd::laws_eq::obeys_concrete_eq::<W>(),
        ensures
            r == self@.contains(window),
    {
        match &self.stack {
            Some(s) => s.contains(window),
            None => false,
        }
    }

    /// The windows in stacking order.
    pub fn windows(&self) -> (r: Vec<W>)
        ensures
            r@ == self@.windows(),
    {
        match &self.stack {
            Some(s) => s.integrate(),
            None => Vec::new(),
        }
    }

    /// The focused window, if any.
    pub fn peek(&self) -> (r: Option<W>)
        ensures
            r == self@.peek(),
    {
        match &self.stack {
            Some(s) => Some(s.focus),
            None => None,
        }
    }

    /// Applies `f` to the stack, if there is one.
    pub fn map<F: Fn(Stack<W>) -> Stack<W>>(&self, f: F) -> (r: Workspace<W>)
        requires
            applicable(f, self.stack),
        ensures
            r.id == self.id,
            r.tag@ == self.tag@,
            mapped(f, self.stack, r.stack),
    {
        let stack = match &self.stack {
            Some(s) => Some(f(s.clone())),
            None => None,
        };
        Workspace::new(self.id, self.tag.as_str(), stack)
    }

    /// Applies `f` to the stack, if there is one; `f` may leave no stack.
    pub fn map_option<F: Fn(Stack<W>) -> Option<Stack<W>>>(&self, f: F) -> (r: Workspace<W>)
        requires
            applicable(f, self.stack),
        ensures
            r.id == self.id,
            r.tag@ == self.tag@,
            mapped_option(f, self.stack, r.stack),
    {
        let stack = match &self.stack {
            Some(s) => f(s.clone()),
            None => None,
        };
        Workspace::new(self.id, self.tag.as_str(), stack)
    }

    /// Applies `f` to the stack; a workspace without one gets `default`.
    pub fn map_or<F: Fn(Stack<W>) -> Stack<W>>(&self, default: Stack<W>, f: F) -> (r: Workspace<W>)
        requires
            applicable(f, self.stack),
        ensures
            r.id == self.id,
            r.tag@ == self.tag@,
            self.stack is None ==> r.stack == Some(default),
            self.stack is Some ==> mapped(f, self.stack, r.stack),
    {
        let stack = match &self.stack {
            Some(s) => f(s.clone()),
            None => default,
        };
        Workspace::new(self.id, self.tag.as_str(), Some(stack))
    }
}

} // verus!
