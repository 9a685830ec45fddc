use vstd::prelude::*;
use crate::seqs::{append_copies, copy_all, copy_from, copy_reversed};

verus! {

/// The mathematical content of a [`Stack`]: the focused element and the two
/// sequences on either side of it.
pub struct StackModel<T> {
    pub focus: T,
    pub up: Seq<T>,
    pub down: Seq<T>,
}

impl<T> StackModel<T> {
    /// The order of all tracked elements: `reverse(up) ++ [focus] ++ down`.
    pub open spec fn integrate(self) -> Seq<T> {
        self.up.reverse() + seq![self.focus] + self.down
    }

    /// Number of tracked elements.
    pub open spec fn len(self) -> nat {
        1 + self.up.len() + self.down.len()
    }

    /// Whether `t` is one of the tracked elements.
    pub open spec fn contains(self, t: T) -> bool {
        self.integrate().contains(t)
    }

    /// Position of the focused element within [`StackModel::integrate`].
    pub open spec fn focus_index(self) -> nat {
        self.up.len()
    }

    /// `t` becomes the focus; the old focus goes to the end of `down`.
    pub open spec fn add(self, t: T) -> StackModel<T> {
        StackModel { focus: t, up: self.up, down: self.down.push(self.focus) }
    }

    /// `up` and `down` exchanged, focus kept.
    pub open spec fn reverse(self) -> StackModel<T> {
        StackModel { focus: self.focus, up: self.down, down: self.up }
    }

    /// The focus moves to the element above it; from the top it wraps
    /// round to the last element. The flattened order stays as it is.
    pub open spec fn focus_up(self) -> StackModel<T> {
        if self.up.len() == 0 {
            let tmp = (seq![self.focus] + self.down).reverse();
            StackModel { focus: tmp[0], up: tmp.drop_first(), down: Seq::empty() }
        } else {
            StackModel {
                focus: self.up[0],
                up: self.up.drop_first(),
                down: seq![self.focus] + self.down,
            }
        }
    }

    /// The mirror image of [`StackModel::focus_up`].
    pub open spec fn focus_down(self) -> StackModel<T> {
        self.reverse().focus_up().reverse()
    }

    /// The focused element changes places with the one above it; from the
    /// top it goes to the bottom.
    pub open spec fn swap_up(self) -> StackModel<T> {
        if self.up.len() == 0 {
            StackModel { focus: self.focus, up: self.down.reverse(), down: Seq::empty() }
        } else {
            StackModel {
                focus: self.focus,
                up: self.up.drop_first(),
                down: seq![self.up[0]] + self.down,
            }
        }
    }

    /// The mirror image of [`StackModel::swap_up`].
    pub open spec fn swap_down(self) -> StackModel<T> {
        self.reverse().swap_up().reverse()
    }

    /// The focused element goes to the top; all other elements keep their
    /// relative order. The old topmost element of `up` comes directly below
    /// the focus, the rest of `up` follows in order, then the old `down`.
    pub open spec fn swap_master(self) -> StackModel<T> {
        if self.up.len() == 0 {
            self
        } else {
            StackModel { focus: self.focus, up: Seq::empty(), down: self.up.reverse() + self.down }
        }
    }

    /// Keeps the elements that satisfy `keep`. The new focus is the first
    /// kept element of `[focus] ++ down`, the others following it below;
    /// `up` is filtered in its own order. When nothing of `[focus] ++ down`
    /// is kept, the first kept element of `up` becomes the focus, the rest of
    /// `up` stays above it and nothing is below. `None` when nothing is kept.
    pub open spec fn filter(self, keep: spec_fn(T) -> bool) -> Option<StackModel<T>> {
        let lower = (seq![self.focus] + self.down).filter(keep);
        let upper = self.up.filter(keep);
        if lower.len() > 0 {
            Some(StackModel { focus: lower[0], up: upper, down: lower.drop_first() })
        } else if upper.len() > 0 {
            Some(StackModel { focus: upper[0], up: upper.drop_first(), down: Seq::empty() })
        } else {
            None
        }
    }
}

/// Moving the focus to the top puts it first in the flattened order and
/// keeps the relative order of all other elements.
pub proof fn lemma_swap_master_keeps_order<T>(s: StackModel<T>)
    ensures
        s.swap_master().integrate() == seq![s.focus] + s.integrate().remove(s.up.len() as int),
        s.swap_master().focus == s.focus,
        s.swap_master().up.len() == 0,
{
    assert(s.swap_master().integrate() =~= seq![s.focus] + s.integrate().remove(s.up.len() as int));
}

/// The view of an optional stack.
pub open spec fn model_of<T>(s: Option<Stack<T>>) -> Option<StackModel<T>> {
    match s {
        Some(s) => Some(s@),
        None => None,
    }
}

/// The predicate that `f` decides: the elements on which it can answer `true`.
pub open spec fn kept_by<T, F: Fn(&T) -> bool>(f: F) -> spec_fn(T) -> bool {
    |x: T| call_ensures(f, (&x,), true)
}

/// `f` never gives two answers for one element.
pub open spec fn decides<T, F: Fn(&T) -> bool>(f: F) -> bool {
    forall|x: T, a: bool, b: bool|
        #[trigger] call_ensures(f, (&x,), a) && #[trigger] call_ensures(f, (&x,), b) ==> a == b
}

/// Appends to `out` the elements of `src` that `f` keeps, in order.
fn retain_into<T: Copy, F: Fn(&T) -> bool>(src: &Vec<T>, f: &F, out: &mut Vec<T>)
    requires
        forall|k: int| 0 <= k < src@.len() ==> call_requires(*f, (&src@[k],)),
        decides(*f),
    ensures
        final(out)@ == old(out)@ + src@.filter(kept_by(*f)),
        forall|k: int|
            0 <= k < src@.len() ==> call_ensures(*f, (&src@[k],), kept_by(*f)(src@[k])),
{
    let ghost keep = kept_by(*f);
    let mut i: usize = 0;
    while i < src.len()
        invariant
            i <= src.len(),
            keep == kept_by(*f),
            decides(*f),
            forall|k: int| 0 <= k < src@.len() ==> call_requires(*f, (&src@[k],)),
            out@ == old(out)@ + src@.subrange(0, i as int).filter(keep),
            forall|k: int| 0 <= k < i ==> call_ensures(*f, (&src@[k],), keep(src@[k])),
        decreases src.len() - i,
    {
        let x = src[i];
        let b = f(&x);
        proof {
            assert(b == keep(x));
            let before = src@.subrange(0, i as int);
            assert(src@.subrange(0, i + 1) =~= before.push(x));
            before.lemma_filter_push(x, keep);
        }
        if b {
            out.push(x);
        }
        i = i + 1;
        proof {
            assert(out@ =~= old(out)@ + src@.subrange(0, i as int).filter(keep));
        }
    }
    assert(src@.subrange(0, src@.len() as int) =~= src@);
}

/// Focus tracking on a workspace: `focus` is the focused element, `up` the
/// elements above it (nearest first) and `down` those below it (nearest
/// first).
///
/// A stack is never changed in place: each operation that would modify it
/// returns a new stack instead.
#[derive(Debug, PartialEq, Eq)]
pub struct Stack<T> {
    pub focus: T,
    pub up: Vec<T>,
    pub down: Vec<T>,
}

impl<T> View for Stack<T> {
    type V = StackModel<T>;

    open spec fn view(&self) -> StackModel<T> {
        StackModel { focus: self.focus, up: self.up@, down: self.down@ }
    }
}

impl<T: Copy + Eq> Stack<T> {
    /// Creates a stack from its focused element and the two sides.
    pub fn new(f: T, up: Vec<T>, down: Vec<T>) -> (r: Stack<T>)
        ensures
            r@ == (StackModel { focus: f, up: up@, down: down@ }),
    {
        Stack { focus: f, up, down }
    }

    /// Adds a new element to the stack and focuses it.
    pub fn add(&self, t: T) -> (r: Stack<T>)
        ensures
            r@ == self@.add(t),
    {
        let mut down = copy_all(&self.down);
        down.push(self.focus);
        Stack { focus: t, up: copy_all(&self.up), down }
    }

    /// Flattens the stack: `reverse(up) ++ [focus] ++ down`.
    pub fn integrate(&self) -> (r: Vec<T>)
        ensures
            r@ == self@.integrate(),
    {
        let mut r = copy_reversed(&self.up);
        r.push(self.focus);
        append_copies(&mut r, &self.down);
        r
    }

    /// Keeps the elements on which `f` answers `true`; see
    /// [`StackModel::filter`] for where the focus goes. `None` when no
    /// element is kept.
    pub fn filter<F: Fn(&T) -> bool>(&self, f: F) -> (r: Option<Stack<T>>)
        requires
            forall|x: T| self@.contains(x) ==> call_requires(f, (&x,)),
            decides(f),
        ensures
            forall|x: T| self@.contains(x) ==> call_ensures(f, (&x,), kept_by(f)(x)),
            model_of(r) == self@.filter(kept_by(f)),
    {
        let mut candidates = vec![self.focus];
        append_copies(&mut candidates, &self.down);
        proof {
            assert(candidates@ =~= seq![self.focus] + self.down@);
            assert forall|k: int| 0 <= k < candidates@.len() implies call_requires(f, (&candidates@[k],)) by {
                assert(self@.integrate()[self@.up.len() + k] == candidates@[k]);
                assert(self@.contains(candidates@[k]));
            }
            assert forall|k: int| 0 <= k < self@.up.len() implies call_requires(f, (&self@.up[k],)) by {
                assert(self@.integrate()[self@.up.len() - 1 - k] == self@.up[k]);
                assert(self@.contains(self@.up[k]));
            }
        }
        let mut lrs: Vec<T> = Vec::new();
        retain_into(&candidates, &f, &mut lrs);
        let mut filtered: Vec<T> = Vec::new();
        retain_into(&self.up, &f, &mut filtered);
        proof {
            assert(lrs@ =~= (seq![self.focus] + self.down@).filter(kept_by(f)));
            assert(filtered@ =~= self@.up.filter(kept_by(f)));
            let all = self@.integrate();
            assert forall|x: T| self@.contains(x) implies call_ensures(f, (&x,), kept_by(f)(x)) by {
                let i = choose|i: int| 0 <= i < all.len() && all[i] == x;
                if i < self@.up.len() {
                    assert(self@.up[self@.up.len() - 1 - i] == x);
                } else {
                    assert(candidates@[i - self@.up.len()] == x);
                }
            }
        }
        if lrs.len() > 0 {
            let rest = copy_from(&lrs, 1);
            Some(Stack::new(lrs[0], filtered, rest))
        } else if filtered.len() > 0 {
            let rest = copy_from(&filtered, 1);
            let r = Stack::new(filtered[0], rest, Vec::new());
            assert(r@.down =~= Seq::<T>::empty());
            Some(r)
        } else {
            None
        }
    }

    /// Moves the focus to the element above it, wrapping round at the top.
    pub fn focus_up(&self) -> (r: Stack<T>)
        ensures
            r@ == self@.focus_up(),
    {
        if self.up.len() == 0 {
            let mut tmp = copy_reversed(&self.down);
            tmp.push(self.focus);
            proof {
                assert(tmp@ =~= (seq![self.focus] + self.down@).reverse());
            }
            let xs = copy_from(&tmp, 1);
            let r = Stack::new(tmp[0], xs, Vec::new());
            assert(r@.up =~= self@.focus_up().up);
            assert(r@.down =~= self@.focus_up().down);
            r
        } else {
            let mut down = vec![self.focus];
            append_copies(&mut down, &self.down);
            let up = copy_from(&self.up, 1);
            let r = Stack::new(self.up[0], up, down);
            assert(r@.down =~= self@.focus_up().down);
            r
        }
    }

    /// Moves the focus to the element below it, wrapping round at the bottom.
    pub fn focus_down(&self) -> (r: Stack<T>)
        ensures
            r@ == self@.focus_down(),
    {
        self.reverse().focus_up().reverse()
    }

    /// Moves the focused element one place up, wrapping round at the top.
    pub fn swap_up(&self) -> (r: Stack<T>)
        ensures
            r@ == self@.swap_up(),
    {
        if self.up.len() == 0 {
            let r = Stack::new(self.focus, copy_reversed(&self.down), Vec::new());
            assert(r@.down =~= self@.swap_up().down);
            r
        } else {
            let x = self.up[0];
            let xs = copy_from(&self.up, 1);
            let mut rs = vec![x];
            append_copies(&mut rs, &self.down);
            let r = Stack::new(self.focus, xs, rs);
            assert(r@.down =~= self@.swap_up().down);
            r
        }
    }

    /// Moves the focused element one place down, wrapping round at the bottom.
    pub fn swap_down(&self) -> (r: Stack<T>)
        ensures
            r@ == self@.swap_down(),
    {
        self.reverse().swap_up().reverse()
    }

    /// Moves the focused element to the top of the stack.
    pub fn swap_master(&self) -> (r: Stack<T>)
        ensures
            r@ == self@.swap_master(),
    {
        if self.up.len() == 0 {
            return Stack::new(self.focus, copy_all(&self.up), copy_all(&self.down));
        }
        let mut rs = copy_reversed(&self.up);
        append_copies(&mut rs, &self.down);
        let s = Stack::new(self.focus, Vec::new(), rs);
        assert(s@.up =~= self@.swap_master().up);
        s
    }

    /// Reverses the stack by exchanging `up` and `down`.
    pub fn reverse(&self) -> (r: Stack<T>)
        ensures
            r@ == self@.reverse(),
    {
        Stack { focus: self.focus, up: copy_all(&self.down), down: copy_all(&self.up) }
    }

    /// Number of elements tracked by the stack.
    pub fn len(&self) -> (r: usize)
        requires
            self@.len() <= usize::MAX,
        ensures
            r == self@.len(),
    {
        1 + self.up.len() + self.down.len()
    }

    /// Whether the stack tracks no element; never the case.
    pub fn is_empty(&self) -> (r: bool)
        requires
            self@.len() <= usize::MAX,
        ensures
            r == (self@.len() == 0),
            !r,
    {
        self.len() == 0
    }

    /// Whether `t` is tracked by the stack.
    pub fn contains(&self, t: T) -> (r: bool)
        requires
            vstd::laws_eq::obeys_concrete_eq::<T>(),
        ensures
            r == self@.contains(t),
    {
        let all = self.integrate();
        let mut i: usize = 0;
        while i < all.len()
            invariant
                i <= all.len(),
                all@ == self@.integrate(),
                vstd::laws_eq::obeys_concrete_eq::<T>(),
                forall|k: int| 0 <= k < i ==> all@[k] != t,
            decreases all.len() - i,
        {
            proof {
                reveal(vstd::laws_eq::obeys_concrete_eq);
            }
            if all[i] == t {
                assert(all@[i as int] == t);
                return true;
            }
            i = i + 1;
        }
        false
    }
}

impl<T: Copy> Clone for Stack<T> {
    /// A copy with the same focus and the same elements on either side.
    fn clone(&self) -> (r: Stack<T>)
        ensures
            r@ == self@,
    {
        Stack { focus: self.focus, up: copy_all(&self.up), down: copy_all(&self.down) }
    }
}

impl<T> From<T> for Stack<T> {
    /// A stack with `t` as its focus and nothing above or below.
    fn from(t: T) -> (r: Stack<T>)
        ensures
            r@ == (StackModel { focus: t, up: Seq::<T>::empty(), down: Seq::<T>::empty() }),
    {
        Stack { focus: t, up: Vec::new(), down: Vec::new() }
    }
}

impl<T> vstd::std_specs::convert::FromSpecImpl<T> for Stack<T> {
    /// The result is described by the `ensures` of `from`, over the view.
    open spec fn obeys_from_spec() -> bool {
        false
    }

    open spec fn from_spec(t: T) -> Stack<T> {
        choose|s: Stack<T>|
            s@ == (StackModel { focus: t, up: Seq::<T>::empty(), down: Seq::<T>::empty() })
    }
}

/// Reversing a sequence twice gives it back.
proof fn lemma_seq_reverse_reverse<T>(s: Seq<T>)
    ensures
        s.reverse().reverse() == s,
{
    assert(s.reverse().reverse() =~= s);
}

/// Reversing a stack reverses its flattened order.
pub proof fn lemma_reverse_integrate<T>(s: StackModel<T>)
    ensures
        s.reverse().integrate() == s.integrate().reverse(),
{
    assert(s.reverse().integrate() =~= s.integrate().reverse());
}

/// Reversing a stack twice gives back the same stack.
pub proof fn lemma_reverse_involution<T>(s: StackModel<T>)
    ensures
        s.reverse().reverse() == s,
{
}

/// Moving the focus up keeps the flattened order and moves the focus one
/// position towards the head, from the head round to the last position.
pub proof fn lemma_focus_up_keeps_order<T>(s: StackModel<T>)
    ensures
        s.focus_up().integrate() == s.integrate(),
        s.focus_up().len() == s.len(),
        s.focus_up().focus_index() == (s.focus_index() + s.len() - 1) % (s.len() as int),
{
    let n = s.len() as int;
    if s.up.len() == 0 {
        let tmp = (seq![s.focus] + s.down).reverse();
        lemma_seq_reverse_reverse(seq![s.focus] + s.down);
        assert(s.focus_up().integrate() =~= tmp.reverse());
        vstd::arithmetic::div_mod::lemma_small_mod((n - 1) as nat, n as nat);
    } else {
        assert(s.focus_up().integrate() =~= s.integrate());
        vstd::arithmetic::div_mod::lemma_mod_add_multiples_vanish(s.up.len() - 1, n);
        vstd::arithmetic::div_mod::lemma_small_mod((s.up.len() - 1) as nat, n as nat);
    }
}

/// Moving the focus down keeps the flattened order and moves the focus one
/// position towards the end, from the last position round to the head.
pub proof fn lemma_focus_down_keeps_order<T>(s: StackModel<T>)
    ensures
        s.focus_down().integrate() == s.integrate(),
        s.focus_down().len() == s.len(),
        s.focus_down().focus_index() == (s.focus_index() + 1) % s.len(),
{
    let n = s.len() as int;
    let t = s.reverse().focus_up();
    lemma_focus_up_keeps_order(s.reverse());
    lemma_reverse_integrate(s);
    lemma_reverse_integrate(t);
    lemma_seq_reverse_reverse(s.integrate());
    if s.down.len() == 0 {
        vstd::arithmetic::div_mod::lemma_small_mod((n - 1) as nat, n as nat);
        vstd::arithmetic::div_mod::lemma_mod_self_0(n);
    } else {
        vstd::arithmetic::div_mod::lemma_mod_add_multiples_vanish(s.down.len() - 1, n);
        vstd::arithmetic::div_mod::lemma_small_mod((s.down.len() - 1) as nat, n as nat);
        vstd::arithmetic::div_mod::lemma_small_mod((s.up.len() + 1) as nat, n as nat);
    }
}

/// Moving the focus up and then down, or down and then up, gives back the
/// same stack.
pub proof fn lemma_focus_round_trip<T>(s: StackModel<T>)
    ensures
        s.focus_up().focus_down() == s,
        s.focus_down().focus_up() == s,
{
    lemma_focus_up_then_down(s);
    lemma_focus_up_then_down(s.reverse());
}

proof fn lemma_focus_up_then_down<T>(s: StackModel<T>)
    ensures
        s.focus_up().focus_down() == s,
{
    let u = s.focus_up();
    let b = u.reverse().focus_up();
    if s.up.len() == 0 {
        let tmp = (seq![s.focus] + s.down).reverse();
        assert(seq![tmp[0]] + tmp.drop_first() =~= tmp);
        lemma_seq_reverse_reverse(seq![s.focus] + s.down);
        assert(b.up =~= s.down);
        assert(b.reverse().down =~= s.down);
        assert(b.reverse().up =~= s.up);
    } else {
        assert(b.down =~= s.up);
        assert(b.reverse().down =~= s.down);
    }
}

/// Adding an element that the stack does not track yet makes the stack one
/// larger, focuses that element, and keeps every element tracked before.
pub proof fn lemma_add_fresh<T>(s: StackModel<T>, t: T)
    requires
        !s.contains(t),
    ensures
        s.add(t).len() == s.len() + 1,
        s.add(t).focus == t,
        s.add(t).contains(t),
        forall|x: T| s.contains(x) ==> #[trigger] s.add(t).contains(x),
{
    let a = s.add(t);
    let old_all = s.integrate();
    let all = a.integrate();
    assert(all[s.up.len() as int] == t);
    assert forall|x: T| s.contains(x) implies #[trigger] a.contains(x) by {
        let i = choose|i: int| 0 <= i < old_all.len() && old_all[i] == x;
        if i < s.up.len() {
            assert(all[i] == x);
        } else if i == s.up.len() {
            assert(all[all.len() - 1] == x);
        } else {
            assert(all[i] == x);
        }
    }
}

/// Moving the focus to the top changes nothing when it is already there.
pub proof fn lemma_swap_master_at_top<T>(s: StackModel<T>)
    requires
        s.up.len() == 0,
    ensures
        s.swap_master() == s,
{
}

/// Filtering a sequence by two predicates that agree on its elements gives
/// the same sequence.
pub proof fn lemma_filter_congruent<T>(s: Seq<T>, p: spec_fn(T) -> bool, q: spec_fn(T) -> bool)
    requires
        forall|i: int| 0 <= i < s.len() ==> p(#[trigger] s[i]) == q(s[i]),
    ensures
        s.filter(p) == s.filter(q),
    decreases s.len(),
{
    reveal(Seq::filter);
    if s.len() > 0 {
        let init = s.drop_last();
        assert forall|i: int| 0 <= i < init.len() implies p(#[trigger] init[i]) == q(init[i]) by {
            assert(init[i] == s[i]);
        }
        lemma_filter_congruent(init, p, q);
        assert(p(s[s.len() - 1]) == q(s[s.len() - 1]));
    }
}

/// Filtering a stack by two predicates that agree on its elements gives the
/// same result.
pub proof fn lemma_stack_filter_congruent<T>(s: StackModel<T>, p: spec_fn(T) -> bool, q: spec_fn(T) -> bool)
    requires
        forall|x: T| s.contains(x) ==> p(x) == q(x),
    ensures
        s.filter(p) == s.filter(q),
{
    let lower = seq![s.focus] + s.down;
    let all = s.integrate();
    assert forall|i: int| 0 <= i < lower.len() implies p(#[trigger] lower[i]) == q(lower[i]) by {
        assert(all[s.up.len() + i] == lower[i]);
        assert(s.contains(lower[i]));
    }
    assert forall|i: int| 0 <= i < s.up.len() implies p(#[trigger] s.up[i]) == q(s.up[i]) by {
        assert(all[s.up.len() - 1 - i] == s.up[i]);
        assert(s.contains(s.up[i]));
    }
    lemma_filter_congruent(lower, p, q);
    lemma_filter_congruent(s.up, p, q);
}

/// An element of a filtered sequence is one of the sequence that the
/// predicate keeps, and each such element stays.
proof fn lemma_seq_filter_members<T>(s: Seq<T>, p: spec_fn(T) -> bool, x: T)
    ensures
        s.filter(p).contains(x) <==> (s.contains(x) && p(x)),
{
    broadcast use vstd::seq_lib::group_filter_ensures;

    if s.filter(p).contains(x) {
        s.lemma_filter_contains_rev(p, x);
        let i = choose|i: int| 0 <= i < s.filter(p).len() && s.filter(p)[i] == x;
        assert(p(s.filter(p)[i]));
    }
    if s.contains(x) && p(x) {
        let i = choose|i: int| 0 <= i < s.len() && s[i] == x;
        s.lemma_filter_contains(p, i);
    }
}

/// An element is in a non-empty sequence exactly when it is the first or lies
/// in the rest.
proof fn lemma_seq_first_rest_members<T>(s: Seq<T>, x: T)
    requires
        s.len() > 0,
    ensures
        s.contains(x) <==> (x == s[0] || s.drop_first().contains(x)),
{
    if s.contains(x) && x != s[0] {
        let i = choose|i: int| 0 <= i < s.len() && s[i] == x;
        assert(s.drop_first()[i - 1] == x);
    }
    if s.drop_first().contains(x) {
        let i = choose|i: int| 0 <= i < s.len() - 1 && s.drop_first()[i] == x;
        assert(s[i + 1] == x);
    }
}

/// An element is in a reversed sequence exactly when it is in the sequence.
proof fn lemma_seq_reverse_members<T>(s: Seq<T>, x: T)
    ensures
        s.reverse().contains(x) <==> s.contains(x),
{
    if s.contains(x) {
        let i = choose|i: int| 0 <= i < s.len() && s[i] == x;
        assert(s.reverse()[s.len() - 1 - i] == x);
    }
    if s.reverse().contains(x) {
        let i = choose|i: int| 0 <= i < s.len() && s.reverse()[i] == x;
        assert(s[s.len() - 1 - i] == x);
    }
}

/// An element is tracked by a stack exactly when it is the focus or lies on
/// one of the two sides.
pub proof fn lemma_contains_parts<T>(s: StackModel<T>, x: T)
    ensures
        s.contains(x) <==> (x == s.focus || s.up.contains(x) || s.down.contains(x)),
{
    broadcast use vstd::seq_lib::group_seq_properties;

    lemma_seq_reverse_members(s.up, x);
    assert(s.integrate() == s.up.reverse() + (seq![s.focus] + s.down)) by {
        assert(s.integrate() =~= s.up.reverse() + (seq![s.focus] + s.down));
    }
}

/// Filtering keeps exactly the tracked elements that the predicate holds of,
/// and comes out empty exactly when it holds of none of them.
pub proof fn lemma_stack_filter_members<T>(s: StackModel<T>, keep: spec_fn(T) -> bool)
    ensures
        s.filter(keep) is None <==> (forall|x: T| s.contains(x) ==> !keep(x)),
        s.filter(keep) matches Some(t) ==> forall|x: T|
            #[trigger] t.contains(x) <==> (s.contains(x) && keep(x)),
{
    broadcast use vstd::seq_lib::group_seq_properties;

    let lower_src = seq![s.focus] + s.down;
    let lower = lower_src.filter(keep);
    let upper = s.up.filter(keep);
    assert forall|x: T| s.contains(x) <==> (lower_src.contains(x) || s.up.contains(x)) by {
        lemma_contains_parts(s, x);
    }
    assert forall|x: T| #[trigger] lower.contains(x) <==> (lower_src.contains(x) && keep(x)) by {
        lemma_seq_filter_members(lower_src, keep, x);
    }
    assert forall|x: T| #[trigger] upper.contains(x) <==> (s.up.contains(x) && keep(x)) by {
        lemma_seq_filter_members(s.up, keep, x);
    }
    if lower.len() > 0 {
        let t = s.filter(keep).unwrap();
        assert forall|x: T| #[trigger] t.contains(x) <==> (s.contains(x) && keep(x)) by {
            lemma_contains_parts(t, x);
            lemma_seq_first_rest_members(lower, x);
        }
    } else if upper.len() > 0 {
        let t = s.filter(keep).unwrap();
        assert forall|x: T| #[trigger] t.contains(x) <==> (s.contains(x) && keep(x)) by {
            lemma_contains_parts(t, x);
            lemma_seq_first_rest_members(upper, x);
        }
    } else {
        assert forall|x: T| s.contains(x) implies !keep(x) by {
            if keep(x) {
                if lower_src.contains(x) {
                    assert(lower.contains(x));
                } else {
                    assert(upper.contains(x));
                }
            }
        }
    }
    if s.filter(keep) is None {
    } else {
        let t = s.filter(keep).unwrap();
        assert(t.contains(t.focus)) by {
            lemma_contains_parts(t, t.focus);
        }
    }
}

} // verus!
