//! Actions: resumable pieces of behaviour that are advanced one tick at a
//! time, and the combinators that build larger actions out of smaller ones.
//!
//! An action is a state machine. Each of its operations has a mathematical
//! counterpart ([`Action::step`], [`Action::rewound`], [`Action::same`]) that
//! says exactly what the operation does, so that what a tree of actions does
//! over many ticks can be derived from its parts.

use vstd::prelude::*;
use std::convert::Infallible;
use std::marker::PhantomData;
use std::ops::ControlFlow;
use crate::geom::Vec3i;
use crate::ids::FactionId;
use crate::ids::NpcId;
use crate::ids::SiteId;
use crate::npc::Controller;
use crate::npc::Profession;
use crate::npc::SimulationMode;

verus! {

/// What an action sees of the world while it is ticked, and the controller it
/// may write to.
#[derive(Clone, Copy)]
pub struct NpcCtx {
    /// Time of day, in milliseconds.
    pub time_of_day: u64,
    /// Time since the simulation began, in milliseconds.
    pub time: u64,
    pub npc_id: NpcId,
    pub seed: u32,
    pub wpos: Vec3i,
    pub profession: Option<Profession>,
    pub home: Option<SiteId>,
    pub faction: Option<FactionId>,
    pub controller: Controller,
}

/// A long-running task of a character.
///
/// `R` is the type of the value with which the action finishes.
pub trait Action<R>: Sized {
    /// What must hold of an action for it to be ticked: its parts are well
    /// formed, and the closures it holds accept every context and are
    /// functions of it.
    spec fn wf(&self) -> bool;

    /// Whether two actions pursue the same task.
    spec fn same(&self, other: &Self) -> bool;

    /// The action as it was before its first tick.
    spec fn rewound(self) -> Self;

    /// One tick: the action and the context after it, and whether the action
    /// goes on (`Continue`) or has finished (`Break`, with its result).
    spec fn step(self, ctx: NpcCtx) -> (Self, NpcCtx, ControlFlow<R>);

    /// Returns `true` if the two actions pursue the same task. A tree of
    /// decisions uses this to avoid restarting a task that it is already
    /// performing.
    fn is_same(&self, other: &Self) -> (b: bool)
        requires
            self.wf(),
            other.wf(),
        ensures
            b == self.same(other),
    ;

    /// Puts the action back into its initial state, so that it can be
    /// performed again.
    fn reset(&mut self)
        requires
            old(self).wf(),
        ensures
            final(self).wf(),
            *final(self) == old(self).rewound(),
    ;

    /// Performs the action for the current tick.
    fn tick(&mut self, ctx: &mut NpcCtx) -> (flow: ControlFlow<R>)
        requires
            old(self).wf(),
        ensures
            final(self).wf(),
            (*final(self), *final(ctx), flow) == old(self).step(*old(ctx)),
    ;
}

/// Whether `f` accepts every argument and returns one result for each.
pub open spec fn is_function<X, Y, F: Fn(X) -> Y>(f: F) -> bool {
    &&& forall|x: X| call_requires(f, (x,))
    &&& forall|x: X, y1: Y, y2: Y|
        call_ensures(f, (x,), y1) && call_ensures(f, (x,), y2) ==> y1 == y2
}

/// The result of `f` on `x`.
pub open spec fn apply<X, Y, F: Fn(X) -> Y>(f: F, x: X) -> Y {
    choose|y: Y| call_ensures(f, (x,), y)
}

// Finish

/// See [`finish`].
#[derive(Clone, Copy)]
pub struct Finish;

impl Action<()> for Finish {
    open spec fn wf(&self) -> bool {
        true
    }

    open spec fn same(&self, other: &Self) -> bool {
        true
    }

    open spec fn rewound(self) -> Self {
        self
    }

    open spec fn step(self, ctx: NpcCtx) -> (Self, NpcCtx, ControlFlow<()>) {
        (self, ctx, ControlFlow::Break(()))
    }

    fn is_same(&self, other: &Self) -> (b: bool) {
        true
    }

    fn reset(&mut self) {
    }

    fn tick(&mut self, ctx: &mut NpcCtx) -> (flow: ControlFlow<()>) {
        ControlFlow::Break(())
    }
}

/// An action that finishes at once without doing anything. It ends a branch
/// of a decision.
pub fn finish() -> (a: Finish)
    ensures
        a == Finish,
{
    Finish
}

// Then

/// See [`Action::then`].
pub struct Then<A0, A1, R0> {
    pub a0: A0,
    pub a0_finished: bool,
    pub a1: A1,
    pub phantom: PhantomData<R0>,
}

impl<A0: Action<R0>, A1: Action<R1>, R0, R1> Action<R1> for Then<A0, A1, R0> {
    open spec fn wf(&self) -> bool {
        self.a0.wf() && self.a1.wf()
    }

    open spec fn same(&self, other: &Self) -> bool {
        self.a0.same(&other.a0) && self.a1.same(&other.a1)
    }

    open spec fn rewound(self) -> Self {
        Then {
            a0: self.a0.rewound(),
            a0_finished: false,
            a1: self.a1.rewound(),
            phantom: self.phantom,
        }
    }

    open spec fn step(self, ctx: NpcCtx) -> (Self, NpcCtx, ControlFlow<R1>) {
        if !self.a0_finished {
            let (a0, c0, f0) = self.a0.step(ctx);
            match f0 {
                ControlFlow::Continue(_) => (Then { a0, ..self }, c0, ControlFlow::Continue(())),
                ControlFlow::Break(_) => {
                    let (a1, c1, f1) = self.a1.step(c0);
                    (Then { a0, a0_finished: true, a1, phantom: self.phantom }, c1, f1)
                },
            }
        } else {
            let (a1, c1, f1) = self.a1.step(ctx);
            (Then { a1, ..self }, c1, f1)
        }
    }

    fn is_same(&self, other: &Self) -> (b: bool) {
        self.a0.is_same(&other.a0) && self.a1.is_same(&other.a1)
    }

    fn reset(&mut self) {
        self.a0.reset();
        self.a0_finished = false;
        self.a1.reset();
    }

    fn tick(&mut self, ctx: &mut NpcCtx) -> (flow: ControlFlow<R1>) {
        if !self.a0_finished {
            match self.a0.tick(ctx) {
                ControlFlow::Continue(_) => {
                    return ControlFlow::Continue(());
                },
                ControlFlow::Break(_) => {
                    self.a0_finished = true;
                },
            }
        }
        self.a1.tick(ctx)
    }
}

/// An action that performs `a0` and then `a1`, and finishes with the result of
/// `a1`.
pub fn then<A0: Action<R0>, A1: Action<R1>, R0, R1>(a0: A0, a1: A1) -> (t: Then<A0, A1, R0>)
    ensures
        t == (Then { a0, a0_finished: false, a1, phantom: PhantomData::<R0> }),
{
    Then { a0, a0_finished: false, a1, phantom: PhantomData }
}

// Repeat

/// See [`Action::repeat`].
pub struct Repeat<A, R>(pub A, pub PhantomData<R>);

impl<R, A: Action<R>> Action<Infallible> for Repeat<A, R> {
    open spec fn wf(&self) -> bool {
        self.0.wf()
    }

    open spec fn same(&self, other: &Self) -> bool {
        self.0.same(&other.0)
    }

    open spec fn rewound(self) -> Self {
        Repeat(self.0.rewound(), self.1)
    }

    open spec fn step(self, ctx: NpcCtx) -> (Self, NpcCtx, ControlFlow<Infallible>) {
        let (a, c, f) = self.0.step(ctx);
        match f {
            ControlFlow::Continue(_) => (Repeat(a, self.1), c, ControlFlow::Continue(())),
            ControlFlow::Break(_) => (Repeat(a.rewound(), self.1), c, ControlFlow::Continue(())),
        }
    }

    fn is_same(&self, other: &Self) -> (b: bool) {
        self.0.is_same(&other.0)
    }

    fn reset(&mut self) {
        self.0.reset();
    }

    fn tick(&mut self, ctx: &mut NpcCtx) -> (flow: ControlFlow<Infallible>)
        ensures
            flow is Continue,
    {
        match self.0.tick(ctx) {
            ControlFlow::Continue(_) => ControlFlow::Continue(()),
            ControlFlow::Break(_) => {
                self.0.reset();
                ControlFlow::Continue(())
            },
        }
    }
}

/// An action that performs `a` again and again, and never finishes.
pub fn repeat<A: Action<R>, R>(a: A) -> (r: Repeat<A, R>)
    ensures
        r == Repeat(a, PhantomData::<R>),
{
    Repeat(a, PhantomData)
}

// StopIf

/// See [`Action::stop_if`].
pub struct StopIf<A, F>(pub A, pub F);

impl<A: Action<R>, F: Fn(&NpcCtx) -> bool, R> Action<Option<R>> for StopIf<A, F> {
    open spec fn wf(&self) -> bool {
        self.0.wf() && is_function::<&NpcCtx, bool, F>(self.1)
    }

    open spec fn same(&self, other: &Self) -> bool {
        self.0.same(&other.0)
    }

    open spec fn rewound(self) -> Self {
        StopIf(self.0.rewound(), self.1)
    }

    open spec fn step(self, ctx: NpcCtx) -> (Self, NpcCtx, ControlFlow<Option<R>>) {
        if apply::<&NpcCtx, bool, F>(self.1, &ctx) {
            (self, ctx, ControlFlow::Break(None))
        } else {
            let (a, c, f) = self.0.step(ctx);
            (
                StopIf(a, self.1),
                c,
                match f {
                    ControlFlow::Continue(_) => ControlFlow::Continue(()),
                    ControlFlow::Break(r) => ControlFlow::Break(Some(r)),
                },
            )
        }
    }

    fn is_same(&self, other: &Self) -> (b: bool) {
        self.0.is_same(&other.0)
    }

    fn reset(&mut self) {
        self.0.reset();
    }

    fn tick(&mut self, ctx: &mut NpcCtx) -> (flow: ControlFlow<Option<R>>) {
        if (self.1)(ctx) {
            ControlFlow::Break(None)
        } else {
            match self.0.tick(ctx) {
                ControlFlow::Continue(_) => ControlFlow::Continue(()),
                ControlFlow::Break(r) => ControlFlow::Break(Some(r)),
            }
        }
    }
}

/// An action that performs `a` until `f` holds of the context at the start of
/// a tick; it then finishes at once with `None`, whatever `a` was doing.
pub fn stop_if<A: Action<R>, F: Fn(&NpcCtx) -> bool, R>(a: A, f: F) -> (s: StopIf<A, F>)
    ensures
        s == StopIf(a, f),
{
    StopIf(a, f)
}

// MapResult

/// See [`Action::map`].
pub struct MapResult<A, F, R>(pub A, pub F, pub PhantomData<R>);

impl<A: Action<R>, F: Fn(R) -> R1, R, R1> Action<R1> for MapResult<A, F, R> {
    open spec fn wf(&self) -> bool {
        self.0.wf() && is_function::<R, R1, F>(self.1)
    }

    open spec fn same(&self, other: &Self) -> bool {
        self.0.same(&other.0)
    }

    open spec fn rewound(self) -> Self {
        MapResult(self.0.rewound(), self.1, self.2)
    }

    open spec fn step(self, ctx: NpcCtx) -> (Self, NpcCtx, ControlFlow<R1>) {
        let (a, c, f) = self.0.step(ctx);
        (
            MapResult(a, self.1, self.2),
            c,
            match f {
                ControlFlow::Continue(_) => ControlFlow::Continue(()),
                ControlFlow::Break(r) => ControlFlow::Break(apply::<R, R1, F>(self.1, r)),
            },
        )
    }

    fn is_same(&self, other: &Self) -> (b: bool) {
        self.0.is_same(&other.0)
    }

    fn reset(&mut self) {
        self.0.reset();
    }

    fn tick(&mut self, ctx: &mut NpcCtx) -> (flow: ControlFlow<R1>) {
        match self.0.tick(ctx) {
            ControlFlow::Continue(_) => ControlFlow::Continue(()),
            ControlFlow::Break(r) => ControlFlow::Break((self.1)(r)),
        }
    }
}

/// An action that performs `a` and hands its result through `f`.
pub fn map<A: Action<R>, F: Fn(R) -> R1, R, R1>(a: A, f: F) -> (m: MapResult<A, F, R>)
    ensures
        m == MapResult(a, f, PhantomData::<R>),
{
    MapResult(a, f, PhantomData)
}

// Now

/// See [`now`].
pub struct Now<F, A>(pub F, pub Option<A>);

impl<R, F: Fn(&NpcCtx) -> A, A: Action<R>> Action<R> for Now<F, A> {
    open spec fn wf(&self) -> bool {
        &&& is_function::<&NpcCtx, A, F>(self.0)
        &&& forall|ctx: &NpcCtx, a: A| call_ensures(self.0, (ctx,), a) ==> a.wf()
        &&& self.1 matches Some(a) ==> a.wf()
    }

    open spec fn same(&self, other: &Self) -> bool {
        true
    }

    open spec fn rewound(self) -> Self {
        Now(self.0, None)
    }

    open spec fn step(self, ctx: NpcCtx) -> (Self, NpcCtx, ControlFlow<R>) {
        let started = match self.1 {
            Some(a) => a,
            None => apply::<&NpcCtx, A, F>(self.0, &ctx),
        };
        let (a, c, f) = started.step(ctx);
        (Now(self.0, Some(a)), c, f)
    }

    fn is_same(&self, other: &Self) -> (b: bool) {
        true
    }

    fn reset(&mut self) {
        self.1 = None;
    }

    fn tick(&mut self, ctx: &mut NpcCtx) -> (flow: ControlFlow<R>) {
        let mut a = match self.1.take() {
            Some(a) => a,
            None => (self.0)(&*ctx),
        };
        let flow = a.tick(ctx);
        self.1 = Some(a);
        flow
    }
}

/// An action that is chosen when it is first ticked, from the context of that
/// tick, and then performed.
pub fn now<F: Fn(&NpcCtx) -> A, A: Action<R>, R>(f: F) -> (n: Now<F, A>)
    ensures
        n == Now(f, None::<A>),
{
    Now(f, None)
}

// Just

/// See [`just`].
pub struct Just<F, R>(pub F, pub PhantomData<R>);

impl<R, F: Fn(&NpcCtx) -> (Controller, R)> Action<R> for Just<F, R> {
    open spec fn wf(&self) -> bool {
        is_function::<&NpcCtx, (Controller, R), F>(self.0)
    }

    open spec fn same(&self, other: &Self) -> bool {
        true
    }

    open spec fn rewound(self) -> Self {
        self
    }

    open spec fn step(self, ctx: NpcCtx) -> (Self, NpcCtx, ControlFlow<R>) {
        let (controller, r) = apply::<&NpcCtx, (Controller, R), F>(self.0, &ctx);
        (self, NpcCtx { controller, ..ctx }, ControlFlow::Break(r))
    }

    fn is_same(&self, other: &Self) -> (b: bool) {
        true
    }

    fn reset(&mut self) {
    }

    fn tick(&mut self, ctx: &mut NpcCtx) -> (flow: ControlFlow<R>) {
        let (controller, r) = (self.0)(&*ctx);
        ctx.controller = controller;
        ControlFlow::Break(r)
    }
}

/// An action that runs `f` once and finishes in the same tick. `f` returns the
/// controller that the character is left with, and the action's result.
pub fn just<F: Fn(&NpcCtx) -> (Controller, R), R>(f: F) -> (j: Just<F, R>)
    ensures
        j == Just(f, PhantomData::<R>),
{
    Just(f, PhantomData)
}

// Either

/// One of two actions. With it the branches of a decision can be actions of
/// different types.
pub enum Either<A, B> {
    Left(A),
    Right(B),
}

impl<R, A: Action<R>, B: Action<R>> Action<R> for Either<A, B> {
    open spec fn wf(&self) -> bool {
        match *self {
            Either::Left(a) => a.wf(),
            Either::Right(b) => b.wf(),
        }
    }

    open spec fn same(&self, other: &Self) -> bool {
        match (*self, *other) {
            (Either::Left(a), Either::Left(b)) => a.same(&b),
            (Either::Right(a), Either::Right(b)) => a.same(&b),
            _ => false,
        }
    }

    open spec fn rewound(self) -> Self {
        match self {
            Either::Left(a) => Either::Left(a.rewound()),
            Either::Right(b) => Either::Right(b.rewound()),
        }
    }

    open spec fn step(self, ctx: NpcCtx) -> (Self, NpcCtx, ControlFlow<R>) {
        match self {
            Either::Left(a) => {
                let (a, c, f) = a.step(ctx);
                (Either::Left(a), c, f)
            },
            Either::Right(b) => {
                let (b, c, f) = b.step(ctx);
                (Either::Right(b), c, f)
            },
        }
    }

    fn is_same(&self, other: &Self) -> (b: bool) {
        match self {
            Either::Left(a) => match other {
                Either::Left(b) => a.is_same(b),
                Either::Right(_) => false,
            },
            Either::Right(a) => match other {
                Either::Left(_) => false,
                Either::Right(b) => a.is_same(b),
            },
        }
    }

    fn reset(&mut self) {
        match self {
            Either::Left(a) => a.reset(),
            Either::Right(b) => b.reset(),
        }
    }

    fn tick(&mut self, ctx: &mut NpcCtx) -> (flow: ControlFlow<R>) {
        match self {
            Either::Left(a) => a.tick(ctx),
            Either::Right(b) => b.tick(ctx),
        }
    }
}

// Tree

/// How pressing an action is: the lower, the more pressing.
pub type Priority = usize;

pub const URGENT: Priority = 0;

pub const IMPORTANT: Priority = 1;

pub const CASUAL: Priority = 2;

/// An action together with its priority: what a decision proposes.
pub struct Node<A>(pub A, pub Priority);

/// Proposes `a` with priority [`URGENT`].
pub fn urgent<A: Action<R>, R>(a: A) -> (n: Node<A>)
    ensures
        n == Node(a, URGENT),
{
    Node(a, URGENT)
}

/// Proposes `a` with priority [`IMPORTANT`].
pub fn important<A: Action<R>, R>(a: A) -> (n: Node<A>)
    ensures
        n == Node(a, IMPORTANT),
{
    Node(a, IMPORTANT)
}

/// Proposes `a` with priority [`CASUAL`].
pub fn casual<A: Action<R>, R>(a: A) -> (n: Node<A>)
    ensures
        n == Node(a, CASUAL),
{
    Node(a, CASUAL)
}

/// See [`decide`] and [`watch`].
pub struct Tree<F, A> {
    pub next: F,
    pub prev: Option<Node<A>>,
    pub interrupt: bool,
}

/// Whether a tree goes on with the action `prev` that it is performing when
/// `new` is proposed: `new` is not more pressing, and either the tree does not
/// let itself be interrupted or `new` is the same task.
pub open spec fn keeps<A: Action<R>, R>(prev: Node<A>, new: Node<A>, interrupt: bool) -> bool {
    prev.1 <= new.1 && (prev.0.same(&new.0) || !interrupt)
}

/// The action that a tree performs in a tick in which `new` is proposed.
pub open spec fn chosen<A: Action<R>, R>(prev: Option<Node<A>>, new: Node<A>, interrupt: bool)
    -> Node<A> {
    match prev {
        Some(p) => if keeps(p, new, interrupt) {
            p
        } else {
            new
        },
        None => new,
    }
}

impl<R, F: Fn(&NpcCtx) -> Node<A>, A: Action<R>> Action<R> for Tree<F, A> {
    open spec fn wf(&self) -> bool {
        &&& is_function::<&NpcCtx, Node<A>, F>(self.next)
        &&& forall|ctx: &NpcCtx, n: Node<A>| call_ensures(self.next, (ctx,), n) ==> n.0.wf()
        &&& self.prev matches Some(p) ==> p.0.wf()
    }

    open spec fn same(&self, other: &Self) -> bool {
        true
    }

    open spec fn rewound(self) -> Self {
        Tree { prev: None, ..self }
    }

    open spec fn step(self, ctx: NpcCtx) -> (Self, NpcCtx, ControlFlow<R>) {
        let new = apply::<&NpcCtx, Node<A>, F>(self.next, &ctx);
        let cur = chosen(self.prev, new, self.interrupt);
        let (a, c, f) = cur.0.step(ctx);
        match f {
            ControlFlow::Continue(_) => (Tree { prev: Some(Node(a, cur.1)), ..self }, c, f),
            ControlFlow::Break(_) => (Tree { prev: None, ..self }, c, f),
        }
    }

    fn is_same(&self, other: &Self) -> (b: bool) {
        true
    }

    fn reset(&mut self) {
        self.prev = None;
    }

    fn tick(&mut self, ctx: &mut NpcCtx) -> (flow: ControlFlow<R>) {
        let new = (self.next)(&*ctx);
        let mut cur = match self.prev.take() {
            Some(prev) => {
                if prev.1 <= new.1 && (prev.0.is_same(&new.0) || !self.interrupt) {
                    prev
                } else {
                    new
                }
            },
            None => new,
        };
        match cur.0.tick(ctx) {
            ControlFlow::Continue(c) => {
                self.prev = Some(cur);
                ControlFlow::Continue(c)
            },
            ControlFlow::Break(r) => ControlFlow::Break(r),
        }
    }
}

/// A decision tree that commits to what it is doing.
///
/// `f` is asked in every tick what to do. The action that was chosen is
/// performed until it finishes, unless `f` proposes an action with a more
/// pressing priority: only then does the tree switch.
pub fn decide<F: Fn(&NpcCtx) -> Node<A>, A: Action<R>, R>(f: F) -> (t: Tree<F, A>)
    ensures
        t == (Tree { next: f, prev: None::<Node<A>>, interrupt: false }),
{
    Tree { next: f, prev: None, interrupt: false }
}

/// A decision tree that follows every change of mind.
///
/// `f` is asked in every tick what to do. The action that was chosen is
/// performed until it finishes, unless `f` proposes an action that is more
/// pressing or a different task: then the tree switches.
pub fn watch<F: Fn(&NpcCtx) -> Node<A>, A: Action<R>, R>(f: F) -> (t: Tree<F, A>)
    ensures
        t == (Tree { next: f, prev: None::<Node<A>>, interrupt: true }),
{
    Tree { next: f, prev: None, interrupt: true }
}

// Sequence

/// See [`seq`].
pub enum Sequence<A, R> {
    /// Nothing is left to perform.
    Done(PhantomData<R>),
    /// An action, whether it has finished, and what follows it.
    Item(A, bool, Box<Sequence<A, R>>),
}

impl<R, A: Action<R>> Action<()> for Sequence<A, R> {
    open spec fn wf(&self) -> bool
        decreases *self,
    {
        match *self {
            Sequence::Done(_) => true,
            Sequence::Item(a, _, rest) => a.wf() && rest.wf(),
        }
    }

    open spec fn same(&self, other: &Self) -> bool {
        true
    }

    open spec fn rewound(self) -> Self
        decreases self,
    {
        match self {
            Sequence::Done(p) => Sequence::Done(p),
            Sequence::Item(a, _, rest) => Sequence::Item(
                a.rewound(),
                false,
                Box::new(rest.rewound()),
            ),
        }
    }

    open spec fn step(self, ctx: NpcCtx) -> (Self, NpcCtx, ControlFlow<()>)
        decreases self,
    {
        match self {
            Sequence::Done(p) => (Sequence::Done(p), ctx, ControlFlow::Break(())),
            Sequence::Item(a, done, rest) => if done {
                let (r, c, f) = rest.step(ctx);
                (Sequence::Item(a, true, Box::new(r)), c, f)
            } else {
                let (a1, c, f) = a.step(ctx);
                (Sequence::Item(a1, f is Break, rest), c, ControlFlow::Continue(()))
            },
        }
    }

    fn is_same(&self, other: &Self) -> (b: bool) {
        true
    }

    fn reset(&mut self)
        decreases *old(self),
    {
        match self {
            Sequence::Done(_) => {},
            Sequence::Item(a, done, rest) => {
                a.reset();
                *done = false;
                rest.reset();
            },
        }
    }

    fn tick(&mut self, ctx: &mut NpcCtx) -> (flow: ControlFlow<()>)
        decreases *old(self),
    {
        match self {
            Sequence::Done(_) => ControlFlow::Break(()),
            Sequence::Item(a, done, rest) => {
                if *done {
                    rest.tick(ctx)
                } else {
                    match a.tick(ctx) {
                        ControlFlow::Continue(_) => {},
                        ControlFlow::Break(_) => {
                            *done = true;
                        },
                    }
                    ControlFlow::Continue(())
                }
            },
        }
    }
}

/// The sequence that performs `items` from the first to the last.
pub open spec fn seq_of<A, R>(items: Seq<A>) -> Sequence<A, R>
    decreases items.len(),
{
    if items.len() == 0 {
        Sequence::Done(PhantomData)
    } else {
        Sequence::Item(items[0], false, Box::new(seq_of(items.drop_first())))
    }
}

/// An action that performs the given actions one after another, each until it
/// finishes, and then finishes itself, in the tick after the last one did.
pub fn seq<A: Action<R>, R>(items: Vec<A>) -> (s: Sequence<A, R>)
    ensures
        s == seq_of::<A, R>(items@),
{
    let mut items = items;
    let ghost all = items@;
    let mut s: Sequence<A, R> = Sequence::Done(PhantomData);
    while items.len() > 0
        invariant
            items@.len() <= all.len(),
            items@ == all.subrange(0, items@.len() as int),
            s == seq_of::<A, R>(all.subrange(items@.len() as int, all.len() as int)),
        decreases items.len(),
    {
        let ghost before = items@;
        let a = items.pop().unwrap();
        proof {
            let tail = all.subrange(before.len() as int, all.len() as int);
            let longer = all.subrange(items@.len() as int, all.len() as int);
            assert(longer.len() > 0);
            assert(longer[0] == a);
            assert(longer.drop_first() == tail);
        }
        s = Sequence::Item(a, false, Box::new(s));
    }
    proof {
        assert(all.subrange(0, all.len() as int) == all);
    }
    s
}

// What actions do over many ticks

/// The action `a` after one tick in each of the contexts `ctxs`, in order.
pub open spec fn after<A: Action<R>, R>(a: A, ctxs: Seq<NpcCtx>) -> A
    decreases ctxs.len(),
{
    if ctxs.len() == 0 {
        a
    } else {
        after(a, ctxs.drop_last()).step(ctxs.last()).0
    }
}

/// What the tick in context `ctxs[n]` reports, after one tick in each of the
/// contexts before it.
pub open spec fn flow_at<A: Action<R>, R>(a: A, ctxs: Seq<NpcCtx>, n: int) -> ControlFlow<R> {
    after(a, ctxs.take(n)).step(ctxs[n]).2
}

/// Whether `a` goes on in each of the ticks `ctxs`.
pub open spec fn never_finishes<A: Action<R>, R>(a: A, ctxs: Seq<NpcCtx>) -> bool {
    forall|n: int| 0 <= n < ctxs.len() ==> (#[trigger] flow_at(a, ctxs, n)) is Continue
}

/// An action that repeats another never reports that it has finished, however
/// often the repeated action finishes.
pub proof fn lemma_repeat_never_finishes<A: Action<R>, R>(a: A, ctxs: Seq<NpcCtx>, n: int)
    requires
        0 <= n < ctxs.len(),
    ensures
        flow_at(Repeat(a, PhantomData::<R>), ctxs, n) is Continue,
{
}

/// A repeated action that finishes starts anew: after the tick in which it
/// finished it is in its initial state.
pub proof fn lemma_repeat_restarts<A: Action<R>, R>(a: A, ctx: NpcCtx)
    requires
        a.step(ctx).2 is Break,
    ensures
        (Repeat(a, PhantomData::<R>).step(ctx).0).0 == a.step(ctx).0.rewound(),
        Repeat(a, PhantomData::<R>).step(ctx).1 == a.step(ctx).1,
{
}

/// While the first of two chained actions goes on, the second is not ticked:
/// it stays as it was given, and the chain goes on.
pub proof fn lemma_then_waits<A0: Action<R0>, A1: Action<R1>, R0, R1>(
    a0: A0,
    a1: A1,
    ctxs: Seq<NpcCtx>,
)
    requires
        never_finishes(a0, ctxs),
    ensures
        after(Then { a0, a0_finished: false, a1, phantom: PhantomData::<R0> }, ctxs) == (Then {
            a0: after(a0, ctxs),
            a0_finished: false,
            a1,
            phantom: PhantomData::<R0>,
        }),
        never_finishes(Then { a0, a0_finished: false, a1, phantom: PhantomData::<R0> }, ctxs),
    decreases ctxs.len(),
{
    let t = Then { a0, a0_finished: false, a1, phantom: PhantomData::<R0> };
    if ctxs.len() > 0 {
        let shorter = ctxs.drop_last();
        assert forall|n: int| 0 <= n < shorter.len() implies (#[trigger] flow_at(
            a0,
            shorter,
            n,
        )) is Continue by {
            assert(shorter.take(n) == ctxs.take(n));
            assert(flow_at(a0, ctxs, n) is Continue);
        }
        lemma_then_waits(a0, a1, shorter);
        let last = ctxs.len() - 1;
        assert(ctxs.take(last) == shorter);
        assert(flow_at(a0, ctxs, last) is Continue);
        assert forall|n: int| 0 <= n < ctxs.len() implies (#[trigger] flow_at(
            t,
            ctxs,
            n,
        )) is Continue by {
            if n < last {
                assert(shorter.take(n) == ctxs.take(n));
                assert(flow_at(t, shorter, n) is Continue);
            }
        }
    }
}

/// In the tick in which the first of two chained actions finishes, the second
/// is ticked for the first time, in the context that the first has left; what
/// it reports is what the chain reports.
pub proof fn lemma_then_hands_over<A0: Action<R0>, A1: Action<R1>, R0, R1>(
    a0: A0,
    a1: A1,
    ctx: NpcCtx,
)
    requires
        a0.step(ctx).2 is Break,
    ensures
        ({
            let t = Then { a0, a0_finished: false, a1, phantom: PhantomData::<R0> };
            let second = a1.step(a0.step(ctx).1);
            &&& t.step(ctx).0 == (Then {
                a0: a0.step(ctx).0,
                a0_finished: true,
                a1: second.0,
                phantom: PhantomData::<R0>,
            })
            &&& t.step(ctx).1 == second.1
            &&& t.step(ctx).2 == second.2
        }),
{
}

/// What a tree's decision function proposes in the context `ctx`.
pub open spec fn proposal<F: Fn(&NpcCtx) -> Node<A>, A: Action<R>, R>(
    tree: Tree<F, A>,
    ctx: NpcCtx,
) -> Node<A> {
    apply::<&NpcCtx, Node<A>, F>(tree.next, &ctx)
}

/// A committing tree that is performing an action goes on with it when the
/// proposal is not more pressing, whether or not it is the same task: the
/// action is ticked where it stands, not restarted.
pub proof fn lemma_decide_is_sticky<F: Fn(&NpcCtx) -> Node<A>, A: Action<R>, R>(
    tree: Tree<F, A>,
    ctx: NpcCtx,
)
    requires
        !tree.interrupt,
        tree.prev is Some,
        tree.prev.unwrap().1 <= proposal(tree, ctx).1,
    ensures
        tree.step(ctx).1 == tree.prev.unwrap().0.step(ctx).1,
        tree.step(ctx).2 == tree.prev.unwrap().0.step(ctx).2,
        tree.step(ctx).2 is Continue ==> tree.step(ctx).0.prev == Some(
            Node(tree.prev.unwrap().0.step(ctx).0, tree.prev.unwrap().1),
        ),
{
}

/// A tree that is performing an action, of either kind, gives it up for a
/// proposal that is more pressing: the proposed action is ticked from its
/// start.
pub proof fn lemma_tree_yields_to_urgency<F: Fn(&NpcCtx) -> Node<A>, A: Action<R>, R>(
    tree: Tree<F, A>,
    ctx: NpcCtx,
)
    requires
        tree.prev is Some,
        proposal(tree, ctx).1 < tree.prev.unwrap().1,
    ensures
        tree.step(ctx).1 == proposal(tree, ctx).0.step(ctx).1,
        tree.step(ctx).2 == proposal(tree, ctx).0.step(ctx).2,
        tree.step(ctx).2 is Continue ==> tree.step(ctx).0.prev == Some(
            Node(proposal(tree, ctx).0.step(ctx).0, proposal(tree, ctx).1),
        ),
{
}

/// A watching tree gives up the action that it is performing whenever the
/// proposal is a different task; it goes on with it when the proposal is the
/// same task and not more pressing.
pub proof fn lemma_watch_follows<F: Fn(&NpcCtx) -> Node<A>, A: Action<R>, R>(
    tree: Tree<F, A>,
    ctx: NpcCtx,
)
    requires
        tree.interrupt,
        tree.prev is Some,
    ensures
        !tree.prev.unwrap().0.same(&proposal(tree, ctx).0) ==> tree.step(ctx).2 == proposal(
            tree,
            ctx,
        ).0.step(ctx).2 && tree.step(ctx).1 == proposal(tree, ctx).0.step(ctx).1,
        tree.prev.unwrap().0.same(&proposal(tree, ctx).0) && tree.prev.unwrap().1 <= proposal(tree, ctx).1
            ==> tree.step(ctx).2 == tree.prev.unwrap().0.step(ctx).2 && tree.step(ctx).1
            == tree.prev.unwrap().0.step(ctx).1,
{
}

/// A committing tree stays with its action over any number of ticks in which
/// nothing more pressing is proposed and the action does not finish: after
/// them the tree holds that action, advanced by as many ticks and never
/// restarted.
pub proof fn lemma_decide_commits<F: Fn(&NpcCtx) -> Node<A>, A: Action<R>, R>(
    tree: Tree<F, A>,
    ctxs: Seq<NpcCtx>,
)
    requires
        !tree.interrupt,
        tree.prev is Some,
        never_finishes(tree.prev.unwrap().0, ctxs),
        forall|n: int|
            0 <= n < ctxs.len() ==> tree.prev.unwrap().1 <= (#[trigger] proposal(tree, ctxs[n])).1,
    ensures
        after(tree, ctxs) == (Tree {
            prev: Some(Node(after(tree.prev.unwrap().0, ctxs), tree.prev.unwrap().1)),
            ..tree
        }),
        never_finishes(tree, ctxs),
    decreases ctxs.len(),
{
    let p = tree.prev.unwrap();
    if ctxs.len() > 0 {
        let shorter = ctxs.drop_last();
        let last = ctxs.len() - 1;
        assert forall|n: int| 0 <= n < shorter.len() implies (#[trigger] flow_at(
            p.0,
            shorter,
            n,
        )) is Continue by {
            assert(shorter.take(n) == ctxs.take(n));
            assert(flow_at(p.0, ctxs, n) is Continue);
        }
        assert forall|n: int| 0 <= n < shorter.len() implies p.1 <= (#[trigger] proposal(
            tree,
            shorter[n],
        )).1 by {
            assert(shorter[n] == ctxs[n]);
        }
        lemma_decide_commits(tree, shorter);
        assert(ctxs.take(last) == shorter);
        assert(flow_at(p.0, ctxs, last) is Continue);
        let held = after(tree, shorter);
        assert(held.next == tree.next);
        assert(proposal(held, ctxs[last]) == proposal(tree, ctxs[last]));
        assert forall|n: int| 0 <= n < ctxs.len() implies (#[trigger] flow_at(
            tree,
            ctxs,
            n,
        )) is Continue by {
            if n < last {
                assert(shorter.take(n) == ctxs.take(n));
                assert(flow_at(tree, shorter, n) is Continue);
            }
        }
    } else {
        assert(tree == (Tree { prev: Some(Node(p.0, p.1)), ..tree }));
    }
}

// Brain

/// The action that a simulated character is performing.
pub struct Brain<A> {
    pub action: A,
}

/// Lets a character think for a tick: a simulated character performs the
/// action of its brain for the tick; a character that mirrors a game entity
/// has no brain, and loses the one that it had.
pub fn think<A: Action<Infallible>>(
    brain: &mut Option<Brain<A>>,
    mode: SimulationMode,
    ctx: &mut NpcCtx,
)
    requires
        *old(brain) matches Some(b) ==> b.action.wf(),
    ensures
        *final(brain) matches Some(b) ==> b.action.wf(),
        mode == SimulationMode::Loaded ==> final(brain).is_none() && *final(ctx) == *old(ctx),
        mode == SimulationMode::Simulated ==> match *old(brain) {
            Some(b) => *final(brain) == Some(Brain { action: b.action.step(*old(ctx)).0 })
                && *final(ctx) == b.action.step(*old(ctx)).1,
            None => final(brain).is_none() && *final(ctx) == *old(ctx),
        },
{
    match mode {
        SimulationMode::Loaded => {
            *brain = None;
        },
        SimulationMode::Simulated => {
            match brain.take() {
                Some(b) => {
                    let mut b = b;
                    let _ = b.action.tick(ctx);
                    *brain = Some(b);
                },
                None => {},
            }
        },
    }
}

} // verus!
