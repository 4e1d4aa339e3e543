//! User callbacks held by components.
//!
//! A component keeps the closure its user hands it and calls it when an event
//! fires. What Verus knows of a closure is which arguments it accepts
//! (`call_requires`) and what it promises once called (`call_ensures`); a
//! component's contract says which value it hands its callback by stating that
//! the callback's promise for that value holds.

use std::sync::Arc;
use vstd::prelude::*;

verus! {

/// A closure that can be shared between threads and called with one argument.
pub trait Callback<A>: Send + Sync {
    /// Whether the closure accepts `a`.
    spec fn accepts(&self, a: A) -> bool;

    /// What the closure promises once called with `a`.
    spec fn promises(&self, a: A) -> bool;

    /// Calls the closure with `a`.
    fn invoke(&self, a: A)
        requires
            self.accepts(a),
        ensures
            self.promises(a),
    ;
}

impl<A, F: Fn(A) + Send + Sync> Callback<A> for F {
    open spec fn accepts(&self, a: A) -> bool {
        call_requires(*self, (a,))
    }

    open spec fn promises(&self, a: A) -> bool {
        call_ensures(*self, (a,), ())
    }

    fn invoke(&self, a: A) {
        (self)(a)
    }
}

/// A closure that can be shared between threads and called with no argument.
pub trait Callback0: Send + Sync {
    /// Whether the closure can be called.
    spec fn accepts0(&self) -> bool;

    /// What the closure promises once called.
    spec fn promises0(&self) -> bool;

    /// Calls the closure.
    fn invoke0(&self)
        requires
            self.accepts0(),
        ensures
            self.promises0(),
    ;
}

impl<F: Fn() + Send + Sync> Callback0 for F {
    open spec fn accepts0(&self) -> bool {
        call_requires(*self, ())
    }

    open spec fn promises0(&self) -> bool {
        call_ensures(*self, (), ())
    }

    fn invoke0(&self) {
        (self)()
    }
}

/// A shared user callback that takes one argument. It accepts every argument.
#[verifier::reject_recursive_types(A)]
pub struct Handler<A> {
    f: Arc<Box<dyn Callback<A>>>,
}

impl<A> Handler<A> {
    #[verifier::type_invariant]
    spec fn accepts_every_argument(self) -> bool {
        forall|a: A| #[trigger] self.f.accepts(a)
    }

    /// What the callback promises once called with `a`.
    pub closed spec fn promises(&self, a: A) -> bool {
        self.f.promises(a)
    }

    /// Wraps a closure that accepts every argument: the handler promises what
    /// the closure promises.
    pub(crate) fn new<F: Fn(A) + Send + Sync + 'static>(f: F) -> (r: Handler<A>)
        requires
            forall|a: A| call_requires(f, (a,)),
        ensures
            forall|a: A| #[trigger] r.promises(a) == call_ensures(f, (a,), ()),
    {
        let b: Box<dyn Callback<A>> = Box::new(f);
        Handler { f: Arc::new(b) }
    }

    /// Calls the callback with `arg`; afterwards its promise for `arg` holds.
    pub(crate) fn call(&self, arg: A)
        ensures
            self.promises(arg),
    {
        proof {
            use_type_invariant(self);
        }
        self.f.invoke(arg)
    }
}

impl<A> Clone for Handler<A> {
    /// Shares the same closure.
    fn clone(&self) -> (r: Self)
        ensures
            forall|a: A| #[trigger] r.promises(a) == self.promises(a),
    {
        proof {
            use_type_invariant(self);
        }
        Handler { f: self.f.clone() }
    }
}

/// A shared user callback that takes no argument. It can always be called.
pub struct Action {
    f: Arc<Box<dyn Callback0>>,
}

impl Action {
    #[verifier::type_invariant]
    spec fn can_be_called(self) -> bool {
        self.f.accepts0()
    }

    /// What the callback promises once called.
    pub closed spec fn promises(&self) -> bool {
        self.f.promises0()
    }

    /// Wraps a closure that can be called: the action promises what the
    /// closure promises.
    pub(crate) fn new<F: Fn() + Send + Sync + 'static>(f: F) -> (r: Action)
        requires
            call_requires(f, ()),
        ensures
            r.promises() == call_ensures(f, (), ()),
    {
        let b: Box<dyn Callback0> = Box::new(f);
        Action { f: Arc::new(b) }
    }

    /// Calls the callback; afterwards its promise holds.
    pub(crate) fn call(&self)
        ensures
            self.promises(),
    {
        proof {
            use_type_invariant(self);
        }
        self.f.invoke0()
    }
}

impl Clone for Action {
    /// Shares the same closure.
    fn clone(&self) -> (r: Self)
        ensures
            r.promises() == self.promises(),
    {
        proof {
            use_type_invariant(self);
        }
        Action { f: self.f.clone() }
    }
}

} // verus!
