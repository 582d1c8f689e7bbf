//! Listeners and the context they are called with.

use crate::controller::EventController;
use std::rc::Rc;
use vstd::prelude::*;

verus! {

/// Provides event-related data to callbacks.
///
/// - `controller`: the [`EventController`] that dispatches the event.
/// - `event`: the event being processed.
#[verifier::reject_recursive_types(S)]
#[verifier::reject_recursive_types(E)]
pub struct EventContext<'a, S, E> {
    pub controller: &'a EventController<S, E>,
    pub event: &'a E,
}

impl<'a, S, E> EventContext<'a, S, E> {
    /// The context of `event` as dispatched by `controller`.
    pub fn new(controller: &'a EventController<S, E>, event: &'a E) -> (ctx: Self)
        ensures
            ctx.controller == controller,
            ctx.event == event,
    {
        Self { controller, event }
    }
}

/// Something that can be notified of an event.
pub trait EventListener<S, E> {
    /// The listener accepts every context and every state.
    spec fn total(&self) -> bool;

    /// The listener can return from a call with `ctx` on the borrow
    /// `state`. A borrow holds a value when the call begins and another when
    /// it ends, so this relates the state that the listener found with the
    /// state that it left.
    spec fn delivered(&self, ctx: EventContext<S, E>, state: &mut S) -> bool;

    /// Calls the listener once with `ctx` and `state`.
    fn notify(&self, ctx: EventContext<S, E>, state: &mut S)
        requires
            self.total(),
        ensures
            exists|r: &mut S|
                *r == *old(state) && *final(r) == *final(state) && #[trigger] self.delivered(
                    ctx,
                    r,
                ),
    ;
}

/// A listener made of a closure: it accepts what the closure accepts, and a
/// call of it is a call of the closure.
pub struct FnListener<F> {
    pub f: F,
}

impl<S, E, F: Fn(EventContext<S, E>, &mut S)> EventListener<S, E> for FnListener<F> {
    open spec fn total(&self) -> bool {
        forall|ctx: EventContext<S, E>, state: &mut S| #[trigger] call_requires(self.f, (ctx, state))
    }

    open spec fn delivered(&self, ctx: EventContext<S, E>, state: &mut S) -> bool {
        call_ensures(self.f, (ctx, state), ())
    }

    fn notify(&self, ctx: EventContext<S, E>, state: &mut S) {
        (self.f)(ctx, state);
        proof {
            let r = choose|r: &mut S|
                *r == *old(state) && *final(r) == *state && call_ensures(self.f, (ctx, r), ());
            assert(self.delivered(ctx, r));
        }
    }
}

/// A registered listener. It is boxed, so that listeners made of different
/// closures can stand side by side, and reference-counted, so that a pass in
/// flight keeps its listeners while the registry changes.
pub type EventCallback<S, E> = Rc<Box<dyn EventListener<S, E>>>;

/// `listener` is the closure `f` as a listener: it accepts every call, and
/// a call of it is a call of `f`.
pub open spec fn made_of<S, E, F: Fn(EventContext<S, E>, &mut S)>(
    listener: EventCallback<S, E>,
    f: F,
) -> bool {
    &&& listener.total()
    &&& forall|ctx: EventContext<S, E>, state: &mut S|
        #[trigger] listener.delivered(ctx, state) <==> call_ensures(f, (ctx, state), ())
}

/// Makes a listener that can be registered out of the closure `f`: it
/// accepts every call, and a call of it is a call of `f`.
pub fn into_callback<S, E, F>(f: F) -> (callback: EventCallback<S, E>) where
    F: Fn(EventContext<S, E>, &mut S) + 'static,

    requires
        forall|ctx: EventContext<S, E>, state: &mut S| #[trigger] call_requires(f, (ctx, state)),
    ensures
        made_of(callback, f),
{
    let listener: Box<dyn EventListener<S, E>> = Box::new(FnListener { f });
    let shared = Rc::new(listener);
    shared
}

} // verus!
