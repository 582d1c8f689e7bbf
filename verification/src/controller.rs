//! The event controller.

use crate::callback::{into_callback, made_of, EventCallback, EventContext, EventListener};
use crate::registry::{inserted, removed, ListenerRegistry};
use crate::shared::RegistryCell;
use std::rc::Rc;
use std::sync::mpsc::{Receiver, RecvError, Sender};
use vstd::prelude::*;

verus! {

/// The calls of one pass: the listener at place `i` of `callbacks` returned
/// from a call with `ctx` on the borrow at place `i` of `borrows`, which held
/// `states[i]` when the call began.
pub open spec fn each_delivered<S, E>(
    callbacks: Seq<EventCallback<S, E>>,
    ctx: EventContext<S, E>,
    borrows: Seq<&mut S>,
    states: Seq<S>,
) -> bool {
    &&& borrows.len() == callbacks.len()
    &&& states.len() == callbacks.len() + 1
    &&& forall|i: int|
        0 <= i < callbacks.len() ==> *(#[trigger] borrows[i]) == states[i] && callbacks[i].delivered(
            ctx,
            borrows[i],
        )
}

/// The internal implementation of [`EventController`]: the two ends of the
/// event queue and the listeners.
#[verifier::reject_recursive_types(S)]
#[verifier::reject_recursive_types(E)]
struct InternalEventController<S, E> {
    /// Event sender channel.
    sender: Sender<E>,
    /// Event receiver channel.
    receiver: Receiver<E>,
    /// Registered callbacks.
    callbacks: RegistryCell<S, E>,
}

impl<S, E> InternalEventController<S, E> {
    /// The controller is as [`Self::new`] makes one: its sender and receiver
    /// are the two halves of one queue that `std::sync::mpsc::channel` made,
    /// and its cell was made holding a registry without listeners.
    spec fn created(&self) -> bool {
        &&& call_ensures(std::sync::mpsc::channel::<E>, (), (self.sender, self.receiver))
        &&& exists|registry: ListenerRegistry<S, E>|
            registry.entries() == Seq::<(Seq<char>, EventCallback<S, E>)>::empty()
                && #[trigger] call_ensures(RegistryCell::<S, E>::new, (registry,), self.callbacks)
    }

    /// The cell of the controller handed out `held` when `put` was put into
    /// it.
    spec fn exchanged(&self, put: ListenerRegistry<S, E>, held: ListenerRegistry<S, E>) -> bool {
        call_ensures(RegistryCell::<S, E>::replace, (&self.callbacks, put), held)
    }

    /// Creates a controller with a new event queue and without listeners.
    #[must_use]
    fn new() -> (controller: Self)
        ensures
            controller.created(),
    {
        let (sender, receiver) = std::sync::mpsc::channel();
        let registry = ListenerRegistry::new();
        let ghost empty = registry;
        let callbacks = RegistryCell::new(registry);
        let controller = InternalEventController { sender, receiver, callbacks };
        assert(call_ensures(RegistryCell::<S, E>::new, (empty,), controller.callbacks));
        controller
    }

    /// `listener` was registered under `id`: the cell handed out a registry
    /// in exchange for one without listeners, and got back that registry
    /// with `listener` registered under `id`.
    spec fn registered(&self, id: Seq<char>, listener: EventCallback<S, E>) -> bool {
        exists|
            placeholder: ListenerRegistry<S, E>,
            held: ListenerRegistry<S, E>,
            put: ListenerRegistry<S, E>,
            left: ListenerRegistry<S, E>,
        |
            #![trigger self.exchanged(placeholder, held), self.exchanged(put, left)]
            {
                &&& placeholder.entries() == Seq::<(Seq<char>, EventCallback<S, E>)>::empty()
                &&& self.exchanged(placeholder, held)
                &&& put.entries() == inserted(held.entries(), id, listener)
                &&& self.exchanged(put, left)
            }
    }

    /// The listener under `id` was removed: the cell handed out a registry
    /// in exchange for one without listeners, and got back that registry
    /// without the entry under `id`.
    spec fn unregistered(&self, id: Seq<char>) -> bool {
        exists|
            placeholder: ListenerRegistry<S, E>,
            held: ListenerRegistry<S, E>,
            put: ListenerRegistry<S, E>,
            left: ListenerRegistry<S, E>,
        |
            #![trigger self.exchanged(placeholder, held), self.exchanged(put, left)]
            {
                &&& placeholder.entries() == Seq::<(Seq<char>, EventCallback<S, E>)>::empty()
                &&& self.exchanged(placeholder, held)
                &&& put.entries() == removed(held.entries(), id)
                &&& self.exchanged(put, left)
            }
    }

    /// `callbacks` are the listeners of the registry that the cell handed
    /// out in exchange for one without listeners, in order, and the cell
    /// got that registry back as it was.
    spec fn snapshotted(&self, callbacks: Seq<EventCallback<S, E>>) -> bool {
        exists|
            placeholder: ListenerRegistry<S, E>,
            held: ListenerRegistry<S, E>,
            left: ListenerRegistry<S, E>,
        |
            #![trigger self.exchanged(placeholder, held), self.exchanged(held, left)]
            {
                &&& placeholder.entries() == Seq::<(Seq<char>, EventCallback<S, E>)>::empty()
                &&& self.exchanged(placeholder, held)
                &&& callbacks == held.callbacks()
                &&& self.exchanged(held, left)
            }
    }

    /// Adds a new listener: takes the registry out of the shared cell,
    /// registers `callback` under `id` and puts the registry back. A
    /// listener that `callback` replaces is dropped after that.
    fn add_listener<F>(&self, id: &str, callback: F) where
        F: Fn(EventContext<S, E>, &mut S) + 'static,

        requires
            forall|ctx: EventContext<S, E>, state: &mut S| #[trigger] call_requires(callback, (ctx, state)),
        ensures
            exists|listener: EventCallback<S, E>|
                made_of(listener, callback) && #[trigger] self.registered(id@, listener),
    {
        let shared = into_callback(callback);
        let ghost listener = shared;
        let placeholder = ListenerRegistry::new();
        let ghost empty = placeholder;
        let mut registry = self.callbacks.replace(placeholder);
        let ghost held = registry;
        let _replaced = registry.insert(id, shared);
        let ghost put = registry;
        let left = self.callbacks.replace(registry);
        proof {
            assert(self.exchanged(empty, held));
            assert(self.exchanged(put, left));
            assert(self.registered(id@, listener));
        }
    }

    /// Removes a listener: takes the registry out of the shared cell, takes
    /// the listener under `id` out of it and puts the registry back. The
    /// listener is dropped after that.
    fn remove_listener(&self, id: &str)
        ensures
            self.unregistered(id@),
    {
        let placeholder = ListenerRegistry::new();
        let ghost empty = placeholder;
        let mut registry = self.callbacks.replace(placeholder);
        let ghost held = registry;
        let _removed = registry.remove(id);
        let ghost put = registry;
        let left = self.callbacks.replace(registry);
        proof {
            assert(self.exchanged(empty, held));
            assert(self.exchanged(put, left));
        }
    }

    /// The listeners that are registered now: takes the registry out of the
    /// shared cell, leaving one without listeners in its place, copies the
    /// handles to its listeners in order, and puts the registry back.
    fn snapshot(&self) -> (callbacks: Vec<EventCallback<S, E>>)
        ensures
            forall|i: int| 0 <= i < callbacks@.len() ==> (#[trigger] callbacks@[i]).total(),
            self.snapshotted(callbacks@),
    {
        let placeholder = ListenerRegistry::new();
        let ghost empty = placeholder;
        let registry = self.callbacks.replace(placeholder);
        let callbacks = registry.snapshot();
        let ghost held = registry;
        let left = self.callbacks.replace(registry);
        proof {
            assert(self.exchanged(empty, held));
            assert(self.exchanged(held, left));
        }
        callbacks
    }
}

/// Manages events and their associated callbacks.
///
/// # Type Parameters
/// - `S`: The type representing the application state.
/// - `E`: The type representing the events.
#[verifier::reject_recursive_types(S)]
#[verifier::reject_recursive_types(E)]
pub struct EventController<S, E> {
    rc: Rc<InternalEventController<S, E>>,
}

impl<S, E> EventController<S, E> {
    /// The sending half of the controller's event queue.
    pub closed spec fn sender(&self) -> Sender<E> {
        self.rc.sender
    }

    /// The receiving half of the controller's event queue.
    pub closed spec fn receiver(&self) -> Receiver<E> {
        self.rc.receiver
    }

    /// The controller is as [`Self::new`] makes one: its sender and receiver
    /// are the two halves of one queue that `std::sync::mpsc::channel` made,
    /// and its registry began without listeners. This is said of how the
    /// controller came about, and stays true of it whatever is registered
    /// later.
    pub closed spec fn created(&self) -> bool {
        self.rc.created()
    }

    /// `listener` was registered under `id`: the controller's registry was
    /// taken out of its cell, `listener` was put under `id` in it, in the
    /// place of a listener that stood there or after all others, and the
    /// registry was put back.
    pub closed spec fn registered(&self, id: Seq<char>, listener: EventCallback<S, E>) -> bool {
        self.rc.registered(id, listener)
    }

    /// The listener under `id` was removed: the controller's registry was
    /// taken out of its cell, the entry under `id` was taken out of it if
    /// there was one, and the registry was put back.
    pub closed spec fn unregistered(&self, id: Seq<char>) -> bool {
        self.rc.unregistered(id)
    }

    /// `callbacks` are the listeners that the controller's registry held, in
    /// order, when it was taken out of its cell and put back as it was.
    pub closed spec fn snapshotted(&self, callbacks: Seq<EventCallback<S, E>>) -> bool {
        self.rc.snapshotted(callbacks)
    }

    /// Creates a new [`EventController`], with an event queue of its own and
    /// without listeners.
    #[must_use]
    pub fn new() -> (controller: Self)
        ensures
            controller.created(),
    {
        let controller = InternalEventController::new();
        Self { rc: Rc::new(controller) }
    }

    /// Registers an event listener under the specified `id`.
    ///
    /// There can only be one callback associated with a given `id`. If a
    /// callback with the same `id` already exists, it is replaced.
    pub fn add_listener<F>(&self, id: &str, callback: F) where
        F: Fn(EventContext<S, E>, &mut S) + 'static,

        requires
            forall|ctx: EventContext<S, E>, state: &mut S| #[trigger] call_requires(callback, (ctx, state)),
        ensures
            exists|listener: EventCallback<S, E>|
                made_of(listener, callback) && #[trigger] self.registered(id@, listener),
    {
        self.rc.add_listener(id, callback);
        proof {
            let listener = choose|listener: EventCallback<S, E>|
                made_of(listener, callback) && #[trigger] self.rc.registered(id@, listener);
            assert(self.registered(id@, listener));
        }
    }

    /// Removes a listener with a given `id`.
    ///
    /// It is safe to call this method even if there is no listener
    /// registered with a given `id`.
    pub fn remove_listener(&self, id: &str)
        ensures
            self.unregistered(id@),
    {
        self.rc.remove_listener(id);
    }

    /// Returns a clone of the event sender.
    ///
    /// This allows to send events to the controller.
    #[must_use]
    pub fn get_sender(&self) -> (sender: Sender<E>)
        ensures
            cloned::<Sender<E>>(self.sender(), sender),
    {
        self.rc.sender.clone()
    }

    /// Calls each of `callbacks` once with `event` and `state`, in order.
    /// Each listener finds in `state` what the one before it left there.
    pub fn dispatch(&self, callbacks: &Vec<EventCallback<S, E>>, event: &E, state: &mut S)
        requires
            forall|i: int| 0 <= i < callbacks@.len() ==> (#[trigger] callbacks@[i]).total(),
        ensures
            exists|borrows: Seq<&mut S>, states: Seq<S>|
                {
                    &&& #[trigger] each_delivered(
                        callbacks@,
                        (EventContext { controller: self, event: event }),
                        borrows,
                        states,
                    )
                    &&& states.first() == *old(state)
                    &&& states.last() == *final(state)
                    &&& forall|i: int|
                        0 <= i < borrows.len() ==> *final(#[trigger] borrows[i]) == states[i + 1]
                },
    {
        let ghost ctx = EventContext { controller: self, event: event };
        let mut i: usize = 0;
        proof {
            assert(each_delivered(callbacks@.take(0), ctx, Seq::<&mut S>::empty(), seq![*state]));
        }
        while i < callbacks.len()
            invariant
                i <= callbacks.len(),
                ctx == (EventContext { controller: self, event: event }),
                forall|j: int| 0 <= j < callbacks@.len() ==> (#[trigger] callbacks@[j]).total(),
                exists|borrows: Seq<&mut S>, states: Seq<S>|
                    {
                        &&& #[trigger] each_delivered(callbacks@.take(i as int), ctx, borrows, states)
                        &&& states.first() == *old(state)
                        &&& states.last() == *state
                        &&& forall|j: int|
                            0 <= j < borrows.len() ==> *final(#[trigger] borrows[j]) == states[j
                                + 1]
                    },
            decreases callbacks.len() - i,
        {
            let ghost before = *state;
            callbacks[i].notify(EventContext::new(self, event), state);
            proof {
                let callback = callbacks@[i as int];
                let (borrows, states) = choose|borrows: Seq<&mut S>, states: Seq<S>|
                    {
                        &&& #[trigger] each_delivered(callbacks@.take(i as int), ctx, borrows, states)
                        &&& states.first() == *old(state)
                        &&& states.last() == before
                        &&& forall|j: int|
                            0 <= j < borrows.len() ==> *final(#[trigger] borrows[j]) == states[j
                                + 1]
                    };
                let borrow = choose|r: &mut S|
                    *r == before && *final(r) == *state && #[trigger] callback.delivered(ctx, r);
                let served = callbacks@.take(i as int + 1);
                let next_borrows = borrows.push(borrow);
                let next_states = states.push(*state);
                assert forall|j: int| 0 <= j < served.len() implies *(#[trigger] next_borrows[j])
                    == next_states[j] && served[j].delivered(ctx, next_borrows[j]) by {
                    if j < i {
                        assert(callbacks@.take(i as int)[j] == served[j]);
                        assert(*borrows[j] == states[j]);
                    }
                }
                assert(each_delivered(served, ctx, next_borrows, next_states));
                assert forall|j: int| 0 <= j < next_borrows.len() implies *final(
                    #[trigger] next_borrows[j]
                ) == next_states[j + 1] by {
                    if j < i {
                        assert(*final(borrows[j]) == states[j + 1]);
                    }
                }
            }
            i = i + 1;
        }
        proof {
            assert(callbacks@.take(i as int) =~= callbacks@);
        }
    }

    /// Notifies of `event` every listener that is registered when the pass
    /// begins. A listener that is registered or removed during the pass is
    /// called, or left out, from the next pass on.
    pub fn notify(&self, event: &E, state: &mut S)
        ensures
            exists|callbacks: Seq<EventCallback<S, E>>, borrows: Seq<&mut S>, states: Seq<S>|
                {
                    &&& self.snapshotted(callbacks)
                    &&& #[trigger] each_delivered(
                        callbacks,
                        (EventContext { controller: self, event: event }),
                        borrows,
                        states,
                    )
                    &&& states.first() == *old(state)
                    &&& states.last() == *final(state)
                    &&& forall|i: int|
                        0 <= i < borrows.len() ==> *final(#[trigger] borrows[i]) == states[i + 1]
                },
    {
        let callbacks = self.rc.snapshot();
        self.dispatch(&callbacks, event, state);
    }

    /// Handles what the event queue gave: notifies the listeners of an
    /// event, and hands back the error of a queue that is disconnected
    /// without calling anyone.
    pub fn handle_received(&self, received: Result<E, RecvError>, state: &mut S) -> (result: Result<
        (),
        RecvError,
    >)
        ensures
            match received {
                Ok(event) => result.is_ok() && exists|
                    callbacks: Seq<EventCallback<S, E>>,
                    borrows: Seq<&mut S>,
                    states: Seq<S>,
                |
                    {
                        &&& self.snapshotted(callbacks)
                        &&& #[trigger] each_delivered(
                            callbacks,
                            (EventContext { controller: self, event: &event }),
                            borrows,
                            states,
                        )
                        &&& states.first() == *old(state)
                        &&& states.last() == *final(state)
                        &&& forall|i: int|
                            0 <= i < borrows.len() ==> *final(#[trigger] borrows[i]) == states[i
                                + 1]
                    },
                Err(error) => result == Err::<(), RecvError>(error) && *final(state) == *old(state),
            },
    {
        match received {
            Ok(event) => {
                self.notify(&event, state);
                Ok(())
            },
            Err(error) => Err(error),
        }
    }

    /// Waits for an event and sends the event to all listeners.
    ///
    /// This function blocks the current thread until an event is received.
    /// Once the event is received, all listeners that registered with
    /// [`Self::add_listener`] are notified.
    ///
    /// What `recv` gives on the controller's receiver decides the outcome:
    /// an event is handed to the listeners in one pass, an error is handed
    /// back without calling anyone.
    ///
    /// # Errors
    ///
    /// Returns an [`RecvError`] if the channel has hung up.
    pub fn recv_and_notify(&self, state: &mut S) -> (result: Result<(), RecvError>)
        ensures
            exists|received: Result<E, RecvError>|
                #![trigger call_ensures(Receiver::<E>::recv, (&self.receiver(),), received)]
                {
                    &&& call_ensures(Receiver::<E>::recv, (&self.receiver(),), received)
                    &&& match received {
                        Ok(event) => result.is_ok() && exists|
                            callbacks: Seq<EventCallback<S, E>>,
                            borrows: Seq<&mut S>,
                            states: Seq<S>,
                        |
                            {
                                &&& self.snapshotted(callbacks)
                                &&& #[trigger] each_delivered(
                                    callbacks,
                                    (EventContext { controller: self, event: &event }),
                                    borrows,
                                    states,
                                )
                                &&& states.first() == *old(state)
                                &&& states.last() == *final(state)
                                &&& forall|i: int|
                                    0 <= i < borrows.len() ==> *final(#[trigger] borrows[i])
                                        == states[i + 1]
                            },
                        Err(error) => result == Err::<(), RecvError>(error) && *final(state) == *old(
                            state,
                        ),
                    }
                },
    {
        let received = self.rc.receiver.recv();
        assert(call_ensures(Receiver::<E>::recv, (&self.receiver(),), received));
        self.handle_received(received, state)
    }

    /// Returns an [`Rc::clone`]d instance of the `EventController`.
    pub fn rc_clone(&self) -> (controller: Self)
        ensures
            controller == *self,
    {
        Self { rc: Rc::clone(&self.rc) }
    }
}

impl<S: Clone, E: Clone> Clone for EventController<S, E> {
    /// Another handle to the same controller.
    fn clone(&self) -> (controller: Self)
        ensures
            controller == *self,
    {
        self.rc_clone()
    }
}

impl<S, E> Default for EventController<S, E> {
    /// A new controller, as [`EventController::new`] makes one.
    fn default() -> (controller: Self)
        ensures
            controller.created(),
    {
        Self::new()
    }
}

} // verus!
