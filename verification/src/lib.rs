//! An event controller for terminal user interfaces.
//!
//! A central [`EventController`] receives events from any number of
//! producers and notifies every registered listener with a mutable view of
//! the application state. [`InteractiveWidget`] binds a widget to a
//! controller: creating the wrapper registers the widget's handler,
//! [`InteractiveWidget::unregister`] removes the handler again.
//!
//! ```no_run
//! use tui_event_controller::{EventContext, EventController};
//!
//! enum AppEvent {
//!     Tick,
//! }
//!
//! struct AppState {
//!     counter: usize,
//! }
//!
//! let controller: EventController<AppState, AppEvent> = EventController::new();
//! controller.add_listener("counter", |ctx: EventContext<AppState, AppEvent>, state: &mut AppState| {
//!     match ctx.event {
//!         AppEvent::Tick => state.counter += 1,
//!     }
//! });
//!
//! let sender = controller.get_sender();
//! sender.send(AppEvent::Tick).unwrap();
//!
//! let mut state = AppState { counter: 0 };
//! controller.recv_and_notify(&mut state).unwrap();
//! assert_eq!(state.counter, 1);
//! ```
//!
//! # What is proved
//!
//! - [`ListenerRegistry`] is the map from keys to listeners. Its contracts
//!   are exact: what registering and removing do to the entries, which
//!   listener they hand back, and what a snapshot holds. The laws in
//!   [`registry`] follow from them: a second registration under a key
//!   replaces the first, and removing a key twice, or a key that is not
//!   there, changes nothing.
//! - [`EventController::dispatch`] calls each listener of a snapshot once, in
//!   order, and each listener finds the state that the one before it left.
//!   The listeners of a pass are those of the snapshot, whatever they do to
//!   the controller while the pass runs.
//! - A controller is shared: every handle and every widget wrapper refers to
//!   one registry, kept in a cell. What the cell holds at a given moment
//!   depends on every call that went before, through any handle. So the
//!   contracts of the functions that go through the cell say what they took
//!   out of the cell and what they put back: registering puts back the
//!   registry that was found with the listener added, a pass calls the
//!   listeners of the registry that was found. The event queue is the
//!   channel of the standard library; nothing is assumed of what it
//!   delivers, and a contract names the call that a result came from.

pub mod callback;
pub mod channel;
pub mod controller;
pub mod registry;
mod shared;
pub mod widget;

pub use callback::{into_callback, EventCallback, EventContext, EventListener, FnListener};
pub use controller::{each_delivered, EventController};
pub use registry::ListenerRegistry;
pub use widget::{EventfulWidget, InteractiveStatefulWidget, InteractiveWidget};
