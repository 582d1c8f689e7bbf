//! Widgets that listen to the events of a controller.

use crate::callback::{made_of, EventCallback, EventContext, EventListener};
use crate::controller::EventController;
use ratatui::layout::Rect;
use std::cell::Cell;
use std::rc::Rc;
use vstd::prelude::*;

verus! {

/// `ratatui::layout::Rect`, the area of the terminal that a widget is
/// rendered to. The library stores and hands on such areas and never looks
/// into one.
#[verifier::external_type_specification]
#[verifier::external_body]
pub struct ExRect(Rect);

/// `std::cell::Cell`. What a cell holds can change behind a shared
/// reference, so no contract speaks of its contents.
#[verifier::external_type_specification]
#[verifier::external_body]
#[verifier::reject_recursive_types(T)]
pub struct ExCell<T: ?Sized>(Cell<T>);

/// `Cell::new` creates a cell that holds `value`.
pub assume_specification<T>[ Cell::<T>::new ](value: T) -> (cell: Cell<T>);

/// `Cell::set` stores `value` in the cell.
pub assume_specification<T>[ Cell::<T>::set ](cell: &Cell<T>, value: T);

/// `Cell::get` returns a copy of what the cell holds. The cell is shared, so
/// nothing is claimed of the result.
pub assume_specification<T: Copy>[ Cell::<T>::get ](cell: &Cell<T>) -> (value: T);

/// A trait that should be implemented by widgets that can handle events.
///
/// Should be used in [`InteractiveWidget`] and [`InteractiveStatefulWidget`].
pub trait EventfulWidget<S, E> {
    /// Returns a unique key for identifying the widget in the event
    /// controller.
    ///
    /// This key is used to register and unregister event listeners for the
    /// widget.
    fn unique_key() -> String;

    /// Handles incoming events for the widget.
    ///
    /// # Arguments
    /// - `ctx`: The [`EventContext`] containing the [`EventController`] and
    ///   the event `E`.
    /// - `state`: The mutable application state `S`.
    /// - `area`: The area of the widget's last render.
    fn on_event(ctx: EventContext<S, E>, state: &mut S, area: Option<Rect>);
}

/// A wrapper for a widget that integrates with an event controller.
///
/// The widget listens to the controller's events from the moment the
/// wrapper is created until [`InteractiveWidget::unregister`] is called. A
/// program ties that call to the wrapper's lifetime by a type of its own
/// that holds the wrapper and calls `unregister` in its destructor.
#[verifier::reject_recursive_types(S)]
#[verifier::reject_recursive_types(E)]
pub struct InteractiveWidget<S, E, W: EventfulWidget<S, E>> {
    widget: W,
    controller: EventController<S, E>,
    area: Rc<Cell<Option<Rect>>>,
}

/// A wrapper for a widget that is rendered with a state of its own. It
/// differs from [`InteractiveWidget`] only in what the caller's draw
/// function takes along.
pub type InteractiveStatefulWidget<S, E, W> = InteractiveWidget<S, E, W>;

impl<S, E, W: EventfulWidget<S, E>> InteractiveWidget<S, E, W> {
    /// The wrapped widget.
    pub closed spec fn widget(&self) -> W {
        self.widget
    }

    /// The controller that the widget listens to.
    pub closed spec fn controller(&self) -> EventController<S, E> {
        self.controller
    }

    /// The cell that holds the area of the widget's last render. The
    /// widget's listener reads it, rendering writes it.
    pub closed spec fn area_cell(&self) -> Cell<Option<Rect>> {
        *self.area
    }

    /// Creates a new instance and registers it as a listener on the
    /// provided `EventController`, under the widget's unique key.
    ///
    /// The listener hands each event on to the widget's handler, together
    /// with what the area cell holds at that moment.
    ///
    /// # Parameters
    /// - `widget`: The widget to wrap in an event handler.
    /// - `controller`: The event controller to register the widget with.
    #[must_use]
    pub fn new(widget: W, controller: &EventController<S, E>) -> (wrapper: Self) where
        S: 'static,
        E: 'static,

        ensures
            wrapper.widget() == widget,
            wrapper.controller() == *controller,
            exists|key: String, listener: EventCallback<S, E>|
                {
                    &&& call_ensures(W::unique_key, (), key)
                    &&& #[trigger] wrapper.controller().registered(key@, listener)
                    &&& listener.total()
                    &&& forall|ctx: EventContext<S, E>, state: &mut S| #[trigger]
                        listener.delivered(ctx, state) ==> exists|
                            area: Option<Rect>,
                            handed: &mut S,
                        |
                            {
                                &&& call_ensures(
                                    Cell::<Option<Rect>>::get,
                                    (&wrapper.area_cell(),),
                                    area,
                                )
                                &&& *handed == *state
                                &&& *final(handed) == *final(state)
                                &&& #[trigger] call_ensures(W::on_event, (ctx, handed, area), ())
                            }
                },
    {
        let area = Rc::new(Cell::new(None));
        let controller_clone = controller.rc_clone();
        let key = W::unique_key();
        let area_clone = Rc::clone(&area);
        let callback = move |ctx: EventContext<S, E>, state: &mut S|
            ensures
                exists|area: Option<Rect>, handed: &mut S|
                    {
                        &&& call_ensures(Cell::<Option<Rect>>::get, (&*area_clone,), area)
                        &&& *handed == *old(state)
                        &&& *final(handed) == *final(state)
                        &&& #[trigger] call_ensures(W::on_event, (ctx, handed, area), ())
                    },
            {
                let area = area_clone.get();
                W::on_event(ctx, state, area);
            };
        controller_clone.add_listener(key.as_str(), callback);
        let wrapper = Self { widget, controller: controller_clone, area };
        proof {
            let listener = choose|listener: EventCallback<S, E>|
                made_of(listener, callback) && #[trigger] controller_clone.registered(
                    key@,
                    listener,
                );
            assert(wrapper.controller().registered(key@, listener));
        }
        wrapper
    }

    /// Renders the widget to `area`: records `area` as the widget's last
    /// area, then has `draw` draw the widget there.
    pub fn render_with<D: FnOnce(&W, Rect)>(&self, area: Rect, draw: D)
        requires
            call_requires(draw, (&self.widget(), area)),
        ensures
            call_ensures(Cell::<Option<Rect>>::set, (&self.area_cell(), Some(area)), ()),
            call_ensures(draw, (&self.widget(), area), ()),
    {
        self.area.set(Some(area));
        draw(&self.widget, area);
    }

    /// The area that the widget was last rendered to, if it was rendered:
    /// what the widget's area cell holds now.
    pub fn last_area(&self) -> (area: Option<Rect>)
        ensures
            call_ensures(Cell::<Option<Rect>>::get, (&self.area_cell(),), area),
    {
        self.area.get()
    }

    /// Removes the listener that stands under the widget's unique key from
    /// the event controller. To be called when the wrapper is given up: a
    /// wrapper type with a destructor calls it there.
    pub fn unregister(&self)
        ensures
            exists|key: String|
                call_ensures(W::unique_key, (), key) && #[trigger] self.controller().unregistered(
                    key@,
                ),
    {
        let key = W::unique_key();
        self.controller.remove_listener(key.as_str());
        assert(self.controller().unregistered(key@));
    }
}

} // verus!
