//! The shared cell in which a controller keeps its listeners.

use crate::registry::ListenerRegistry;
use std::cell::Cell;
use vstd::prelude::*;

verus! {

/// A `std::cell::Cell` that holds a controller's listeners.
///
/// Listeners take the controller as an argument, and the controller holds
/// the listeners: the type of the registry refers to itself through them.
/// The cell is where that circle is cut. Its field is hidden, and the two
/// functions below are the only way to it. Only registries are ever put
/// into the cell, so what comes out is a registry, well-formed as every
/// registry is. Which registry it is depends on the calls that went before,
/// through any handle to the controller, so no contract says it.
#[verifier::external_body]
#[verifier::reject_recursive_types(S)]
#[verifier::reject_recursive_types(E)]
pub(crate) struct RegistryCell<S, E> {
    cell: Cell<ListenerRegistry<S, E>>,
}

impl<S, E> RegistryCell<S, E> {
    /// `Cell::new`: a cell that holds `registry`.
    #[verifier::external_body]
    pub(crate) fn new(registry: ListenerRegistry<S, E>) -> (cell: Self) {
        RegistryCell { cell: Cell::new(registry) }
    }

    /// `Cell::replace`: puts `registry` into the cell and returns what the
    /// cell held. The cell is shared between all handles to a controller,
    /// so nothing is claimed of the result.
    #[verifier::external_body]
    pub(crate) fn replace(&self, registry: ListenerRegistry<S, E>) -> (held: ListenerRegistry<S, E>) {
        self.cell.replace(registry)
    }
}

} // verus!
