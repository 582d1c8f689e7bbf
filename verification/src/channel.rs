//! The event queue: the multi-producer, single-consumer channel of the
//! standard library, as far as the controller uses it.

use std::sync::mpsc::{Receiver, RecvError, Sender};
use vstd::prelude::*;

verus! {

/// The sending half of `std::sync::mpsc`'s channel, taken as a whole: no
/// contract speaks of what is inside one.
#[verifier::external_type_specification]
#[verifier::external_body]
#[verifier::reject_recursive_types(T)]
pub struct ExSender<T>(Sender<T>);

/// The receiving half of `std::sync::mpsc`'s channel, taken as a whole: no
/// contract speaks of what is inside one.
#[verifier::external_type_specification]
#[verifier::external_body]
#[verifier::reject_recursive_types(T)]
pub struct ExReceiver<T>(Receiver<T>);

/// The error of `std::sync::mpsc::Receiver::recv`: the channel is empty and
/// every sender is gone.
#[verifier::external_type_specification]
#[verifier::external_body]
pub struct ExRecvError(RecvError);

/// `std::sync::mpsc::channel` creates the two halves of a new queue. Nothing
/// is claimed of them.
pub assume_specification<T>[ std::sync::mpsc::channel::<T> ]() -> (halves: (Sender<T>, Receiver<T>));

/// `Receiver::recv` blocks until an event is available or every sender is
/// gone. What it returns depends on the producers, so nothing is claimed of
/// the result.
pub assume_specification<T>[ Receiver::<T>::recv ](receiver: &Receiver<T>) -> (received: Result<
    T,
    RecvError,
>);

/// `Sender::clone` returns another handle to the same queue. Nothing is
/// claimed of it.
pub assume_specification<T>[ <Sender<T> as Clone>::clone ](sender: &Sender<T>) -> (handle: Sender<T>);

} // verus!
