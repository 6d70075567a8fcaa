//! The command channel between producers and a hardware worker.
//!
//! A worker owns its peripheral alone. Producers hold handles, and a
//! handle can do one thing: enqueue a command. The queue is the standard
//! library's multi-producer channel, which is unbounded and keeps the
//! order in which commands arrive.

use std::sync::mpsc::Sender;
use vstd::prelude::*;

verus! {

/// `std::sync::mpsc::Sender`, the sending half of the standard library's
/// channel.
#[verifier::external_type_specification]
#[verifier::external_body]
#[verifier::reject_recursive_types(T)]
pub struct ExSender<T>(Sender<T>);

/// The worker is gone: the receiving half of its channel was dropped.
/// The command that could not be delivered comes back with the error.
#[derive(Debug, Clone, PartialEq, Eq)]
pub struct Disconnected<T> {
    pub command: T,
}

/// `std::sync::mpsc::Sender::send`: hands `msg` to the channel without
/// blocking. The call fails only when the receiving half is gone, and the
/// failure returns the message.
#[verifier::external_body]
pub(crate) fn send<T>(tx: &Sender<T>, msg: T) -> (r: Result<(), T>)
    ensures
        r matches Err(back) ==> back == msg,
{
    match tx.send(msg) {
        Ok(()) => Ok(()),
        Err(e) => Err(e.0),
    }
}

/// `Clone::clone` of `std::sync::mpsc::Sender`: one more sender for the
/// same channel, equal to the first for every purpose of a producer.
#[verifier::external_body]
pub(crate) fn clone_sender<T>(tx: &Sender<T>) -> (r: Sender<T>)
    ensures
        r == *tx,
{
    tx.clone()
}

/// What a producer is told after a send: success, or that the worker is
/// gone, with the command that was not delivered.
pub fn delivery<T>(outcome: Result<(), T>) -> (r: Result<(), Disconnected<T>>)
    ensures
        r == match outcome {
            Ok(()) => Ok::<(), Disconnected<T>>(()),
            Err(back) => Err(Disconnected { command: back }),
        },
{
    match outcome {
        Ok(()) => Ok(()),
        Err(back) => Err(Disconnected { command: back }),
    }
}

/// Enqueues `command` for the worker behind `tx`.
pub fn submit<T>(tx: &Sender<T>, command: T) -> (r: Result<(), Disconnected<T>>)
    ensures
        r matches Err(e) ==> e.command == command,
{
    delivery(send(tx, command))
}

} // verus!
