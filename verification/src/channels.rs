//! Event channels of the tokio runtime, carried as opaque values.
//!
//! Sending never blocks; whether a value reaches a receiver is not stated.

use vstd::prelude::*;

use tokio::sync::broadcast;
use tokio::sync::mpsc;

verus! {

#[verifier::external_type_specification]
#[verifier::external_body]
#[verifier::reject_recursive_types(T)]
pub struct ExMpscSender<T>(mpsc::Sender<T>);

#[verifier::external_type_specification]
#[verifier::external_body]
#[verifier::reject_recursive_types(T)]
pub struct ExBroadcastSender<T>(broadcast::Sender<T>);

#[verifier::external_type_specification]
#[verifier::external_body]
#[verifier::reject_recursive_types(T)]
pub struct ExBroadcastReceiver<T>(broadcast::Receiver<T>);

/// Hands `value` to a bounded channel without waiting.
///
/// Trusted: calls `tokio::sync::mpsc::Sender::try_send`, which never blocks
/// or panics; whether the value is queued (the channel may be full or
/// closed) is left unsaid, and the outcome is ignored.
#[verifier::external_body]
pub(crate) fn try_send<T>(tx: &mpsc::Sender<T>, value: T) {
    let _ = tx.try_send(value);
}

/// The sending half of a broadcast channel, with every value handed to it
/// through this handle.
#[verifier::reject_recursive_types(T)]
pub struct BroadcastTx<T> {
    tx: broadcast::Sender<T>,
    sent: Ghost<Seq<T>>,
}

impl<T> BroadcastTx<T> {
    /// The values handed to the channel through this handle, in order.
    pub closed spec fn sent(&self) -> Seq<T> {
        self.sent@
    }

    /// A handle on the channel of `tx` that has handed nothing over yet.
    pub fn new(tx: broadcast::Sender<T>) -> (r: Self)
        ensures
            r.sent() == Seq::<T>::empty(),
    {
        BroadcastTx { tx, sent: Ghost(Seq::empty()) }
    }
}

/// A broadcast channel holding up to `capacity` values.
///
/// Trusted: calls `tokio::sync::broadcast::channel`, which panics when the
/// capacity is 0 or above `usize::MAX / 2`; `requires` rules those out.
#[verifier::external_body]
fn new_broadcast_channel<T: Clone>(capacity: usize) -> (broadcast::Sender<T>, broadcast::Receiver<T>)
    requires
        0 < capacity <= usize::MAX / 2,
{
    broadcast::channel(capacity)
}

/// A broadcast channel holding up to `capacity` values, its sending handle
/// having handed nothing over yet.
pub(crate) fn broadcast_channel<T: Clone>(capacity: usize) -> (r: (BroadcastTx<T>, broadcast::Receiver<T>))
    requires
        0 < capacity <= usize::MAX / 2,
    ensures
        r.0.sent() == Seq::<T>::empty(),
{
    let (tx, rx) = new_broadcast_channel(capacity);
    (BroadcastTx::new(tx), rx)
}

/// Broadcasts `value` to the current receivers.
///
/// Trusted: calls `tokio::sync::broadcast::Sender::send`, which never blocks
/// or panics; it fails when no receiver is left, and that outcome is ignored.
/// The contract records that `value` was handed to the channel: this call is
/// the only one that extends the record.
#[verifier::external_body]
pub(crate) fn broadcast_send<T>(tx: &mut BroadcastTx<T>, value: T)
    ensures
        final(tx).sent() == old(tx).sent().push(value),
{
    let _ = tx.tx.send(value);
}

/// Another sending half of the channel of `tx`.
///
/// Trusted: calls `Clone::clone` on `tokio::sync::broadcast::Sender`, which
/// only counts one more sender.
#[verifier::external_body]
pub(crate) fn broadcast_sender_clone<T>(tx: &BroadcastTx<T>) -> broadcast::Sender<T> {
    tx.tx.clone()
}

/// A new receiver of the values broadcast from now on.
///
/// Trusted: calls `tokio::sync::broadcast::Sender::subscribe`. The crate
/// panics beyond `usize::MAX >> 2` live receivers, a count not tracked here.
#[verifier::external_body]
pub(crate) fn broadcast_subscribe<T>(tx: &BroadcastTx<T>) -> broadcast::Receiver<T> {
    tx.tx.subscribe()
}

} // verus!
