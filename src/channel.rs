//! The bounded dispatch channel and the exclusive lock round its receiver,
//! both provided by tokio.

use vstd::prelude::*;
use crate::dispatch::DispatchRequest;
use tokio::sync::mpsc::{Receiver, Sender};
use tokio::sync::Mutex;

verus! {

#[verifier::external_type_specification]
#[verifier::external_body]
#[verifier::reject_recursive_types(T)]
pub struct ExSender<T>(tokio::sync::mpsc::Sender<T>);

#[verifier::external_type_specification]
#[verifier::external_body]
#[verifier::reject_recursive_types(T)]
pub struct ExReceiver<T>(tokio::sync::mpsc::Receiver<T>);

#[verifier::external_type_specification]
#[verifier::external_body]
#[verifier::reject_recursive_types(T)]
pub struct ExMutex<T: ?Sized>(tokio::sync::Mutex<T>);

/// The number of requests that the channel behind a sending handle can hold.
pub uninterp spec fn channel_bound(s: Sender<DispatchRequest>) -> nat;

/// A bound that tokio's channel accepts on every target: its semaphore takes
/// at most `usize::MAX >> 3` permits, which is this value on 32-bit targets.
pub const MAX_CHANNEL_BOUND: usize = 0x1fff_ffff;

/// Relies on `tokio::sync::mpsc::channel`: both handles share one queue that
/// holds at most `buffer` requests. It panics unless `0 < buffer` and
/// `buffer <= usize::MAX >> 3`; `requires` keeps to the smaller 32-bit limit.
#[verifier::external_body]
pub(crate) fn bounded_channel(buffer: usize) -> (r: (Sender<DispatchRequest>, Receiver<DispatchRequest>))
    requires
        0 < buffer <= MAX_CHANNEL_BOUND,
    ensures
        channel_bound(r.0) == buffer,
{
    tokio::sync::mpsc::channel(buffer)
}

/// Relies on `tokio::sync::mpsc::Sender::max_capacity`: the bound the channel
/// was made with, which never changes.
#[verifier::external_body]
pub(crate) fn sender_bound(s: &Sender<DispatchRequest>) -> (r: usize)
    ensures
        r == channel_bound(*s),
{
    s.max_capacity()
}

/// Relies on `tokio::sync::Mutex::new`: an unlocked lock round the receiver.
#[verifier::external_body]
pub(crate) fn exclusive_receiver(rx: Receiver<DispatchRequest>) -> (r: Mutex<Receiver<DispatchRequest>>) {
    Mutex::new(rx)
}

} // verus!
