//! The process-wide driver configuration.

use vstd::prelude::*;
use crate::address::Address;
use crate::channel::{bounded_channel, channel_bound, exclusive_receiver, sender_bound};
use crate::dispatch::DispatchRequest;
use tokio::sync::mpsc::{Receiver, Sender};
use tokio::sync::Mutex;

verus! {

/// The number of dispatch requests that may wait in the channel before a
/// producer is suspended.
pub const DISPATCH_CAPACITY: usize = 128;

/// Configuration shared by every driver: the chain endpoint, the contracts
/// to watch, and both ends of the dispatch channel.
///
/// The receiving end sits behind a lock so that at most one consumer drains
/// the channel at any time.
pub struct DriverConfig {
    /// The URL of the RPC endpoint used to index and send transactions.
    pub ws_endpoint: String,
    /// The sending handle of the dispatch channel; producers clone it.
    pub tx_sender: Sender<DispatchRequest>,
    /// The receiving handle of the dispatch channel, held by one consumer at a time.
    pub tx_receiver: Mutex<Receiver<DispatchRequest>>,
    /// The address of the dispute game factory contract.
    pub dispute_game_factory: Address,
    /// The address of the L2 output oracle contract.
    pub l2_output_oracle: Address,
}

impl DriverConfig {
    /// A configuration for the given endpoint and contracts, with a fresh
    /// dispatch channel of `DISPATCH_CAPACITY` slots.
    pub fn new(ws_endpoint: String, dispute_game_factory: Address, l2_output_oracle: Address) -> (r: Self)
        ensures
            r.ws_endpoint@ == ws_endpoint@,
            r.dispute_game_factory == dispute_game_factory,
            r.l2_output_oracle == l2_output_oracle,
            channel_bound(r.tx_sender) == DISPATCH_CAPACITY,
    {
        let (tx_sender, tx_receiver) = bounded_channel(DISPATCH_CAPACITY);
        DriverConfig {
            ws_endpoint,
            tx_sender,
            tx_receiver: exclusive_receiver(tx_receiver),
            dispute_game_factory,
            l2_output_oracle,
        }
    }

    /// The number of requests the dispatch channel can hold.
    pub fn capacity(&self) -> (r: usize)
        ensures
            r == channel_bound(self.tx_sender),
    {
        sender_bound(&self.tx_sender)
    }
}

} // verus!
