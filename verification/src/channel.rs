//! The sending end of a bounded channel to a worker thread.
use crossbeam_channel::{Sender, TrySendError};
use vstd::prelude::*;

verus! {

/// `crossbeam_channel::Sender`, the sending end of a channel.
#[verifier::external_type_specification]
#[verifier::external_body]
#[verifier::reject_recursive_types(T)]
pub struct ExSender<T>(crossbeam_channel::Sender<T>);

/// What became of a message that was offered to a channel.
#[derive(Debug)]
pub enum Offer<T> {
    Sent,
    /// The channel is full; the message came back.
    Full(T),
    /// The other end is gone; the message came back.
    Disconnected(T),
}

/// `crossbeam_channel::Sender::try_send`: sends a message without blocking, or
/// hands the same message back where the channel is full or disconnected. Which
/// of these happens depends on the other end of the channel and is left open.
#[verifier::external_body]
pub(crate) fn offer<T>(queue: &Sender<T>, message: T) -> (outcome: Offer<T>)
    ensures
        outcome matches Offer::Full(back) ==> back == message,
        outcome matches Offer::Disconnected(back) ==> back == message,
{
    match queue.try_send(message) {
        Ok(()) => Offer::Sent,
        Err(TrySendError::Full(back)) => Offer::Full(back),
        Err(TrySendError::Disconnected(back)) => Offer::Disconnected(back),
    }
}

} // verus!
