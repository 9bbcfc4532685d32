//! The completion channel: a multi-producer/single-consumer queue of
//! finalized cards, carried by crossbeam. Background submissions enqueue;
//! the foreground drains at most one card per poll. Nothing is assumed of
//! the channel's contents: they depend on what other tasks have sent.

use vstd::prelude::*;

use crate::card::GuiAddCardsFields;

verus! {

#[verifier::external_type_specification]
#[verifier::external_body]
#[verifier::reject_recursive_types(T)]
pub struct ExSender<T>(crossbeam::channel::Sender<T>);

#[verifier::external_type_specification]
#[verifier::external_body]
#[verifier::reject_recursive_types(T)]
pub struct ExReceiver<T>(crossbeam::channel::Receiver<T>);

/// Relies on crossbeam::channel::unbounded: creates a connected
/// sender/receiver pair of an unbounded channel.
#[verifier::external_body]
pub(crate) fn new_completion_channel() -> (crossbeam::channel::Sender<GuiAddCardsFields>, crossbeam::channel::Receiver<GuiAddCardsFields>) {
    crossbeam::channel::unbounded()
}

/// Relies on crossbeam's Clone for Sender: yields another sender endpoint
/// of the same channel, safe to hand to a background task.
#[verifier::external_body]
pub(crate) fn clone_sender(
    s: &crossbeam::channel::Sender<GuiAddCardsFields>,
) -> crossbeam::channel::Sender<GuiAddCardsFields> {
    s.clone()
}

/// Relies on crossbeam's Receiver::try_recv: without blocking, takes at
/// most one pending message out of the channel; `None` when the channel
/// had nothing for this call. Which card comes back depends on what other
/// tasks sent, so nothing more is assumed of the result.
#[verifier::external_body]
pub(crate) fn try_recv_card(
    r: &crossbeam::channel::Receiver<GuiAddCardsFields>,
) -> Option<GuiAddCardsFields> {
    match r.try_recv() {
        Ok(card) => Some(card),
        Err(_) => None,
    }
}

} // verus!
