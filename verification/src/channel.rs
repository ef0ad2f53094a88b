use vstd::prelude::*;

verus! {

/// The sending half of a crossbeam channel, as an opaque type.
#[verifier::external_type_specification]
#[verifier::external_body]
#[verifier::reject_recursive_types(T)]
pub struct ExSender<T>(crossbeam_channel::Sender<T>);

/// The receiving half of a crossbeam channel, as an opaque type.
#[verifier::external_type_specification]
#[verifier::external_body]
#[verifier::reject_recursive_types(T)]
pub struct ExReceiver<T>(crossbeam_channel::Receiver<T>);

/// Relies on crossbeam_channel::Sender::send: on an unbounded channel it
/// never blocks and fails only once every receiver is gone. Sends here are
/// fire-and-forget — a dead peer is reported, not an error — so the contract
/// promises nothing of the channel's unobservable state.
#[verifier::external_body]
pub(crate) fn chan_send<T>(tx: &crossbeam_channel::Sender<T>, value: T) -> (delivered: bool) {
    tx.send(value).is_ok()
}

/// Relies on crossbeam_channel::Receiver::try_recv: returns the next pending
/// message without ever blocking, or nothing when the channel is empty or
/// disconnected. What arrives depends on the sending thread, so nothing is
/// promised of the result.
#[verifier::external_body]
pub(crate) fn chan_try_recv<T>(rx: &crossbeam_channel::Receiver<T>) -> (msg: Option<T>) {
    rx.try_recv().ok()
}

} // verus!
