//! Trusted declarations for the reply channels: tokio's single-use oneshot
//! sender, which carries one result back to a waiting caller, and the
//! unbounded queue sender, over which commands reach the worker.  The
//! receiving halves are awaited outside this crate.

use vstd::prelude::*;

verus! {

#[verifier::external_type_specification]
#[verifier::external_body]
#[verifier::reject_recursive_types(T)]
pub struct ExOneshotSender<T>(tokio::sync::oneshot::Sender<T>);

/// Relies on tokio's `oneshot::Sender::send`: it consumes the channel and
/// either delivers `value` to the receiving half or, when the receiver is
/// already gone, hands `value` back unchanged.
#[verifier::external_body]
pub fn oneshot_send<T>(tx: tokio::sync::oneshot::Sender<T>, value: T) -> (r: Result<(), T>)
    ensures
        r matches Err(v) ==> v == value,
{
    tx.send(value)
}

#[verifier::external_type_specification]
#[verifier::external_body]
#[verifier::reject_recursive_types(T)]
pub struct ExUnboundedSender<T>(tokio::sync::mpsc::UnboundedSender<T>);

/// Relies on tokio's `mpsc::UnboundedSender::send`: Ok when the message was
/// queued for the receiver; on a closed channel it fails, and the error
/// displays as "channel closed".
#[verifier::external_body]
pub fn unbounded_send<T>(
    tx: &tokio::sync::mpsc::UnboundedSender<T>,
    message: T,
) -> (r: Result<(), String>)
    ensures
        r matches Err(m) ==> m@ == "channel closed"@,
{
    tx.send(message).map_err(|e| e.to_string())
}

/// Relies on tokio's `mpsc::UnboundedSender::clone`: the copy feeds the same
/// queue.
#[verifier::external_body]
pub fn clone_unbounded_sender<T>(
    tx: &tokio::sync::mpsc::UnboundedSender<T>,
) -> tokio::sync::mpsc::UnboundedSender<T> {
    tx.clone()
}

} // verus!
