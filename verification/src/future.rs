use lockout::channel::oneshot;
use std::sync::mpsc::RecvError;
use vstd::prelude::*;

use crate::error::PoolError;

verus! {

/// The sending end of the single-value channel of `lockout`.
#[verifier::external_type_specification]
#[verifier::external_body]
#[verifier::reject_recursive_types(T)]
pub struct ExOneshotSender<T>(oneshot::Sender<T>);

/// The receiving end of the single-value channel of `lockout`.
#[verifier::external_type_specification]
#[verifier::external_body]
#[verifier::reject_recursive_types(T)]
pub struct ExOneshotReceiver<T>(oneshot::Receiver<T>);

/// Calls `lockout::channel::oneshot::channel`, which makes a channel for one
/// value and hands back its two ends. Nothing is claimed of the ends.
#[verifier::external_body]
fn oneshot_channel<T>() -> (ends: (oneshot::Sender<T>, oneshot::Receiver<T>)) {
    oneshot::channel()
}

/// Calls `lockout::channel::oneshot::Sender::send`. Claimed: where the send
/// fails (the receiving end is gone), the value comes back unchanged. Whether
/// it fails depends on the other end and is not claimed.
#[verifier::external_body]
fn oneshot_send<T>(sender: oneshot::Sender<T>, value: T) -> (r: Result<(), T>)
    ensures
        r matches Err(back) ==> back == value,
{
    match sender.send(value) {
        Ok(()) => Ok(()),
        Err(err) => Err(err.0),
    }
}

/// Calls `lockout::channel::oneshot::Receiver::recv`, which blocks until the
/// value is sent or the sending end is gone. What comes back depends on the
/// thread that holds the sending end and is not claimed.
#[verifier::external_body]
fn oneshot_recv<T>(receiver: oneshot::Receiver<T>) -> (r: Result<T, RecvError>) {
    receiver.recv()
}

/// A handle to the result of a job that runs on another thread.
#[verifier::reject_recursive_types(T)]
pub struct Task<T> {
    receiver: oneshot::Receiver<Result<T, PoolError>>,
}

/// The end that the job holds: it settles the task with the job's outcome.
#[verifier::reject_recursive_types(T)]
pub struct Promise<T> {
    sender: oneshot::Sender<Result<T, PoolError>>,
}

/// Makes a task and the promise that settles it.
pub fn task_channel<T>() -> (pair: (Promise<T>, Task<T>)) {
    let (sender, receiver) = oneshot_channel();
    (Promise { sender }, Task { receiver })
}

/// What waiting on a task gives back for what the channel delivered: the
/// job's outcome where one came, else `ChannelClosed` (the job ended without
/// sending one).
pub open spec fn settled<T>(received: Result<Result<T, PoolError>, RecvError>) -> Result<T, PoolError> {
    match received {
        Ok(outcome) => outcome,
        Err(_) => Err(PoolError::ChannelClosed),
    }
}

/// Settling a task changes nothing that was delivered: a delivered outcome,
/// a panic's message among them, is the result as it is, and
/// `ChannelClosed` comes only from a closed channel or from a delivered
/// `ChannelClosed`.
pub proof fn lemma_settle_keeps_outcomes<T>(received: Result<Result<T, PoolError>, RecvError>)
    ensures
        received matches Ok(outcome) ==> settled(received) == outcome,
        received matches Ok(Err(PoolError::JobPanic(msg))) ==> settled(received) == Err::<
            T,
            PoolError,
        >(PoolError::JobPanic(msg)),
        received is Err ==> settled(received) == Err::<T, PoolError>(PoolError::ChannelClosed),
        settled(received) == Err::<T, PoolError>(PoolError::ChannelClosed) ==> (received is Err
            || received == Ok::<Result<T, PoolError>, RecvError>(
            Err(PoolError::ChannelClosed),
        )),
{
}

/// Settles a task with what its channel delivered: the delivered outcome
/// unchanged, or `ChannelClosed` where the channel closed without one.
pub fn settle<T>(received: Result<Result<T, PoolError>, RecvError>) -> (r: Result<T, PoolError>)
    ensures
        r == settled(received),
        received matches Ok(outcome) ==> r == outcome,
        received is Err ==> r == Err::<T, PoolError>(PoolError::ChannelClosed),
{
    match received {
        Ok(outcome) => outcome,
        Err(_) => Err(PoolError::ChannelClosed),
    }
}

impl<T> Task<T> {
    /// Blocks until the job has finished and gives back its outcome: its
    /// value, `JobPanic` where it panicked, or `ChannelClosed` where it ended
    /// without an outcome. What the channel delivers depends on the thread
    /// that holds the promise; `settle` turns it into the result.
    pub fn wait(self) -> (r: Result<T, PoolError>) {
        settle(oneshot_recv(self.receiver))
    }
}

impl<T> Promise<T> {
    /// Hands the job's outcome to the task; says whether the task was still
    /// there to take it.
    pub fn fulfil(self, outcome: Result<T, PoolError>) -> (delivered: bool) {
        oneshot_send(self.sender, outcome).is_ok()
    }
}

} // verus!
