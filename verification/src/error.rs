use std::sync::mpsc::{RecvError, TryRecvError};
use vstd::prelude::*;
use vstd::std_specs::convert::FromSpecImpl;

verus! {

/// The error that a blocking receive on a channel gives back once every
/// sending end is gone.
#[verifier::external_type_specification]
#[verifier::external_body]
pub struct ExRecvError(RecvError);

/// The error that a receive that does not block gives back when nothing is
/// there to take.
#[verifier::external_type_specification]
#[verifier::external_body]
pub struct ExTryRecvError(TryRecvError);

/// Errors that can occur when executing jobs on the pool.
#[derive(Debug)]
pub enum PoolError {
    /// A job panicked. Holds the message that the job panicked with.
    JobPanic(String),
    /// The channel was closed unexpectedly.
    ChannelClosed,
}

impl PoolError {
    /// The text that the error reads as: "job panicked" or "channel closed".
    pub fn message(&self) -> (text: String)
        ensures
            text@ == match self {
                PoolError::JobPanic(_) => "job panicked"@,
                PoolError::ChannelClosed => "channel closed"@,
            },
    {
        match self {
            PoolError::JobPanic(_) => "job panicked".to_owned(),
            PoolError::ChannelClosed => "channel closed".to_owned(),
        }
    }

    /// The text that the error is shown as in debug output; the payload of a
    /// panic is left out.
    pub fn debug_message(&self) -> (text: String)
        ensures
            text@ == match self {
                PoolError::JobPanic(_) => "PoolError::JobPanic(..)"@,
                PoolError::ChannelClosed => "PoolError::ChannelClosed"@,
            },
    {
        match self {
            PoolError::JobPanic(_) => "PoolError::JobPanic(..)".to_owned(),
            PoolError::ChannelClosed => "PoolError::ChannelClosed".to_owned(),
        }
    }
}

/// A receive that found its channel closed is a `ChannelClosed` error.
impl From<RecvError> for PoolError {
    fn from(err: RecvError) -> (e: PoolError) {
        PoolError::ChannelClosed
    }
}

impl FromSpecImpl<RecvError> for PoolError {
    open spec fn obeys_from_spec() -> bool {
        true
    }

    open spec fn from_spec(v: RecvError) -> PoolError {
        PoolError::ChannelClosed
    }
}

/// What a job that was run under a panic guard comes to: its value, or a
/// `JobPanic` error with the message it panicked with.
pub fn job_outcome<T>(caught: Result<T, String>) -> (outcome: Result<T, PoolError>)
    ensures
        match caught {
            Ok(v) => outcome == Ok::<T, PoolError>(v),
            Err(msg) => outcome == Err::<T, PoolError>(PoolError::JobPanic(msg)),
        },
{
    match caught {
        Ok(v) => Ok(v),
        Err(msg) => Err(PoolError::JobPanic(msg)),
    }
}

} // verus!
