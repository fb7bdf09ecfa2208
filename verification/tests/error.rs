use pooled::{job_outcome, PoolError};
use std::sync::mpsc::RecvError;

#[test]
fn error_messages() {
    assert_eq!(PoolError::JobPanic(String::from("oops")).message(), "job panicked");
    assert_eq!(PoolError::ChannelClosed.message(), "channel closed");
}

#[test]
fn error_debug_messages() {
    assert_eq!(PoolError::JobPanic(String::from("oops")).debug_message(), "PoolError::JobPanic(..)");
    assert_eq!(PoolError::ChannelClosed.debug_message(), "PoolError::ChannelClosed");
}

#[test]
fn recv_error_is_channel_closed() {
    let e: PoolError = RecvError.into();
    assert!(matches!(e, PoolError::ChannelClosed));
    assert!(matches!(PoolError::from(RecvError), PoolError::ChannelClosed));
}

#[test]
fn job_outcome_keeps_value_or_panic_message() {
    assert_eq!(job_outcome::<u8>(Ok(7)).unwrap(), 7);
    assert!(matches!(job_outcome::<u8>(Err(String::from("boom"))), Err(PoolError::JobPanic(ref m)) if m == "boom"));
}
