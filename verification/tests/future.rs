use pooled::future::settle;
use pooled::{job_outcome, task_channel, PoolError};
use std::sync::mpsc::RecvError;

#[test]
fn task_returns_fulfilled_value() {
    let (promise, task) = task_channel();
    assert!(promise.fulfil(job_outcome(Ok(42))));
    assert_eq!(task.wait().unwrap(), 42);
}

#[test]
fn tasks_return_their_own_values() {
    let pairs: Vec<_> = (0..10).map(|_| task_channel::<i32>()).collect();
    let mut tasks = Vec::new();
    for (i, (promise, task)) in pairs.into_iter().enumerate() {
        promise.fulfil(job_outcome(Ok(i as i32 * 2)));
        tasks.push(task);
    }
    let results: Vec<i32> = tasks.into_iter().map(|t| t.wait().unwrap()).collect();
    assert_eq!(results, vec![0, 2, 4, 6, 8, 10, 12, 14, 16, 18]);
}

#[test]
fn task_of_panicked_job_is_job_panic() {
    let (promise, task) = task_channel::<i32>();
    promise.fulfil(job_outcome(Err(String::from("oops"))));
    let result = task.wait();
    assert!(matches!(result, Err(PoolError::JobPanic(ref m)) if m == "oops"));
}

#[test]
fn task_without_outcome_is_channel_closed() {
    let (promise, task) = task_channel::<i32>();
    drop(promise);
    assert!(matches!(task.wait(), Err(PoolError::ChannelClosed)));
}

#[test]
fn fulfil_without_task_is_not_delivered() {
    let (promise, task) = task_channel::<i32>();
    drop(task);
    assert!(!promise.fulfil(Ok(1)));
}

#[test]
fn settle_maps_each_outcome() {
    assert_eq!(settle::<i32>(Ok(Ok(15))).unwrap(), 15);
    assert!(matches!(settle::<i32>(Ok(Err(PoolError::ChannelClosed))), Err(PoolError::ChannelClosed)));
    assert!(matches!(
        settle::<i32>(Ok(Err(PoolError::JobPanic(String::from("x"))))),
        Err(PoolError::JobPanic(_))
    ));
    assert!(matches!(settle::<i32>(Err(RecvError)), Err(PoolError::ChannelClosed)));
}
