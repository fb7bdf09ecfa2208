use pooled::dispatch::{count_delivered, steal_step, unsent_job, worker_step, Message, StealStep};
use pooled::{Dispatcher, WorkerStep};
use std::sync::mpsc::{RecvError, TryRecvError};

#[test]
fn worker_runs_jobs_and_stops_on_terminate() {
    assert!(matches!(worker_step(Ok(Message::NewJob(5))), WorkerStep::Run(5)));
    assert!(matches!(worker_step::<i32>(Ok(Message::Terminate)), WorkerStep::Stop));
    assert!(matches!(worker_step::<i32>(Err(RecvError)), WorkerStep::Stop));
}

#[test]
fn steal_runs_jobs_and_requeues_terminate() {
    assert!(matches!(steal_step(Ok(Message::NewJob(9))), StealStep::Run(9)));
    assert!(matches!(steal_step::<i32>(Ok(Message::Terminate)), StealStep::Requeue));
    assert!(matches!(steal_step::<i32>(Err(TryRecvError::Empty)), StealStep::Idle));
    assert!(matches!(steal_step::<i32>(Err(TryRecvError::Disconnected)), StealStep::Idle));
}

#[test]
fn dispatcher_delivers_jobs_then_one_stop_per_worker() {
    let d: Dispatcher<u32> = Dispatcher::new(3);
    assert_eq!(d.workers(), 3);
    let q = d.queue();
    assert!(d.send_job(1).is_ok());
    assert!(d.send_job(2).is_ok());
    assert!(matches!(q.next(), WorkerStep::Run(1)));
    assert!(matches!(q.next(), WorkerStep::Run(2)));
    assert_eq!(d.shutdown(), 3);
    for _ in 0..3 {
        assert!(matches!(q.next(), WorkerStep::Stop));
    }
}

#[test]
fn steal_takes_waiting_job() {
    let d: Dispatcher<&str> = Dispatcher::new(1);
    assert!(d.steal().is_none());
    d.send_job("job").unwrap();
    assert_eq!(d.steal(), Some("job"));
    assert!(d.steal().is_none());
}

#[test]
fn steal_puts_back_stop_message() {
    let d: Dispatcher<u8> = Dispatcher::new(1);
    let q = d.queue();
    assert!(d.send_shutdown());
    assert!(d.steal().is_none());
    assert!(matches!(q.next(), WorkerStep::Stop));
}

#[test]
fn unsent_job_gives_back_the_job() {
    assert!(unsent_job::<u8>(Ok(())).is_ok());
    assert_eq!(unsent_job(Err(Message::NewJob(4u8))), Err(4u8));
}

#[test]
fn count_delivered_counts_taken_messages() {
    assert_eq!(count_delivered(&vec![true, false, true, true]), 3);
    assert_eq!(count_delivered(&vec![false, false]), 0);
    assert_eq!(count_delivered(&Vec::new()), 0);
}
