use lockout::channel::mpmc;
use std::sync::mpsc::{RecvError, TryRecvError};
use vstd::prelude::*;

verus! {

/// The sending end of the many-producer, many-consumer channel of `lockout`.
#[verifier::external_type_specification]
#[verifier::external_body]
#[verifier::reject_recursive_types(T)]
pub struct ExMpmcSender<T>(mpmc::Sender<T>);

/// The receiving end of the many-producer, many-consumer channel of `lockout`.
#[verifier::external_type_specification]
#[verifier::external_body]
#[verifier::reject_recursive_types(T)]
pub struct ExMpmcReceiver<T>(mpmc::Receiver<T>);

/// Calls `lockout::channel::mpmc::channel`, which makes a new channel and
/// hands back its two ends. Nothing is claimed of the ends.
#[verifier::external_body]
fn mpmc_channel<T>() -> (ends: (mpmc::Sender<T>, mpmc::Receiver<T>)) {
    mpmc::channel()
}

/// Calls `lockout::channel::mpmc::Sender::send`. Claimed: where the send
/// fails (every receiving end is gone), the message comes back unchanged.
/// Whether it fails depends on the other ends of the channel and is not
/// claimed.
#[verifier::external_body]
fn mpmc_send<T>(sender: &mpmc::Sender<T>, msg: T) -> (r: Result<(), T>)
    ensures
        r matches Err(back) ==> back == msg,
{
    match sender.send(msg) {
        Ok(()) => Ok(()),
        Err(err) => Err(err.0),
    }
}

/// Calls `lockout::channel::mpmc::Receiver::recv`, which blocks until a
/// message comes or every sending end is gone. Which message comes depends on
/// the other threads and is not claimed.
#[verifier::external_body]
fn mpmc_recv<T>(receiver: &mpmc::Receiver<T>) -> (r: Result<T, RecvError>) {
    receiver.recv()
}

/// Calls `lockout::channel::mpmc::Receiver::try_recv`, which takes a message
/// if one is there and does not block. What it finds depends on the other
/// threads and is not claimed.
#[verifier::external_body]
fn mpmc_try_recv<T>(receiver: &mpmc::Receiver<T>) -> (r: Result<T, TryRecvError>) {
    receiver.try_recv()
}

/// Calls `Clone::clone` of `lockout::channel::mpmc::Receiver`, which makes one
/// more receiving end of the same channel. Nothing is claimed of it.
#[verifier::external_body]
fn mpmc_receiver_clone<T>(receiver: &mpmc::Receiver<T>) -> (other: mpmc::Receiver<T>) {
    receiver.clone()
}

/// A message from the runtime to its workers.
pub enum Message<J> {
    /// A job to run.
    NewJob(J),
    /// The worker that takes this message stops.
    Terminate,
}

/// What a worker does with what it received.
pub enum WorkerStep<J> {
    /// Run this job, then wait for the next message.
    Run(J),
    /// Leave the loop: the worker is done.
    Stop,
}

/// What a thread that waits for other work does with what it took from the
/// queue without blocking.
pub enum StealStep<J> {
    /// Run this job in place of a worker.
    Run(J),
    /// It took a stop message meant for a worker: put it back.
    Requeue,
    /// Nothing to do.
    Idle,
}

/// A worker runs each job it receives and stops on a `Terminate` message or
/// when the channel is closed.
pub fn worker_step<J>(received: Result<Message<J>, RecvError>) -> (step: WorkerStep<J>)
    ensures
        match received {
            Ok(Message::NewJob(job)) => step == WorkerStep::Run(job),
            _ => step is Stop,
        },
{
    match received {
        Ok(Message::NewJob(job)) => WorkerStep::Run(job),
        Ok(Message::Terminate) => WorkerStep::Stop,
        Err(_) => WorkerStep::Stop,
    }
}

/// A thread that helps while it waits runs any job it takes, puts back a stop
/// message it took, and otherwise has nothing to do.
pub fn steal_step<J>(taken: Result<Message<J>, TryRecvError>) -> (step: StealStep<J>)
    ensures
        match taken {
            Ok(Message::NewJob(job)) => step == StealStep::Run(job),
            Ok(Message::Terminate) => step is Requeue,
            Err(_) => step is Idle,
        },
{
    match taken {
        Ok(Message::NewJob(job)) => StealStep::Run(job),
        Ok(Message::Terminate) => StealStep::Requeue,
        Err(_) => StealStep::Idle,
    }
}

/// What a send of a job comes to for the caller: `Ok` where the channel took
/// the message, else the job that the message held.
pub fn unsent_job<J>(sent: Result<(), Message<J>>) -> (r: Result<(), J>)
    requires
        sent matches Err(m) ==> m is NewJob,
    ensures
        match sent {
            Ok(()) => r is Ok,
            Err(Message::NewJob(job)) => r == Err::<(), J>(job),
            Err(Message::Terminate) => false,
        },
{
    match sent {
        Ok(()) => Ok(()),
        Err(Message::NewJob(job)) => Err(job),
        Err(Message::Terminate) => Ok(()),
    }
}

/// The number of `true` values in `outcomes`.
pub open spec fn count_true(outcomes: Seq<bool>) -> nat
    decreases outcomes.len(),
{
    if outcomes.len() == 0 {
        0
    } else {
        count_true(outcomes.drop_last()) + if outcomes.last() {
            1nat
        } else {
            0nat
        }
    }
}

/// How many of the stop messages the channel took, given whether it took each.
pub fn count_delivered(outcomes: &Vec<bool>) -> (n: usize)
    ensures
        n == count_true(outcomes@),
        n <= outcomes.len(),
{
    let mut n: usize = 0;
    let mut i: usize = 0;
    while i < outcomes.len()
        invariant
            i <= outcomes.len(),
            n == count_true(outcomes@.take(i as int)),
            n <= i,
        decreases outcomes.len() - i,
    {
        proof {
            assert(outcomes@.take(i + 1).drop_last() =~= outcomes@.take(i as int));
        }
        if outcomes[i] {
            n = n + 1;
        }
        i = i + 1;
    }
    proof {
        assert(outcomes@.take(outcomes.len() as int) =~= outcomes@);
    }
    n
}

/// The receiving end that one worker takes its messages from.
#[verifier::reject_recursive_types(J)]
pub struct JobQueue<J> {
    receiver: mpmc::Receiver<Message<J>>,
}

impl<J> JobQueue<J> {
    /// Waits for the next message and says what the worker does with it.
    pub fn next(&self) -> (step: WorkerStep<J>) {
        worker_step(mpmc_recv(&self.receiver))
    }
}

/// The sending side of a runtime: it hands jobs and stop messages to a fixed
/// number of workers through one channel.
#[verifier::reject_recursive_types(J)]
pub struct Dispatcher<J> {
    sender: mpmc::Sender<Message<J>>,
    spare: mpmc::Receiver<Message<J>>,
    workers: usize,
}

impl<J> Dispatcher<J> {
    /// A dispatcher always has at least one worker to send to.
    #[verifier::type_invariant]
    spec fn has_workers(&self) -> bool {
        self.workers > 0
    }

    /// The number of workers that the dispatcher sends to.
    pub closed spec fn spec_workers(&self) -> nat {
        self.workers as nat
    }

    /// Makes the channel for `workers` workers.
    pub fn new(workers: usize) -> (d: Self)
        requires
            workers > 0,
        ensures
            d.spec_workers() == workers,
    {
        let (sender, spare) = mpmc_channel();
        Dispatcher { sender, spare, workers }
    }

    /// The number of workers that the dispatcher sends to.
    pub fn workers(&self) -> (n: usize)
        ensures
            n == self.spec_workers(),
            n > 0,
    {
        proof {
            use_type_invariant(self);
        }
        self.workers
    }

    /// A receiving end for one worker.
    pub fn queue(&self) -> (q: JobQueue<J>) {
        JobQueue { receiver: mpmc_receiver_clone(&self.spare) }
    }

    /// Hands a job to whichever worker takes it first. Where the channel is
    /// closed, the job comes back.
    pub fn send_job(&self, job: J) -> (r: Result<(), J>)
        ensures
            r matches Err(back) ==> back == job,
    {
        unsent_job(mpmc_send(&self.sender, Message::NewJob(job)))
    }

    /// Sends one stop message; says whether the channel took it.
    pub fn send_shutdown(&self) -> (sent: bool) {
        mpmc_send(&self.sender, Message::Terminate).is_ok()
    }

    /// Sends one stop message for each worker; gives back how many the
    /// channel took.
    pub fn shutdown(&self) -> (delivered: usize)
        ensures
            delivered <= self.spec_workers(),
    {
        let mut outcomes: Vec<bool> = Vec::new();
        let mut i: usize = 0;
        while i < self.workers
            invariant
                i <= self.workers,
                outcomes.len() == i,
            decreases self.workers - i,
        {
            outcomes.push(self.send_shutdown());
            i = i + 1;
        }
        count_delivered(&outcomes)
    }

    /// Takes a message that no worker has taken yet, without blocking, and
    /// gives back the job in it, if it held one. A stop message that it takes
    /// is sent again for the worker that it was meant for.
    pub fn steal(&self) -> (job: Option<J>) {
        match steal_step(mpmc_try_recv(&self.spare)) {
            StealStep::Run(job) => Some(job),
            StealStep::Requeue => {
                let _ = self.send_shutdown();
                None
            },
            StealStep::Idle => None,
        }
    }
}

} // verus!
