use miner_core::work::{
    create_engine_channel, engine_channel, work_loop, DynWorkEngine, Engine, EngineReceiver,
    EngineSender, ExhaustedWork, Next, WorkEngine,
};
use std::sync::Arc;

/// An engine of a job, told apart by its number.
#[derive(Clone, Copy, PartialEq, Eq, Debug)]
struct Job {
    id: u32,
    exhausted: bool,
}

impl Job {
    fn fresh(id: u32) -> Self {
        Job { id, exhausted: false }
    }

    fn used_up(id: u32) -> Self {
        Job { id, exhausted: true }
    }
}

impl WorkEngine for Job {
    fn is_exhausted(&self) -> bool {
        self.exhausted
    }
}

fn poll(receiver: &mut EngineReceiver, sender: &EngineSender<Engine<Job>>) -> Next<Engine<Job>> {
    match receiver.get_engine(sender) {
        Next::Engine(engine) => Next::Engine(*engine),
        Next::Closed => Next::Closed,
        Next::Pending => Next::Pending,
    }
}

#[test]
fn exhausted_work_is_exhausted() {
    assert!(ExhaustedWork.is_exhausted());
    assert!(Engine::<Job>::Exhausted(ExhaustedWork).is_exhausted());
    assert!(!Engine::Job(Job::fresh(1)).is_exhausted());
    assert!(Engine::Job(Job::used_up(1)).is_exhausted());
}

#[test]
fn shared_engine_is_an_engine() {
    let engine: DynWorkEngine = Arc::new(Job::fresh(7));
    assert!(!engine.is_exhausted());
    let (sender, mut receiver) = create_engine_channel(engine);
    assert!(matches!(receiver.get_engine(&sender), Next::Engine(_)));
    let idle: DynWorkEngine = Arc::new(ExhaustedWork);
    let (sender, mut receiver) = create_engine_channel(idle);
    assert!(matches!(receiver.get_engine(&sender), Next::Pending));
}

#[test]
fn work_loop_hands_on_an_engine_with_work() {
    assert_eq!(work_loop(Next::Engine(Job::fresh(3))), Next::Engine(Job::fresh(3)));
    assert_eq!(work_loop(Next::Engine(Job::used_up(3))), Next::Pending);
    assert_eq!(work_loop(Next::<Job>::Closed), Next::Closed);
    assert_eq!(work_loop(Next::<Job>::Pending), Next::Pending);
    assert_eq!(work_loop(Next::Engine(ExhaustedWork)), Next::Pending);
}

#[test]
fn receivers_rest_until_the_first_job() {
    let (sender, mut receiver) = engine_channel::<Job>();
    assert_eq!(*sender.current(), Engine::Exhausted(ExhaustedWork));
    assert!(!sender.is_closed());
    for _ in 0..3 {
        assert_eq!(poll(&mut receiver, &sender), Next::Pending);
    }
}

#[test]
fn broadcast_reaches_every_receiver_until_the_next() {
    let (mut sender, mut first) = engine_channel::<Job>();
    let mut second = first;
    assert_eq!(poll(&mut second, &sender), Next::Pending);
    sender.broadcast(Engine::Job(Job::fresh(1)));
    for _ in 0..3 {
        assert_eq!(poll(&mut first, &sender), Next::Engine(Engine::Job(Job::fresh(1))));
        assert_eq!(poll(&mut second, &sender), Next::Engine(Engine::Job(Job::fresh(1))));
    }
    sender.broadcast(Engine::Job(Job::fresh(2)));
    assert_eq!(poll(&mut first, &sender), Next::Engine(Engine::Job(Job::fresh(2))));
    assert_eq!(poll(&mut second, &sender), Next::Engine(Engine::Job(Job::fresh(2))));
}

#[test]
fn latest_engine_wins() {
    let (mut sender, mut receiver) = engine_channel::<Job>();
    sender.broadcast(Engine::Job(Job::fresh(1)));
    sender.broadcast(Engine::Job(Job::fresh(2)));
    assert_eq!(*sender.current(), Engine::Job(Job::fresh(2)));
    assert!(matches!(receiver.next(&sender), Next::Engine(Engine::Job(Job { id: 2, .. }))));
    assert!(matches!(receiver.next(&sender), Next::Pending));
    assert_eq!(poll(&mut receiver, &sender), Next::Engine(Engine::Job(Job::fresh(2))));
}

#[test]
fn next_gives_each_broadcast_once() {
    let (mut sender, mut receiver) = create_engine_channel(Job::fresh(1));
    assert!(matches!(receiver.next(&sender), Next::Pending));
    sender.broadcast(Job::fresh(2));
    assert!(matches!(receiver.next(&sender), Next::Engine(Job { id: 2, .. })));
    assert!(matches!(receiver.next(&sender), Next::Pending));
    sender.broadcast(Job::used_up(3));
    assert!(matches!(receiver.next(&sender), Next::Engine(Job { id: 3, exhausted: true })));
    assert!(matches!(receiver.next(&sender), Next::Pending));
}

#[test]
fn exhausted_engine_is_not_handed_out() {
    let (mut sender, mut receiver) = engine_channel::<Job>();
    sender.broadcast(Engine::Job(Job::used_up(1)));
    assert_eq!(poll(&mut receiver, &sender), Next::Pending);
    assert_eq!(poll(&mut receiver, &sender), Next::Pending);
    sender.broadcast(Engine::Job(Job::fresh(2)));
    assert_eq!(poll(&mut receiver, &sender), Next::Engine(Engine::Job(Job::fresh(2))));
}

#[test]
fn clone_reads_for_itself() {
    let (mut sender, mut parent) = engine_channel::<Job>();
    sender.broadcast(Engine::Job(Job::fresh(5)));
    assert!(matches!(parent.next(&sender), Next::Engine(_)));
    assert!(matches!(parent.next(&sender), Next::Pending));
    let mut clone = parent.clone();
    assert_eq!(poll(&mut clone, &sender), Next::Engine(Engine::Job(Job::fresh(5))));
    sender.broadcast(Engine::Job(Job::fresh(6)));
    assert!(matches!(clone.next(&sender), Next::Engine(Engine::Job(Job { id: 6, .. }))));
    assert!(matches!(parent.next(&sender), Next::Engine(Engine::Job(Job { id: 6, .. }))));
}

#[test]
fn closed_channel_ends_the_stream_after_the_last_engine() {
    let (mut sender, mut receiver) = engine_channel::<Job>();
    sender.broadcast(Engine::Job(Job::used_up(1)));
    sender.close();
    assert!(sender.is_closed());
    assert!(matches!(receiver.next(&sender), Next::Engine(Engine::Job(Job { id: 1, .. }))));
    assert!(matches!(receiver.next(&sender), Next::Closed));
    assert_eq!(poll(&mut receiver, &sender), Next::Closed);

    let (mut sender, mut receiver) = engine_channel::<Job>();
    sender.broadcast(Engine::Job(Job::fresh(2)));
    sender.close();
    assert_eq!(poll(&mut receiver, &sender), Next::Engine(Engine::Job(Job::fresh(2))));
}

#[test]
fn sender_does_not_depend_on_its_receivers() {
    let (mut sender, receiver) = engine_channel::<Job>();
    drop(receiver);
    sender.broadcast(Engine::Job(Job::fresh(1)));
    sender.broadcast(Engine::Job(Job::fresh(2)));
    assert_eq!(*sender.current(), Engine::Job(Job::fresh(2)));
}

#[test]
fn reschedule_changes_nothing() {
    let (mut sender, mut receiver) = engine_channel::<Job>();
    sender.broadcast(Engine::Job(Job::fresh(1)));
    let before = receiver;
    receiver.reschedule();
    assert_eq!(receiver, before);
    assert_eq!(poll(&mut receiver, &sender), Next::Engine(Engine::Job(Job::fresh(1))));
}
