//! The fabric that hands the current work engine to the mining backends: a
//! channel from one sender to many receivers that keeps the latest engine
//! only, and the loop by which a backend waits for an engine that has work.
//!
//! The channel here is the plain state behind such a fabric. The sender owns
//! the slot that holds the engine in force; a receiver is a cursor into it
//! and reads through a reference to the sender. Nothing waits: where a
//! backend would suspend, the answer is `Next::Pending`.

use std::sync::Arc;
use vstd::prelude::*;

verus! {

/// A source of mining work derived from one job.
pub trait WorkEngine: Send + Sync {
    /// Whether `exhausted` is an answer that `is_exhausted` may give. An
    /// engine that states nothing may give both.
    open spec fn reports(&self, exhausted: bool) -> bool {
        true
    }

    /// Tells whether the engine has no work left to give.
    fn is_exhausted(&self) -> (exhausted: bool)
        ensures
            self.reports(exhausted),
    ;
}

/// Whether `engine` never says that it is exhausted.
pub open spec fn has_work<E: WorkEngine>(engine: E) -> bool {
    !engine.reports(true)
}

/// Whether `engine` always says that it is exhausted.
pub open spec fn has_no_work<E: WorkEngine>(engine: E) -> bool {
    !engine.reports(false)
}

/// The engine that never has any work. A channel starts with it, so that its
/// receivers rest until the first job arrives.
#[derive(Clone, Copy, PartialEq, Eq, Structural, Debug)]
pub struct ExhaustedWork;

impl WorkEngine for ExhaustedWork {
    open spec fn reports(&self, exhausted: bool) -> bool {
        exhausted
    }

    fn is_exhausted(&self) -> (exhausted: bool) {
        true
    }
}

/// Shared work engine type.
pub type DynWorkEngine = Arc<dyn WorkEngine>;

/// A shared engine is the engine that it shares.
impl<E: WorkEngine + ?Sized> WorkEngine for Arc<E> {
    open spec fn reports(&self, exhausted: bool) -> bool {
        (**self).reports(exhausted)
    }

    fn is_exhausted(&self) -> (exhausted: bool) {
        (**self).is_exhausted()
    }
}

/// A borrowed engine is the engine that it borrows.
impl<E: WorkEngine + ?Sized> WorkEngine for &E {
    open spec fn reports(&self, exhausted: bool) -> bool {
        (**self).reports(exhausted)
    }

    fn is_exhausted(&self) -> (exhausted: bool) {
        (**self).is_exhausted()
    }
}

/// What a channel carries when it starts empty: the engine of a job, or,
/// until the first job arrives, the engine that is always exhausted.
#[derive(Clone, Copy, PartialEq, Eq, Debug)]
pub enum Engine<E> {
    Exhausted(ExhaustedWork),
    Job(E),
}

impl<E: WorkEngine> WorkEngine for Engine<E> {
    open spec fn reports(&self, exhausted: bool) -> bool {
        match self {
            Engine::Exhausted(engine) => engine.reports(exhausted),
            Engine::Job(engine) => engine.reports(exhausted),
        }
    }

    fn is_exhausted(&self) -> (exhausted: bool) {
        match self {
            Engine::Exhausted(engine) => engine.is_exhausted(),
            Engine::Job(engine) => engine.is_exhausted(),
        }
    }
}

/// What a receiver gets when it asks for an engine.
#[derive(Clone, Copy, PartialEq, Eq, Debug)]
pub enum Next<E> {
    /// An engine.
    Engine(E),
    /// Nothing, and nothing will come: the sender is gone.
    Closed,
    /// Nothing yet: the receiver has to wait for the next broadcast.
    Pending,
}

/// One turn of the loop in which a backend waits for work, on what the
/// channel gave it: an engine is handed on unless it says that it is
/// exhausted, in which case the backend waits for the next one; the end of
/// the stream ends the loop.
pub fn work_loop<E: WorkEngine>(next: Next<E>) -> (turn: Next<E>)
    ensures
        match next {
            Next::Engine(engine) => match turn {
                Next::Engine(handed) => handed == engine && engine.reports(false),
                Next::Pending => engine.reports(true),
                Next::Closed => false,
            },
            Next::Closed => turn is Closed,
            Next::Pending => turn is Pending,
        },
{
    match next {
        Next::Engine(engine) => {
            if engine.is_exhausted() {
                Next::Pending
            } else {
                Next::Engine(engine)
            }
        },
        Next::Closed => Next::Closed,
        Next::Pending => Next::Pending,
    }
}

/// The state of a channel: the engine in force, the version that counts the
/// engines installed so far, and whether the sender has closed the channel.
pub struct EngineSlot<E> {
    pub engine: E,
    pub version: u64,
    pub closed: bool,
}

impl<E> EngineSlot<E> {
    /// The version that follows `version`. The count starts over after the
    /// largest number.
    pub open spec fn next_version(version: u64) -> u64 {
        if version == u64::MAX {
            0
        } else {
            (version + 1) as u64
        }
    }

    /// The slot after `engine` was installed in it.
    pub open spec fn install(self, engine: E) -> EngineSlot<E> {
        EngineSlot {
            engine,
            version: EngineSlot::<E>::next_version(self.version),
            closed: self.closed,
        }
    }

    /// The slot after the sender has closed the channel.
    pub open spec fn close(self) -> EngineSlot<E> {
        EngineSlot { engine: self.engine, version: self.version, closed: true }
    }
}

/// Sender is responsible for broadcasting a new engine to all mining
/// backends. It is the one writer of the channel and holds its slot.
pub struct EngineSender<E> {
    engine: E,
    version: u64,
    closed: bool,
}

impl<E> View for EngineSender<E> {
    type V = EngineSlot<E>;

    closed spec fn view(&self) -> EngineSlot<E> {
        EngineSlot { engine: self.engine, version: self.version, closed: self.closed }
    }
}

impl<E: WorkEngine> EngineSender<E> {
    fn new(engine: E) -> (sender: Self)
        ensures
            sender@ == (EngineSlot { engine, version: 0, closed: false }),
    {
        EngineSender { engine, version: 0, closed: false }
    }

    /// Installs `engine` in place of the engine in force. From now on every
    /// receiver reads `engine`, whether or not it has read the one before.
    /// The channel has to be open.
    pub fn broadcast(&mut self, engine: E)
        requires
            !old(self)@.closed,
        ensures
            final(self)@ == old(self)@.install(engine),
    {
        self.engine = engine;
        self.version = if self.version == u64::MAX {
            0
        } else {
            self.version + 1
        };
    }

    /// Closes the channel, as the sender does when it goes away. The engine
    /// in force stays; a receiver that has nothing new to read learns that
    /// nothing will come.
    pub fn close(&mut self)
        ensures
            final(self)@ == old(self)@.close(),
    {
        self.closed = true;
    }

    /// Whether the channel is closed.
    pub fn is_closed(&self) -> (closed: bool)
        ensures
            closed == self@.closed,
    {
        self.closed
    }

    /// The engine in force.
    pub fn current(&self) -> (engine: &E)
        ensures
            *engine == self@.engine,
    {
        &self.engine
    }
}

/// Manages incoming engines (see `get_engine` for details). A receiver
/// remembers the version that it has read last; a clone starts from the same
/// version and moves on by itself.
#[derive(Clone, Copy, PartialEq, Eq, Structural, Debug)]
pub struct EngineReceiver {
    seen: u64,
}

impl View for EngineReceiver {
    type V = u64;

    closed spec fn view(&self) -> u64 {
        self.seen
    }
}

impl EngineReceiver {
    fn new(seen: u64) -> (receiver: Self)
        ensures
            receiver@ == seen,
    {
        EngineReceiver { seen }
    }

    /// What a receiver that has read version `seen` gets next from `slot`,
    /// and the version that it has read afterwards.
    pub open spec fn spec_next<E>(seen: u64, slot: EngineSlot<E>) -> (Next<E>, u64) {
        if seen != slot.version {
            (Next::Engine(slot.engine), slot.version)
        } else if slot.closed {
            (Next::Closed, seen)
        } else {
            (Next::Pending, seen)
        }
    }

    /// Whether a receiver that has read version `seen` can get `next` from
    /// `get_engine` on `slot` and have read version `after` then.
    pub open spec fn spec_get_engine<E: WorkEngine>(
        seen: u64,
        slot: EngineSlot<E>,
        next: Next<E>,
        after: u64,
    ) -> bool {
        match next {
            Next::Engine(engine) => {
                &&& engine == slot.engine
                &&& slot.engine.reports(false)
                &&& after == seen || after == slot.version
            },
            Next::Closed => slot.closed && slot.engine.reports(true) && after == slot.version,
            Next::Pending => !slot.closed && slot.engine.reports(true) && after == slot.version,
        }
    }

    /// The engine that was broadcast since this receiver last took one from
    /// here. Where there is none, the receiver has to wait, or, where the
    /// channel is closed, learns that none will come.
    pub fn next<'a, E: WorkEngine>(&mut self, sender: &'a EngineSender<E>) -> (next: Next<&'a E>)
        ensures
            EngineReceiver::spec_next(old(self)@, sender@) == (
                deref_next(next),
                final(self)@,
            ),
    {
        if self.seen != sender.version {
            self.seen = sender.version;
            Next::Engine(&sender.engine)
        } else if sender.closed {
            Next::Closed
        } else {
            Next::Pending
        }
    }

    /// Provides the most recent engine as long as the engine is able to
    /// provide any work. Otherwise the receiver has to wait for a new one,
    /// or, where the channel is closed, learns that none will come.
    pub fn get_engine<'a, E: WorkEngine>(&mut self, sender: &'a EngineSender<E>) -> (next: Next<
        &'a E,
    >)
        ensures
            EngineReceiver::spec_get_engine(old(self)@, sender@, deref_next(next), final(self)@),
    {
        let ghost seen = self@;
        let mut next = Next::Engine(sender.current());
        loop
            invariant
                next matches Next::Engine(engine) && *engine == sender@.engine,
                seen == old(self)@,
                self@ == seen || self@ == sender@.version,
            decreases
                    (if self@ == sender@.version {
                        0int
                    } else {
                        1int
                    }),
        {
            match work_loop(next) {
                Next::Engine(engine) => {
                    // return only work engine which can generate some work
                    return Next::Engine(engine);
                },
                Next::Closed => {
                    return Next::Closed;
                },
                Next::Pending => {
                    match self.next(sender) {
                        // end of stream
                        Next::Closed => {
                            return Next::Closed;
                        },
                        Next::Pending => {
                            return Next::Pending;
                        },
                        // new work engine received
                        Next::Engine(engine) => {
                            next = Next::Engine(engine);
                        },
                    }
                },
            }
        }
    }

    /// Asks the sender for new work. What the sender is to do about it is
    /// not settled yet; the call changes nothing.
    pub fn reschedule(&self) {
    }
}

/// What `next` holds, without the borrow.
pub open spec fn deref_next<E>(next: Next<&E>) -> Next<E> {
    match next {
        Next::Engine(engine) => Next::Engine(*engine),
        Next::Closed => Next::Closed,
        Next::Pending => Next::Pending,
    }
}

/// Builds a channel that starts with `work_engine`, and its first receiver,
/// which has read nothing yet.
pub fn create_engine_channel<E: WorkEngine>(work_engine: E) -> (channel: (
    EngineSender<E>,
    EngineReceiver,
))
    ensures
        channel.0@ == (EngineSlot { engine: work_engine, version: 0, closed: false }),
        channel.1@ == 0,
{
    (EngineSender::new(work_engine), EngineReceiver::new(0))
}

/// Builds a channel for the engines of jobs. A channel needs an engine to
/// start with: it is the one that is exhausted all the time.
pub fn engine_channel<E: WorkEngine>() -> (channel: (EngineSender<Engine<E>>, EngineReceiver))
    ensures
        channel.0@ == (EngineSlot {
            engine: Engine::<E>::Exhausted(ExhaustedWork),
            version: 0,
            closed: false,
        }),
        channel.1@ == 0,
{
    create_engine_channel(Engine::Exhausted(ExhaustedWork))
}

/// While the engine that is always exhausted is the only one that the channel
/// has held, `get_engine` hands out no engine: on an open channel every
/// receiver is told to wait, and is told so again however often it asks.
pub proof fn lemma_rests_until_first_job<E: WorkEngine>(seen: u64, next: Next<Engine<E>>, after: u64)
    requires
        EngineReceiver::spec_get_engine(
            seen,
            EngineSlot { engine: Engine::<E>::Exhausted(ExhaustedWork), version: 0, closed: false },
            next,
            after,
        ),
    ensures
        next is Pending,
        forall|again: Next<Engine<E>>, later: u64|
            EngineReceiver::spec_get_engine(
                after,
                EngineSlot {
                    engine: Engine::<E>::Exhausted(ExhaustedWork),
                    version: 0,
                    closed: false,
                },
                again,
                later,
            ) ==> again is Pending,
{
}

/// After an engine that has work was broadcast, `get_engine` hands that
/// engine to every receiver, whatever the receiver has read before, and
/// leaves the receiver as it was: so it does every time, until the next
/// broadcast.
pub proof fn lemma_broadcast_reaches_all<E: WorkEngine>(
    slot: EngineSlot<E>,
    engine: E,
    seen: u64,
    next: Next<E>,
    after: u64,
)
    requires
        has_work(engine),
        EngineReceiver::spec_get_engine(seen, slot.install(engine), next, after),
    ensures
        next == Next::Engine(engine),
        after == seen || after == slot.install(engine).version,
        forall|again: Next<E>, later: u64|
            EngineReceiver::spec_get_engine(after, slot.install(engine), again, later) ==> again
                == Next::Engine(engine),
{
}

/// Of two engines that were broadcast one after the other before any
/// receiver has read, only the second is ever seen: `get_engine` hands out no
/// other engine, and `next` gives the second to every receiver that had read
/// the engine that was in force before the two.
pub proof fn lemma_latest_wins<E: WorkEngine>(
    slot: EngineSlot<E>,
    first: E,
    second: E,
    seen: u64,
    next: Next<E>,
    after: u64,
)
    requires
        EngineReceiver::spec_get_engine(seen, slot.install(first).install(second), next, after),
    ensures
        next matches Next::Engine(engine) ==> engine == second,
        has_work(second) ==> next == Next::Engine(second),
        seen == slot.version ==> EngineReceiver::spec_next(
            seen,
            slot.install(first).install(second),
        ).0 == Next::Engine(second),
{
}

/// A clone of a receiver reads for itself. On an open channel its first
/// `get_engine` never finds the stream at its end, and gives the engine in
/// force where that one has work, however far the receiver that it was
/// cloned from has read: where the engine in force has work, both get it.
pub proof fn lemma_clone_reads_for_itself<E: WorkEngine>(
    parent: EngineReceiver,
    clone: EngineReceiver,
    slot: EngineSlot<E>,
    next: Next<E>,
    after: u64,
)
    requires
        clone == parent,
        !slot.closed,
        EngineReceiver::spec_get_engine(clone@, slot, next, after),
    ensures
        !(next is Closed),
        has_work(slot.engine) ==> next == Next::Engine(slot.engine),
        forall|other: Next<E>, later: u64|
            EngineReceiver::spec_get_engine(parent@, slot, other, later) ==> (has_work(
                slot.engine,
            ) ==> other == next),
{
}

} // verus!
