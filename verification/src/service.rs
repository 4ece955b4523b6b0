//! The rules of the poll service loop that drives many receivers and acceptors from
//! one thread, and of the hooks that a connection fires around its sends.
use crate::busywait::BusyWaitStep;
use crate::status::{AcceptStatus, PollEventStatus, RecvStatus, SendStatus};
use vstd::prelude::*;

verus! {

/// What a receive attempt made on a readiness event means to the poll loop: a
/// message was handled, nothing was there, or the stream ended.
pub fn poll_event_status<T>(status: &RecvStatus<T>) -> (e: PollEventStatus)
    ensures
        e == match status {
            RecvStatus::Completed(Some(_)) => PollEventStatus::Completed,
            RecvStatus::Completed(None) => PollEventStatus::Terminate,
            RecvStatus::WouldBlock => PollEventStatus::WouldBlock,
        },
{
    match status {
        RecvStatus::Completed(Some(_)) => PollEventStatus::Completed,
        RecvStatus::Completed(None) => PollEventStatus::Terminate,
        RecvStatus::WouldBlock => PollEventStatus::WouldBlock,
    }
}

/// What the poll loop does with a polled receiver after servicing one of its events.
#[derive(Debug, PartialEq, Eq, Structural)]
pub enum RecverVerdict {
    /// It handled a message: keep it, and make another pass over the events.
    Yielded,
    /// It had nothing: keep it.
    Idle,
    /// Its stream ended or failed: deregister and drop it.
    Retire,
}

pub fn recver_verdict<E>(r: &Result<PollEventStatus, E>) -> (v: RecverVerdict)
    ensures
        v == match r {
            Ok(PollEventStatus::Completed) => RecverVerdict::Yielded,
            Ok(PollEventStatus::WouldBlock) => RecverVerdict::Idle,
            Ok(PollEventStatus::Terminate) => RecverVerdict::Retire,
            Err(_) => RecverVerdict::Retire,
        },
{
    match r {
        Ok(PollEventStatus::Completed) => RecverVerdict::Yielded,
        Ok(PollEventStatus::WouldBlock) => RecverVerdict::Idle,
        Ok(PollEventStatus::Terminate) => RecverVerdict::Retire,
        Err(_) => RecverVerdict::Retire,
    }
}

/// What the poll loop does with a polled acceptor after servicing one of its events.
#[derive(Debug, PartialEq)]
pub enum AcceptorStep<R, E> {
    /// A connection was accepted: register its receiver, and make another pass.
    Register(R),
    /// A connection was turned away: make another pass.
    Yielded,
    /// Nothing to accept.
    Idle,
    /// The acceptor failed: deregister and drop it.
    Retire(E),
}

pub fn acceptor_step<R, E>(r: Result<AcceptStatus<R>, E>) -> (s: AcceptorStep<R, E>)
    ensures
        s == match r {
            Ok(AcceptStatus::Accepted(recver)) => AcceptorStep::<R, E>::Register(recver),
            Ok(AcceptStatus::Rejected) => AcceptorStep::<R, E>::Yielded,
            Ok(AcceptStatus::WouldBlock) => AcceptorStep::<R, E>::Idle,
            Err(e) => AcceptorStep::<R, E>::Retire(e),
        },
{
    match r {
        Ok(AcceptStatus::Accepted(recver)) => AcceptorStep::Register(recver),
        Ok(AcceptStatus::Rejected) => AcceptorStep::Yielded,
        Ok(AcceptStatus::WouldBlock) => AcceptorStep::Idle,
        Err(e) => AcceptorStep::Retire(e),
    }
}

/// What the poll loop's wake-up channel delivered.
pub enum WakerDelivery<S, C> {
    /// A receiver or an acceptor to service from now on.
    Serviceable(S),
    /// A request to drop every receiver and acceptor of one connection lineage.
    ShutdownLineage(C),
    /// A request to drop everything and stop.
    ShutdownAll,
    /// Nothing was waiting in the channel.
    Empty,
    /// Every sending side of the channel is gone.
    Disconnected,
}

/// What the poll loop does after its waker fired.
#[derive(Debug, PartialEq)]
pub enum WakerStep<S, C> {
    /// Register the new serviceable, and make another pass.
    Register(S),
    /// Drop the receivers and acceptors of this lineage, keep going.
    RetireLineage(C),
    /// Drop everything and stop the loop.
    TerminateAll,
    /// Nothing to do.
    Idle,
}

/// The loop stops for good when asked to, and also when nobody can ask it anything
/// any more (the channel is disconnected).
pub fn waker_step<S, C>(d: WakerDelivery<S, C>) -> (s: WakerStep<S, C>)
    ensures
        s == match d {
            WakerDelivery::Serviceable(x) => WakerStep::<S, C>::Register(x),
            WakerDelivery::ShutdownLineage(c) => WakerStep::<S, C>::RetireLineage(c),
            WakerDelivery::ShutdownAll => WakerStep::<S, C>::TerminateAll,
            WakerDelivery::Empty => WakerStep::<S, C>::Idle,
            WakerDelivery::Disconnected => WakerStep::<S, C>::TerminateAll,
        },
{
    match d {
        WakerDelivery::Serviceable(x) => WakerStep::Register(x),
        WakerDelivery::ShutdownLineage(c) => WakerStep::RetireLineage(c),
        WakerDelivery::ShutdownAll => WakerStep::TerminateAll,
        WakerDelivery::Empty => WakerStep::Idle,
        WakerDelivery::Disconnected => WakerStep::TerminateAll,
    }
}

/// Which end of a connection an id names: a client, or a service.
#[derive(Debug, Clone, Copy, PartialEq, Eq, Structural)]
pub enum ConSide {
    Clt,
    Svc,
}

/// What ties connections into one lineage: the end they name, their name, and the
/// address of the service (the peer a client connects to, the address a service
/// listens on).
pub struct Lineage {
    pub side: ConSide,
    pub name: String,
    pub service_addr: String,
}

/// Two connections share a lineage when they name the same end, under the same name,
/// of the same service address: the same client of one service, or connections
/// accepted on one service address. A lineage shutdown of the poll loop drops them
/// together.
pub fn same_lineage(a: &Lineage, b: &Lineage) -> (same: bool)
    ensures
        same == (a.side == b.side && a.name@ == b.name@ && a.service_addr@ == b.service_addr@),
{
    a.side == b.side && a.name == b.name && a.service_addr == b.service_addr
}

/// The kinds of entries a poll loop services.
#[derive(Debug, Clone, Copy, PartialEq, Eq, Structural)]
pub enum ServiceableKind {
    Acceptor,
    Recver,
    Waker,
}

/// Whether an entry of kind `kind` survives a shutdown request: a total request
/// drops every entry; a request for one lineage drops the receivers and acceptors of
/// that lineage (`same_lineage`) and keeps the waker.
pub open spec fn survives_shutdown(kind: ServiceableKind, total: bool, same_lineage: bool) -> bool {
    match kind {
        ServiceableKind::Waker => !total,
        _ => !total && !same_lineage,
    }
}

/// Whether an entry survives a shutdown request (see [survives_shutdown]).
pub fn retained_on_shutdown(kind: ServiceableKind, total: bool, same_lineage: bool) -> (keep: bool)
    ensures
        keep == survives_shutdown(kind, total, same_lineage),
{
    match kind {
        ServiceableKind::Waker => !total,
        ServiceableKind::Acceptor => !total && !same_lineage,
        ServiceableKind::Recver => !total && !same_lineage,
    }
}

/// The keys, in order, of the entries that a shutdown request drops, out of the
/// registered entries `entries`, each given as its key, its kind and whether it
/// belongs to the lineage the request names.
pub open spec fn shutdown_keys(entries: Seq<(usize, ServiceableKind, bool)>, total: bool) -> Seq<usize>
    decreases entries.len(),
{
    if entries.len() == 0 {
        Seq::empty()
    } else {
        let before = shutdown_keys(entries.drop_last(), total);
        let e = entries.last();
        if survives_shutdown(e.1, total, e.2) {
            before
        } else {
            before.push(e.0)
        }
    }
}

/// Picks, out of the registered entries of a poll loop, the keys of those a shutdown
/// request drops, in the order of the entries.
pub fn entries_to_retire(entries: &Vec<(usize, ServiceableKind, bool)>, total: bool) -> (keys: Vec<usize>)
    ensures
        keys@ == shutdown_keys(entries@, total),
{
    let mut keys: Vec<usize> = Vec::new();
    let mut i: usize = 0;
    while i < entries.len()
        invariant
            i <= entries.len(),
            keys@ == shutdown_keys(entries@.subrange(0, i as int), total),
        decreases entries.len() - i,
    {
        let (key, kind, same) = entries[i];
        proof {
            assert(entries@.subrange(0, i + 1).drop_last() =~= entries@.subrange(0, i as int));
        }
        if !retained_on_shutdown(kind, total, same) {
            keys.push(key);
        }
        i = i + 1;
    }
    proof {
        assert(entries@.subrange(0, entries@.len() as int) =~= entries@);
    }
    keys
}

/// A total shutdown drops every entry, the waker included: the keys it retires are
/// the keys of all entries, in order.
pub proof fn lemma_total_shutdown_retires_all(entries: Seq<(usize, ServiceableKind, bool)>)
    ensures
        shutdown_keys(entries, true) == entries.map_values(|e: (usize, ServiceableKind, bool)| e.0),
    decreases entries.len(),
{
    if entries.len() > 0 {
        lemma_total_shutdown_retires_all(entries.drop_last());
        assert(entries.map_values(|e: (usize, ServiceableKind, bool)| e.0) =~= entries.drop_last().map_values(
            |e: (usize, ServiceableKind, bool)| e.0,
        ).push(entries.last().0));
    } else {
        assert(entries.map_values(|e: (usize, ServiceableKind, bool)| e.0) =~= Seq::<usize>::empty());
    }
}

/// A shutdown of one lineage retires exactly the keys, in order, of the registered
/// entries that belong to that lineage and are not the waker: every receiver and
/// acceptor of the lineage goes, everything else stays.
pub proof fn lemma_lineage_shutdown_retires_the_lineage(entries: Seq<(usize, ServiceableKind, bool)>)
    ensures
        shutdown_keys(entries, false) == entries.filter(
            |e: (usize, ServiceableKind, bool)| e.2 && !(e.1 is Waker),
        ).map_values(|e: (usize, ServiceableKind, bool)| e.0),
    decreases entries.len(),
{
    reveal(Seq::filter);
    let p = |e: (usize, ServiceableKind, bool)| e.2 && !(e.1 is Waker);
    let key = |e: (usize, ServiceableKind, bool)| e.0;
    if entries.len() > 0 {
        lemma_lineage_shutdown_retires_the_lineage(entries.drop_last());
        let f = entries.filter(p);
        let fd = entries.drop_last().filter(p);
        if p(entries.last()) {
            assert(f == fd.push(entries.last()));
            assert(f.map_values(key) =~= fd.map_values(key).push(entries.last().0));
        } else {
            assert(f == fd);
        }
    } else {
        assert(entries.filter(p).map_values(key) =~= Seq::<usize>::empty());
    }
}

/// A shutdown of one lineage drops exactly the entries of that lineage other than the
/// waker: never the waker, never an entry of another lineage.
pub proof fn lemma_lineage_shutdown_keeps_others(entries: Seq<(usize, ServiceableKind, bool)>)
    ensures
        shutdown_keys(entries, false) == shutdown_keys(
            entries.filter(|e: (usize, ServiceableKind, bool)| e.2 && !(e.1 is Waker)),
            false,
        ),
    decreases entries.len(),
{
    reveal(Seq::filter);
    if entries.len() > 0 {
        lemma_lineage_shutdown_keeps_others(entries.drop_last());
        let p = |e: (usize, ServiceableKind, bool)| e.2 && !(e.1 is Waker);
        let f = entries.filter(p);
        let fd = entries.drop_last().filter(p);
        if p(entries.last()) {
            assert(f == fd.push(entries.last()));
            assert(f.drop_last() =~= fd);
        } else {
            assert(f == fd);
        }
    }
}

/// One pass of the poll loop over the events of one poll: the loop makes another
/// pass as long as a pass made progress on some entry.
pub struct ServicePass {
    yielded: bool,
}

impl ServicePass {
    pub closed spec fn yielded_spec(&self) -> bool {
        self.yielded
    }

    pub fn new() -> (p: Self)
        ensures
            !p.yielded_spec(),
    {
        ServicePass { yielded: false }
    }

    /// Records that an entry made progress during this pass.
    pub fn note_yield(&mut self)
        ensures
            final(self).yielded_spec(),
    {
        self.yielded = true;
    }

    /// Whether the loop must make another pass over the same events.
    pub fn needs_another_pass(&self) -> (b: bool)
        ensures
            b == self.yielded_spec(),
    {
        self.yielded
    }
}

/// Which hook a connection fires after a send attempt.
#[derive(Debug, PartialEq, Eq, Structural)]
pub enum SendHook {
    /// The message went out: fired once per message actually sent.
    Sent,
    /// The send gave up on a would-block.
    WouldBlock,
    /// The send failed.
    Error,
}

/// The result of one send attempt of a connection, with the hook to fire.
#[derive(Debug, PartialEq)]
pub struct SenderStep<E> {
    pub step: BusyWaitStep<Result<SendStatus, E>>,
    pub hook: Option<SendHook>,
}

/// Decides, after one send attempt, whether the connection returns or retries and
/// which hook it fires. `give_up` says whether a would-block ends the send: always
/// for a single send, once the timeout passed for a timed busy-wait, never for an
/// untimed busy-wait. A retried attempt fires no hook, so every message fires exactly
/// one hook, when its send ends.
pub fn sender_step<E>(r: Result<SendStatus, E>, give_up: bool) -> (s: SenderStep<E>)
    ensures
        match r {
            Ok(SendStatus::Completed) => s == SenderStep {
                step: BusyWaitStep::Return(Ok::<SendStatus, E>(SendStatus::Completed)),
                hook: Some(SendHook::Sent),
            },
            Ok(SendStatus::WouldBlock) => if give_up {
                s == SenderStep {
                    step: BusyWaitStep::Return(Ok::<SendStatus, E>(SendStatus::WouldBlock)),
                    hook: Some(SendHook::WouldBlock),
                }
            } else {
                s == SenderStep { step: BusyWaitStep::<Result<SendStatus, E>>::Retry, hook: None }
            },
            Err(e) => s == SenderStep {
                step: BusyWaitStep::Return(Err::<SendStatus, E>(e)),
                hook: Some(SendHook::Error),
            },
        },
        s.hook is None <==> s.step is Retry,
{
    match r {
        Ok(SendStatus::Completed) => SenderStep {
            step: BusyWaitStep::Return(Ok(SendStatus::Completed)),
            hook: Some(SendHook::Sent),
        },
        Ok(SendStatus::WouldBlock) => {
            if give_up {
                SenderStep {
                    step: BusyWaitStep::Return(Ok(SendStatus::WouldBlock)),
                    hook: Some(SendHook::WouldBlock),
                }
            } else {
                SenderStep { step: BusyWaitStep::Retry, hook: None }
            }
        },
        Err(e) => SenderStep { step: BusyWaitStep::Return(Err(e)), hook: Some(SendHook::Error) },
    }
}

/// What the heartbeat timer does with a connection after one heartbeat send.
#[derive(Debug, PartialEq, Eq, Structural)]
pub enum HeartbeatVerdict {
    /// Sent: wait for the next interval.
    Completed,
    /// The socket was busy: retry at once.
    RetryNow,
    /// The send failed: stop sending heartbeats on this connection.
    Terminate,
}

pub fn heartbeat_verdict<E>(r: &Result<SendStatus, E>) -> (v: HeartbeatVerdict)
    ensures
        v == match r {
            Ok(SendStatus::Completed) => HeartbeatVerdict::Completed,
            Ok(SendStatus::WouldBlock) => HeartbeatVerdict::RetryNow,
            Err(_) => HeartbeatVerdict::Terminate,
        },
{
    match r {
        Ok(SendStatus::Completed) => HeartbeatVerdict::Completed,
        Ok(SendStatus::WouldBlock) => HeartbeatVerdict::RetryNow,
        Err(_) => HeartbeatVerdict::Terminate,
    }
}

} // verus!
