//! Counters that guard shared resources: how many connections an acceptor keeps
//! open, and whether a spawned poll handler has been shut down for good.
use vstd::prelude::*;

verus! {

/// A service pools up to this many times as many connections as its acceptor keeps
/// open, so that new connections find room while dead ones are not yet dropped.
pub const SVC_MAX_CONNECTIONS_2_POOL_SIZE_FACTOR: usize = 2;

/// The size of the connection pool of a service whose acceptor keeps at most
/// `max_connections` connections open.
pub fn svc_pool_size(max_connections: usize) -> (n: usize)
    requires
        max_connections * SVC_MAX_CONNECTIONS_2_POOL_SIZE_FACTOR <= usize::MAX,
    ensures
        n == max_connections * SVC_MAX_CONNECTIONS_2_POOL_SIZE_FACTOR,
{
    max_connections * SVC_MAX_CONNECTIONS_2_POOL_SIZE_FACTOR
}

/// Limits the number of connections an acceptor keeps open at the same time.
///
/// Every accepted connection takes one slot and gives it back when it closes; a
/// connection that arrives while every slot is taken is rejected.
#[derive(Debug)]
pub struct ConnectionGate {
    active: usize,
    max: usize,
}

impl ConnectionGate {
    /// The number of connections holding a slot.
    pub closed spec fn active_spec(&self) -> nat {
        self.active as nat
    }

    /// The number of slots.
    pub closed spec fn max_spec(&self) -> nat {
        self.max as nat
    }

    pub closed spec fn wf(&self) -> bool {
        &&& 0 < self.max
        &&& self.active <= self.max
    }

    /// A well-formed gate has at least one slot and never more connections than
    /// slots; in particular a full gate has a connection whose slot can be released.
    pub proof fn lemma_wf_bounds(&self)
        requires
            self.wf(),
        ensures
            0 < self.max_spec(),
            self.active_spec() <= self.max_spec(),
    {
    }

    /// A gate with `max_connections` free slots.
    pub fn new(max_connections: usize) -> (g: Self)
        requires
            max_connections > 0,
        ensures
            g.wf(),
            g.active_spec() == 0,
            g.max_spec() == max_connections,
    {
        ConnectionGate { active: 0, max: max_connections }
    }

    pub fn active(&self) -> (n: usize)
        ensures
            n == self.active_spec(),
    {
        self.active
    }

    pub fn max_connections(&self) -> (n: usize)
        ensures
            n == self.max_spec(),
    {
        self.max
    }

    /// Takes a slot for a new connection: `true` when one was free, `false` (and
    /// nothing changes) when every slot is taken.
    pub fn increment(&mut self) -> (admitted: bool)
        requires
            old(self).wf(),
        ensures
            final(self).wf(),
            final(self).max_spec() == old(self).max_spec(),
            admitted == (old(self).active_spec() < old(self).max_spec()),
            final(self).active_spec() == if admitted {
                old(self).active_spec() + 1
            } else {
                old(self).active_spec()
            },
    {
        if self.active < self.max {
            self.active = self.active + 1;
            true
        } else {
            false
        }
    }

    /// Gives back the slot of a connection that closed.
    pub fn release(&mut self)
        requires
            old(self).wf(),
            old(self).active_spec() > 0,
        ensures
            final(self).wf(),
            final(self).max_spec() == old(self).max_spec(),
            final(self).active_spec() == old(self).active_spec() - 1,
    {
        self.active = self.active - 1;
    }
}

/// Records whether a spawned poll handler was shut down for good.
///
/// A shutdown request names either one connection lineage or, when total, all of
/// them. Once a total shutdown went out, further requests are ignored and the handler
/// may no longer be used.
#[derive(Debug)]
pub struct ShutdownLatch {
    total: bool,
}

impl ShutdownLatch {
    pub closed spec fn is_shut_down_spec(&self) -> bool {
        self.total
    }

    pub fn new() -> (l: Self)
        ensures
            !l.is_shut_down_spec(),
    {
        ShutdownLatch { total: false }
    }

    /// Whether a total shutdown has gone out.
    pub fn is_shut_down(&self) -> (b: bool)
        ensures
            b == self.is_shut_down_spec(),
    {
        self.total
    }

    /// Decides whether a shutdown request (total or for one lineage) must be sent to
    /// the handler; a total request also closes the latch.
    pub fn request(&mut self, total: bool) -> (send: bool)
        ensures
            send == !old(self).is_shut_down_spec(),
            final(self).is_shut_down_spec() == (old(self).is_shut_down_spec() || total),
    {
        if self.total {
            false
        } else {
            if total {
                self.total = true;
            }
            true
        }
    }
}

} // verus!
