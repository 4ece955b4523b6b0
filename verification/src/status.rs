//! Outcome types of one non-blocking accept, receive or send attempt.
use vstd::prelude::*;

verus! {

/// Outcome of a non-blocking accept operation on a pool.
#[derive(Debug, PartialEq, Eq, Structural)]
pub enum PoolAcceptStatus {
    Accepted,
    Rejected,
    WouldBlock,
}

impl PoolAcceptStatus {
    /// Consumes an [PoolAcceptStatus::Accepted]; the other variants are refused.
    pub fn unwrap_accepted(self)
        requires
            self is Accepted,
    {
        match self {
            PoolAcceptStatus::Accepted => (),
            PoolAcceptStatus::Rejected => (),
            PoolAcceptStatus::WouldBlock => (),
        }
    }

    /// Consumes a [PoolAcceptStatus::Rejected]; the other variants are refused.
    pub fn unwrap_rejected(self)
        requires
            self is Rejected,
    {
        match self {
            PoolAcceptStatus::Accepted => (),
            PoolAcceptStatus::Rejected => (),
            PoolAcceptStatus::WouldBlock => (),
        }
    }

    #[verifier::allow_in_spec]
    pub fn is_accepted(&self) -> bool
        returns
            self is Accepted,
    {
        match self {
            PoolAcceptStatus::Accepted => true,
            PoolAcceptStatus::Rejected => false,
            PoolAcceptStatus::WouldBlock => false,
        }
    }

    #[verifier::allow_in_spec]
    pub fn is_wouldblock(&self) -> bool
        returns
            self is WouldBlock,
    {
        match self {
            PoolAcceptStatus::Accepted => false,
            PoolAcceptStatus::Rejected => false,
            PoolAcceptStatus::WouldBlock => true,
        }
    }

    #[verifier::allow_in_spec]
    pub fn is_rejected(&self) -> bool
        returns
            self is Rejected,
    {
        match self {
            PoolAcceptStatus::Accepted => false,
            PoolAcceptStatus::Rejected => true,
            PoolAcceptStatus::WouldBlock => false,
        }
    }
}

/// Outcome of a non-blocking accept operation that yields the accepted value.
#[derive(Debug, PartialEq)]
pub enum AcceptStatus<T> {
    Accepted(T),
    Rejected,
    WouldBlock,
}

impl<T> AcceptStatus<T> {
    /// Unwraps the value of an [AcceptStatus::Accepted]; the other variants are refused.
    pub fn unwrap_accepted(self) -> (t: T)
        requires
            self is Accepted,
        ensures
            self == AcceptStatus::Accepted(t),
    {
        match self {
            AcceptStatus::Accepted(t) => t,
            AcceptStatus::Rejected => unreached(),
            AcceptStatus::WouldBlock => unreached(),
        }
    }

    #[verifier::allow_in_spec]
    pub fn is_accepted(&self) -> bool
        returns
            self is Accepted,
    {
        match self {
            AcceptStatus::Accepted(_) => true,
            AcceptStatus::Rejected => false,
            AcceptStatus::WouldBlock => false,
        }
    }

    #[verifier::allow_in_spec]
    pub fn is_wouldblock(&self) -> bool
        returns
            self is WouldBlock,
    {
        match self {
            AcceptStatus::Accepted(_) => false,
            AcceptStatus::Rejected => false,
            AcceptStatus::WouldBlock => true,
        }
    }

    #[verifier::allow_in_spec]
    pub fn is_rejected(&self) -> bool
        returns
            self is Rejected,
    {
        match self {
            AcceptStatus::Accepted(_) => false,
            AcceptStatus::Rejected => true,
            AcceptStatus::WouldBlock => false,
        }
    }
}

/// Outcome of a non-blocking receive attempt.
///
/// * `Completed(Some(t))` - a message was received
/// * `Completed(None)` - the peer closed the connection cleanly and all data was read
/// * `WouldBlock` - nothing was received, the caller should try again
#[derive(Debug, PartialEq)]
pub enum RecvStatus<T> {
    Completed(Option<T>),
    WouldBlock,
}

impl<T> RecvStatus<T> {
    /// Consumes a completed outcome; `WouldBlock` is refused.
    pub fn unwrap_completed_none(self)
        requires
            self is Completed,
    {
        match self {
            RecvStatus::Completed(Some(_)) => (),
            RecvStatus::Completed(None) => (),
            RecvStatus::WouldBlock => (),
        }
    }

    /// Unwraps the message of a `Completed(Some(t))`; the other variants are refused.
    pub fn unwrap_completed_some(self) -> (t: T)
        requires
            self matches RecvStatus::Completed(Some(_)),
        ensures
            self == RecvStatus::Completed(Some(t)),
    {
        match self {
            RecvStatus::Completed(Some(t)) => t,
            RecvStatus::Completed(None) => unreached(),
            RecvStatus::WouldBlock => unreached(),
        }
    }

    /// Consumes a `WouldBlock`; the other variants are refused.
    pub fn unwrap_wouldblock(self)
        requires
            self is WouldBlock,
    {
        match self {
            RecvStatus::Completed(_) => (),
            RecvStatus::WouldBlock => {},
        }
    }

    #[verifier::allow_in_spec]
    pub fn is_completed(&self) -> bool
        returns
            self is Completed,
    {
        match self {
            RecvStatus::Completed(_) => true,
            RecvStatus::WouldBlock => false,
        }
    }

    #[verifier::allow_in_spec]
    pub fn is_completed_none(&self) -> bool
        returns
            self matches RecvStatus::Completed(None),
    {
        match self {
            RecvStatus::Completed(Some(_)) => false,
            RecvStatus::Completed(None) => true,
            RecvStatus::WouldBlock => false,
        }
    }

    #[verifier::allow_in_spec]
    pub fn is_completed_some(&self) -> bool
        returns
            self matches RecvStatus::Completed(Some(_)),
    {
        match self {
            RecvStatus::Completed(Some(_)) => true,
            RecvStatus::Completed(None) => false,
            RecvStatus::WouldBlock => false,
        }
    }

    #[verifier::allow_in_spec]
    pub fn is_wouldblock(&self) -> bool
        returns
            self is WouldBlock,
    {
        match self {
            RecvStatus::Completed(_) => false,
            RecvStatus::WouldBlock => true,
        }
    }
}

/// Outcome of a send attempt.
///
/// * `Completed` - all bytes of the frame were written
/// * `WouldBlock` - not a single byte was written
#[derive(Debug, PartialEq, Eq, Structural)]
pub enum SendStatus {
    Completed,
    WouldBlock,
}

impl SendStatus {
    /// Consumes a `Completed`; a `WouldBlock` is refused.
    pub fn unwrap_completed(self)
        requires
            self is Completed,
    {
        match self {
            SendStatus::Completed => {},
            SendStatus::WouldBlock => {},
        }
    }

    #[verifier::allow_in_spec]
    pub fn is_completed(&self) -> bool
        returns
            self is Completed,
    {
        match self {
            SendStatus::Completed => true,
            SendStatus::WouldBlock => false,
        }
    }

    #[verifier::allow_in_spec]
    pub fn is_wouldblock(&self) -> bool
        returns
            self is WouldBlock,
    {
        !self.is_completed()
    }
}

/// Outcome of servicing one readiness event of a polled source.
#[derive(Debug, PartialEq, Eq, Structural)]
pub enum PollEventStatus {
    Completed,
    WouldBlock,
    Terminate,
}

/// Every pool accept outcome is exactly one of accepted, rejected and would-block.
pub proof fn lemma_pool_accept_status_exclusive(s: PoolAcceptStatus)
    ensures
        s.is_accepted() || s.is_rejected() || s.is_wouldblock(),
        !(s.is_accepted() && s.is_rejected()),
        !(s.is_accepted() && s.is_wouldblock()),
        !(s.is_rejected() && s.is_wouldblock()),
{
}

/// Every accept outcome is exactly one of accepted, rejected and would-block.
pub proof fn lemma_accept_status_exclusive<T>(s: AcceptStatus<T>)
    ensures
        s.is_accepted() || s.is_rejected() || s.is_wouldblock(),
        !(s.is_accepted() && s.is_rejected()),
        !(s.is_accepted() && s.is_wouldblock()),
        !(s.is_rejected() && s.is_wouldblock()),
{
}

/// A receive outcome is completed exactly when it is not would-block, and a completed
/// outcome carries either a message or the end of the stream, never both.
pub proof fn lemma_recv_status_partition<T>(s: RecvStatus<T>)
    ensures
        s.is_completed() <==> !s.is_wouldblock(),
        s.is_completed() <==> (s.is_completed_some() || s.is_completed_none()),
        !(s.is_completed_some() && s.is_completed_none()),
{
}

/// A send outcome is would-block exactly when it is not completed.
pub proof fn lemma_send_status_partition(s: SendStatus)
    ensures
        s.is_wouldblock() <==> !s.is_completed(),
{
}

} // verus!
