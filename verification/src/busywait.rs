//! The retry rules of busy-waiting on non-blocking operations.
//!
//! A busy-wait calls a non-blocking operation again and again. After each call it
//! takes one of these steps, given what the call returned and, for the timed
//! variants, how long it has been waiting: it returns a value or it retries.
use crate::status::{AcceptStatus, PoolAcceptStatus, RecvStatus, SendStatus};
use vstd::prelude::*;

verus! {

/// What a busy-wait does after one attempt.
#[derive(Debug, PartialEq)]
pub enum BusyWaitStep<T> {
    /// Stop waiting and return this value.
    Return(T),
    /// Call the operation again.
    Retry,
}

/// The wait is over once strictly more time has elapsed than the timeout allows.
#[verifier::allow_in_spec]
pub fn timed_out(elapsed_nanos: u128, timeout_nanos: u128) -> bool
    returns
        elapsed_nanos > timeout_nanos,
{
    elapsed_nanos > timeout_nanos
}

/// A client keeps trying to connect while strictly less time has elapsed than the
/// connect timeout allows.
#[verifier::allow_in_spec]
pub fn may_retry_connect(elapsed_nanos: u128, timeout_nanos: u128) -> bool
    returns
        elapsed_nanos < timeout_nanos,
{
    elapsed_nanos < timeout_nanos
}

/// Receive with a timeout: a completed receive is returned at once; a would-block
/// is retried until the timeout has passed, then returned.
pub fn recv_timeout_step<T>(status: RecvStatus<T>, elapsed_nanos: u128, timeout_nanos: u128) -> (step: BusyWaitStep<RecvStatus<T>>)
    ensures
        match status {
            RecvStatus::Completed(o) => step == BusyWaitStep::Return(RecvStatus::Completed(o)),
            RecvStatus::WouldBlock => if elapsed_nanos > timeout_nanos {
                step == BusyWaitStep::Return(RecvStatus::<T>::WouldBlock)
            } else {
                step == BusyWaitStep::<RecvStatus<T>>::Retry
            },
        },
{
    match status {
        RecvStatus::Completed(o) => BusyWaitStep::Return(RecvStatus::Completed(o)),
        RecvStatus::WouldBlock => {
            if timed_out(elapsed_nanos, timeout_nanos) {
                BusyWaitStep::Return(RecvStatus::WouldBlock)
            } else {
                BusyWaitStep::Retry
            }
        },
    }
}

/// Receive without a timeout: the message (or the end of the stream) of a completed
/// receive is returned; a would-block is retried.
pub fn recv_busywait_step<T>(status: RecvStatus<T>) -> (step: BusyWaitStep<Option<T>>)
    ensures
        match status {
            RecvStatus::Completed(o) => step == BusyWaitStep::Return(o),
            RecvStatus::WouldBlock => step == BusyWaitStep::<Option<T>>::Retry,
        },
{
    match status {
        RecvStatus::Completed(o) => BusyWaitStep::Return(o),
        RecvStatus::WouldBlock => BusyWaitStep::Retry,
    }
}

/// Send with a timeout: a completed send is returned at once; a would-block is
/// retried until the timeout has passed, then returned.
pub fn send_timeout_step(status: SendStatus, elapsed_nanos: u128, timeout_nanos: u128) -> (step: BusyWaitStep<SendStatus>)
    ensures
        match status {
            SendStatus::Completed => step == BusyWaitStep::Return(SendStatus::Completed),
            SendStatus::WouldBlock => if elapsed_nanos > timeout_nanos {
                step == BusyWaitStep::Return(SendStatus::WouldBlock)
            } else {
                step == BusyWaitStep::<SendStatus>::Retry
            },
        },
{
    match status {
        SendStatus::Completed => BusyWaitStep::Return(SendStatus::Completed),
        SendStatus::WouldBlock => {
            if timed_out(elapsed_nanos, timeout_nanos) {
                BusyWaitStep::Return(SendStatus::WouldBlock)
            } else {
                BusyWaitStep::Retry
            }
        },
    }
}

/// Send without a timeout: returns once the send completed, retries a would-block.
pub fn send_busywait_step(status: SendStatus) -> (step: BusyWaitStep<()>)
    ensures
        match status {
            SendStatus::Completed => step == BusyWaitStep::Return(()),
            SendStatus::WouldBlock => step == BusyWaitStep::<()>::Retry,
        },
{
    match status {
        SendStatus::Completed => BusyWaitStep::Return(()),
        SendStatus::WouldBlock => BusyWaitStep::Retry,
    }
}

/// Accept with a timeout: an accepted or rejected connection is returned at once; a
/// would-block is retried until the timeout has passed, then returned.
pub fn accept_timeout_step<T>(status: AcceptStatus<T>, elapsed_nanos: u128, timeout_nanos: u128) -> (step: BusyWaitStep<AcceptStatus<T>>)
    ensures
        match status {
            AcceptStatus::Accepted(t) => step == BusyWaitStep::Return(AcceptStatus::Accepted(t)),
            AcceptStatus::Rejected => step == BusyWaitStep::Return(AcceptStatus::<T>::Rejected),
            AcceptStatus::WouldBlock => if elapsed_nanos > timeout_nanos {
                step == BusyWaitStep::Return(AcceptStatus::<T>::WouldBlock)
            } else {
                step == BusyWaitStep::<AcceptStatus<T>>::Retry
            },
        },
{
    match status {
        AcceptStatus::Accepted(t) => BusyWaitStep::Return(AcceptStatus::Accepted(t)),
        AcceptStatus::Rejected => BusyWaitStep::Return(AcceptStatus::Rejected),
        AcceptStatus::WouldBlock => {
            if timed_out(elapsed_nanos, timeout_nanos) {
                BusyWaitStep::Return(AcceptStatus::WouldBlock)
            } else {
                BusyWaitStep::Retry
            }
        },
    }
}

/// Accept without a timeout: only an accepted connection ends the wait; rejected
/// connections and would-blocks are retried.
pub fn accept_busywait_step<T>(status: AcceptStatus<T>) -> (step: BusyWaitStep<T>)
    ensures
        match status {
            AcceptStatus::Accepted(t) => step == BusyWaitStep::Return(t),
            _ => step == BusyWaitStep::<T>::Retry,
        },
{
    match status {
        AcceptStatus::Accepted(t) => BusyWaitStep::Return(t),
        AcceptStatus::Rejected => BusyWaitStep::Retry,
        AcceptStatus::WouldBlock => BusyWaitStep::Retry,
    }
}

/// Pool accept with a timeout: an accepted or rejected connection is returned at
/// once; a would-block is retried until the timeout has passed, then returned.
pub fn pool_accept_timeout_step(status: PoolAcceptStatus, elapsed_nanos: u128, timeout_nanos: u128) -> (step: BusyWaitStep<PoolAcceptStatus>)
    ensures
        match status {
            PoolAcceptStatus::WouldBlock => if elapsed_nanos > timeout_nanos {
                step == BusyWaitStep::Return(PoolAcceptStatus::WouldBlock)
            } else {
                step == BusyWaitStep::<PoolAcceptStatus>::Retry
            },
            _ => step == BusyWaitStep::Return(status),
        },
{
    match status {
        PoolAcceptStatus::Accepted => BusyWaitStep::Return(PoolAcceptStatus::Accepted),
        PoolAcceptStatus::Rejected => BusyWaitStep::Return(PoolAcceptStatus::Rejected),
        PoolAcceptStatus::WouldBlock => {
            if timed_out(elapsed_nanos, timeout_nanos) {
                BusyWaitStep::Return(PoolAcceptStatus::WouldBlock)
            } else {
                BusyWaitStep::Retry
            }
        },
    }
}

/// Pool accept without a timeout: only an accepted connection ends the wait;
/// rejected connections and would-blocks are retried.
pub fn pool_accept_busywait_step(status: PoolAcceptStatus) -> (step: BusyWaitStep<PoolAcceptStatus>)
    ensures
        match status {
            PoolAcceptStatus::Accepted => step == BusyWaitStep::Return(PoolAcceptStatus::Accepted),
            _ => step == BusyWaitStep::<PoolAcceptStatus>::Retry,
        },
{
    match status {
        PoolAcceptStatus::Accepted => BusyWaitStep::Return(PoolAcceptStatus::Accepted),
        PoolAcceptStatus::Rejected => BusyWaitStep::Retry,
        PoolAcceptStatus::WouldBlock => BusyWaitStep::Retry,
    }
}

/// Receive from a pool with a timeout. Besides the plain receive rule, an error that
/// only says the pool holds no connection yet is retried until the timeout has
/// passed, then returned; any other error is returned at once.
pub fn pool_recv_timeout_step<T, E>(
    r: Result<RecvStatus<T>, E>,
    not_connected: bool,
    elapsed_nanos: u128,
    timeout_nanos: u128,
) -> (step: BusyWaitStep<Result<RecvStatus<T>, E>>)
    ensures
        match r {
            Ok(RecvStatus::Completed(o)) => step == BusyWaitStep::Return(
                Ok::<RecvStatus<T>, E>(RecvStatus::Completed(o)),
            ),
            Ok(RecvStatus::WouldBlock) => if elapsed_nanos > timeout_nanos {
                step == BusyWaitStep::Return(Ok::<RecvStatus<T>, E>(RecvStatus::WouldBlock))
            } else {
                step == BusyWaitStep::<Result<RecvStatus<T>, E>>::Retry
            },
            Err(e) => if not_connected && elapsed_nanos <= timeout_nanos {
                step == BusyWaitStep::<Result<RecvStatus<T>, E>>::Retry
            } else {
                step == BusyWaitStep::Return(Err::<RecvStatus<T>, E>(e))
            },
        },
{
    match r {
        Ok(RecvStatus::Completed(o)) => BusyWaitStep::Return(Ok(RecvStatus::Completed(o))),
        Ok(RecvStatus::WouldBlock) => {
            if timed_out(elapsed_nanos, timeout_nanos) {
                BusyWaitStep::Return(Ok(RecvStatus::WouldBlock))
            } else {
                BusyWaitStep::Retry
            }
        },
        Err(e) => {
            if not_connected && !timed_out(elapsed_nanos, timeout_nanos) {
                BusyWaitStep::Retry
            } else {
                BusyWaitStep::Return(Err(e))
            }
        },
    }
}

/// Receive from a pool without a timeout: a completed receive returns its message (or
/// the end of its stream); a would-block and an error that only says the pool holds
/// no connection yet are retried; any other error is returned.
pub fn pool_recv_busywait_step<T, E>(r: Result<RecvStatus<T>, E>, not_connected: bool) -> (step: BusyWaitStep<Result<Option<T>, E>>)
    ensures
        match r {
            Ok(RecvStatus::Completed(o)) => step == BusyWaitStep::Return(Ok::<Option<T>, E>(o)),
            Ok(RecvStatus::WouldBlock) => step == BusyWaitStep::<Result<Option<T>, E>>::Retry,
            Err(e) => if not_connected {
                step == BusyWaitStep::<Result<Option<T>, E>>::Retry
            } else {
                step == BusyWaitStep::Return(Err::<Option<T>, E>(e))
            },
        },
{
    match r {
        Ok(RecvStatus::Completed(o)) => BusyWaitStep::Return(Ok(o)),
        Ok(RecvStatus::WouldBlock) => BusyWaitStep::Retry,
        Err(e) => {
            if not_connected {
                BusyWaitStep::Retry
            } else {
                BusyWaitStep::Return(Err(e))
            }
        },
    }
}

/// Send through a pool with a timeout. Besides the plain send rule, an error that
/// only says the pool holds no connection yet is retried until the timeout has
/// passed, then returned; any other error is returned at once.
pub fn pool_send_timeout_step<E>(
    r: Result<SendStatus, E>,
    not_connected: bool,
    elapsed_nanos: u128,
    timeout_nanos: u128,
) -> (step: BusyWaitStep<Result<SendStatus, E>>)
    ensures
        match r {
            Ok(SendStatus::Completed) => step == BusyWaitStep::Return(Ok::<SendStatus, E>(SendStatus::Completed)),
            Ok(SendStatus::WouldBlock) => if elapsed_nanos > timeout_nanos {
                step == BusyWaitStep::Return(Ok::<SendStatus, E>(SendStatus::WouldBlock))
            } else {
                step == BusyWaitStep::<Result<SendStatus, E>>::Retry
            },
            Err(e) => if not_connected && elapsed_nanos <= timeout_nanos {
                step == BusyWaitStep::<Result<SendStatus, E>>::Retry
            } else {
                step == BusyWaitStep::Return(Err::<SendStatus, E>(e))
            },
        },
{
    match r {
        Ok(SendStatus::Completed) => BusyWaitStep::Return(Ok(SendStatus::Completed)),
        Ok(SendStatus::WouldBlock) => {
            if timed_out(elapsed_nanos, timeout_nanos) {
                BusyWaitStep::Return(Ok(SendStatus::WouldBlock))
            } else {
                BusyWaitStep::Retry
            }
        },
        Err(e) => {
            if not_connected && !timed_out(elapsed_nanos, timeout_nanos) {
                BusyWaitStep::Retry
            } else {
                BusyWaitStep::Return(Err(e))
            }
        },
    }
}

/// Send through a pool without a timeout: a completed send returns; a would-block
/// and an error that only says the pool holds no connection yet are retried; any
/// other error is returned.
pub fn pool_send_busywait_step<E>(r: Result<SendStatus, E>, not_connected: bool) -> (step: BusyWaitStep<Result<(), E>>)
    ensures
        match r {
            Ok(SendStatus::Completed) => step == BusyWaitStep::Return(Ok::<(), E>(())),
            Ok(SendStatus::WouldBlock) => step == BusyWaitStep::<Result<(), E>>::Retry,
            Err(e) => if not_connected {
                step == BusyWaitStep::<Result<(), E>>::Retry
            } else {
                step == BusyWaitStep::Return(Err::<(), E>(e))
            },
        },
{
    match r {
        Ok(SendStatus::Completed) => BusyWaitStep::Return(Ok(())),
        Ok(SendStatus::WouldBlock) => BusyWaitStep::Retry,
        Err(e) => {
            if not_connected {
                BusyWaitStep::Retry
            } else {
                BusyWaitStep::Return(Err(e))
            }
        },
    }
}

} // verus!
