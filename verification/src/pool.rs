//! A bounded pool of connections served in round-robin order.
use crate::status::{PoolAcceptStatus, RecvStatus, SendStatus};
use vstd::arithmetic::div_mod::{lemma_mod_add_multiples_vanish, lemma_small_mod};
use vstd::prelude::*;

verus! {

/// The position handed out by a round-robin call whose cursor is `cursor` on a pool
/// of `len` elements: the cursor itself, or the first element once the cursor has
/// run past the last one.
pub open spec fn pick(cursor: nat, len: nat) -> nat {
    if cursor < len {
        cursor
    } else {
        0
    }
}

/// The position handed out by the `k`-th (counting from zero) of successive
/// round-robin calls that start at `cursor` on an unchanged pool of `len` elements.
pub open spec fn rr_index(cursor: nat, len: nat, k: nat) -> nat
    decreases k,
{
    if k == 0 {
        pick(cursor, len)
    } else {
        rr_index(pick(cursor, len) + 1, len, (k - 1) as nat)
    }
}

/// A connection that can be asked, once, for the next message.
pub trait RecvAttempt<M, E>: Sized {
    /// Whether a connection in state `before`, asked for its next message, may answer
    /// `r` and be left in state `after`. For a connection written outside the library
    /// it is a relation, one per connection type, of which nothing more is known.
    open spec fn recv_answers(before: Self, after: Self, r: Result<RecvStatus<M>, E>) -> bool {
        (vstd::pervasive::arbitrary::<spec_fn(Self, Self, Result<RecvStatus<M>, E>) -> bool>())(
            before,
            after,
            r,
        )
    }

    fn recv_attempt(&mut self) -> (r: Result<RecvStatus<M>, E>)
        ensures
            Self::recv_answers(*old(self), *final(self), r),
    ;
}

/// A connection that can be asked, once, to send a message.
pub trait SendAttempt<M, E>: Sized {
    /// Whether a connection in state `before`, asked to send `msg_before`, may answer
    /// `r`, be left in state `after` and leave the message as `msg_after`. For a
    /// connection written outside the library it is a relation, one per connection
    /// type, of which nothing more is known.
    open spec fn send_answers(before: Self, after: Self, msg_before: M, msg_after: M, r: Result<SendStatus, E>) -> bool {
        (vstd::pervasive::arbitrary::<spec_fn(Self, Self, M, M, Result<SendStatus, E>) -> bool>())(
            before,
            after,
            msg_before,
            msg_after,
            r,
        )
    }

    fn send_attempt(&mut self, msg: &mut M) -> (r: Result<SendStatus, E>)
        ensures
            Self::send_answers(*old(self), *final(self), *old(msg), *final(msg), r),
    ;
}

/// Where new connections for a pool come from: `Ok(Some(c))` hands over one
/// connection, `Ok(None)` says none is waiting, `Err` says none will ever come.
pub trait ConnectionFeed<T, E>: Sized {
    /// Whether the feed may answer `r` to a request. For a feed written outside the
    /// library it is a relation, one per feed type, of which nothing more is known.
    open spec fn offers(&self, r: Result<Option<T>, E>) -> bool {
        (vstd::pervasive::arbitrary::<spec_fn(Self, Result<Option<T>, E>) -> bool>())(*self, r)
    }

    fn try_next(&self) -> (r: Result<Option<T>, E>)
        ensures
            self.offers(r),
    ;
}

/// Why a pool could not serve a receive or a send.
#[derive(Debug)]
pub enum PoolError<T, E> {
    /// The pool holds no connection and none is waiting.
    NotConnected,
    /// The connection that served the call failed; it left the pool and comes back
    /// here with its error.
    Dead { error: E, connection: T },
    /// The connection that served the call failed and stays in the pool.
    Failed(E),
    /// The feed of new connections failed.
    Feed(E),
}

/// The elements of a pool of at most `max` elements after it took in what a feed
/// offered: a connection that fits is appended; anything else leaves the pool as it was.
pub open spec fn accepted_pool<T, E>(before: Seq<T>, max: nat, offered: Result<Option<T>, E>) -> Seq<T> {
    match offered {
        Ok(Some(c)) => if before.len() < max {
            before.push(c)
        } else {
            before
        },
        _ => before,
    }
}

/// What a pool of at most `max` elements answers when it takes in what a feed offered.
pub open spec fn accept_status<T, E>(before: Seq<T>, max: nat, offered: Result<Option<T>, E>) -> Result<PoolAcceptStatus, E> {
    match offered {
        Ok(Some(_)) => if before.len() < max {
            Ok(PoolAcceptStatus::Accepted)
        } else {
            Ok(PoolAcceptStatus::WouldBlock)
        },
        Ok(None) => Ok(PoolAcceptStatus::WouldBlock),
        Err(e) => Err(e),
    }
}

/// The result of a pool call that first produced `r0` and then asked its feed once,
/// which offered `offered`: a failed feed replaces the result by its error.
pub open spec fn after_feed<T, R, E>(offered: Result<Option<T>, E>, r0: Result<R, PoolError<T, E>>) -> Result<R, PoolError<T, E>> {
    match offered {
        Err(e) => Err(PoolError::Feed(e)),
        _ => r0,
    }
}

/// After producing `r0` with the elements `mid`, the pool asked `feed` once for a
/// connection: `after` and `r` are what one possible answer of the feed gives.
pub open spec fn fed<T, R, E, Q: ConnectionFeed<T, E>>(
    feed: Q,
    mid: Seq<T>,
    max: nat,
    after: Seq<T>,
    r0: Result<R, PoolError<T, E>>,
    r: Result<R, PoolError<T, E>>,
) -> bool {
    exists|o: Result<Option<T>, E>|
        #[trigger] feed.offers(o) && after == accepted_pool(mid, max, o) && r == after_feed(o, r0)
}

/// Whether a receive answer `a` leaves its connection alive: a message or a would-block.
pub open spec fn recv_kept<M, E>(a: Result<RecvStatus<M>, E>) -> bool {
    a matches Ok(RecvStatus::Completed(Some(_))) || a matches Ok(RecvStatus::WouldBlock)
}

/// The elements after the element at `i` answered `a` to a receive and became `c`: it
/// stays as `c` while alive, and leaves the pool once its stream ended or failed.
pub open spec fn recv_pool_after<T, M, E>(before: Seq<T>, i: int, c: T, a: Result<RecvStatus<M>, E>) -> Seq<T> {
    if recv_kept(a) {
        before.update(i, c)
    } else {
        before.remove(i)
    }
}

/// What a pool returns for the answer `a` of its connection, left as `c`: the status
/// itself, or the error together with the dead connection.
pub open spec fn recv_pool_result<T, M, E>(c: T, a: Result<RecvStatus<M>, E>) -> Result<RecvStatus<M>, PoolError<T, E>> {
    match a {
        Ok(s) => Ok(s),
        Err(e) => Err(PoolError::Dead { error: e, connection: c }),
    }
}

/// Where the round-robin order stands after the element at `i` served a call and
/// `stays` says whether it is still in the pool: the next call goes to the element
/// after it, which is at `i + 1` while it stays and at `i` once it left; only an
/// element that stays is the one handed out last.
pub open spec fn cursor_after_serving(i: int, stays: bool, cursor: nat, last_used: Option<nat>) -> bool {
    if stays {
        cursor == i + 1 && last_used == Some(i as nat)
    } else {
        cursor == i && last_used is None
    }
}

/// The elements `pool` served a receive through the element at `i`, which answered
/// as its type allows, and then asked `feed` once: `after` and `r` are one possible
/// outcome, and `cursor` and `last_used` are where the round-robin order stands.
pub open spec fn served_recv<T: RecvAttempt<M, E>, M, E, Q: ConnectionFeed<T, E>>(
    feed: Q,
    pool: Seq<T>,
    i: int,
    max: nat,
    after: Seq<T>,
    r: Result<RecvStatus<M>, PoolError<T, E>>,
    cursor: nat,
    last_used: Option<nat>,
) -> bool {
    exists|c: T, a: Result<RecvStatus<M>, E>|
        #[trigger] T::recv_answers(pool[i], c, a) && fed(
            feed,
            recv_pool_after(pool, i, c, a),
            max,
            after,
            recv_pool_result(c, a),
            r,
        ) && cursor_after_serving(i, recv_kept(a), cursor, last_used)
}

/// The elements after the element at `i` answered `a` to a send and became `c`: it
/// stays as `c` unless the send failed, and then leaves the pool.
pub open spec fn send_pool_after<T, E>(before: Seq<T>, i: int, c: T, a: Result<SendStatus, E>) -> Seq<T> {
    if a is Ok {
        before.update(i, c)
    } else {
        before.remove(i)
    }
}

/// What a pool returns for the send answer `a` of its connection, left as `c`.
pub open spec fn send_pool_result<T, E>(c: T, a: Result<SendStatus, E>) -> Result<SendStatus, PoolError<T, E>> {
    match a {
        Ok(s) => Ok(s),
        Err(e) => Err(PoolError::Dead { error: e, connection: c }),
    }
}

/// The elements `pool` sent `msg_before` through the element at `i`, which answered
/// as its type allows and left the message as `msg_after`, and then asked `feed`
/// once: `after` and `r` are one possible outcome, and `cursor` and `last_used` are
/// where the round-robin order stands.
pub open spec fn served_send<T: SendAttempt<M, E>, M, E, Q: ConnectionFeed<T, E>>(
    feed: Q,
    pool: Seq<T>,
    i: int,
    max: nat,
    msg_before: M,
    msg_after: M,
    after: Seq<T>,
    r: Result<SendStatus, PoolError<T, E>>,
    cursor: nat,
    last_used: Option<nat>,
) -> bool {
    exists|c: T, a: Result<SendStatus, E>|
        #[trigger] T::send_answers(pool[i], c, msg_before, msg_after, a) && fed(
            feed,
            send_pool_after(pool, i, c, a),
            max,
            after,
            send_pool_result(c, a),
            r,
        ) && cursor_after_serving(i, a is Ok, cursor, last_used)
}

/// A bounded collection of elements served in round-robin order.
///
/// The elements keep the order in which they were added. A cursor marks the element
/// that the next round-robin call hands out; the element handed out last can be
/// removed, which is how a pool drops a connection that turned out dead.
pub struct RoundRobinPool<T> {
    elements: Vec<T>,
    next: usize,
    last_used: Option<usize>,
    capacity: usize,
}

impl<T> View for RoundRobinPool<T> {
    type V = Seq<T>;

    closed spec fn view(&self) -> Seq<T> {
        self.elements@
    }
}

impl<T> RoundRobinPool<T> {
    /// The position of the element the next round-robin call starts from.
    pub closed spec fn cursor(&self) -> nat {
        self.next as nat
    }

    /// The position of the element handed out by the last round-robin call, while it
    /// is still in the pool and nothing was removed since.
    pub closed spec fn last_used(&self) -> Option<nat> {
        match self.last_used {
            Some(i) => Some(i as nat),
            None => None,
        }
    }

    /// The most elements the pool can hold.
    pub closed spec fn max_len(&self) -> nat {
        self.capacity as nat
    }

    pub closed spec fn wf(&self) -> bool {
        &&& self.capacity > 0
        &&& self.elements@.len() <= self.capacity
        &&& self.next <= self.elements@.len()
        &&& self.last_used matches Some(i) ==> i < self.elements@.len()
    }

    /// Creates an empty pool that holds at most `capacity` elements.
    pub fn with_capacity(capacity: usize) -> (p: Self)
        requires
            capacity > 0,
        ensures
            p.wf(),
            p@ == Seq::<T>::empty(),
            p.max_len() == capacity,
            p.cursor() == 0,
            p.last_used() is None,
    {
        RoundRobinPool { elements: Vec::new(), next: 0, last_used: None, capacity }
    }

    pub fn len(&self) -> (n: usize)
        ensures
            n == self@.len(),
    {
        self.elements.len()
    }

    pub fn is_empty(&self) -> (b: bool)
        ensures
            b == (self@.len() == 0),
    {
        self.elements.len() == 0
    }

    /// Whether one more element fits.
    pub fn has_capacity(&self) -> (b: bool)
        ensures
            b == (self@.len() < self.max_len()),
    {
        self.elements.len() < self.capacity
    }

    /// The most elements the pool can hold.
    pub fn capacity(&self) -> (n: usize)
        ensures
            n == self.max_len(),
    {
        self.capacity
    }

    /// Adds an element at the end of the round-robin order if it fits; hands it back
    /// otherwise.
    pub fn add(&mut self, item: T) -> (r: Result<(), T>)
        requires
            old(self).wf(),
        ensures
            final(self).wf(),
            final(self).max_len() == old(self).max_len(),
            final(self).cursor() == old(self).cursor(),
            final(self).last_used() == old(self).last_used(),
            if old(self)@.len() < old(self).max_len() {
                &&& r is Ok
                &&& final(self)@ == old(self)@.push(item)
            } else {
                &&& r == Err::<(), T>(item)
                &&& final(self)@ == old(self)@
            },
    {
        if self.elements.len() < self.capacity {
            self.elements.push(item);
            Ok(())
        } else {
            Err(item)
        }
    }

    /// Takes an element into the pool: `Accepted` when it fits, otherwise the element
    /// is dropped and the answer is `WouldBlock`.
    pub fn pool_accept(&mut self, item: T) -> (s: PoolAcceptStatus)
        requires
            old(self).wf(),
        ensures
            final(self).wf(),
            final(self).max_len() == old(self).max_len(),
            final(self).cursor() == old(self).cursor(),
            final(self).last_used() == old(self).last_used(),
            if old(self)@.len() < old(self).max_len() {
                &&& s == PoolAcceptStatus::Accepted
                &&& final(self)@ == old(self)@.push(item)
            } else {
                &&& s == PoolAcceptStatus::WouldBlock
                &&& final(self)@ == old(self)@
            },
    {
        match self.add(item) {
            Ok(()) => PoolAcceptStatus::Accepted,
            Err(_rejected) => PoolAcceptStatus::WouldBlock,
        }
    }

    /// Removes every element.
    pub fn clear(&mut self)
        requires
            old(self).wf(),
        ensures
            final(self).wf(),
            final(self)@ == Seq::<T>::empty(),
            final(self).max_len() == old(self).max_len(),
            final(self).cursor() == 0,
            final(self).last_used() is None,
    {
        self.elements.clear();
        self.next = 0;
        self.last_used = None;
    }

    /// Hands out the next element in round-robin order, or `None` when the pool is
    /// empty.
    pub fn round_robin(&mut self) -> (r: Option<&mut T>)
        requires
            old(self).wf(),
        ensures
            final(self).wf(),
            final(self).max_len() == old(self).max_len(),
            old(self)@.len() == 0 ==> {
                &&& r is None
                &&& final(self)@ == old(self)@
                &&& final(self).cursor() == old(self).cursor()
                &&& final(self).last_used() == old(self).last_used()
            },
            old(self)@.len() > 0 ==> {
                let i = pick(old(self).cursor(), old(self)@.len());
                &&& final(self).cursor() == i + 1
                &&& final(self).last_used() == Some(i)
                &&& r matches Some(e) && *e == old(self)@[i as int] && final(self)@ == old(
                    self,
                )@.update(i as int, *final(e))
            },
    {
        let len = self.elements.len();
        if len == 0 {
            return None;
        }
        let i = if self.next < len {
            self.next
        } else {
            0
        };
        self.next = i + 1;
        self.last_used = Some(i);
        Some(&mut self.elements[i])
    }

    /// Removes the element handed out by the last round-robin call. The cursor keeps
    /// pointing at the element that followed it.
    pub fn remove_last_used(&mut self) -> (t: T)
        requires
            old(self).wf(),
            old(self).last_used() is Some,
        ensures
            final(self).wf(),
            final(self).max_len() == old(self).max_len(),
            final(self).last_used() is None,
            ({
                let i = old(self).last_used()->Some_0;
                &&& t == old(self)@[i as int]
                &&& final(self)@ == old(self)@.remove(i as int)
                &&& final(self).cursor() == if old(self).cursor() > i {
                    (old(self).cursor() - 1) as nat
                } else {
                    old(self).cursor()
                }
            }),
    {
        let i = match self.last_used {
            Some(i) => i,
            None => unreached(),
        };
        let t = self.elements.remove(i);
        if self.next > i {
            self.next = self.next - 1;
        }
        self.last_used = None;
        t
    }

    /// Settles a receive made on the element handed out last: a connection that
    /// reported the end of its stream or an error is dead and leaves the pool (it is
    /// handed back to be dropped); one that delivered a message or would block stays.
    pub fn settle_recv<M, E>(&mut self, r: &Result<RecvStatus<M>, E>) -> (dead: Option<T>)
        requires
            old(self).wf(),
            old(self).last_used() is Some,
        ensures
            final(self).wf(),
            final(self).max_len() == old(self).max_len(),
            ({
                let i = old(self).last_used()->Some_0;
                if r is Err || r matches Ok(RecvStatus::Completed(None)) {
                    &&& dead == Some(old(self)@[i as int])
                    &&& final(self)@ == old(self)@.remove(i as int)
                    &&& final(self).last_used() is None
                    &&& final(self).cursor() == if old(self).cursor() > i {
                        (old(self).cursor() - 1) as nat
                    } else {
                        old(self).cursor()
                    }
                } else {
                    &&& dead is None
                    &&& final(self)@ == old(self)@
                    &&& final(self).cursor() == old(self).cursor()
                    &&& final(self).last_used() == old(self).last_used()
                }
            }),
    {
        match r {
            Ok(RecvStatus::Completed(Some(_))) => None,
            Ok(RecvStatus::WouldBlock) => None,
            Ok(RecvStatus::Completed(None)) => Some(self.remove_last_used()),
            Err(_) => Some(self.remove_last_used()),
        }
    }

    /// Settles a send made through the element handed out last: a connection whose
    /// send failed is dead and leaves the pool (it is handed back to be dropped); one
    /// whose send completed or would block stays.
    pub fn settle_send<E>(&mut self, r: &Result<SendStatus, E>) -> (dead: Option<T>)
        requires
            old(self).wf(),
            old(self).last_used() is Some,
        ensures
            final(self).wf(),
            final(self).max_len() == old(self).max_len(),
            ({
                let i = old(self).last_used()->Some_0;
                if r is Err {
                    &&& dead == Some(old(self)@[i as int])
                    &&& final(self)@ == old(self)@.remove(i as int)
                    &&& final(self).last_used() is None
                    &&& final(self).cursor() == if old(self).cursor() > i {
                        (old(self).cursor() - 1) as nat
                    } else {
                        old(self).cursor()
                    }
                } else {
                    &&& dead is None
                    &&& final(self)@ == old(self)@
                    &&& final(self).cursor() == old(self).cursor()
                    &&& final(self).last_used() == old(self).last_used()
                }
            }),
    {
        match r {
            Ok(_) => None,
            Err(_) => Some(self.remove_last_used()),
        }
    }

    /// Takes at most one connection from the feed into the pool: `Accepted` when one
    /// was waiting and fits, `WouldBlock` when none was waiting or it did not fit (it
    /// is dropped), an error when the feed failed.
    pub fn accept_from<E, Q: ConnectionFeed<T, E>>(&mut self, feed: &Q) -> (r: Result<PoolAcceptStatus, E>)
        requires
            old(self).wf(),
        ensures
            final(self).wf(),
            final(self).max_len() == old(self).max_len(),
            final(self).cursor() == old(self).cursor(),
            final(self).last_used() == old(self).last_used(),
            exists|o: Result<Option<T>, E>|
                #[trigger] feed.offers(o) && final(self)@ == accepted_pool(old(self)@, old(self).max_len(), o)
                    && r == accept_status(old(self)@, old(self).max_len(), o),
    {
        let offered = feed.try_next();
        let ghost o = offered;
        let r = self.accept_offered(offered);
        proof {
            assert(feed.offers(o));
        }
        r
    }

    /// Takes in what a feed answered to one request for a connection: a connection
    /// that fits joins the pool (`Accepted`); one that does not fit is dropped, and
    /// no connection at all means `WouldBlock`; a failed feed hands its error back.
    pub fn accept_offered<E>(&mut self, offered: Result<Option<T>, E>) -> (r: Result<PoolAcceptStatus, E>)
        requires
            old(self).wf(),
        ensures
            final(self).wf(),
            final(self).max_len() == old(self).max_len(),
            final(self).cursor() == old(self).cursor(),
            final(self).last_used() == old(self).last_used(),
            final(self)@ == accepted_pool(old(self)@, old(self).max_len(), offered),
            r == accept_status(old(self)@, old(self).max_len(), offered),
    {
        match offered {
            Ok(Some(c)) => Ok(self.pool_accept(c)),
            Ok(None) => Ok(PoolAcceptStatus::WouldBlock),
            Err(e) => Err(e),
        }
    }

    /// Receives from the next connection in round-robin order and returns its answer;
    /// a connection whose stream ended or failed leaves the pool. Without a feed an
    /// empty pool is `NotConnected`.
    pub fn recv_next<M, E>(&mut self) -> (r: Result<RecvStatus<M>, PoolError<T, E>>)
        where T: RecvAttempt<M, E>
        requires
            old(self).wf(),
        ensures
            final(self).wf(),
            final(self).max_len() == old(self).max_len(),
            old(self)@.len() == 0 ==> {
                &&& r matches Err(PoolError::NotConnected)
                &&& final(self)@ == old(self)@
                &&& final(self).cursor() == old(self).cursor()
                &&& final(self).last_used() == old(self).last_used()
            },
            old(self)@.len() > 0 ==> {
                let i = pick(old(self).cursor(), old(self)@.len()) as int;
                exists|c: T, a: Result<RecvStatus<M>, E>|
                    #[trigger] T::recv_answers(old(self)@[i], c, a) && final(self)@ == recv_pool_after(
                        old(self)@,
                        i,
                        c,
                        a,
                    ) && r == recv_pool_result(c, a) && cursor_after_serving(
                        i,
                        recv_kept(a),
                        final(self).cursor(),
                        final(self).last_used(),
                    )
            },
    {
        if self.elements.len() == 0 {
            return Err(PoolError::NotConnected);
        }
        let ghost i = pick(self.cursor(), self@.len()) as int;
        let (a, after) = match self.round_robin() {
            Some(c) => {
                let a = c.recv_attempt();
                let ghost after = *c;
                (a, Ghost(after))
            },
            None => unreached(),
        };
        let ghost picked = self@;
        let dead = self.settle_recv(&a);
        proof {
            assert(picked == old(self)@.update(i, after@));
            if recv_kept(a) {
                assert(self@ =~= old(self)@.update(i, after@));
            } else {
                assert(self@ =~= old(self)@.remove(i));
            }
            assert(T::recv_answers(old(self)@[i], after@, a));
        }
        match a {
            Ok(s) => Ok(s),
            Err(error) => match dead {
                Some(connection) => Err(PoolError::Dead { error, connection }),
                None => unreached(),
            },
        }
    }

    /// Receives from the next connection in round-robin order, then takes at most one
    /// waiting connection from the feed. A connection whose stream ended or failed
    /// leaves the pool. An empty pool first takes a connection from the feed, and is
    /// `NotConnected` when none is waiting.
    pub fn recv_from<M, E, Q: ConnectionFeed<T, E>>(&mut self, feed: &Q) -> (r: Result<RecvStatus<M>, PoolError<T, E>>)
        where T: RecvAttempt<M, E>
        requires
            old(self).wf(),
        ensures
            final(self).wf(),
            final(self).max_len() == old(self).max_len(),
            old(self)@.len() > 0 ==> served_recv(
                *feed,
                old(self)@,
                pick(old(self).cursor(), old(self)@.len()) as int,
                old(self).max_len(),
                final(self)@,
                r,
                final(self).cursor(),
                final(self).last_used(),
            ),
            old(self)@.len() == 0 ==> {
                ||| (r matches Err(PoolError::NotConnected) && final(self)@ == old(self)@ && feed.offers(
                    Ok::<Option<T>, E>(None),
                ) && final(self).cursor() == old(self).cursor() && final(self).last_used() == old(
                    self,
                ).last_used())
                ||| (r matches Err(PoolError::Feed(e)) && final(self)@ == old(self)@ && feed.offers(
                    Err::<Option<T>, E>(e),
                ) && final(self).cursor() == old(self).cursor() && final(self).last_used() == old(
                    self,
                ).last_used())
                ||| exists|c: T|
                    #[trigger] feed.offers(Ok::<Option<T>, E>(Some(c))) && served_recv(
                        *feed,
                        seq![c],
                        0,
                        old(self).max_len(),
                        final(self)@,
                        r,
                        final(self).cursor(),
                        final(self).last_used(),
                    )
            },
    {
        if self.elements.len() == 0 {
            let offered = feed.try_next();
            let ghost o1 = offered;
            match self.accept_offered(offered) {
                Ok(PoolAcceptStatus::Accepted) => {
                    proof {
                        assert(self@ =~= seq![o1->Ok_0->Some_0]);
                    }
                },
                Ok(_) => {
                    return Err(PoolError::NotConnected);
                },
                Err(e) => {
                    return Err(PoolError::Feed(e));
                },
            }
        }
        let ghost mid = self@;
        let ghost i = pick(self.cursor(), self@.len()) as int;
        let r = self.recv_next();
        let ghost r0 = r;
        let ghost after_recv = self@;
        let offered = feed.try_next();
        let ghost o2 = offered;
        let s = self.accept_offered(offered);
        let result = match s {
            Ok(_) => r,
            Err(e) => Err(PoolError::Feed(e)),
        };
        proof {
            let (c, a) = choose|c: T, a: Result<RecvStatus<M>, E>|
                #[trigger] T::recv_answers(mid[i], c, a) && after_recv == recv_pool_after(mid, i, c, a)
                    && r0 == recv_pool_result(c, a);
            assert(feed.offers(o2));
            assert(fed(*feed, recv_pool_after(mid, i, c, a), self.max_len(), self@, recv_pool_result(c, a), result));
            assert(T::recv_answers(mid[i], c, a));
            assert(served_recv(*feed, mid, i, self.max_len(), self@, result, self.cursor(), self.last_used()));
        }
        result
    }

    /// Sends through the next connection in round-robin order and returns its answer.
    /// Without a feed an empty pool is `NotConnected`, and a failed connection stays
    /// in the pool.
    pub fn send_next<M, E>(&mut self, msg: &mut M) -> (r: Result<SendStatus, PoolError<T, E>>)
        where T: SendAttempt<M, E>
        requires
            old(self).wf(),
        ensures
            final(self).wf(),
            final(self).max_len() == old(self).max_len(),
            old(self)@.len() == 0 ==> {
                &&& r matches Err(PoolError::NotConnected)
                &&& final(self)@ == old(self)@
                &&& *final(msg) == *old(msg)
                &&& final(self).cursor() == old(self).cursor()
                &&& final(self).last_used() == old(self).last_used()
            },
            old(self)@.len() > 0 ==> cursor_after_serving(
                pick(old(self).cursor(), old(self)@.len()) as int,
                true,
                final(self).cursor(),
                final(self).last_used(),
            ),
            old(self)@.len() > 0 ==> {
                let i = pick(old(self).cursor(), old(self)@.len()) as int;
                exists|c: T, a: Result<SendStatus, E>|
                    #[trigger] T::send_answers(old(self)@[i], c, *old(msg), *final(msg), a)
                        && final(self)@ == old(self)@.update(i, c) && r == match a {
                        Ok(s) => Ok(s),
                        Err(e) => Err(PoolError::<T, E>::Failed(e)),
                    }
            },
    {
        if self.elements.len() == 0 {
            return Err(PoolError::NotConnected);
        }
        let ghost i = pick(self.cursor(), self@.len()) as int;
        match self.round_robin() {
            Some(c) => {
                let a = c.send_attempt(msg);
                let ghost after = *c;
                proof {
                    assert(T::send_answers(old(self)@[i], after, *old(msg), *msg, a));
                }
                match a {
                    Ok(s) => Ok(s),
                    Err(error) => Err(PoolError::Failed(error)),
                }
            },
            None => unreached(),
        }
    }

    /// Sends through the next connection in round-robin order, then takes at most one
    /// waiting connection from the feed. A connection whose send failed leaves the
    /// pool. An empty pool first takes a connection from the feed, and is
    /// `NotConnected` when none is waiting.
    pub fn send_from<M, E, Q: ConnectionFeed<T, E>>(&mut self, msg: &mut M, feed: &Q) -> (r: Result<SendStatus, PoolError<T, E>>)
        where T: SendAttempt<M, E>
        requires
            old(self).wf(),
        ensures
            final(self).wf(),
            final(self).max_len() == old(self).max_len(),
            old(self)@.len() > 0 ==> served_send(
                *feed,
                old(self)@,
                pick(old(self).cursor(), old(self)@.len()) as int,
                old(self).max_len(),
                *old(msg),
                *final(msg),
                final(self)@,
                r,
                final(self).cursor(),
                final(self).last_used(),
            ),
            old(self)@.len() == 0 ==> {
                ||| (r matches Err(PoolError::NotConnected) && final(self)@ == old(self)@ && *final(msg)
                    == *old(msg) && feed.offers(Ok::<Option<T>, E>(None)) && final(self).cursor()
                    == old(self).cursor() && final(self).last_used() == old(self).last_used())
                ||| (r matches Err(PoolError::Feed(e)) && final(self)@ == old(self)@ && *final(msg)
                    == *old(msg) && feed.offers(Err::<Option<T>, E>(e)) && final(self).cursor()
                    == old(self).cursor() && final(self).last_used() == old(self).last_used())
                ||| exists|c: T|
                    #[trigger] feed.offers(Ok::<Option<T>, E>(Some(c))) && served_send(
                        *feed,
                        seq![c],
                        0,
                        old(self).max_len(),
                        *old(msg),
                        *final(msg),
                        final(self)@,
                        r,
                        final(self).cursor(),
                        final(self).last_used(),
                    )
            },
    {
        if self.elements.len() == 0 {
            let offered = feed.try_next();
            let ghost o1 = offered;
            match self.accept_offered(offered) {
                Ok(PoolAcceptStatus::Accepted) => {
                    proof {
                        assert(self@ =~= seq![o1->Ok_0->Some_0]);
                    }
                },
                Ok(_) => {
                    return Err(PoolError::NotConnected);
                },
                Err(e) => {
                    return Err(PoolError::Feed(e));
                },
            }
        }
        let ghost mid = self@;
        let ghost msg_before = *msg;
        let ghost i = pick(self.cursor(), self@.len()) as int;
        let (a, after) = match self.round_robin() {
            Some(c) => {
                let a = c.send_attempt(msg);
                let ghost after = *c;
                (a, Ghost(after))
            },
            None => unreached(),
        };
        let ghost picked = self@;
        let dead = self.settle_send(&a);
        let ghost after_send = self@;
        proof {
            assert(picked == mid.update(i, after@));
            if a is Ok {
                assert(after_send =~= mid.update(i, after@));
            } else {
                assert(after_send =~= mid.remove(i));
            }
        }
        let r0 = match a {
            Ok(s) => Ok(s),
            Err(error) => match dead {
                Some(connection) => Err(PoolError::Dead { error, connection }),
                None => unreached(),
            },
        };
        let ghost g0 = r0;
        let offered = feed.try_next();
        let ghost o2 = offered;
        let s = self.accept_offered(offered);
        let result = match s {
            Ok(_) => r0,
            Err(e) => Err(PoolError::Feed(e)),
        };
        proof {
            assert(g0 == send_pool_result(after@, a));
            assert(feed.offers(o2));
            assert(fed(*feed, send_pool_after(mid, i, after@, a), self.max_len(), self@, g0, result));
            assert(T::send_answers(mid[i], after@, msg_before, *msg, a));
            assert(served_send(*feed, mid, i, self.max_len(), msg_before, *msg, self@, result, self.cursor(), self.last_used()));
        }
        result
    }

    /// Gives up the pool and hands back its elements in round-robin order.
    pub fn into_elements(self) -> (v: Vec<T>)
        ensures
            v@ == self@,
    {
        self.elements
    }
}

/// A pool takes in an offered connection exactly when it has room: it is appended
/// after the others and the answer is `Accepted`, however many elements the pool
/// already holds. A full pool, a feed with nothing waiting, and a failed feed leave the
/// pool as it was, answering `WouldBlock`, `WouldBlock` and the feed's error.
pub proof fn lemma_offered_connection_joins_when_it_fits<T, E>(before: Seq<T>, max: nat, c: T, e: E)
    ensures
        before.len() < max ==> accepted_pool(before, max, Ok::<Option<T>, E>(Some(c))) == before.push(c)
            && accept_status(before, max, Ok::<Option<T>, E>(Some(c))) == Ok::<PoolAcceptStatus, E>(
            PoolAcceptStatus::Accepted,
        ),
        before.len() >= max ==> accepted_pool(before, max, Ok::<Option<T>, E>(Some(c))) == before
            && accept_status(before, max, Ok::<Option<T>, E>(Some(c))) == Ok::<PoolAcceptStatus, E>(
            PoolAcceptStatus::WouldBlock,
        ),
        accepted_pool(before, max, Ok::<Option<T>, E>(None)) == before,
        accept_status(before, max, Ok::<Option<T>, E>(None)) == Ok::<PoolAcceptStatus, E>(
            PoolAcceptStatus::WouldBlock,
        ),
        accepted_pool(before, max, Err::<Option<T>, E>(e)) == before,
        accept_status(before, max, Err::<Option<T>, E>(e)) == Err::<PoolAcceptStatus, E>(e),
{
}

/// A feed that failed when a pool call asked it for a connection has its error
/// reported in place of the call's own result; any other answer of the feed leaves
/// that result as it was.
pub proof fn lemma_failed_feed_is_reported<T, R, E>(offered: Result<Option<T>, E>, r0: Result<R, PoolError<T, E>>)
    ensures
        offered matches Err(e) ==> after_feed(offered, r0) == Err::<R, PoolError<T, E>>(PoolError::Feed(e)),
        offered is Ok ==> after_feed(offered, r0) == r0,
{
}

/// A receive through the element at `i` that ends its stream or fails removes exactly
/// that element, whatever the pool's size; one that delivers a message or would block
/// keeps it in place, in its new state. The pool returns the connection's own status,
/// or its error together with the dead connection.
pub proof fn lemma_receive_settles_the_served_connection<T, M, E>(
    before: Seq<T>,
    i: int,
    c: T,
    a: Result<RecvStatus<M>, E>,
)
    requires
        0 <= i < before.len(),
    ensures
        (a is Err || a matches Ok(RecvStatus::Completed(None))) ==> {
            &&& recv_pool_after(before, i, c, a) == before.remove(i)
            &&& recv_pool_after(before, i, c, a).len() == before.len() - 1
        },
        (a matches Ok(RecvStatus::Completed(Some(_))) || a matches Ok(RecvStatus::WouldBlock)) ==> {
            &&& recv_pool_after(before, i, c, a) == before.update(i, c)
            &&& recv_pool_after(before, i, c, a).len() == before.len()
        },
        a matches Ok(s) ==> recv_pool_result::<T, M, E>(c, a) == Ok::<RecvStatus<M>, PoolError<T, E>>(s),
        a matches Err(e) ==> recv_pool_result::<T, M, E>(c, a) == Err::<RecvStatus<M>, PoolError<T, E>>(
            PoolError::Dead { error: e, connection: c },
        ),
{
}

/// A send through the element at `i` that fails removes exactly that element; one that
/// completes or would block keeps it in place, in its new state. The pool returns the
/// connection's own status (a would-block is never reported as sent), or its error
/// together with the dead connection.
pub proof fn lemma_send_settles_the_served_connection<T, E>(before: Seq<T>, i: int, c: T, a: Result<SendStatus, E>)
    requires
        0 <= i < before.len(),
    ensures
        a is Err ==> send_pool_after(before, i, c, a) == before.remove(i),
        a is Ok ==> send_pool_after(before, i, c, a) == before.update(i, c),
        a matches Ok(s) ==> send_pool_result::<T, E>(c, a) == Ok::<SendStatus, PoolError<T, E>>(s),
        a matches Err(e) ==> send_pool_result::<T, E>(c, a) == Err::<SendStatus, PoolError<T, E>>(
            PoolError::Dead { error: e, connection: c },
        ),
{
}

/// A receive through a pool fed by `feed` reports what the served connection
/// answered: its status when it answered one, its error together with it when it
/// failed, unless the feed then failed and its error is reported instead. The pool
/// afterwards holds the others in order, the served connection in place while it is
/// alive, and at most one new connection after them.
pub proof fn lemma_pool_receive_reports_the_connection_answer<T: RecvAttempt<M, E>, M, E, Q: ConnectionFeed<T, E>>(
    feed: Q,
    pool: Seq<T>,
    i: int,
    max: nat,
    after: Seq<T>,
    r: Result<RecvStatus<M>, PoolError<T, E>>,
    cursor: nat,
    last_used: Option<nat>,
)
    requires
        0 <= i < pool.len(),
        served_recv(feed, pool, i, max, after, r, cursor, last_used),
    ensures
        exists|c: T, a: Result<RecvStatus<M>, E>|
            #[trigger] T::recv_answers(pool[i], c, a) && {
                let alive = match a {
                    Ok(RecvStatus::Completed(Some(_))) => true,
                    Ok(RecvStatus::WouldBlock) => true,
                    _ => false,
                };
                let kept = if alive {
                    pool.update(i, c)
                } else {
                    pool.remove(i)
                };
                &&& kept.len() <= after.len() <= kept.len() + 1
                &&& after.subrange(0, kept.len() as int) == kept
                &&& match r {
                    Ok(s) => a == Ok::<RecvStatus<M>, E>(s),
                    Err(PoolError::Dead { error, connection }) => a == Err::<RecvStatus<M>, E>(error)
                        && connection == c,
                    Err(PoolError::Feed(_)) => true,
                    _ => false,
                }
            },
{
    let (c, a) = choose|c: T, a: Result<RecvStatus<M>, E>|
        #[trigger] T::recv_answers(pool[i], c, a) && fed(
            feed,
            recv_pool_after(pool, i, c, a),
            max,
            after,
            recv_pool_result(c, a),
            r,
        ) && cursor_after_serving(i, recv_kept(a), cursor, last_used);
    let mid = recv_pool_after(pool, i, c, a);
    let o = choose|o: Result<Option<T>, E>|
        #[trigger] feed.offers(o) && after == accepted_pool(mid, max, o) && r == after_feed(
            o,
            recv_pool_result(c, a),
        );
    assert(after.subrange(0, mid.len() as int) =~= mid);
    assert(T::recv_answers(pool[i], c, a));
}

/// A send through a pool fed by `feed` reports what the served connection answered:
/// its status when it answered one (a would-block stays a would-block), its error
/// together with it when it failed, unless the feed then failed and its error is
/// reported instead. The pool afterwards holds the others in order, the served
/// connection in place unless its send failed, and at most one new connection after
/// them.
pub proof fn lemma_pool_send_reports_the_connection_answer<T: SendAttempt<M, E>, M, E, Q: ConnectionFeed<T, E>>(
    feed: Q,
    pool: Seq<T>,
    i: int,
    max: nat,
    msg_before: M,
    msg_after: M,
    after: Seq<T>,
    r: Result<SendStatus, PoolError<T, E>>,
    cursor: nat,
    last_used: Option<nat>,
)
    requires
        0 <= i < pool.len(),
        served_send(feed, pool, i, max, msg_before, msg_after, after, r, cursor, last_used),
    ensures
        exists|c: T, a: Result<SendStatus, E>|
            #[trigger] T::send_answers(pool[i], c, msg_before, msg_after, a) && {
                let kept = if a is Ok {
                    pool.update(i, c)
                } else {
                    pool.remove(i)
                };
                &&& kept.len() <= after.len() <= kept.len() + 1
                &&& after.subrange(0, kept.len() as int) == kept
                &&& match r {
                    Ok(s) => a == Ok::<SendStatus, E>(s),
                    Err(PoolError::Dead { error, connection }) => a == Err::<SendStatus, E>(error)
                        && connection == c,
                    Err(PoolError::Feed(_)) => true,
                    _ => false,
                }
            },
{
    let (c, a) = choose|c: T, a: Result<SendStatus, E>|
        #[trigger] T::send_answers(pool[i], c, msg_before, msg_after, a) && fed(
            feed,
            send_pool_after(pool, i, c, a),
            max,
            after,
            send_pool_result(c, a),
            r,
        ) && cursor_after_serving(i, a is Ok, cursor, last_used);
    let mid = send_pool_after(pool, i, c, a);
    let o = choose|o: Result<Option<T>, E>|
        #[trigger] feed.offers(o) && after == accepted_pool(mid, max, o) && r == after_feed(
            o,
            send_pool_result(c, a),
        );
    assert(after.subrange(0, mid.len() as int) =~= mid);
    assert(T::send_answers(pool[i], c, msg_before, msg_after, a));
}

/// `x % m` for `x` below `2 * m`.
proof fn lemma_mod_below_twice(x: nat, m: nat)
    requires
        0 < m,
        x < 2 * m,
    ensures
        x % m == if x < m { x } else { (x - m) as nat },
{
    if x < m {
        lemma_small_mod(x, m);
    } else {
        lemma_small_mod((x - m) as nat, m);
        lemma_mod_add_multiples_vanish(x - m, m as int);
    }
}

/// Successive round-robin calls on an unchanged pool of `len` elements hand out the
/// positions `p, p + 1, ...` modulo `len`, where `p` is the first position handed out.
pub proof fn lemma_round_robin_cycles(cursor: nat, len: nat, k: nat)
    requires
        0 < len,
        cursor <= len,
    ensures
        rr_index(cursor, len, k) == (pick(cursor, len) + k) % len,
    decreases k,
{
    let p = pick(cursor, len);
    if k == 0 {
        lemma_small_mod(p, len);
    } else {
        lemma_round_robin_cycles(p + 1, len, (k - 1) as nat);
        if p + 1 == len {
            lemma_mod_add_multiples_vanish(k - 1, len as int);
        }
    }
}

/// Round-robin order carries across the pool's calls: after a call served the
/// element at `i` of `len` elements, the next call serves the element that follows
/// it. While the served element stays, that is the one at `(i + 1) % len`; once it
/// left, the one that followed it now sits at `i`, so the next call serves
/// `i % (len - 1)` of the `len - 1` elements left.
pub proof fn lemma_next_call_serves_the_following_element(i: nat, len: nat, stays: bool, cursor: nat, last_used: Option<nat>)
    requires
        i < len,
        stays || len > 1,
        cursor_after_serving(i as int, stays, cursor, last_used),
    ensures
        stays ==> pick(cursor, len) == (i + 1) % len,
        !stays ==> pick(cursor, (len - 1) as nat) == i % ((len - 1) as nat),
{
    if stays {
        if i + 1 < len {
            lemma_small_mod(i + 1, len);
        } else {
            vstd::arithmetic::div_mod::lemma_mod_self_0(len as int);
        }
    } else {
        if i < len - 1 {
            lemma_small_mod(i, (len - 1) as nat);
        } else {
            vstd::arithmetic::div_mod::lemma_mod_self_0((len - 1) as int);
        }
    }
}

/// Any `len` successive round-robin calls on an unchanged pool of `len` elements
/// hand out `len` different positions, that is every element exactly once.
pub proof fn lemma_round_robin_is_fair(cursor: nat, len: nat, j: nat, k: nat)
    requires
        0 < len,
        cursor <= len,
        j < len,
        k < len,
        rr_index(cursor, len, j) == rr_index(cursor, len, k),
    ensures
        j == k,
{
    let p = pick(cursor, len);
    lemma_round_robin_cycles(cursor, len, j);
    lemma_round_robin_cycles(cursor, len, k);
    lemma_mod_below_twice(p + j, len);
    lemma_mod_below_twice(p + k, len);
}

} // verus!
