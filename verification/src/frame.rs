//! Splitting a byte stream into frames (the reading half of a connection).
use crate::buffer::{
    buffer_as_slice, buffer_contents, buffer_extend, buffer_len, buffer_split_to,
    buffer_with_capacity, frame_contents,
};
use crate::status::RecvStatus;
use bytes::{Bytes, BytesMut};
use vstd::prelude::*;
use vstd::seq_lib::lemma_flatten_concat;

verus! {

/// Decides where the first frame of an accumulated byte stream ends: `Some(n)` when
/// the first `n` bytes of `bytes` form one complete frame, `None` while more bytes
/// are needed.
///
/// The answer depends on the bytes alone, and is named `frame_length_spec`. The
/// library relies on an implementation answering that way and never reporting more
/// bytes than it was given; these are the clauses implementations written outside
/// the library are trusted to keep.
pub trait Framer: Sized {
    /// Where the first frame of `bytes` ends, if it is complete. A framer of the
    /// library defines it; for a framer written outside the library it is some
    /// function of the bytes, one per framer type, of which nothing more is known.
    open spec fn frame_length_spec(bytes: Seq<u8>) -> Option<usize> {
        (vstd::pervasive::arbitrary::<spec_fn(Seq<u8>, Option<Self>) -> Option<usize>>())(bytes, None)
    }

    fn get_frame_length(bytes: &[u8]) -> (r: Option<usize>)
        ensures
            r == Self::frame_length_spec(bytes@),
            r matches Some(n) ==> n <= bytes@.len(),
    ;
}

/// A framer of frames that all have exactly `FRAME_SIZE` bytes.
pub struct FixedSizeFramer<const FRAME_SIZE: usize>;

impl<const FRAME_SIZE: usize> Framer for FixedSizeFramer<FRAME_SIZE> {
    open spec fn frame_length_spec(bytes: Seq<u8>) -> Option<usize> {
        if bytes.len() < FRAME_SIZE {
            None
        } else {
            Some(FRAME_SIZE)
        }
    }

    fn get_frame_length(bytes: &[u8]) -> (r: Option<usize>) {
        if bytes.len() < FRAME_SIZE {
            None
        } else {
            Some(FRAME_SIZE)
        }
    }
}

/// What one read attempt on the socket produced.
pub enum ReadOutcome<'a> {
    /// The peer closed its writing half: the read returned zero bytes.
    Eof,
    /// The read returned these bytes.
    Data(&'a [u8]),
    /// The socket had nothing to read.
    WouldBlock,
    /// The read failed with an error other than would-block.
    Failed,
}

/// Why a read attempt ended the connection with an error.
#[derive(Debug, PartialEq, Eq, Structural)]
pub enum ReadFault {
    /// The peer closed the connection in the middle of a frame.
    ResetByPeer,
    /// The socket read failed.
    Io,
}

/// What a frame reader reports for one read attempt, and whether it must now shut
/// down the writing half of its socket.
pub struct ReadStep {
    pub status: Result<RecvStatus<Bytes>, ReadFault>,
    pub shutdown_write: bool,
}

/// The bytes a frame reader has received and not yet delivered as frames.
///
/// Besides the pending bytes it keeps, as ghost history, every byte ever received
/// and every frame ever delivered: the delivered frames followed by the pending
/// bytes are always exactly the received bytes.
pub struct FrameBuffer<F: Framer> {
    buffer: BytesMut,
    received: Ghost<Seq<u8>>,
    delivered: Ghost<Seq<Seq<u8>>>,
    framer: core::marker::PhantomData<F>,
}

/// What taking one frame off the pending bytes `pending` gives: when the framer finds
/// a frame of `n` bytes, the frame is exactly the first `n` bytes, it is appended to
/// the delivered frames, and the rest stays pending; when it finds none, nothing
/// changes.
pub open spec fn taken_frame<F: Framer>(
    pending: Seq<u8>,
    delivered: Seq<Seq<u8>>,
    r: Option<Bytes>,
    pending_after: Seq<u8>,
    delivered_after: Seq<Seq<u8>>,
) -> bool {
    match F::frame_length_spec(pending) {
        Some(n) => {
            &&& n <= pending.len()
            &&& r matches Some(f) && frame_contents(f) == pending.subrange(0, n as int)
            &&& pending_after == pending.subrange(n as int, pending.len() as int)
            &&& delivered_after == delivered.push(pending.subrange(0, n as int))
        },
        None => {
            &&& r is None
            &&& pending_after == pending
            &&& delivered_after == delivered
        },
    }
}

impl<F: Framer> View for FrameBuffer<F> {
    type V = Seq<u8>;

    /// The pending bytes.
    closed spec fn view(&self) -> Seq<u8> {
        buffer_contents(self.buffer)
    }
}

impl<F: Framer> FrameBuffer<F> {
    /// Every byte handed to this buffer, in order.
    pub closed spec fn received(&self) -> Seq<u8> {
        self.received@
    }

    /// Every frame handed out by this buffer, in order.
    pub closed spec fn delivered(&self) -> Seq<Seq<u8>> {
        self.delivered@
    }

    pub closed spec fn wf(&self) -> bool {
        &&& self.delivered@.flatten() + buffer_contents(self.buffer) == self.received@
        &&& buffer_contents(self.buffer).len() <= isize::MAX
    }

    /// Creates an empty buffer with room for `capacity` bytes.
    pub fn new(capacity: usize) -> (r: Self)
        requires
            capacity <= isize::MAX,
        ensures
            r.wf(),
            r@ == Seq::<u8>::empty(),
            r.received() == Seq::<u8>::empty(),
            r.delivered() == Seq::<Seq<u8>>::empty(),
    {
        FrameBuffer {
            buffer: buffer_with_capacity(capacity),
            received: Ghost(Seq::empty()),
            delivered: Ghost(Seq::empty()),
            framer: core::marker::PhantomData,
        }
    }

    /// The number of pending bytes.
    pub fn len(&self) -> (n: usize)
        ensures
            n == self@.len(),
    {
        buffer_len(&self.buffer)
    }

    /// Whether no bytes are pending.
    pub fn is_empty(&self) -> (b: bool)
        ensures
            b == (self@.len() == 0),
    {
        buffer_len(&self.buffer) == 0
    }

    /// Splits the frame whose length the framer reported off the front of the pending
    /// bytes: `Some(n)` hands out the first `n` pending bytes as a frame, `None` (no
    /// complete frame yet) hands out nothing.
    pub fn split_frame(&mut self, frame_len: Option<usize>) -> (r: Option<Bytes>)
        requires
            old(self).wf(),
            frame_len matches Some(n) ==> n <= old(self)@.len(),
        ensures
            final(self).wf(),
            final(self).received() == old(self).received(),
            match frame_len {
                Some(n) => {
                    &&& r matches Some(f) && frame_contents(f) == old(self)@.subrange(0, n as int)
                    &&& final(self)@ == old(self)@.subrange(n as int, old(self)@.len() as int)
                    &&& final(self).delivered() == old(self).delivered().push(
                        old(self)@.subrange(0, n as int),
                    )
                },
                None => {
                    &&& r is None
                    &&& final(self)@ == old(self)@
                    &&& final(self).delivered() == old(self).delivered()
                },
            },
    {
        match frame_len {
            Some(n) => {
                let ghost before = buffer_contents(self.buffer);
                let frame = buffer_split_to(&mut self.buffer, n);
                proof {
                    let old_delivered = self.delivered@;
                    self.delivered@ = old_delivered.push(before.subrange(0, n as int));
                    old_delivered.lemma_flatten_push(before.subrange(0, n as int));
                    assert(before =~= before.subrange(0, n as int) + before.subrange(
                        n as int,
                        before.len() as int,
                    ));
                    assert(self.delivered@.flatten() + buffer_contents(self.buffer)
                        =~= old_delivered.flatten() + before);
                }
                Some(frame)
            },
            None => None,
        }
    }

    /// Splits one complete frame off the front of the pending bytes, if the framer
    /// finds one in them: the framer is asked about exactly the pending bytes, and its
    /// answer goes to [FrameBuffer::split_frame].
    pub fn take_frame(&mut self) -> (r: Option<Bytes>)
        requires
            old(self).wf(),
        ensures
            final(self).wf(),
            final(self).received() == old(self).received(),
            taken_frame::<F>(old(self)@, old(self).delivered(), r, final(self)@, final(self).delivered()),
    {
        let frame_len = F::get_frame_length(buffer_as_slice(&self.buffer));
        self.split_frame(frame_len)
    }

    /// Takes in the outcome of one read attempt, made because no complete frame was
    /// pending, and decides what the reader reports.
    ///
    /// * end of stream with nothing pending: the stream completed cleanly (`Completed(None)`)
    /// * end of stream in the middle of a frame: `ResetByPeer`
    /// * bytes: they are appended, then a complete frame is reported if there is one,
    ///   else `WouldBlock`
    /// * would-block: `WouldBlock`
    /// * failure: `Io`
    ///
    /// The writing half must be shut down exactly on end of stream and on failure.
    pub fn on_read(&mut self, outcome: ReadOutcome) -> (r: ReadStep)
        requires
            old(self).wf(),
            outcome matches ReadOutcome::Data(d) ==> old(self)@.len() + d@.len() <= isize::MAX,
        ensures
            final(self).wf(),
            r.shutdown_write == (outcome is Eof || outcome is Failed),
            match outcome {
                ReadOutcome::Eof => {
                    &&& final(self)@ == old(self)@
                    &&& final(self).received() == old(self).received()
                    &&& final(self).delivered() == old(self).delivered()
                    &&& if old(self)@.len() == 0 {
                        r.status == Ok::<RecvStatus<Bytes>, ReadFault>(RecvStatus::Completed(None))
                    } else {
                        r.status == Err::<RecvStatus<Bytes>, ReadFault>(ReadFault::ResetByPeer)
                    }
                },
                ReadOutcome::Data(d) => {
                    &&& final(self).received() == old(self).received() + d@
                    &&& match r.status {
                        Ok(RecvStatus::Completed(Some(f))) => taken_frame::<F>(
                            old(self)@ + d@,
                            old(self).delivered(),
                            Some(f),
                            final(self)@,
                            final(self).delivered(),
                        ),
                        Ok(RecvStatus::WouldBlock) => taken_frame::<F>(
                            old(self)@ + d@,
                            old(self).delivered(),
                            None,
                            final(self)@,
                            final(self).delivered(),
                        ),
                        _ => false,
                    }
                },
                ReadOutcome::WouldBlock => {
                    &&& r.status == Ok::<RecvStatus<Bytes>, ReadFault>(RecvStatus::WouldBlock)
                    &&& final(self)@ == old(self)@
                    &&& final(self).received() == old(self).received()
                    &&& final(self).delivered() == old(self).delivered()
                },
                ReadOutcome::Failed => {
                    &&& r.status == Err::<RecvStatus<Bytes>, ReadFault>(ReadFault::Io)
                    &&& final(self)@ == old(self)@
                    &&& final(self).received() == old(self).received()
                    &&& final(self).delivered() == old(self).delivered()
                },
            },
    {
        match outcome {
            ReadOutcome::Eof => {
                if buffer_len(&self.buffer) == 0 {
                    ReadStep { status: Ok(RecvStatus::Completed(None)), shutdown_write: true }
                } else {
                    ReadStep { status: Err(ReadFault::ResetByPeer), shutdown_write: true }
                }
            },
            ReadOutcome::Data(d) => {
                let ghost before = buffer_contents(self.buffer);
                buffer_extend(&mut self.buffer, d);
                proof {
                    self.received@ = self.received@ + d@;
                    assert(self.delivered@.flatten() + buffer_contents(self.buffer)
                        =~= self.delivered@.flatten() + before + d@);
                }
                match self.take_frame() {
                    Some(f) => ReadStep {
                        status: Ok(RecvStatus::Completed(Some(f))),
                        shutdown_write: false,
                    },
                    None => ReadStep { status: Ok(RecvStatus::WouldBlock), shutdown_write: false },
                }
            },
            ReadOutcome::WouldBlock => ReadStep {
                status: Ok(RecvStatus::WouldBlock),
                shutdown_write: false,
            },
            ReadOutcome::Failed => ReadStep { status: Err(ReadFault::Io), shutdown_write: true },
        }
    }
}

/// `f` is one whole frame for the framer `F`: whatever bytes follow it, the framer
/// finds a frame of exactly `f`'s length at the front, and in a shorter part of its
/// start it finds no frame yet.
pub open spec fn whole_frame<F: Framer>(f: Seq<u8>) -> bool {
    &&& 0 < f.len() <= usize::MAX
    &&& forall|rest: Seq<u8>|
        #[trigger] F::frame_length_spec(f + rest) == Some(f.len() as usize)
    &&& forall|j: int| 0 <= j < f.len() ==> #[trigger] F::frame_length_spec(f.subrange(0, j)) is None
}

/// A fixed-size framer finds a frame exactly when at least `FRAME_SIZE` bytes are
/// pending, and that frame is always the first `FRAME_SIZE` of them; so every run of
/// `FRAME_SIZE` bytes is one whole frame, and pending bytes are never held back once
/// a frame is complete.
pub proof fn lemma_fixed_size_frames<const FRAME_SIZE: usize>(bytes: Seq<u8>, f: Seq<u8>)
    ensures
        bytes.len() >= FRAME_SIZE ==> FixedSizeFramer::<FRAME_SIZE>::frame_length_spec(bytes) == Some(
            FRAME_SIZE,
        ),
        bytes.len() < FRAME_SIZE ==> FixedSizeFramer::<FRAME_SIZE>::frame_length_spec(bytes) is None,
        f.len() == FRAME_SIZE && FRAME_SIZE > 0 ==> whole_frame::<FixedSizeFramer<FRAME_SIZE>>(f),
{
    if f.len() == FRAME_SIZE && FRAME_SIZE > 0 {
        assert forall|rest: Seq<u8>|
            #[trigger] FixedSizeFramer::<FRAME_SIZE>::frame_length_spec(f + rest) == Some(
                f.len() as usize,
            ) by {
            assert((f + rest).len() >= FRAME_SIZE);
        }
        assert forall|j: int| 0 <= j < f.len() implies #[trigger] FixedSizeFramer::<
            FRAME_SIZE,
        >::frame_length_spec(f.subrange(0, j)) is None by {
            assert(f.subrange(0, j).len() < FRAME_SIZE);
        }
    }
}

/// A reader is part way through a stream of the whole frames `fs`: it has received a
/// start of their bytes, it has delivered exactly the first few of them, and it
/// holds the rest of what it received as pending bytes.
pub open spec fn reading_whole_frames<F: Framer>(
    fs: Seq<Seq<u8>>,
    received: Seq<u8>,
    delivered: Seq<Seq<u8>>,
    pending: Seq<u8>,
) -> bool {
    &&& 0 < fs.len()
    &&& forall|i: int| 0 <= i < fs.len() ==> whole_frame::<F>(#[trigger] fs[i])
    &&& received.len() <= fs.flatten().len()
    &&& received == fs.flatten().subrange(0, received.len() as int)
    &&& delivered.len() <= fs.len()
    &&& delivered == fs.subrange(0, delivered.len() as int)
    &&& delivered.flatten() + pending == received
}

/// A reader that has received nothing yet of a stream of whole frames is reading it.
pub proof fn lemma_reading_whole_frames_starts<F: Framer>(fs: Seq<Seq<u8>>)
    requires
        0 < fs.len(),
        forall|i: int| 0 <= i < fs.len() ==> whole_frame::<F>(#[trigger] fs[i]),
    ensures
        reading_whole_frames::<F>(fs, Seq::empty(), Seq::empty(), Seq::empty()),
{
    assert(fs.subrange(0, 0) =~= Seq::<Seq<u8>>::empty());
    assert(fs.flatten().subrange(0, 0) =~= Seq::<u8>::empty());
    assert(Seq::<Seq<u8>>::empty().flatten() + Seq::<u8>::empty() =~= Seq::<u8>::empty());
}

/// Bytes that continue the stream join the pending bytes, and the reader is still
/// reading the stream.
pub proof fn lemma_reading_whole_frames_receives<F: Framer>(
    fs: Seq<Seq<u8>>,
    received: Seq<u8>,
    delivered: Seq<Seq<u8>>,
    pending: Seq<u8>,
    data: Seq<u8>,
)
    requires
        reading_whole_frames::<F>(fs, received, delivered, pending),
        received.len() + data.len() <= fs.flatten().len(),
        received + data == fs.flatten().subrange(0, (received.len() + data.len()) as int),
    ensures
        reading_whole_frames::<F>(fs, received + data, delivered, pending + data),
{
    assert(delivered.flatten() + (pending + data) =~= (delivered.flatten() + pending) + data);
}

/// The stream of whole frames from the `k`-th one on, split into that frame and the
/// frames after it.
proof fn lemma_flatten_from(fs: Seq<Seq<u8>>, k: int)
    requires
        0 <= k < fs.len(),
    ensures
        fs.flatten() == fs.subrange(0, k).flatten() + (fs[k] + fs.subrange(k + 1, fs.len() as int).flatten()),
        fs.subrange(0, k + 1) == fs.subrange(0, k).push(fs[k]),
{
    lemma_flatten_concat(fs.subrange(0, k), fs.subrange(k, fs.len() as int));
    assert(fs.subrange(0, k) + fs.subrange(k, fs.len() as int) =~= fs);
    let tail = fs.subrange(k, fs.len() as int);
    assert(tail.drop_first() =~= fs.subrange(k + 1, fs.len() as int));
    assert(tail.flatten() == tail.first() + tail.drop_first().flatten());
    assert(fs.subrange(0, k + 1) =~= fs.subrange(0, k).push(fs[k]));
    assert(fs.flatten() =~= fs.subrange(0, k).flatten() + (fs[k] + fs.subrange(k + 1, fs.len() as int).flatten()));
}

/// Taking a frame while reading a stream of whole frames keeps reading it: the frame
/// taken, if any, is exactly the next frame of the stream, byte for byte.
pub proof fn lemma_reading_whole_frames_takes<F: Framer>(
    fs: Seq<Seq<u8>>,
    received: Seq<u8>,
    delivered: Seq<Seq<u8>>,
    pending: Seq<u8>,
    r: Option<Bytes>,
    pending_after: Seq<u8>,
    delivered_after: Seq<Seq<u8>>,
)
    requires
        reading_whole_frames::<F>(fs, received, delivered, pending),
        taken_frame::<F>(pending, delivered, r, pending_after, delivered_after),
    ensures
        reading_whole_frames::<F>(fs, received, delivered_after, pending_after),
        r matches Some(f) ==> frame_contents(f) == fs[delivered.len() as int],
{
    let k = delivered.len() as int;
    let pre = delivered.flatten();
    assert(received.subrange(0, pre.len() as int) == pre) by {
        assert(received =~= pre + pending);
    }
    assert(pending =~= received.subrange(pre.len() as int, received.len() as int));
    assert(whole_frame::<F>(fs[0]));
    assert(fs[0].subrange(0, 0) =~= Seq::<u8>::empty());
    assert(F::frame_length_spec(Seq::<u8>::empty()) is None) by {
        assert(F::frame_length_spec(fs[0].subrange(0, 0)) is None);
    }
    if k == fs.len() {
        assert(delivered =~= fs);
        assert(pending.len() == 0);
        assert(pending =~= Seq::<u8>::empty());
    } else {
        let f = fs[k];
        let rest = fs.subrange(k + 1, fs.len() as int).flatten();
        lemma_flatten_from(fs, k);
        assert(whole_frame::<F>(f));
        let whole = fs.flatten();
        assert(whole =~= pre + (f + rest));
        // the pending bytes are a start of the frames from the k-th one on
        assert forall|j: int| 0 <= j < pending.len() implies pending[j] == (f + rest)[j] by {
            assert(received[pre.len() + j] == whole[pre.len() + j]);
        }
        if pending.len() < f.len() {
            assert(pending =~= f.subrange(0, pending.len() as int));
            assert(F::frame_length_spec(f.subrange(0, pending.len() as int)) is None);
        } else {
            let more = pending.subrange(f.len() as int, pending.len() as int);
            assert(pending =~= f + more);
            assert(F::frame_length_spec(f + more) == Some(f.len() as usize));
            assert(pending.subrange(0, f.len() as int) =~= f);
            delivered.lemma_flatten_push(f);
            assert(delivered_after.flatten() + pending_after =~= received);
        }
    }
}

/// Once the whole stream of frames has been received and the framer finds no frame
/// in the pending bytes, every frame has been delivered, in order, and nothing is
/// pending: after that a clean end of stream is all that can follow.
pub proof fn lemma_reading_whole_frames_ends<F: Framer>(
    fs: Seq<Seq<u8>>,
    delivered: Seq<Seq<u8>>,
    pending: Seq<u8>,
)
    requires
        reading_whole_frames::<F>(fs, fs.flatten(), delivered, pending),
        F::frame_length_spec(pending) is None,
    ensures
        delivered == fs,
        pending.len() == 0,
{
    let k = delivered.len() as int;
    let pre = delivered.flatten();
    if k < fs.len() {
        let f = fs[k];
        let rest = fs.subrange(k + 1, fs.len() as int).flatten();
        lemma_flatten_from(fs, k);
        assert(whole_frame::<F>(f));
        assert(fs.flatten() =~= pre + (f + rest));
        assert(pre + pending == pre + (f + rest));
        assert forall|j: int| 0 <= j < pending.len() implies pending[j] == (f + rest)[j] by {
            assert((pre + pending)[pre.len() + j] == (pre + (f + rest))[pre.len() + j]);
        }
        assert(pending =~= f + rest);
        assert(F::frame_length_spec(f + rest) == Some(f.len() as usize));
        assert(false);
    }
    assert(delivered =~= fs);
    assert(pre =~= fs.flatten());
    assert(pending.len() == 0);
}


/// Frames written whole come back whole and in order: when the pending bytes are the
/// whole frames `fs` one after the other, followed by any bytes `tail`, taking a
/// frame hands out exactly the first of them and leaves the others, then `tail`,
/// pending. Applied again and again, a reader delivers the frames a writer wrote,
/// byte for byte and in the same order.
pub proof fn lemma_whole_frames_arrive_in_order<F: Framer>(
    fs: Seq<Seq<u8>>,
    tail: Seq<u8>,
    delivered: Seq<Seq<u8>>,
    r: Option<Bytes>,
    pending_after: Seq<u8>,
    delivered_after: Seq<Seq<u8>>,
)
    requires
        fs.len() > 0,
        forall|i: int| 0 <= i < fs.len() ==> whole_frame::<F>(#[trigger] fs[i]),
        taken_frame::<F>(fs.flatten() + tail, delivered, r, pending_after, delivered_after),
    ensures
        r matches Some(f) && frame_contents(f) == fs[0],
        pending_after == fs.drop_first().flatten() + tail,
        delivered_after == delivered.push(fs[0]),
{
    let first = fs[0];
    let rest = fs.drop_first().flatten() + tail;
    assert(whole_frame::<F>(first));
    assert(fs.flatten() + tail =~= first + rest);
    assert(F::frame_length_spec(first + rest) == Some(first.len() as usize));
    assert((first + rest).subrange(0, first.len() as int) =~= first);
    assert((first + rest).subrange(first.len() as int, (first + rest).len() as int) =~= rest);
}

/// No byte is lost, duplicated or reordered: the frames a buffer has delivered,
/// followed by its pending bytes, are exactly the bytes it has received.
pub proof fn lemma_frames_preserve_stream<F: Framer>(b: FrameBuffer<F>)
    requires
        b.wf(),
    ensures
        b.delivered().flatten() + b@ == b.received(),
{
}

} // verus!
