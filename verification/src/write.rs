//! Writing one frame through a non-blocking socket (the writing half of a connection).
use crate::status::SendStatus;
use vstd::prelude::*;

verus! {

/// What one write attempt on the socket produced.
#[derive(Debug, PartialEq, Eq, Structural)]
pub enum WriteOutcome {
    /// The write accepted this many bytes.
    Wrote(usize),
    /// The socket could not take any byte now.
    WouldBlock,
    /// The write failed with an error other than would-block.
    Failed,
}

/// Why writing a frame ended with an error.
#[derive(Debug, PartialEq, Eq, Structural)]
pub enum WriteFault {
    /// The socket accepted zero bytes: the peer is gone.
    ResetByPeer,
    /// The socket write failed.
    Io,
}

/// What a frame writer does after one write attempt.
#[derive(Debug, PartialEq)]
pub enum WriteStep {
    /// Write the remaining bytes again.
    Retry,
    /// Stop and report `result`; flush the socket first when `flush`, shut it down in
    /// both directions when `shutdown`.
    Finished { result: Result<SendStatus, WriteFault>, flush: bool, shutdown: bool },
}

/// Progress of writing one frame of `total` bytes: the first `written` bytes are on
/// the wire, the rest are still to be written.
///
/// A frame is written entirely or not at all: once one byte is out, a would-block
/// makes the writer retry instead of giving up.
pub struct FrameWriteCursor {
    total: usize,
    written: usize,
}

impl FrameWriteCursor {
    pub closed spec fn total_spec(&self) -> nat {
        self.total as nat
    }

    pub closed spec fn written_spec(&self) -> nat {
        self.written as nat
    }

    pub closed spec fn wf(&self) -> bool {
        self.written <= self.total
    }

    /// Starts writing a frame of `total` bytes.
    pub fn new(total: usize) -> (c: Self)
        ensures
            c.wf(),
            c.total_spec() == total,
            c.written_spec() == 0,
    {
        FrameWriteCursor { total, written: 0 }
    }

    /// The number of bytes already written.
    pub fn written(&self) -> (n: usize)
        ensures
            n == self.written_spec(),
    {
        self.written
    }

    /// The number of bytes still to be written.
    pub fn remaining(&self) -> (n: usize)
        requires
            self.wf(),
        ensures
            n == self.total_spec() - self.written_spec(),
    {
        self.total - self.written
    }

    /// Whether every byte of the frame has been written.
    pub fn is_complete(&self) -> (b: bool)
        requires
            self.wf(),
        ensures
            b == (self.written_spec() == self.total_spec()),
    {
        self.written == self.total
    }

    /// Takes in the outcome of writing the remaining bytes and decides what to do.
    ///
    /// * zero bytes accepted: `ResetByPeer`, shut the socket down
    /// * all remaining bytes accepted: `Completed`, flush the socket
    /// * some bytes accepted: retry with the rest
    /// * would-block before any byte of the frame was written: `WouldBlock`
    /// * would-block after some bytes were written: retry
    /// * failure: `Io`, shut the socket down
    pub fn on_write(&mut self, outcome: WriteOutcome) -> (step: WriteStep)
        requires
            old(self).wf(),
            old(self).written_spec() < old(self).total_spec(),
            outcome matches WriteOutcome::Wrote(n) ==> n <= old(self).total_spec()
                - old(self).written_spec(),
        ensures
            final(self).wf(),
            final(self).total_spec() == old(self).total_spec(),
            match outcome {
                WriteOutcome::Wrote(n) => {
                    if n == 0 {
                        &&& final(self).written_spec() == old(self).written_spec()
                        &&& step == WriteStep::Finished {
                            result: Err(WriteFault::ResetByPeer),
                            flush: false,
                            shutdown: true,
                        }
                    } else if old(self).written_spec() + n == old(self).total_spec() {
                        &&& final(self).written_spec() == old(self).total_spec()
                        &&& step == WriteStep::Finished {
                            result: Ok(SendStatus::Completed),
                            flush: true,
                            shutdown: false,
                        }
                    } else {
                        &&& final(self).written_spec() == old(self).written_spec() + n
                        &&& step == WriteStep::Retry
                    }
                },
                WriteOutcome::WouldBlock => {
                    &&& final(self).written_spec() == old(self).written_spec()
                    &&& if old(self).written_spec() == 0 {
                        step == WriteStep::Finished {
                            result: Ok(SendStatus::WouldBlock),
                            flush: false,
                            shutdown: false,
                        }
                    } else {
                        step == WriteStep::Retry
                    }
                },
                WriteOutcome::Failed => {
                    &&& final(self).written_spec() == old(self).written_spec()
                    &&& step == WriteStep::Finished {
                        result: Err(WriteFault::Io),
                        flush: false,
                        shutdown: true,
                    }
                },
            },
    {
        match outcome {
            WriteOutcome::Wrote(n) => {
                if n == 0 {
                    WriteStep::Finished { result: Err(WriteFault::ResetByPeer), flush: false, shutdown: true }
                } else if n == self.total - self.written {
                    self.written = self.total;
                    WriteStep::Finished { result: Ok(SendStatus::Completed), flush: true, shutdown: false }
                } else {
                    self.written = self.written + n;
                    WriteStep::Retry
                }
            },
            WriteOutcome::WouldBlock => {
                if self.written == 0 {
                    WriteStep::Finished { result: Ok(SendStatus::WouldBlock), flush: false, shutdown: false }
                } else {
                    WriteStep::Retry
                }
            },
            WriteOutcome::Failed => WriteStep::Finished {
                result: Err(WriteFault::Io),
                flush: false,
                shutdown: true,
            },
        }
    }
}

} // verus!
