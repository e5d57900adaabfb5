//! The handle through which producers and consumers reach one shared stream.
//!
//! Every handle made from another one by `clone` reaches the same stream,
//! behind one reader-writer lock, and the same readiness signal. What a
//! handle keeps to itself is its read cursor, which starts at the first
//! byte, and the count of the producers that registered through it: only
//! the handle that registered a producer can report that it is done.
//!
//! Other handles may change the shared stream between any two calls, so a
//! contract here says what holds whatever the stream was when the call held
//! its lock. What the call did with that stream is the contract of the
//! operation of [`Stream`] that it performed.

use crate::notify::Notify;
use crate::stream::{ReadOutcome, Stream, StreamView};
use std::sync::Arc;
use vstd::prelude::*;
use vstd::rwlock::{RwLock, RwLockPredicate};

verus! {

/// What the stream's lock admits: every stream.
struct AnyStream;

impl RwLockPredicate<Stream> for AnyStream {
    open spec fn inv(self, v: Stream) -> bool {
        true
    }
}

/// A handle on a shared stream, with a read cursor of its own.
pub struct BroadcastPipe {
    buffer: Arc<RwLock<Stream, AnyStream>>,
    ready: Arc<Notify>,
    read_pos: usize,
    producing: usize,
}

impl Clone for BroadcastPipe {
    /// Another handle on the same stream, which reads from the first byte
    /// and has registered no producer.
    fn clone(&self) -> (pipe: BroadcastPipe)
        ensures
            pipe.cursor() == 0,
            pipe.producers() == 0,
            pipe.shares_with(self),
    {
        BroadcastPipe {
            buffer: self.buffer.clone(),
            ready: self.ready.clone(),
            read_pos: 0,
            producing: 0,
        }
    }
}

impl BroadcastPipe {
    /// The offset of the next byte that this handle reads.
    pub closed spec fn cursor(&self) -> nat {
        self.read_pos as nat
    }

    /// How many producers have registered through this handle and are not
    /// yet done.
    pub closed spec fn producers(&self) -> nat {
        self.producing as nat
    }

    /// Both handles reach the same stream and the same readiness signal.
    pub closed spec fn shares_with(&self, other: &BroadcastPipe) -> bool {
        self.buffer == other.buffer && self.ready == other.ready
    }

    /// A handle on a new, empty stream with no producer registered.
    pub fn new() -> (pipe: BroadcastPipe)
        ensures
            pipe.cursor() == 0,
            pipe.producers() == 0,
    {
        BroadcastPipe {
            buffer: Arc::new(RwLock::new(Stream::new(), Ghost(AnyStream))),
            ready: Arc::new(Notify::new()),
            read_pos: 0,
            producing: 0,
        }
    }

    /// How many producers have registered through this handle and are not
    /// yet done.
    pub fn registered_here(&self) -> (n: usize)
        ensures
            n == self.producers(),
    {
        self.producing
    }

    /// The offset of the next byte that this handle reads.
    pub fn position(&self) -> (pos: usize)
        ensures
            pos == self.cursor(),
    {
        self.read_pos
    }

    /// Appends all of `buf` to the shared stream with [`Stream::append`] and
    /// returns its length. If anything was appended, every waiting reader is
    /// woken. The handle's own cursor stays where it is.
    pub fn write(&mut self, buf: &[u8]) -> (n: usize)
        ensures
            n == buf@.len(),
            final(self).cursor() == old(self).cursor(),
            final(self).producers() == old(self).producers(),
            final(self).shares_with(old(self)),
    {
        let (mut stream, handle) = self.buffer.acquire_write();
        let n = stream.append(buf);
        handle.release_write(stream);
        if n > 0 {
            self.ready.notify_all();
        }
        n
    }

    /// Waits until no other handle reads or writes the stream. Appended
    /// bytes are in the stream at once, so there is nothing to push out.
    pub fn flush(&mut self)
        ensures
            final(self).cursor() == old(self).cursor(),
            final(self).producers() == old(self).producers(),
            final(self).shares_with(old(self)),
    {
        let (stream, handle) = self.buffer.acquire_write();
        handle.release_write(stream);
    }

    /// One read attempt that never waits: performs [`Stream::read_from`] at
    /// this handle's cursor on the shared stream as it is now, and advances
    /// the cursor by the count copied.
    pub fn try_read(&mut self, buf: &mut [u8]) -> (outcome: ReadOutcome)
        ensures
            exists|s: StreamView|
                s.admits_read(old(self).cursor(), old(buf)@, outcome, final(buf)@),
            final(self).cursor() == old(self).cursor() + outcome.count(),
            final(self).producers() == old(self).producers(),
            final(self).shares_with(old(self)),
            old(buf)@.len() == 0 ==> outcome == ReadOutcome::Copied(0),
            old(buf)@.len() > 0 ==> outcome != ReadOutcome::Copied(0),
            outcome.count() <= old(buf)@.len(),
            final(buf)@.len() == old(buf)@.len(),
            final(buf)@.subrange(outcome.count() as int, old(buf)@.len() as int)
                == old(buf)@.subrange(outcome.count() as int, old(buf)@.len() as int),
    {
        let handle = self.buffer.acquire_read();
        let stream = handle.borrow();
        let outcome = stream.read_from(self.read_pos, buf);
        proof {
            stream.lemma_bounded();
            assert(stream@.admits_read(old(self).cursor(), old(buf)@, outcome, buf@));
        }
        handle.release_read();
        self.read_pos = self.read_pos + outcome.copied();
        outcome
    }

    /// Registers a producer through this handle: counts one more active
    /// producer on the shared stream with
    /// [`Stream::mark_producer_registered`], and one more on this handle.
    /// Says whether it did; if not, nothing has changed. Until that
    /// producer is done, a reader that has caught up is told to wait.
    pub fn mark_producer_registered(&mut self) -> (registered: bool)
        ensures
            final(self).producers() == old(self).producers() + if registered {
                1nat
            } else {
                0nat
            },
            old(self).producers() == usize::MAX ==> !registered,
            final(self).cursor() == old(self).cursor(),
            final(self).shares_with(old(self)),
    {
        if self.producing == usize::MAX {
            return false;
        }
        let (mut stream, handle) = self.buffer.acquire_write();
        let registered = stream.mark_producer_registered();
        handle.release_write(stream);
        if registered {
            self.producing = self.producing + 1;
        }
        registered
    }

    /// Reports that one of the producers that registered through this
    /// handle is done, and says whether the stream is complete afterwards.
    ///
    /// With such a producer, it is taken off this handle's count and, with
    /// [`Stream::mark_producer_done`], off the shared stream's tally; if
    /// that completes the stream, every waiting reader is woken, so that it
    /// finds the end of the stream. Without one, the tally is left alone:
    /// a handle cannot finish a producer that another one registered.
    pub fn mark_producer_done(&mut self) -> (complete: bool)
        ensures
            final(self).producers() == if old(self).producers() > 0 {
                (old(self).producers() - 1) as nat
            } else {
                0nat
            },
            final(self).cursor() == old(self).cursor(),
            final(self).shares_with(old(self)),
    {
        if self.producing > 0 {
            let (mut stream, handle) = self.buffer.acquire_write();
            let complete = stream.mark_producer_done();
            handle.release_write(stream);
            self.producing = self.producing - 1;
            if complete {
                self.ready.notify_all();
            }
            complete
        } else {
            let handle = self.buffer.acquire_read();
            let complete = handle.borrow().is_complete();
            handle.release_read();
            complete
        }
    }

    /// One read attempt that sleeps if there is nothing to read yet: as
    /// [`BroadcastPipe::try_read`], but where that reports
    /// [`ReadOutcome::WouldBlock`], this blocks until the readiness signal
    /// wakes the thread, and then reports it. The caller tries again.
    ///
    /// Before it sleeps it looks at the stream once more while it holds the
    /// signal's latch, so that a wake sent since the first look is not lost.
    pub fn read(&mut self, buf: &mut [u8]) -> (outcome: ReadOutcome)
        ensures
            exists|s: StreamView|
                s.admits_read(old(self).cursor(), old(buf)@, outcome, final(buf)@),
            final(self).cursor() == old(self).cursor() + outcome.count(),
            final(self).producers() == old(self).producers(),
            final(self).shares_with(old(self)),
            old(buf)@.len() == 0 ==> outcome == ReadOutcome::Copied(0),
            old(buf)@.len() > 0 ==> outcome != ReadOutcome::Copied(0),
            outcome.count() <= old(buf)@.len(),
            final(buf)@.len() == old(buf)@.len(),
            final(buf)@.subrange(outcome.count() as int, old(buf)@.len() as int)
                == old(buf)@.subrange(outcome.count() as int, old(buf)@.len() as int),
    {
        let first = self.try_read(buf);
        match first {
            ReadOutcome::WouldBlock => {
                assert(buf@ =~= old(buf)@);
                let ready = self.ready.clone();
                let held = ready.hold();
                let second = self.try_read(buf);
                match second {
                    ReadOutcome::WouldBlock => {
                        held.wait();
                    },
                    _ => {},
                }
                second
            },
            _ => first,
        }
    }
}

} // verus!
