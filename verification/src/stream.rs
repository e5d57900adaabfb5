//! The append-only byte stream and its producer tally, as a plain value.
//!
//! Every operation here is sequential. The shared handle in the `pipe`
//! module performs each of them while it holds the stream's lock, so what
//! is proved of one operation holds of it under every interleaving.

use vstd::prelude::*;

verus! {

/// What one read attempt found.
#[derive(Clone, Copy, Debug, PartialEq, Eq, Structural)]
pub enum ReadOutcome {
    /// This many bytes were copied to the front of the destination.
    Copied(usize),
    /// The cursor has caught up and a producer is still active.
    WouldBlock,
    /// The cursor has caught up and every producer has finished.
    EndOfStream,
}

impl ReadOutcome {
    /// The number of bytes that the read copied.
    pub open spec fn count(self) -> nat {
        match self {
            ReadOutcome::Copied(n) => n as nat,
            ReadOutcome::WouldBlock => 0,
            ReadOutcome::EndOfStream => 0,
        }
    }

    /// The number of bytes that the read copied.
    pub fn copied(&self) -> (n: usize)
        ensures
            n == self.count(),
    {
        match self {
            ReadOutcome::Copied(n) => *n,
            ReadOutcome::WouldBlock => 0,
            ReadOutcome::EndOfStream => 0,
        }
    }
}

/// The mathematical content of a [`Stream`].
pub struct StreamView {
    /// Every byte appended so far, oldest first.
    pub bytes: Seq<u8>,
    /// How many registered producers have not yet reported that they are done.
    pub active_producers: nat,
}

impl StreamView {
    /// The stream before anything was appended or registered.
    pub open spec fn empty() -> StreamView {
        StreamView { bytes: Seq::empty(), active_producers: 0 }
    }

    /// No producer is left that could append.
    pub open spec fn is_complete(self) -> bool {
        self.active_producers == 0
    }

    /// The number of bytes that lie at or after `cursor`.
    pub open spec fn available(self, cursor: nat) -> nat {
        if cursor <= self.bytes.len() {
            (self.bytes.len() - cursor) as nat
        } else {
            0
        }
    }

    /// The number of bytes that a read of `want` bytes at `cursor` copies.
    pub open spec fn read_count(self, cursor: nat, want: nat) -> nat {
        if want <= self.available(cursor) {
            want
        } else {
            self.available(cursor)
        }
    }

    /// The bytes that a read of `want` bytes at `cursor` copies: the first
    /// `read_count` of those that lie at or after the cursor.
    pub open spec fn read_bytes(self, cursor: nat, want: nat) -> Seq<u8> {
        if cursor <= self.bytes.len() {
            self.bytes.subrange(cursor as int, (cursor + self.read_count(cursor, want)) as int)
        } else {
            Seq::empty()
        }
    }

    /// What a read of `want` bytes at `cursor` reports.
    ///
    /// A read of no bytes copies nothing and never waits. Otherwise bytes at
    /// or after the cursor are copied if there are any; if there are none,
    /// the read has reached the end once the stream is complete, and would
    /// have to wait for a producer until then.
    pub open spec fn read_outcome(self, cursor: nat, want: nat) -> ReadOutcome {
        if want == 0 {
            ReadOutcome::Copied(0)
        } else if self.available(cursor) > 0 {
            ReadOutcome::Copied(self.read_count(cursor, want) as usize)
        } else if self.is_complete() {
            ReadOutcome::EndOfStream
        } else {
            ReadOutcome::WouldBlock
        }
    }

    /// The destination `dest` after a read at `cursor` that may fill all of it:
    /// the bytes read, followed by what `dest` held behind them.
    pub open spec fn read_into(self, cursor: nat, dest: Seq<u8>) -> Seq<u8> {
        self.read_bytes(cursor, dest.len()) + dest.subrange(
            self.read_count(cursor, dest.len()) as int,
            dest.len() as int,
        )
    }

    /// A read at `cursor` into a destination that held `before` can report
    /// `outcome` and leave `after` in the destination.
    pub open spec fn admits_read(
        self,
        cursor: nat,
        before: Seq<u8>,
        outcome: ReadOutcome,
        after: Seq<u8>,
    ) -> bool {
        &&& outcome == self.read_outcome(cursor, before.len())
        &&& after == self.read_into(cursor, before)
    }

    /// The stream after `data` was appended.
    pub open spec fn append(self, data: Seq<u8>) -> StreamView {
        StreamView { bytes: self.bytes + data, ..self }
    }

    /// The stream after one more producer registered.
    pub open spec fn register(self) -> StreamView {
        StreamView { active_producers: self.active_producers + 1, ..self }
    }

    /// The stream after one producer reported that it is done. With no
    /// producer active there is none to take off the tally.
    pub open spec fn finish(self) -> StreamView {
        if self.active_producers > 0 {
            StreamView { active_producers: (self.active_producers - 1) as nat, ..self }
        } else {
            self
        }
    }
}

/// An append-only sequence of bytes together with the tally of producers
/// that may still append to it.
pub struct Stream {
    bytes: Vec<u8>,
    active_producers: usize,
}

impl View for Stream {
    type V = StreamView;

    closed spec fn view(&self) -> StreamView {
        StreamView { bytes: self.bytes@, active_producers: self.active_producers as nat }
    }
}

impl Stream {
    /// An empty stream with no producer registered.
    pub fn new() -> (s: Stream)
        ensures
            s@ == StreamView::empty(),
    {
        Stream { bytes: Vec::new(), active_producers: 0 }
    }

    /// Appends `data` and returns how many bytes were taken, which is all of them.
    pub fn append(&mut self, data: &[u8]) -> (n: usize)
        ensures
            n == data@.len(),
            final(self)@ == old(self)@.append(data@),
    {
        self.bytes.extend_from_slice(data);
        assert(self.bytes@ =~= old(self).bytes@ + data@);
        data.len()
    }

    /// Counts one more active producer and says whether it did. The tally
    /// cannot hold more than `usize::MAX` producers; at that number the
    /// stream stays as it is.
    pub fn mark_producer_registered(&mut self) -> (registered: bool)
        ensures
            registered == (old(self)@.active_producers < usize::MAX),
            final(self)@ == if registered {
                old(self)@.register()
            } else {
                old(self)@
            },
    {
        if self.active_producers < usize::MAX {
            self.active_producers += 1;
            true
        } else {
            false
        }
    }

    /// Takes one producer off the tally and says whether the stream is
    /// complete afterwards, which is when waiting readers must be woken.
    pub fn mark_producer_done(&mut self) -> (complete: bool)
        ensures
            final(self)@ == old(self)@.finish(),
            complete == final(self)@.is_complete(),
    {
        if self.active_producers > 0 {
            self.active_producers -= 1;
        }
        self.active_producers == 0
    }

    /// The stream's length and its tally are numbers that the machine holds.
    pub proof fn lemma_bounded(&self)
        ensures
            self@.bytes.len() <= usize::MAX,
            self@.active_producers <= usize::MAX,
    {
        assert(self.bytes.len() == self.bytes@.len());
    }

    /// The number of producers that have registered and are not yet done.
    pub fn active_producers(&self) -> (n: usize)
        ensures
            n == self@.active_producers,
    {
        self.active_producers
    }

    /// The number of bytes appended so far.
    pub fn len(&self) -> (n: usize)
        ensures
            n == self@.bytes.len(),
    {
        self.bytes.len()
    }

    /// Whether every registered producer has reported that it is done.
    pub fn is_complete(&self) -> (b: bool)
        ensures
            b == self@.is_complete(),
    {
        self.active_producers == 0
    }

    /// Copies to the front of `buf` as many bytes as it can hold of those
    /// that lie at or after `cursor`, and reports what it found.
    ///
    /// The cursor belongs to the caller, who advances it by the count copied.
    pub fn read_from(&self, cursor: usize, buf: &mut [u8]) -> (outcome: ReadOutcome)
        ensures
            outcome == self@.read_outcome(cursor as nat, old(buf)@.len()),
            final(buf)@ == self@.read_into(cursor as nat, old(buf)@),
    {
        let want = buf.len();
        let total = self.bytes.len();
        let available: usize = if cursor <= total { total - cursor } else { 0 };
        let count: usize = if want <= available { want } else { available };
        let ghost before = buf@;
        let mut i: usize = 0;
        while i < count
            invariant
                i <= count <= want,
                total == self.bytes@.len(),
                count == self@.read_count(cursor as nat, want as nat),
                count > 0 ==> cursor + count <= total,
                buf@.len() == want,
                before.len() == want,
                forall|k: int| 0 <= k < i ==> buf@[k] == self.bytes@[cursor + k],
                forall|k: int| i <= k < want ==> buf@[k] == before[k],
            decreases count - i,
        {
            buf[i] = self.bytes[cursor + i];
            i += 1;
        }
        assert(buf@ =~= self@.read_into(cursor as nat, before));
        if want == 0 || count > 0 {
            ReadOutcome::Copied(count)
        } else if self.active_producers == 0 {
            ReadOutcome::EndOfStream
        } else {
            ReadOutcome::WouldBlock
        }
    }
}

} // verus!
