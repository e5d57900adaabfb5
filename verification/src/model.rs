//! The broadcast as a whole: one stream, its producers and its consumers,
//! and everything that can happen to them, one event at a time.
//!
//! Each event is one operation of [`crate::stream::Stream`], stated by the
//! spec function of [`StreamView`] that the operation's contract names. The
//! shared handle performs each operation under the stream's lock, so a run
//! of the program is a sequence of such events, whatever the threads do.

use crate::stream::StreamView;
use vstd::prelude::*;

verus! {

/// What one consumer has done so far.
pub struct ConsumerView {
    /// The offset of the next byte that the consumer reads.
    pub cursor: nat,
    /// Every byte that was handed to the consumer's destination, in order.
    pub received: Seq<u8>,
    /// Whether the consumer still reads. Once its destination has failed,
    /// it does not.
    pub connected: bool,
}

impl ConsumerView {
    /// A consumer as it joins: at the first byte, with nothing received.
    pub open spec fn joining() -> ConsumerView {
        ConsumerView { cursor: 0, received: Seq::empty(), connected: true }
    }

    /// The consumer after one read of at most `want` bytes from `stream`.
    pub open spec fn read(self, stream: StreamView, want: nat) -> ConsumerView {
        ConsumerView {
            cursor: self.cursor + stream.read_count(self.cursor, want),
            received: self.received + stream.read_bytes(self.cursor, want),
            ..self
        }
    }

    /// The consumer after `times` reads of at most `want` bytes each.
    pub open spec fn read_repeatedly(self, stream: StreamView, want: nat, times: nat) -> ConsumerView
        decreases times,
    {
        if times == 0 {
            self
        } else {
            self.read_repeatedly(stream, want, (times - 1) as nat).read(stream, want)
        }
    }

    /// The consumer has received exactly the bytes before its cursor.
    pub open spec fn replays(self, stream: StreamView) -> bool {
        &&& self.cursor <= stream.bytes.len()
        &&& self.received == stream.bytes.take(self.cursor as int)
    }

    /// The consumer has read every byte that the stream holds.
    pub open spec fn caught_up(self, stream: StreamView) -> bool {
        stream.available(self.cursor) == 0
    }
}

/// One thing that happens to the broadcast.
pub enum Event {
    /// A producer registers.
    Register,
    /// A producer reports that it is done.
    Done,
    /// A producer appends these bytes.
    Append(Seq<u8>),
    /// A new consumer joins. It is numbered after those that joined before.
    Connect,
    /// The consumer of this number reads at most `want` bytes.
    Read { consumer: int, want: nat },
    /// The destination of the consumer of this number fails.
    Disconnect { consumer: int },
}

/// The stream together with every consumer that ever joined.
pub struct BroadcastView {
    pub stream: StreamView,
    pub consumers: Seq<ConsumerView>,
}

impl BroadcastView {
    /// An empty stream that nobody produces for or reads from.
    pub open spec fn start() -> BroadcastView {
        BroadcastView { stream: StreamView::empty(), consumers: Seq::empty() }
    }

    /// `consumer` numbers a consumer that still reads.
    pub open spec fn reads(self, consumer: int) -> bool {
        0 <= consumer < self.consumers.len() && self.consumers[consumer].connected
    }

    /// The broadcast after `event`. An event for a consumer that never
    /// joined, or that reads no more, changes nothing.
    pub open spec fn step(self, event: Event) -> BroadcastView {
        match event {
            Event::Register => BroadcastView { stream: self.stream.register(), ..self },
            Event::Done => BroadcastView { stream: self.stream.finish(), ..self },
            Event::Append(data) => BroadcastView { stream: self.stream.append(data), ..self },
            Event::Connect => BroadcastView {
                consumers: self.consumers.push(ConsumerView::joining()),
                ..self
            },
            Event::Read { consumer, want } => if self.reads(consumer) {
                BroadcastView {
                    consumers: self.consumers.update(
                        consumer,
                        self.consumers[consumer].read(self.stream, want),
                    ),
                    ..self
                }
            } else {
                self
            },
            Event::Disconnect { consumer } => if self.reads(consumer) {
                BroadcastView {
                    consumers: self.consumers.update(
                        consumer,
                        ConsumerView { connected: false, ..self.consumers[consumer] },
                    ),
                    ..self
                }
            } else {
                self
            },
        }
    }

    /// The broadcast after all of `events`, first to last.
    pub open spec fn run(self, events: Seq<Event>) -> BroadcastView
        decreases events.len(),
    {
        if events.len() == 0 {
            self
        } else {
            self.run(events.drop_last()).step(events.last())
        }
    }

    /// Every consumer has received exactly the bytes before its cursor.
    pub open spec fn coherent(self) -> bool {
        forall|i: int| 0 <= i < self.consumers.len() ==> (#[trigger] self.consumers[i]).replays(self.stream)
    }
}

/// One append for each of `chunks`, in their order.
pub open spec fn appends(chunks: Seq<Seq<u8>>) -> Seq<Event> {
    Seq::new(chunks.len(), |i: int| Event::Append(chunks[i]))
}

/// `times` reads of at most `want` bytes each by the consumer of number `consumer`.
pub open spec fn reads(consumer: int, want: nat, times: nat) -> Seq<Event> {
    Seq::new(times, |i: int| Event::Read { consumer, want })
}

/// The bytes that `events` append, in the order of the events.
pub open spec fn appended(events: Seq<Event>) -> Seq<u8>
    decreases events.len(),
{
    if events.len() == 0 {
        Seq::empty()
    } else {
        match events.last() {
            Event::Append(data) => appended(events.drop_last()) + data,
            _ => appended(events.drop_last()),
        }
    }
}

/// The number of registrations among `events`.
pub open spec fn registrations(events: Seq<Event>) -> nat
    decreases events.len(),
{
    if events.len() == 0 {
        0
    } else {
        registrations(events.drop_last()) + if events.last() is Register { 1nat } else { 0nat }
    }
}

/// The number of reports of a producer being done among `events`.
pub open spec fn completions(events: Seq<Event>) -> nat
    decreases events.len(),
{
    if events.len() == 0 {
        0
    } else {
        completions(events.drop_last()) + if events.last() is Done { 1nat } else { 0nat }
    }
}

/// No producer reports that it is done before it has registered: at every
/// moment as many producers have registered as were done, or more.
pub open spec fn orderly(events: Seq<Event>) -> bool {
    forall|k: int| 0 <= k <= events.len() ==> completions(#[trigger] events.take(k)) <= registrations(events.take(k))
}

} // verus!
