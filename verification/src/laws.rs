//! What holds of every broadcast, proved over the model of the `model`
//! module and the spec functions that the contracts of
//! [`crate::stream::Stream`] name.

use crate::model::{
    appended, appends, completions, orderly, reads, registrations, BroadcastView, ConsumerView,
    Event,
};
use crate::stream::{ReadOutcome, StreamView};
use vstd::prelude::*;

verus! {

/// What a read reports and what it leaves in its destination, as
/// [`crate::stream::Stream::read_from`] states them, are what the model's
/// consumer takes from the stream: the count reported is the count by which
/// its cursor moves, and the front of the destination holds the bytes that
/// it receives.
pub proof fn law_read_is_the_models_read(stream: StreamView, cursor: nat, dest: Seq<u8>)
    requires
        dest.len() <= usize::MAX,
    ensures
        stream.read_outcome(cursor, dest.len()).count() == stream.read_count(cursor, dest.len()),
        stream.read_into(cursor, dest).len() == dest.len(),
        stream.read_into(cursor, dest).take(stream.read_count(cursor, dest.len()) as int)
            == stream.read_bytes(cursor, dest.len()),
        stream.read_into(cursor, dest).skip(stream.read_count(cursor, dest.len()) as int)
            == dest.skip(stream.read_count(cursor, dest.len()) as int),
{
    let count = stream.read_count(cursor, dest.len()) as int;
    let after = stream.read_into(cursor, dest);
    assert(after.take(count) =~= stream.read_bytes(cursor, dest.len()));
    assert(after.skip(count) =~= dest.skip(count));
}

/// A read leaves a consumer that has received the bytes before its cursor
/// in that state.
pub proof fn lemma_read_keeps_replay(consumer: ConsumerView, stream: StreamView, want: nat)
    requires
        consumer.replays(stream),
    ensures
        consumer.read(stream, want).replays(stream),
{
    let after = consumer.read(stream, want);
    assert(after.received =~= stream.bytes.take(after.cursor as int));
}

/// An append leaves a consumer that has received the bytes before its
/// cursor in that state: the bytes before the cursor stay what they were.
pub proof fn lemma_append_keeps_replay(consumer: ConsumerView, stream: StreamView, data: Seq<u8>)
    requires
        consumer.replays(stream),
    ensures
        consumer.replays(stream.append(data)),
{
    assert(stream.bytes.take(consumer.cursor as int) =~= stream.append(data).bytes.take(
        consumer.cursor as int,
    ));
}

/// Whatever happens, every consumer keeps having received the bytes before
/// its cursor.
pub proof fn lemma_step_keeps_coherence(broadcast: BroadcastView, event: Event)
    requires
        broadcast.coherent(),
    ensures
        broadcast.step(event).coherent(),
{
    let after = broadcast.step(event);
    assert forall|i: int| 0 <= i < after.consumers.len() implies (#[trigger] after.consumers[i]).replays(
        after.stream,
    ) by {
        match event {
            Event::Register => {
                assert(broadcast.consumers[i].replays(broadcast.stream));
            },
            Event::Done => {
                assert(broadcast.consumers[i].replays(broadcast.stream));
            },
            Event::Append(data) => {
                lemma_append_keeps_replay(broadcast.consumers[i], broadcast.stream, data);
            },
            Event::Connect => {
                if i < broadcast.consumers.len() {
                    assert(broadcast.consumers[i].replays(broadcast.stream));
                } else {
                    assert(ConsumerView::joining().received =~= after.stream.bytes.take(0));
                }
            },
            Event::Read { consumer, want } => {
                assert(broadcast.consumers[i].replays(broadcast.stream));
                if broadcast.reads(consumer) && i == consumer {
                    lemma_read_keeps_replay(broadcast.consumers[i], broadcast.stream, want);
                }
            },
            Event::Disconnect { consumer } => {
                assert(broadcast.consumers[i].replays(broadcast.stream));
            },
        }
    }
}

/// Replay: after any events on a broadcast in which every consumer had
/// received exactly the bytes before its cursor, every consumer still has.
/// No consumer ever skips a byte, repeats one or sees one out of order.
pub proof fn law_consumers_replay_the_stream(broadcast: BroadcastView, events: Seq<Event>)
    requires
        broadcast.coherent(),
    ensures
        broadcast.run(events).coherent(),
    decreases events.len(),
{
    if events.len() > 0 {
        law_consumers_replay_the_stream(broadcast, events.drop_last());
        lemma_step_keeps_coherence(broadcast.run(events.drop_last()), events.last());
    }
}

/// The stream only grows: whatever happens, it holds what it held before,
/// byte for byte, followed by the chunks that were appended since, in the
/// order in which they were appended.
pub proof fn law_stream_is_concatenation(broadcast: BroadcastView, events: Seq<Event>)
    ensures
        broadcast.run(events).stream.bytes == broadcast.stream.bytes + appended(events),
        broadcast.stream.bytes.is_prefix_of(broadcast.run(events).stream.bytes),
    decreases events.len(),
{
    if events.len() == 0 {
        assert(broadcast.stream.bytes + appended(events) =~= broadcast.stream.bytes);
    } else {
        law_stream_is_concatenation(broadcast, events.drop_last());
        let before = broadcast.run(events.drop_last());
        match events.last() {
            Event::Append(data) => {
                assert(before.stream.bytes + data =~= broadcast.stream.bytes + appended(events));
            },
            _ => {},
        }
    }
}

/// Consumers keep their numbers: events add consumers and never remove one.
pub proof fn lemma_consumers_stay(broadcast: BroadcastView, events: Seq<Event>)
    ensures
        broadcast.consumers.len() <= broadcast.run(events).consumers.len(),
    decreases events.len(),
{
    if events.len() > 0 {
        lemma_consumers_stay(broadcast, events.drop_last());
    }
}

/// A consumer that has received the bytes before its cursor and has caught
/// up has received the whole stream.
pub proof fn lemma_caught_up_has_everything(consumer: ConsumerView, stream: StreamView)
    requires
        consumer.replays(stream),
        consumer.caught_up(stream),
    ensures
        consumer.cursor == stream.bytes.len(),
        consumer.received == stream.bytes,
{
    assert(stream.bytes.take(stream.bytes.len() as int) =~= stream.bytes);
}

/// Full replay: a consumer that joins after `history`, which may have
/// appended any number of chunks, starts at the first byte of the stream.
/// Whatever happens later, it has received the first bytes of what was
/// appended before it joined followed by what was appended since, as many
/// as its cursor says, in order. Once it has caught up, it has received
/// all of them.
pub proof fn law_full_replay(history: Seq<Event>, later: Seq<Event>)
    ensures
        ({
            let joined = BroadcastView::start().run(history).step(Event::Connect);
            let me = joined.consumers.len() - 1;
            let end = joined.run(later);
            let mine = end.consumers[me];
            let all = appended(history) + appended(later);
            &&& joined.consumers[me] == ConsumerView::joining()
            &&& 0 <= me < end.consumers.len()
            &&& end.stream.bytes == all
            &&& mine.cursor <= all.len()
            &&& mine.received == all.take(mine.cursor as int)
            &&& mine.caught_up(end.stream) ==> mine.received == all
        }),
{
    let start = BroadcastView::start();
    let before = start.run(history);
    let joined = before.step(Event::Connect);
    let me = joined.consumers.len() - 1;
    let end = joined.run(later);
    assert(start.coherent());
    law_consumers_replay_the_stream(start, history);
    lemma_step_keeps_coherence(before, Event::Connect);
    law_consumers_replay_the_stream(joined, later);
    lemma_consumers_stay(joined, later);
    law_stream_is_concatenation(start, history);
    law_stream_is_concatenation(joined, later);
    assert(start.stream.bytes + appended(history) =~= appended(history));
    assert(end.consumers[me].replays(end.stream));
    if end.consumers[me].caught_up(end.stream) {
        lemma_caught_up_has_everything(end.consumers[me], end.stream);
    }
}

/// A read of at least one byte by a consumer that has not caught up copies
/// at least one byte, and the consumer is told so.
pub proof fn law_read_makes_progress(consumer: ConsumerView, stream: StreamView, want: nat)
    requires
        want > 0,
        want <= usize::MAX,
        !consumer.caught_up(stream),
    ensures
        stream.read_count(consumer.cursor, want) >= 1,
        stream.read_outcome(consumer.cursor, want) == ReadOutcome::Copied(
            stream.read_count(consumer.cursor, want) as usize,
        ),
        stream.read_outcome(consumer.cursor, want).count() == stream.read_count(
            consumer.cursor,
            want,
        ),
        consumer.read(stream, want).cursor > consumer.cursor,
{
}

/// A consumer that is told to wait or that the stream has ended, on asking
/// for at least one byte, has caught up.
pub proof fn law_no_bytes_means_caught_up(consumer: ConsumerView, stream: StreamView, want: nat)
    requires
        want > 0,
        stream.read_outcome(consumer.cursor, want) == ReadOutcome::WouldBlock
            || stream.read_outcome(consumer.cursor, want) == ReadOutcome::EndOfStream,
    ensures
        consumer.caught_up(stream),
        stream.read_outcome(consumer.cursor, want) == ReadOutcome::EndOfStream
            <==> stream.is_complete(),
{
}

/// How far reads get: after `times` reads of at most `want` bytes each
/// from a stream that stays as it is, a consumer still has received the
/// bytes before its cursor, and of the bytes that were left for it to read
/// as many are left as the reads could not hold.
pub proof fn lemma_reads_advance(consumer: ConsumerView, stream: StreamView, want: nat, times: nat)
    requires
        consumer.replays(stream),
    ensures
        consumer.read_repeatedly(stream, want, times).replays(stream),
        consumer.read_repeatedly(stream, want, times).connected == consumer.connected,
        stream.available(consumer.read_repeatedly(stream, want, times).cursor) == if times * want
            >= stream.available(consumer.cursor) {
            0
        } else {
            stream.available(consumer.cursor) - times * want
        },
    decreases times,
{
    if times == 0 {
        assert(times * want == 0) by (nonlinear_arith)
            requires
                times == 0,
        ;
    } else {
        let earlier = consumer.read_repeatedly(stream, want, (times - 1) as nat);
        lemma_reads_advance(consumer, stream, want, (times - 1) as nat);
        lemma_read_keeps_replay(earlier, stream, want);
        assert((times - 1) * want == times * want - want) by (nonlinear_arith);
    }
}

/// Reads of at least one byte catch up: on a stream that stays as it is, a
/// consumer whose reads could hold all that is left of the stream between
/// them has caught up after them, and has then received the whole stream.
pub proof fn law_reads_catch_up(consumer: ConsumerView, stream: StreamView, want: nat, times: nat)
    requires
        consumer.replays(stream),
        times * want >= stream.available(consumer.cursor),
    ensures
        consumer.read_repeatedly(stream, want, times).caught_up(stream),
        consumer.read_repeatedly(stream, want, times).received == stream.bytes,
{
    lemma_reads_advance(consumer, stream, want, times);
    lemma_caught_up_has_everything(consumer.read_repeatedly(stream, want, times), stream);
}

/// The reads of one consumer, one after the other, as events: they leave
/// the stream and the other consumers as they are.
pub proof fn lemma_run_of_reads(broadcast: BroadcastView, consumer: int, want: nat, times: nat)
    requires
        broadcast.reads(consumer),
    ensures
        broadcast.run(reads(consumer, want, times)) == (BroadcastView {
            consumers: broadcast.consumers.update(
                consumer,
                broadcast.consumers[consumer].read_repeatedly(broadcast.stream, want, times),
            ),
            ..broadcast
        }),
        broadcast.consumers[consumer].read_repeatedly(broadcast.stream, want, times).connected,
    decreases times,
{
    if times == 0 {
        assert(broadcast.consumers.update(consumer, broadcast.consumers[consumer])
            =~= broadcast.consumers);
    } else {
        assert(reads(consumer, want, times).drop_last() =~= reads(
            consumer,
            want,
            (times - 1) as nat,
        ));
        lemma_run_of_reads(broadcast, consumer, want, (times - 1) as nat);
        let earlier = broadcast.consumers[consumer].read_repeatedly(
            broadcast.stream,
            want,
            (times - 1) as nat,
        );
        assert(broadcast.consumers.update(consumer, earlier).update(
            consumer,
            earlier.read(broadcast.stream, want),
        ) =~= broadcast.consumers.update(consumer, earlier.read(broadcast.stream, want)));
    }
}

/// The appends of some chunks, one after the other, append the chunks'
/// concatenation.
pub proof fn lemma_appended_chunks(chunks: Seq<Seq<u8>>)
    ensures
        appended(appends(chunks)) == chunks.flatten(),
    decreases chunks.len(),
{
    chunks.lemma_flatten_and_flatten_alt_are_equivalent();
    if chunks.len() > 0 {
        assert(appends(chunks).drop_last() =~= appends(chunks.drop_last()));
        lemma_appended_chunks(chunks.drop_last());
        chunks.drop_last().lemma_flatten_and_flatten_alt_are_equivalent();
    }
}

/// Appends leave the producers' tally as it is.
pub proof fn lemma_tally_unchanged_by_appends(broadcast: BroadcastView, chunks: Seq<Seq<u8>>)
    ensures
        broadcast.run(appends(chunks)).stream.active_producers
            == broadcast.stream.active_producers,
    decreases chunks.len(),
{
    if chunks.len() > 0 {
        assert(appends(chunks).drop_last() =~= appends(chunks.drop_last()));
        lemma_tally_unchanged_by_appends(broadcast, chunks.drop_last());
    }
}

/// Appends leave the consumers as they are.
pub proof fn lemma_consumers_unchanged_by_appends(broadcast: BroadcastView, chunks: Seq<Seq<u8>>)
    ensures
        broadcast.run(appends(chunks)).consumers == broadcast.consumers,
    decreases chunks.len(),
{
    if chunks.len() > 0 {
        assert(appends(chunks).drop_last() =~= appends(chunks.drop_last()));
        lemma_consumers_unchanged_by_appends(broadcast, chunks.drop_last());
    }
}

/// Full replay, chunk by chunk: a producer registers and appends `chunks`;
/// then, before the stream is complete, a consumer joins. With reads that
/// between them could hold all the chunks, it receives exactly their
/// concatenation, in order. When `extra` is appended afterwards, reads that
/// could hold it bring the consumer exactly `extra` behind what it had.
pub proof fn law_full_replay_of_chunks(
    chunks: Seq<Seq<u8>>,
    extra: Seq<u8>,
    want: nat,
    times: nat,
    more: nat,
)
    requires
        times * want >= chunks.flatten().len(),
        more * want >= extra.len(),
    ensures
        ({
            let live = BroadcastView::start().step(Event::Register).run(appends(chunks));
            let replayed = live.step(Event::Connect).run(reads(0, want, times));
            let grown = replayed.step(Event::Append(extra)).run(reads(0, want, more));
            &&& !live.stream.is_complete()
            &&& live.stream.bytes == chunks.flatten()
            &&& replayed.consumers[0].received == chunks.flatten()
            &&& grown.consumers[0].received == chunks.flatten() + extra
        }),
{
    let registered = BroadcastView::start().step(Event::Register);
    let live = registered.run(appends(chunks));
    let joined = live.step(Event::Connect);
    let replayed = joined.run(reads(0, want, times));
    let fed = replayed.step(Event::Append(extra));
    let grown = fed.run(reads(0, want, more));

    law_stream_is_concatenation(registered, appends(chunks));
    lemma_appended_chunks(chunks);
    assert(registered.stream.bytes + chunks.flatten() =~= chunks.flatten());
    lemma_tally_unchanged_by_appends(registered, chunks);
    lemma_consumers_unchanged_by_appends(registered, chunks);

    assert(joined.consumers[0] == ConsumerView::joining());
    assert(ConsumerView::joining().received =~= joined.stream.bytes.take(0));
    lemma_run_of_reads(joined, 0, want, times);
    law_reads_catch_up(joined.consumers[0], joined.stream, want, times);
    lemma_reads_advance(joined.consumers[0], joined.stream, want, times);

    let mine = replayed.consumers[0];
    lemma_append_keeps_replay(mine, replayed.stream, extra);
    lemma_run_of_reads(fed, 0, want, more);
    law_reads_catch_up(mine, fed.stream, want, more);
}

/// Late-joiner parity: whatever happened since the broadcast started, and
/// whenever they joined, two consumers that have reached the end of the
/// stream have received the same bytes, which are all the bytes that were
/// ever appended.
pub proof fn law_late_joiner_parity(events: Seq<Event>, first: int, second: int)
    requires
        ({
            let end = BroadcastView::start().run(events);
            &&& 0 <= first < end.consumers.len()
            &&& 0 <= second < end.consumers.len()
            &&& end.stream.read_outcome(end.consumers[first].cursor, 1) == ReadOutcome::EndOfStream
            &&& end.stream.read_outcome(end.consumers[second].cursor, 1)
                == ReadOutcome::EndOfStream
        }),
    ensures
        ({
            let end = BroadcastView::start().run(events);
            &&& end.consumers[first].received == end.consumers[second].received
            &&& end.consumers[first].received == appended(events)
        }),
{
    let start = BroadcastView::start();
    let end = start.run(events);
    assert(start.coherent());
    law_consumers_replay_the_stream(start, events);
    law_stream_is_concatenation(start, events);
    assert(start.stream.bytes + appended(events) =~= appended(events));
    assert(end.consumers[first].replays(end.stream));
    assert(end.consumers[second].replays(end.stream));
    lemma_caught_up_has_everything(end.consumers[first], end.stream);
    lemma_caught_up_has_everything(end.consumers[second], end.stream);
}

/// The tally of active producers is the number of producers that have
/// registered less the number of those that are done, as long as none
/// reports that it is done before it has registered.
pub proof fn lemma_tally_is_difference(events: Seq<Event>)
    requires
        orderly(events),
    ensures
        BroadcastView::start().run(events).stream.active_producers == registrations(events)
            - completions(events),
    decreases events.len(),
{
    assert(events.take(events.len() as int) =~= events);
    if events.len() > 0 {
        let earlier = events.drop_last();
        assert forall|k: int| 0 <= k <= earlier.len() implies completions(
            #[trigger] earlier.take(k),
        ) <= registrations(earlier.take(k)) by {
            assert(earlier.take(k) =~= events.take(k));
        }
        lemma_tally_is_difference(earlier);
    }
}

/// Completion with several producers: as long as no producer reports that
/// it is done before it has registered, the stream is complete if and only
/// if every producer that has registered is done.
pub proof fn law_complete_iff_all_done(events: Seq<Event>)
    requires
        orderly(events),
    ensures
        BroadcastView::start().run(events).stream.is_complete() <==> registrations(events)
            == completions(events),
{
    lemma_tally_is_difference(events);
}

/// A stream with a producer that has just registered is not complete,
/// however many producers were done before.
pub proof fn law_registration_reopens(stream: StreamView)
    ensures
        !stream.register().is_complete(),
        stream.register().finish() == stream,
{
}

/// A read of no bytes: whatever the stream holds and wherever the cursor
/// is, the read copies nothing, leaves cursor and destination as they
/// were, and is told neither to wait nor that the stream has ended.
pub proof fn law_zero_length_read(consumer: ConsumerView, stream: StreamView, dest: Seq<u8>)
    requires
        dest.len() == 0,
    ensures
        stream.read_outcome(consumer.cursor, dest.len()) == ReadOutcome::Copied(0),
        stream.read_into(consumer.cursor, dest) == dest,
        consumer.read(stream, dest.len()) == consumer,
{
    assert(stream.read_into(consumer.cursor, dest) =~= dest);
    assert(consumer.received + stream.read_bytes(consumer.cursor, 0) =~= consumer.received);
}

/// Two broadcasts differ at most in the consumer of number `consumer`.
pub open spec fn same_but_for(left: BroadcastView, right: BroadcastView, consumer: int) -> bool {
    &&& left.stream == right.stream
    &&& left.consumers.len() == right.consumers.len()
    &&& forall|i: int|
        0 <= i < left.consumers.len() && i != consumer ==> #[trigger] left.consumers[i]
            == right.consumers[i]
}

/// The events that are neither a read nor a failure of the consumer of
/// number `consumer`.
pub open spec fn leaves_alone(event: Event, consumer: int) -> bool {
    match event {
        Event::Read { consumer: other, want } => other != consumer,
        Event::Disconnect { consumer: other } => other != consumer,
        _ => true,
    }
}

/// What one consumer does is its own affair: a read by a consumer, or the
/// failure of its destination, leaves the stream, the producers' tally and
/// every other consumer as they were.
pub proof fn law_consumer_steps_are_private(broadcast: BroadcastView, event: Event, consumer: int)
    requires
        !leaves_alone(event, consumer),
    ensures
        same_but_for(broadcast, broadcast.step(event), consumer),
{
}

/// An event that is not about one consumer does the same to two broadcasts
/// that differ at most in that consumer.
pub proof fn lemma_step_keeps_difference(
    left: BroadcastView,
    right: BroadcastView,
    event: Event,
    consumer: int,
)
    requires
        same_but_for(left, right, consumer),
        leaves_alone(event, consumer),
    ensures
        same_but_for(left.step(event), right.step(event), consumer),
{
    let left_after = left.step(event);
    let right_after = right.step(event);
    match event {
        Event::Read { consumer: other, want } => {
            if left.reads(other) {
                assert(left.consumers[other] == right.consumers[other]);
            }
            if right.reads(other) {
                assert(left.consumers[other] == right.consumers[other]);
            }
        },
        Event::Disconnect { consumer: other } => {
            if left.reads(other) {
                assert(left.consumers[other] == right.consumers[other]);
            }
            if right.reads(other) {
                assert(left.consumers[other] == right.consumers[other]);
            }
        },
        _ => {},
    }
}

/// Isolation: when the destination of one consumer fails, everything that
/// happens afterwards to the stream, to the producers' tally and to every
/// other consumer is what would have happened had it not failed.
pub proof fn law_isolation(broadcast: BroadcastView, consumer: int, later: Seq<Event>)
    requires
        forall|k: int| 0 <= k < later.len() ==> leaves_alone(#[trigger] later[k], consumer),
    ensures
        same_but_for(
            broadcast.run(later),
            broadcast.step(Event::Disconnect { consumer }).run(later),
            consumer,
        ),
    decreases later.len(),
{
    let failed = broadcast.step(Event::Disconnect { consumer });
    if later.len() == 0 {
        law_consumer_steps_are_private(broadcast, Event::Disconnect { consumer }, consumer);
    } else {
        let earlier = later.drop_last();
        assert forall|k: int| 0 <= k < earlier.len() implies leaves_alone(
            #[trigger] earlier[k],
            consumer,
        ) by {
            assert(earlier[k] == later[k]);
        }
        law_isolation(broadcast, consumer, earlier);
        lemma_step_keeps_difference(
            broadcast.run(earlier),
            failed.run(earlier),
            later.last(),
            consumer,
        );
    }
}

/// After an append of at least one byte, a consumer that had caught up and
/// looks again finds bytes to read, and the first of them are the first of
/// those that were appended.
pub proof fn law_recheck_sees_append(
    consumer: ConsumerView,
    stream: StreamView,
    data: Seq<u8>,
    want: nat,
)
    requires
        consumer.replays(stream),
        consumer.caught_up(stream),
        data.len() > 0,
        0 < want <= usize::MAX,
    ensures
        stream.append(data).read_outcome(consumer.cursor, want).count() >= 1,
        stream.append(data).read_bytes(consumer.cursor, want) == data.take(
            stream.append(data).read_count(consumer.cursor, want) as int,
        ),
{
    let grown = stream.append(data);
    assert(grown.read_bytes(consumer.cursor, want) =~= data.take(
        grown.read_count(consumer.cursor, want) as int,
    ));
}

/// After the last active producer is done, a consumer that had caught up
/// and looks again finds the end of the stream.
pub proof fn law_recheck_sees_completion(consumer: ConsumerView, stream: StreamView, want: nat)
    requires
        consumer.caught_up(stream),
        stream.active_producers == 1,
        want > 0,
    ensures
        stream.read_outcome(consumer.cursor, want) == ReadOutcome::WouldBlock,
        stream.finish().read_outcome(consumer.cursor, want) == ReadOutcome::EndOfStream,
{
}

} // verus!
