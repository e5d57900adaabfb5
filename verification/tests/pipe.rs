use nc_broadcast::notify::Notify;
use nc_broadcast::pipe::BroadcastPipe;
use nc_broadcast::stream::ReadOutcome;

fn drain(pipe: &mut BroadcastPipe, capacity: usize) -> (Vec<u8>, ReadOutcome) {
    let mut received = Vec::new();
    let mut buf = vec![0u8; capacity];
    loop {
        match pipe.try_read(&mut buf) {
            ReadOutcome::Copied(n) => received.extend_from_slice(&buf[..n]),
            other => return (received, other),
        }
    }
}

#[test]
fn new_pipe_starts_at_the_first_byte_of_a_complete_empty_stream() {
    let mut pipe = BroadcastPipe::new();
    assert_eq!(pipe.position(), 0);
    let mut buf = [0u8; 4];
    assert_eq!(pipe.try_read(&mut buf), ReadOutcome::EndOfStream);
    assert_eq!(pipe.position(), 0);
}

#[test]
fn replay_from_origin_then_end_of_stream() {
    let mut producer = BroadcastPipe::new();
    assert!(producer.mark_producer_registered());
    assert_eq!(producer.write(b"AB"), 2);

    let mut c1 = producer.clone();
    let mut buf = [0u8; 8];
    assert_eq!(c1.try_read(&mut buf), ReadOutcome::Copied(2));
    assert_eq!(&buf[..2], b"AB");
    assert_eq!(c1.try_read(&mut buf), ReadOutcome::WouldBlock);

    assert_eq!(producer.write(b"CD"), 2);
    assert_eq!(c1.try_read(&mut buf), ReadOutcome::Copied(2));
    assert_eq!(&buf[..2], b"CD");

    let mut c2 = producer.clone();
    assert_eq!(c2.try_read(&mut buf), ReadOutcome::Copied(4));
    assert_eq!(&buf[..4], b"ABCD");

    assert!(producer.mark_producer_done());
    assert_eq!(c1.try_read(&mut buf), ReadOutcome::EndOfStream);
    assert_eq!(c2.try_read(&mut buf), ReadOutcome::EndOfStream);
    assert_eq!(c1.position(), 4);
    assert_eq!(c2.position(), 4);
}

#[test]
fn consumer_joining_after_all_chunks_receives_their_concatenation() {
    let mut producer = BroadcastPipe::new();
    producer.mark_producer_registered();
    let mut expected = Vec::new();
    for i in 0..50u8 {
        let chunk = vec![i; (i as usize) % 7];
        assert_eq!(producer.write(&chunk), chunk.len());
        expected.extend_from_slice(&chunk);
    }
    let mut consumer = producer.clone();
    let (received, outcome) = drain(&mut consumer, 5);
    assert_eq!(outcome, ReadOutcome::WouldBlock);
    assert_eq!(received, expected);

    producer.write(b"and more");
    let (received, outcome) = drain(&mut consumer, 5);
    assert_eq!(outcome, ReadOutcome::WouldBlock);
    assert_eq!(received, b"and more");

    producer.mark_producer_done();
    let (received, outcome) = drain(&mut consumer, 5);
    assert_eq!(outcome, ReadOutcome::EndOfStream);
    assert!(received.is_empty());
}

#[test]
fn consumers_joining_at_different_times_receive_identical_streams() {
    let mut producer = BroadcastPipe::new();
    producer.mark_producer_registered();
    let mut early = producer.clone();
    let mut early_received = Vec::new();

    producer.write(b"first ");
    early_received.extend(drain(&mut early, 4).0);
    producer.write(b"second ");
    let mut late = producer.clone();
    producer.write(b"third");
    producer.mark_producer_done();

    let (rest, outcome) = drain(&mut early, 4);
    early_received.extend(rest);
    assert_eq!(outcome, ReadOutcome::EndOfStream);
    let (late_received, outcome) = drain(&mut late, 1024);
    assert_eq!(outcome, ReadOutcome::EndOfStream);

    assert_eq!(early_received, b"first second third");
    assert_eq!(late_received, early_received);
}

#[test]
fn clone_shares_the_stream_and_resets_the_cursor() {
    let mut first = BroadcastPipe::new();
    first.mark_producer_registered();
    first.write(b"abc");
    let mut buf = [0u8; 2];
    assert_eq!(first.try_read(&mut buf), ReadOutcome::Copied(2));
    assert_eq!(first.position(), 2);

    let mut copy = first.clone();
    assert_eq!(copy.position(), 0);
    assert_eq!(first.position(), 2);
    copy.write(b"d");
    let mut all = [0u8; 8];
    assert_eq!(first.try_read(&mut all), ReadOutcome::Copied(2));
    assert_eq!(&all[..2], b"cd");
    assert_eq!(copy.try_read(&mut all), ReadOutcome::Copied(4));
    assert_eq!(&all[..4], b"abcd");
}

#[test]
fn write_leaves_the_writer_cursor_alone() {
    let mut pipe = BroadcastPipe::new();
    assert_eq!(pipe.write(b""), 0);
    assert_eq!(pipe.write(b"abc"), 3);
    assert_eq!(pipe.position(), 0);
    pipe.flush();
    assert_eq!(pipe.position(), 0);
    let mut buf = [0u8; 3];
    assert_eq!(pipe.try_read(&mut buf), ReadOutcome::Copied(3));
    assert_eq!(&buf, b"abc");
}

#[test]
fn read_leaves_the_rest_of_the_destination_alone() {
    let mut pipe = BroadcastPipe::new();
    pipe.write(b"ab");
    let mut buf = [b'.'; 5];
    assert_eq!(pipe.try_read(&mut buf), ReadOutcome::Copied(2));
    assert_eq!(&buf, b"ab...");
    assert_eq!(pipe.position(), 2);
}

#[test]
fn pipe_is_complete_exactly_when_every_producer_is_done() {
    let mut pipe = BroadcastPipe::new();
    let mut buf = [0u8; 1];
    assert!(pipe.mark_producer_registered());
    assert!(pipe.mark_producer_registered());
    assert_eq!(pipe.try_read(&mut buf), ReadOutcome::WouldBlock);
    assert!(!pipe.mark_producer_done());
    assert_eq!(pipe.try_read(&mut buf), ReadOutcome::WouldBlock);
    assert!(pipe.mark_producer_done());
    assert_eq!(pipe.try_read(&mut buf), ReadOutcome::EndOfStream);
}

#[test]
fn second_producer_registered_after_the_first_finished_keeps_the_pipe_open() {
    let mut pipe = BroadcastPipe::new();
    let mut buf = [0u8; 1];
    pipe.mark_producer_registered();
    assert!(pipe.mark_producer_done());
    assert_eq!(pipe.try_read(&mut buf), ReadOutcome::EndOfStream);
    assert!(pipe.mark_producer_registered());
    assert_eq!(pipe.try_read(&mut buf), ReadOutcome::WouldBlock);
    assert!(pipe.mark_producer_done());
    assert_eq!(pipe.try_read(&mut buf), ReadOutcome::EndOfStream);
}

#[test]
fn handle_counts_the_producers_that_registered_through_it() {
    let mut pipe = BroadcastPipe::new();
    assert_eq!(pipe.registered_here(), 0);
    assert!(pipe.mark_producer_registered());
    assert!(pipe.mark_producer_registered());
    assert_eq!(pipe.registered_here(), 2);
    let copy = pipe.clone();
    assert_eq!(copy.registered_here(), 0);
    assert!(!pipe.mark_producer_done());
    assert_eq!(pipe.registered_here(), 1);
    assert!(pipe.mark_producer_done());
    assert_eq!(pipe.registered_here(), 0);
    assert!(pipe.mark_producer_done());
    assert_eq!(pipe.registered_here(), 0);
}

#[test]
fn handle_cannot_finish_a_producer_that_another_one_registered() {
    let mut producer = BroadcastPipe::new();
    assert!(producer.mark_producer_registered());
    producer.write(b"ab");
    let mut consumer = producer.clone();
    let mut buf = [0u8; 4];
    assert_eq!(consumer.try_read(&mut buf), ReadOutcome::Copied(2));

    assert!(!consumer.mark_producer_done());
    assert_eq!(consumer.try_read(&mut buf), ReadOutcome::WouldBlock);
    assert_eq!(producer.registered_here(), 1);

    assert!(producer.mark_producer_done());
    assert_eq!(consumer.try_read(&mut buf), ReadOutcome::EndOfStream);
    assert!(consumer.mark_producer_done());
}

#[test]
fn zero_length_read_returns_at_once_on_an_idle_incomplete_pipe() {
    let mut pipe = BroadcastPipe::new();
    pipe.mark_producer_registered();
    let mut none: [u8; 0] = [];
    assert_eq!(pipe.try_read(&mut none), ReadOutcome::Copied(0));
    assert_eq!(pipe.read(&mut none), ReadOutcome::Copied(0));
    pipe.write(b"x");
    assert_eq!(pipe.read(&mut none), ReadOutcome::Copied(0));
    assert_eq!(pipe.position(), 0);
}

#[test]
fn read_returns_available_bytes_without_waiting() {
    let mut pipe = BroadcastPipe::new();
    pipe.mark_producer_registered();
    pipe.write(b"abc");
    let mut buf = [0u8; 2];
    assert_eq!(pipe.read(&mut buf), ReadOutcome::Copied(2));
    assert_eq!(&buf, b"ab");
    assert_eq!(pipe.read(&mut buf), ReadOutcome::Copied(1));
    assert_eq!(buf[0], b'c');
    pipe.mark_producer_done();
    assert_eq!(pipe.read(&mut buf), ReadOutcome::EndOfStream);
}

#[test]
fn caught_up_consumer_that_looks_again_sees_what_was_appended() {
    let mut producer = BroadcastPipe::new();
    producer.mark_producer_registered();
    let mut consumer = producer.clone();
    let mut buf = [0u8; 4];
    for round in 0..20u8 {
        assert_eq!(consumer.try_read(&mut buf), ReadOutcome::WouldBlock);
        producer.write(&[round, round]);
        assert_eq!(consumer.try_read(&mut buf), ReadOutcome::Copied(2));
        assert_eq!(&buf[..2], &[round, round]);
    }
    assert_eq!(consumer.try_read(&mut buf), ReadOutcome::WouldBlock);
    producer.mark_producer_done();
    assert_eq!(consumer.try_read(&mut buf), ReadOutcome::EndOfStream);
    assert_eq!(consumer.position(), 40);
}

#[test]
fn dropped_consumer_does_not_affect_the_others() {
    let mut producer = BroadcastPipe::new();
    producer.mark_producer_registered();
    producer.write(b"0123456789");
    let mut survivor = producer.clone();
    let mut failing = producer.clone();
    let mut other = producer.clone();

    let mut buf = [0u8; 4];
    assert_eq!(failing.try_read(&mut buf), ReadOutcome::Copied(4));
    assert_eq!(survivor.try_read(&mut buf), ReadOutcome::Copied(4));
    drop(failing);

    producer.write(b"abcdef");
    producer.mark_producer_done();
    let (rest, outcome) = drain(&mut survivor, 4);
    assert_eq!(outcome, ReadOutcome::EndOfStream);
    assert_eq!(rest, b"456789abcdef");
    let (all, outcome) = drain(&mut other, 3);
    assert_eq!(outcome, ReadOutcome::EndOfStream);
    assert_eq!(all, b"0123456789abcdef");
}

#[test]
fn notify_all_without_sleepers_returns() {
    let signal = Notify::new();
    signal.notify_all();
    signal.notify_all();
    signal.notify_all();
}
