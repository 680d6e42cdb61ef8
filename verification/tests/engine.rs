use instanttee::fault::{Cause, Ending, Fault, Operation, Transfer};
use instanttee::file::FileSink;
use instanttee::model::{Event, Turn};
use instanttee::pipeline::Pipeline;
use instanttee::round::Phase;

fn pipeline(input: &[u8], files: &[&[u8]]) -> Pipeline {
    let sinks = files.iter().map(|f| FileSink::open(f.to_vec(), true).unwrap()).collect();
    Pipeline::new(input.to_vec(), sinks)
}

fn fill(count: usize) -> Event {
    Event::Fill(Transfer::Moved(count))
}

fn duplicate(sink: usize, count: usize) -> Event {
    Event::Duplicate(sink, Transfer::Moved(count))
}

fn write(sink: usize, count: usize) -> Event {
    Event::Write(sink, Transfer::Moved(count))
}

fn drain(count: usize) -> Event {
    Event::Drain(Transfer::Moved(count))
}

fn aborted(operation: Operation, cause: Cause) -> Option<Ending> {
    Some(Ending::Aborted(Fault::Transfer { operation, cause }))
}

#[test]
fn pipeline_starts_with_everything_unread() {
    let run = pipeline(b"abc", &[b"", b"XY"]);
    assert_eq!(run.unread(), 3);
    assert_eq!(run.buffered(), 0);
    assert_eq!(run.sinks(), 2);
    assert_eq!(run.phase(), Phase::Filling);
    assert_eq!(run.round_length(), 0);
    assert_eq!(run.ending(), None);
    assert_eq!(run.output(), Vec::<u8>::new());
    assert_eq!(run.file(1), Some(b"XY".to_vec()));
    assert_eq!(run.file(2), None);
}

#[test]
fn drain_never_comes_before_every_duplicate() {
    let mut run = pipeline(b"abc", &[b"", b""]);
    assert!(!run.step(drain(0)));
    assert!(run.step(fill(3)));
    assert_eq!(run.round_length(), 3);
    assert!(!run.step(drain(3)));
    assert!(run.step(duplicate(1, 3)));
    assert!(!run.step(drain(3)));
    assert!(run.step(write(1, 3)));
    assert!(!run.step(drain(3)));
    assert!(run.step(duplicate(0, 3)));
    assert!(!run.step(drain(3)));
    assert_eq!(run.buffered(), 3);
    assert_eq!(run.output(), Vec::<u8>::new());
    assert!(run.step(write(0, 3)));
    assert!(run.permits(drain(3)));
    assert!(run.step(drain(3)));
    assert_eq!(run.output(), b"abc".to_vec());
    assert_eq!(run.buffered(), 0);
    assert_eq!(run.phase(), Phase::Released);
}

#[test]
fn any_order_of_the_sinks_delivers_the_input() {
    let mut run = pipeline(b"abcde", &[b"", b"XY", b"0"]);
    let events = [
        fill(2),
        duplicate(2, 2),
        duplicate(0, 2),
        write(0, 2),
        duplicate(1, 2),
        write(1, 1),
        write(2, 2),
        write(1, 1),
        drain(1),
        drain(1),
        Event::Release,
        fill(3),
        duplicate(1, 3),
        write(1, 3),
        duplicate(0, 3),
        duplicate(2, 3),
        write(2, 1),
        write(0, 2),
        write(2, 2),
        write(0, 1),
        drain(3),
        Event::Release,
        fill(0),
    ];
    for event in events {
        assert!(run.step(event));
        assert_eq!(run.ending(), None);
    }
    assert!(run.step(duplicate(1, 0)));
    assert_eq!(run.ending(), Some(Ending::Completed));
    assert_eq!(run.phase(), Phase::Finished);
    assert_eq!(run.output(), b"abcde".to_vec());
    assert_eq!(run.file(0), Some(b"abcde".to_vec()));
    assert_eq!(run.file(1), Some(b"XYabcde".to_vec()));
    assert_eq!(run.file(2), Some(b"0abcde".to_vec()));
    assert!(!run.step(Event::Release));
    assert!(!run.step(fill(0)));
}

#[test]
fn fill_takes_part_of_the_input_and_at_most_a_chunk() {
    let input = vec![7u8; 70_000];
    let mut run = pipeline(&input, &[]);
    assert!(!run.step(fill(0)));
    assert!(!run.step(fill(65_537)));
    assert!(!run.step(fill(70_001)));
    assert_eq!(run.whole(Turn::Fill), fill(65_536));
    assert!(run.step(fill(65_536)));
    assert_eq!(run.unread(), 4_464);
    assert_eq!(run.buffered(), 65_536);
    assert!(!run.step(fill(1)));
    assert_eq!(run.whole(Turn::Drain), drain(65_536));
    assert!(run.step(drain(65_536)));
    assert!(run.step(Event::Release));
    assert!(!run.step(fill(4_465)));
    assert_eq!(run.whole(Turn::Fill), fill(4_464));
    assert!(run.step(fill(4_464)));
    assert!(run.step(drain(4_464)));
    assert!(run.step(Event::Release));
    assert!(!run.step(fill(1)));
    assert!(run.step(fill(0)));
    assert!(run.step(drain(0)));
    assert_eq!(run.ending(), Some(Ending::Completed));
    assert_eq!(run.output(), input);
}

#[test]
fn duplicates_do_not_shrink_the_shared_channel() {
    let mut run = pipeline(b"abc", &[b"", b"", b""]);
    assert!(run.step(fill(3)));
    for sink in 0..3 {
        assert_eq!(run.whole(Turn::Duplicate(sink)), duplicate(sink, 3));
        assert!(run.step(duplicate(sink, 3)));
        assert_eq!(run.buffered(), 3);
        assert!(!run.step(duplicate(sink, 3)));
    }
    for sink in 0..3 {
        assert_eq!(run.whole(Turn::Write(sink)), write(sink, 3));
        assert!(run.step(write(sink, 3)));
        assert_eq!(run.buffered(), 3);
        assert_eq!(run.file(sink), Some(b"abc".to_vec()));
    }
    assert!(run.step(drain(3)));
    assert_eq!(run.output(), b"abc".to_vec());
}

#[test]
fn transfers_cannot_move_more_than_there_is() {
    let mut run = pipeline(b"abc", &[b""]);
    assert!(!run.step(fill(4)));
    assert!(run.step(fill(2)));
    assert!(!run.step(duplicate(0, 3)));
    assert!(!run.step(duplicate(1, 2)));
    assert!(run.step(duplicate(0, 2)));
    assert!(!run.step(write(0, 3)));
    assert!(run.step(write(0, 2)));
    assert!(!run.step(drain(3)));
    assert!(run.step(drain(2)));
    assert_eq!(run.ending(), None);
    assert_eq!(run.whole(Turn::Write(5)), write(5, 0));
    assert_eq!(run.whole(Turn::Release), Event::Release);
}

#[test]
fn short_drain_to_standard_output_is_taken_up_again() {
    let mut run = pipeline(b"abcdef", &[b""]);
    for event in [fill(4), duplicate(0, 4), write(0, 4)] {
        assert!(run.step(event));
    }
    assert!(run.step(drain(1)));
    assert_eq!(run.phase(), Phase::Draining);
    assert_eq!(run.output(), b"a".to_vec());
    assert_eq!(run.whole(Turn::Drain), drain(3));
    assert!(!run.step(Event::Release));
    assert!(!run.step(fill(2)));
    assert!(!run.step(drain(4)));
    assert!(run.step(drain(2)));
    assert!(run.step(drain(1)));
    assert_eq!(run.phase(), Phase::Released);
    assert_eq!(run.output(), b"abcd".to_vec());
    assert_eq!(run.file(0), Some(b"abcd".to_vec()));
    assert_eq!(run.ending(), None);
}

#[test]
fn short_duplicate_is_fatal() {
    let mut run = pipeline(b"abc", &[b"", b""]);
    assert!(run.step(fill(3)));
    assert!(run.step(duplicate(0, 3)));
    assert!(run.step(duplicate(1, 2)));
    assert_eq!(run.ending(), aborted(Operation::Duplicate, Cause::Short));
    assert_eq!(run.phase(), Phase::Finished);
    assert!(!run.step(write(0, 3)));
    assert_eq!(run.output(), Vec::<u8>::new());
}

#[test]
fn transfer_that_moves_nothing_of_a_round_is_fatal() {
    let mut run = pipeline(b"abc", &[b""]);
    assert!(run.step(fill(3)));
    assert!(run.step(duplicate(0, 0)));
    assert_eq!(run.ending(), aborted(Operation::Duplicate, Cause::Short));

    let mut run = pipeline(b"abc", &[b""]);
    for event in [fill(3), duplicate(0, 3), write(0, 0)] {
        assert!(run.step(event));
    }
    assert_eq!(run.ending(), aborted(Operation::DrainToFile, Cause::Short));

    let mut run = pipeline(b"abc", &[]);
    for event in [fill(3), drain(0)] {
        assert!(run.step(event));
    }
    assert_eq!(run.ending(), aborted(Operation::DrainToStdout, Cause::Short));
}

#[test]
fn refused_transfers_end_the_run_with_their_error() {
    let mut run = pipeline(b"abc", &[b""]);
    assert!(run.step(Event::Fill(Transfer::Failed(5))));
    assert_eq!(run.ending(), aborted(Operation::Feed, Cause::Os(5)));
    assert_eq!(run.unread(), 3);

    let mut run = pipeline(b"abc", &[b""]);
    assert!(run.step(fill(3)));
    assert!(run.step(Event::Duplicate(0, Transfer::Failed(9))));
    assert_eq!(run.ending(), aborted(Operation::Duplicate, Cause::Os(9)));

    let mut run = pipeline(b"abc", &[b"XY"]);
    for event in [fill(3), duplicate(0, 3), write(0, 1)] {
        assert!(run.step(event));
    }
    assert!(run.step(Event::Write(0, Transfer::Failed(28))));
    assert_eq!(run.ending(), aborted(Operation::DrainToFile, Cause::Os(28)));
    assert_eq!(run.file(0), Some(b"XYa".to_vec()));

    let mut run = pipeline(b"abc", &[]);
    assert!(run.step(fill(3)));
    assert!(run.step(Event::Drain(Transfer::Failed(32))));
    assert_eq!(run.ending(), aborted(Operation::DrainToStdout, Cause::Os(32)));
    assert_eq!(run.ending().unwrap().exit_code(), 1);
}

#[test]
fn into_parts_hands_out_output_and_files() {
    let mut run = pipeline(b"q", &[b"p"]);
    for event in [fill(1), duplicate(0, 1), write(0, 1), drain(1)] {
        assert!(run.step(event));
    }
    let (output, files) = run.into_parts();
    assert_eq!(output, b"q".to_vec());
    assert_eq!(files, vec![b"pq".to_vec()]);
}
