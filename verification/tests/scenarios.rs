use instanttee::fault::{Ending, Fault};
use instanttee::run::{instanttee, Target};

#[test]
fn input_reaches_both_files_and_stdout() {
    let outcome = instanttee(
        b"abc".to_vec(),
        vec![Target::Writable(Vec::new()), Target::Writable(b"old".to_vec())],
        false,
    );
    assert_eq!(outcome.ending, Ending::Completed);
    assert_eq!(outcome.ending.exit_code(), 0);
    assert_eq!(outcome.output, b"abc".to_vec());
    assert_eq!(outcome.files, vec![b"abc".to_vec(), b"abc".to_vec()]);
}

#[test]
fn append_keeps_what_the_file_held() {
    let outcome = instanttee(b"Z".to_vec(), vec![Target::Writable(b"XY".to_vec())], true);
    assert_eq!(outcome.ending, Ending::Completed);
    assert_eq!(outcome.files, vec![b"XYZ".to_vec()]);
    assert_eq!(outcome.output, b"Z".to_vec());
}

#[test]
fn no_targets_is_a_passthrough() {
    let input: Vec<u8> = (0..200_000u32).map(|i| (i % 251) as u8).collect();
    let outcome = instanttee(input.clone(), Vec::new(), false);
    assert_eq!(outcome.ending, Ending::Completed);
    assert_eq!(outcome.output, input);
    assert!(outcome.files.is_empty());
}

#[test]
fn unwritable_target_ends_with_status_one() {
    let outcome = instanttee(
        b"abc".to_vec(),
        vec![Target::Writable(b"kept?".to_vec()), Target::Refused(13), Target::Writable(b"later".to_vec())],
        false,
    );
    assert_eq!(outcome.ending, Ending::Aborted(Fault::SinkOpen { index: 1, errno: 13 }));
    assert_eq!(outcome.ending.exit_code(), 1);
    assert!(outcome.output.is_empty());
    assert_eq!(outcome.files, vec![Vec::new(), Vec::new(), b"later".to_vec()]);
}

#[test]
fn empty_input_leaves_empty_files_and_output() {
    let outcome = instanttee(
        Vec::new(),
        vec![Target::Writable(b"gone".to_vec()), Target::Writable(Vec::new())],
        false,
    );
    assert_eq!(outcome.ending, Ending::Completed);
    assert_eq!(outcome.ending.exit_code(), 0);
    assert!(outcome.output.is_empty());
    assert_eq!(outcome.files, vec![Vec::<u8>::new(), Vec::new()]);
}

#[test]
fn empty_input_in_append_mode_changes_nothing() {
    let outcome = instanttee(Vec::new(), vec![Target::Writable(b"kept".to_vec())], true);
    assert_eq!(outcome.ending, Ending::Completed);
    assert!(outcome.output.is_empty());
    assert_eq!(outcome.files, vec![b"kept".to_vec()]);
}

#[test]
fn long_input_takes_several_rounds() {
    let input: Vec<u8> = (0..150_000u32).map(|i| (i % 253) as u8).collect();
    let outcome = instanttee(
        input.clone(),
        vec![
            Target::Writable(Vec::new()),
            Target::Writable(b"head ".to_vec()),
            Target::Writable(Vec::new()),
        ],
        true,
    );
    assert_eq!(outcome.ending, Ending::Completed);
    assert_eq!(outcome.output, input);
    assert_eq!(outcome.files[0], input);
    assert_eq!(outcome.files[1], [b"head ".to_vec(), input.clone()].concat());
    assert_eq!(outcome.files[2], input);
}

#[test]
fn first_refused_target_is_the_one_reported() {
    let outcome = instanttee(
        b"abc".to_vec(),
        vec![Target::Refused(2), Target::Refused(13)],
        true,
    );
    assert_eq!(outcome.ending, Ending::Aborted(Fault::SinkOpen { index: 0, errno: 2 }));
    assert!(outcome.output.is_empty());
    assert_eq!(outcome.files, vec![Vec::<u8>::new(), Vec::new()]);
}

#[test]
fn refused_target_in_append_mode_leaves_earlier_files_as_they_were() {
    let outcome = instanttee(
        b"abc".to_vec(),
        vec![Target::Writable(b"one".to_vec()), Target::Refused(30)],
        true,
    );
    assert_eq!(outcome.ending, Ending::Aborted(Fault::SinkOpen { index: 1, errno: 30 }));
    assert_eq!(outcome.files, vec![b"one".to_vec(), Vec::new()]);
}
