use instanttee::cli::{plan, usage, Flags, Invocation};
use instanttee::fault::{Ending, Fault};

fn arguments(words: &[&str]) -> Vec<String> {
    words.iter().map(|w| w.to_string()).collect()
}

fn expected_usage(program: &str) -> String {
    format!(
        "Usage: {} [OPTION]... [FILE]...\nCopy standard input to each FILE, and also to standard output.\n\nOptions:\n{:<24}{}\n{:<24}{}\n",
        program,
        "    -h, --help",
        "display this help message",
        "    -a, --append",
        "append to the given FILES; do not overwrite"
    )
}

fn run_of(invocation: Invocation) -> (Vec<String>, bool) {
    match invocation {
        Invocation::Run { files, append } => (files, append),
        _ => panic!("not a run"),
    }
}

#[test]
fn usage_lists_both_flags() {
    assert_eq!(usage("tee"), expected_usage("tee"));
    assert_eq!(usage(""), expected_usage(""));
}

#[test]
fn paths_follow_the_program_name() {
    let (files, append) = run_of(plan(&arguments(&["prog", "f1", "f2"])));
    assert_eq!(files, arguments(&["f1", "f2"]));
    assert!(!append);
}

#[test]
fn no_paths_is_a_valid_run() {
    let (files, append) = run_of(plan(&arguments(&["prog"])));
    assert!(files.is_empty());
    assert!(!append);
    let (files, append) = run_of(plan(&Vec::new()));
    assert!(files.is_empty());
    assert!(!append);
}

#[test]
fn append_flag_in_both_forms() {
    let (files, append) = run_of(plan(&arguments(&["prog", "-a", "f1"])));
    assert_eq!(files, arguments(&["f1"]));
    assert!(append);
    let (files, append) = run_of(plan(&arguments(&["prog", "f1", "--append", "f2"])));
    assert_eq!(files, arguments(&["f1", "f2"]));
    assert!(append);
}

#[test]
fn double_dash_ends_the_options() {
    let (files, append) = run_of(plan(&arguments(&["prog", "--", "-a", "-h"])));
    assert_eq!(files, arguments(&["-a", "-h"]));
    assert!(!append);
}

#[test]
fn help_wins_over_everything_else() {
    for words in [&["prog", "-h"][..], &["prog", "--help", "f1"][..], &["prog", "-ah", "f1"][..]] {
        let invocation = plan(&arguments(words));
        assert_eq!(invocation.ending(), Some(Ending::Completed));
        match invocation {
            Invocation::Help { usage } => assert_eq!(usage, expected_usage("prog")),
            _ => panic!("not help"),
        }
    }
}

#[test]
fn unknown_option_is_rejected_with_the_usage_text() {
    let invocation = plan(&arguments(&["prog", "-x", "f1"]));
    assert_eq!(invocation.ending(), Some(Ending::Aborted(Fault::Argument)));
    assert_eq!(invocation.ending().unwrap().exit_code(), 1);
    match invocation {
        Invocation::Reject { reason, usage } => {
            assert_eq!(reason, "Unrecognized option: 'x'");
            assert_eq!(usage, expected_usage("prog"));
        }
        _ => panic!("not rejected"),
    }
}

#[test]
fn repeated_flag_and_flag_with_value_are_rejected() {
    match plan(&arguments(&["prog", "-a", "--append"])) {
        Invocation::Reject { reason, .. } => {
            assert_eq!(reason, "Option 'append' given more than once")
        }
        _ => panic!("not rejected"),
    }
    match plan(&arguments(&["prog", "--append=yes"])) {
        Invocation::Reject { reason, .. } => {
            assert_eq!(reason, "Option 'append' does not take an argument")
        }
        _ => panic!("not rejected"),
    }
}

#[test]
fn run_has_no_ending_yet() {
    assert_eq!(plan(&arguments(&["prog", "f1"])).ending(), None);
}

#[test]
fn decision_from_what_the_parser_found() {
    let found = Flags { help: false, append: true, free: arguments(&["prog", "a", "b"]) };
    let (files, append) = run_of(Invocation::from_parsed(Ok(found), "u".to_string()));
    assert_eq!(files, arguments(&["a", "b"]));
    assert!(append);

    let found = Flags { help: false, append: false, free: Vec::new() };
    let (files, append) = run_of(Invocation::from_parsed(Ok(found), "u".to_string()));
    assert!(files.is_empty());
    assert!(!append);

    let found = Flags { help: true, append: true, free: arguments(&["prog", "a"]) };
    match Invocation::from_parsed(Ok(found), "the usage".to_string()) {
        Invocation::Help { usage } => assert_eq!(usage, "the usage"),
        _ => panic!("not help"),
    }

    match Invocation::from_parsed(Err("bad".to_string()), "the usage".to_string()) {
        Invocation::Reject { reason, usage } => {
            assert_eq!(reason, "bad");
            assert_eq!(usage, "the usage");
        }
        _ => panic!("not rejected"),
    }
}
