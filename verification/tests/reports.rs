use instanttee::fault::{Cause, Fault, Operation};
use instanttee::report::{compose, report};

fn paths() -> Vec<String> {
    vec!["out/a.txt".to_string(), "b.txt".to_string()]
}

#[test]
fn report_names_the_operation_and_the_cause() {
    let cases = [
        (Operation::Feed, "Error when attempting to splice stdin to pipe: why"),
        (Operation::Duplicate, "Error when attempting to tee stdin to pipe: why"),
        (Operation::DrainToFile, "Error when attempting to splice to file: why"),
        (Operation::DrainToStdout, "Error when attempting to splice to stdout: why"),
    ];
    for (operation, expected) in cases {
        let fault = Fault::Transfer { operation, cause: Cause::Os(5) };
        assert_eq!(compose(fault, &paths(), "why"), expected);
    }
}

#[test]
fn report_names_the_path_that_could_not_be_opened() {
    let fault = Fault::SinkOpen { index: 1, errno: 13 };
    assert_eq!(
        compose(fault, &paths(), "why"),
        "Error when attempting to create file 'b.txt': why"
    );
    let fault = Fault::SinkOpen { index: 2, errno: 13 };
    assert_eq!(compose(fault, &paths(), "why"), "Error when attempting to create file '': why");
    assert_eq!(
        compose(Fault::Argument, &paths(), "why"),
        "Error when reading the command line: why"
    );
}

#[test]
fn report_of_a_fault_that_the_library_raised() {
    let fault = Fault::Transfer { operation: Operation::DrainToFile, cause: Cause::Overrun };
    assert_eq!(
        report(fault, &paths()),
        "Error when attempting to splice to file: more bytes were moved than were asked for"
    );
    let fault = Fault::Transfer { operation: Operation::DrainToFile, cause: Cause::OffsetOverflow };
    assert_eq!(
        report(fault, &paths()),
        "Error when attempting to splice to file: the file offset is out of range"
    );
    let fault = Fault::Transfer { operation: Operation::Duplicate, cause: Cause::Short };
    assert_eq!(
        report(fault, &paths()),
        "Error when attempting to tee stdin to pipe: fewer bytes were moved than the round holds"
    );
    assert_eq!(
        report(Fault::Argument, &paths()),
        "Error when reading the command line: malformed options"
    );
}

#[test]
fn report_of_an_operating_system_error_starts_with_the_operation() {
    let fault = Fault::Transfer { operation: Operation::Duplicate, cause: Cause::Os(32) };
    let line = report(fault, &paths());
    assert!(line.starts_with("Error when attempting to tee stdin to pipe: "));
    assert!(line.len() > "Error when attempting to tee stdin to pipe: ".len());
    let fault = Fault::SinkOpen { index: 0, errno: 13 };
    let line = report(fault, &paths());
    assert!(line.starts_with("Error when attempting to create file 'out/a.txt': "));
    assert_ne!(line, report(Fault::SinkOpen { index: 0, errno: 2 }, &paths()));
}
