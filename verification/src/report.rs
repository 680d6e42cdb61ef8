//! The line that a fault leaves on standard error.

use vstd::prelude::*;
use vstd::string::StringExecFns;
use crate::cli::texts;
use crate::fault::{Cause, Fault, Operation};

verus! {

/// Trusted: `nix::errno::Errno::from_i32` and `to_string` on the
/// `nix::errno::Errno` that it returns. Nothing is claimed of the text: the
/// table of error numbers is the platform's.
#[verifier::external_body]
fn errno_text(errno: i32) -> (text: String) {
    nix::errno::Errno::from_i32(errno).to_string()
}

/// What each transfer is called in a report.
pub open spec fn operation_text(operation: Operation) -> Seq<char> {
    match operation {
        Operation::Feed => "splice stdin to pipe"@,
        Operation::Duplicate => "tee stdin to pipe"@,
        Operation::DrainToFile => "splice to file"@,
        Operation::DrainToStdout => "splice to stdout"@,
    }
}

/// The path of the target at `index`; nothing if there is none.
pub open spec fn path_at(paths: Seq<Seq<char>>, index: usize) -> Seq<char> {
    if index < paths.len() {
        paths[index as int]
    } else {
        Seq::empty()
    }
}

/// The report of `fault`, given the paths of the targets and the text of the
/// underlying cause.
pub open spec fn report_text(fault: Fault, paths: Seq<Seq<char>>, cause: Seq<char>) -> Seq<char> {
    match fault {
        Fault::Argument => "Error when reading the command line: "@ + cause,
        Fault::SinkOpen { index, .. } => "Error when attempting to create file '"@ + path_at(
            paths,
            index,
        ) + "': "@ + cause,
        Fault::Transfer { operation, .. } => "Error when attempting to "@ + operation_text(
            operation,
        ) + ": "@ + cause,
    }
}

/// The text of the cause of `fault`, where this library fixes it. The text
/// for an error number of the operating system is the platform's.
pub open spec fn fixed_cause(fault: Fault) -> Option<Seq<char>> {
    match fault {
        Fault::Argument => Some("malformed options"@),
        Fault::SinkOpen { .. } => None,
        Fault::Transfer { cause, .. } => match cause {
            Cause::Os(_) => None,
            Cause::Overrun => Some("more bytes were moved than were asked for"@),
            Cause::Short => Some("fewer bytes were moved than the round holds"@),
            Cause::OffsetOverflow => Some("the file offset is out of range"@),
        },
    }
}

/// Puts the report of `fault` together from the operation or the path that
/// it names and the text of its cause.
pub fn compose(fault: Fault, paths: &Vec<String>, cause: &str) -> (line: String)
    ensures
        line@ == report_text(fault, texts(paths@), cause@),
{
    let mut line: String;
    match fault {
        Fault::Argument => {
            line = String::from_str("Error when reading the command line: ");
        },
        Fault::SinkOpen { index, .. } => {
            line = String::from_str("Error when attempting to create file '");
            if index < paths.len() {
                line.append(paths[index].as_str());
            }
            line.append("': ");
        },
        Fault::Transfer { operation, .. } => {
            line = String::from_str("Error when attempting to ");
            match operation {
                Operation::Feed => line.append("splice stdin to pipe"),
                Operation::Duplicate => line.append("tee stdin to pipe"),
                Operation::DrainToFile => line.append("splice to file"),
                Operation::DrainToStdout => line.append("splice to stdout"),
            }
            line.append(": ");
        },
    }
    line.append(cause);
    assert(line@ =~= report_text(fault, texts(paths@), cause@));
    line
}

/// The report of `fault`: the operation that failed, or the path that could
/// not be opened, and the cause.
pub fn report(fault: Fault, paths: &Vec<String>) -> (line: String)
    ensures
        match fixed_cause(fault) {
            Some(cause) => line@ == report_text(fault, texts(paths@), cause),
            None => exists|cause: Seq<char>|
                line@ == #[trigger] report_text(fault, texts(paths@), cause),
        },
{
    match fault {
        Fault::Argument => compose(fault, paths, "malformed options"),
        Fault::SinkOpen { errno, .. } => {
            let cause = errno_text(errno);
            compose(fault, paths, cause.as_str())
        },
        Fault::Transfer { cause, .. } => match cause {
            Cause::Os(errno) => {
                let cause = errno_text(errno);
                compose(fault, paths, cause.as_str())
            },
            Cause::Overrun => compose(fault, paths, "more bytes were moved than were asked for"),
            Cause::Short => compose(fault, paths, "fewer bytes were moved than the round holds"),
            Cause::OffsetOverflow => compose(fault, paths, "the file offset is out of range"),
        },
    }
}

} // verus!
