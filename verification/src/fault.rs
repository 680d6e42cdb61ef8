//! What can go wrong, and how the process ends.

use vstd::prelude::*;

verus! {

/// Exit status of a run that reached the end of the stream.
pub const EXIT_SUCCESS: i32 = 0;

/// Exit status of a run that a fault stopped.
pub const EXIT_FAILURE: i32 = 1;

/// The transfer that a worker asked for.
#[derive(Clone, Copy, Debug, PartialEq, Eq, Structural)]
pub enum Operation {
    /// Standard input into the shared channel.
    Feed,
    /// The shared channel into a sink's private channel, non-destructively.
    Duplicate,
    /// A sink's private channel into its file.
    DrainToFile,
    /// The shared channel into standard output.
    DrainToStdout,
}

/// Why a transfer counts as failed.
#[derive(Clone, Copy, Debug, PartialEq, Eq, Structural)]
pub enum Cause {
    /// The operating system refused it, with this error number.
    Os(i32),
    /// More bytes were reported moved than were asked for.
    Overrun,
    /// Fewer bytes were moved than the round holds, and the transfer cannot
    /// make up for them.
    Short,
    /// The file offset would leave the range of a signed 64-bit integer.
    OffsetOverflow,
}

/// A fatal condition. Each one ends the whole process with
/// [`EXIT_FAILURE`]; none is retried.
#[derive(Clone, Copy, Debug, PartialEq, Eq, Structural)]
pub enum Fault {
    /// The command line was malformed.
    Argument,
    /// The target file at this position could not be created or opened.
    SinkOpen { index: usize, errno: i32 },
    /// A duplicate or drain failed.
    Transfer { operation: Operation, cause: Cause },
}

impl Fault {
    /// The exit status that this fault ends the process with.
    pub fn exit_code(&self) -> (code: i32)
        ensures
            code == EXIT_FAILURE,
    {
        EXIT_FAILURE
    }
}

/// How a process ended.
#[derive(Clone, Copy, Debug, PartialEq, Eq, Structural)]
pub enum Ending {
    /// A participant saw the end of the stream.
    Completed,
    /// A fault stopped the run.
    Aborted(Fault),
}

impl Ending {
    /// The exit status of a process that ended this way.
    pub open spec fn code(self) -> i32 {
        match self {
            Ending::Completed => EXIT_SUCCESS,
            Ending::Aborted(_) => EXIT_FAILURE,
        }
    }

    /// The exit status of a process that ended this way: [`EXIT_SUCCESS`]
    /// at the end of the stream, [`EXIT_FAILURE`] after any fault.
    pub fn exit_code(&self) -> (code: i32)
        ensures
            code == self.code(),
    {
        match self {
            Ending::Completed => EXIT_SUCCESS,
            Ending::Aborted(fault) => fault.exit_code(),
        }
    }
}

/// What became of one transfer, as the caller that performed it reports it.
#[derive(Clone, Copy, Debug, PartialEq, Eq, Structural)]
pub enum Transfer {
    /// This many bytes were moved.
    Moved(usize),
    /// The operating system refused, with this error number.
    Failed(i32),
}

} // verus!
