//! The command line: `-h`/`--help`, `-a`/`--append`, and the paths of the
//! target files.
//!
//! The arguments are parsed by `getopts`. What it makes of them is taken on
//! trust and given a name; what this program then does is decided here.

use vstd::prelude::*;
use vstd::string::StringExecFns;
use crate::fault::{Ending, Fault};

verus! {

/// One declared flag: its short name, its long name and its description.
pub type FlagText = (Seq<char>, Seq<char>, Seq<char>);

/// `getopts::Options`, the description of the options of a program, as a
/// type whose inside is not looked at.
#[verifier::external_type_specification]
#[verifier::external_body]
pub struct ExOptions(getopts::Options);

/// `getopts::Matches`, the result of parsing a command line, as a type whose
/// inside is not looked at.
#[verifier::external_type_specification]
#[verifier::external_body]
pub struct ExMatches(getopts::Matches);

/// The flags that a `getopts::Options` holds, in the order of their
/// declaration.
pub uninterp spec fn declared(options: getopts::Options) -> Seq<FlagText>;

/// Whether a `getopts::Options` is as `Options::new` made it but for flags
/// added by `optflag`, each with a short name of one ASCII character and a
/// long name of two characters or more.
pub uninterp spec fn flags_only(options: getopts::Options) -> bool;

/// What `getopts::Options::parse` makes of `arguments` when the options hold
/// `flags` and nothing else: the names that were matched and the free
/// arguments, or the text of the failure.
pub uninterp spec fn parsed(flags: Seq<FlagText>, arguments: Seq<Seq<char>>) -> Result<
    (Set<Seq<char>>, Seq<Seq<char>>),
    Seq<char>,
>;

/// The names, short or long, under which a `getopts::Matches` reports an
/// option as matched.
pub uninterp spec fn matched(matches: getopts::Matches) -> Set<Seq<char>>;

/// The free arguments that a `getopts::Matches` holds, in their order.
pub uninterp spec fn free_arguments(matches: getopts::Matches) -> Seq<Seq<char>>;

/// The text that `getopts::Options::usage` derives from `brief` when the
/// options hold `flags` and nothing else.
pub uninterp spec fn usage_of(flags: Seq<FlagText>, brief: Seq<char>) -> Seq<char>;

/// The views of these strings.
pub open spec fn texts(strings: Seq<String>) -> Seq<Seq<char>> {
    Seq::new(strings.len(), |i: int| strings[i]@)
}

/// Trusted: `getopts::Options::new`. Claims that the new set of options holds
/// no flag and has the settings that `flags_only` asks for.
#[verifier::external_body]
fn new_options() -> (options: getopts::Options)
    ensures
        flags_only(options),
        declared(options) == Seq::<FlagText>::empty(),
{
    getopts::Options::new()
}

/// Trusted: `getopts::Options::optflag`. Claims that it adds one flag with
/// these three texts behind those already declared and changes nothing else.
/// It panics on a short name that is not one byte long and on a long name of
/// one byte: both are left out.
#[verifier::external_body]
fn declare_flag(options: &mut getopts::Options, short: &str, long: &str, description: &str)
    requires
        flags_only(*old(options)),
        short@.len() == 1,
        short.is_ascii(),
        long@.len() >= 2,
    ensures
        flags_only(*final(options)),
        declared(*final(options)) == declared(*old(options)).push(
            (short@, long@, description@),
        ),
{
    options.optflag(short, long, description);
}

/// Trusted: `getopts::Options::parse`, and `to_string` on the `getopts::Fail`
/// that it may return. Claims only that the outcome is the one that `parsed`
/// names for the declared flags and these arguments.
#[verifier::external_body]
fn parse_arguments(options: &getopts::Options, arguments: &Vec<String>) -> (result: Result<
    getopts::Matches,
    String,
>)
    requires
        flags_only(*options),
    ensures
        match result {
            Ok(matches) => parsed(declared(*options), texts(arguments@)) == Ok::<
                (Set<Seq<char>>, Seq<Seq<char>>),
                Seq<char>,
            >((matched(matches), free_arguments(matches))),
            Err(reason) => parsed(declared(*options), texts(arguments@)) == Err::<
                (Set<Seq<char>>, Seq<Seq<char>>),
                Seq<char>,
            >(reason@),
        },
{
    match options.parse(arguments) {
        Ok(matches) => Ok(matches),
        Err(fail) => Err(fail.to_string()),
    }
}

/// Trusted: `getopts::Matches::opts_present`, asked for one name. Claims that
/// it answers whether `name` is among the matched names.
#[verifier::external_body]
fn is_matched(matches: &getopts::Matches, name: &String) -> (found: bool)
    ensures
        found == matched(*matches).contains(name@),
{
    matches.opts_present(std::slice::from_ref(name))
}

/// Trusted: the field `free` of `getopts::Matches`. Claims that the copy
/// holds the free arguments in their order.
#[verifier::external_body]
fn free_of(matches: &getopts::Matches) -> (free: Vec<String>)
    ensures
        texts(free@) == free_arguments(*matches),
{
    matches.free.clone()
}

/// Trusted: `getopts::Options::usage`. Claims only that the text is the one
/// that `usage_of` names for the declared flags and this brief.
#[verifier::external_body]
fn usage_text(options: &getopts::Options, brief: &str) -> (text: String)
    requires
        flags_only(*options),
    ensures
        text@ == usage_of(declared(*options), brief@),
{
    options.usage(brief)
}

/// The two flags of this program.
pub open spec fn flags() -> Seq<FlagText> {
    seq![
        ("h"@, "help"@, "display this help message"@),
        ("a"@, "append"@, "append to the given FILES; do not overwrite"@),
    ]
}

/// The first lines of the usage text for a program called `program`.
pub open spec fn brief(program: Seq<char>) -> Seq<char> {
    "Usage: "@ + program
        + " [OPTION]... [FILE]...\nCopy standard input to each FILE, and also to standard output."@
}

/// The name under which the program was called: the first argument, if there
/// is one.
pub open spec fn program_name(arguments: Seq<Seq<char>>) -> Seq<char> {
    if arguments.len() > 0 {
        arguments[0]
    } else {
        Seq::empty()
    }
}

/// The free arguments behind the first, which is the program's name.
pub open spec fn paths(free: Seq<Seq<char>>) -> Seq<Seq<char>> {
    if free.len() > 0 {
        free.skip(1)
    } else {
        free
    }
}

/// What the parser found on a command line that it accepts.
pub struct Flags {
    /// Whether `-h` or `--help` was given.
    pub help: bool,
    /// Whether `-a` or `--append` was given.
    pub append: bool,
    /// The arguments that are no options, the program's name first.
    pub free: Vec<String>,
}

/// What the program is asked to do.
pub enum Invocation {
    /// Print the usage text to standard output and exit successfully.
    Help { usage: String },
    /// Copy standard input to these files and to standard output.
    Run { files: Vec<String>, append: bool },
    /// The command line is malformed: print the reason and the usage text to
    /// standard error and fail.
    Reject { reason: String, usage: String },
}

/// An invocation with its texts as sequences of characters.
pub enum Plan {
    /// Print `usage` and exit successfully.
    Help { usage: Seq<char> },
    /// Copy standard input to `files` and to standard output.
    Run { files: Seq<Seq<char>>, append: bool },
    /// Print `reason` and `usage` and fail.
    Reject { reason: Seq<char>, usage: Seq<char> },
}

/// What the program does for an outcome of the parser: a failure is
/// rejected, a request for help wins over everything else, and otherwise the
/// free arguments behind the program's name are the target files.
pub open spec fn decision(
    outcome: Result<(bool, bool, Seq<Seq<char>>), Seq<char>>,
    usage: Seq<char>,
) -> Plan {
    match outcome {
        Err(reason) => Plan::Reject { reason, usage },
        Ok((help, append, free)) => if help {
            Plan::Help { usage }
        } else {
            Plan::Run { files: paths(free), append }
        },
    }
}

/// What the program does for these arguments, the program's name first.
pub open spec fn planned(arguments: Seq<Seq<char>>) -> Plan {
    decision(
        match parsed(flags(), arguments) {
            Ok((names, free)) => Ok((names.contains("h"@), names.contains("a"@), free)),
            Err(reason) => Err(reason),
        },
        usage_of(flags(), brief(program_name(arguments))),
    )
}

impl Invocation {
    /// The invocation with its texts as sequences.
    pub open spec fn view(&self) -> Plan {
        match self {
            Invocation::Help { usage } => Plan::Help { usage: usage@ },
            Invocation::Run { files, append } => Plan::Run {
                files: texts(files@),
                append: *append,
            },
            Invocation::Reject { reason, usage } => Plan::Reject {
                reason: reason@,
                usage: usage@,
            },
        }
    }

    /// Decides what to do from what the parser found.
    pub fn from_parsed(outcome: Result<Flags, String>, usage: String) -> (invocation: Invocation)
        ensures
            invocation@ == decision(
                match outcome {
                    Ok(found) => Ok((found.help, found.append, texts(found.free@))),
                    Err(reason) => Err(reason@),
                },
                usage@,
            ),
    {
        match outcome {
            Err(reason) => Invocation::Reject { reason, usage },
            Ok(found) => {
                if found.help {
                    Invocation::Help { usage }
                } else {
                    let mut files: Vec<String> = Vec::new();
                    let mut next: usize = 1;
                    while next < found.free.len()
                        invariant
                            1 <= next,
                            next <= found.free@.len() || next == 1,
                            files@.len() == next - 1,
                            forall|i: int| 0 <= i < files@.len() ==> files@[i] == found.free@[i + 1],
                        decreases found.free@.len() - next,
                    {
                        files.push(found.free[next].clone());
                        next += 1;
                    }
                    assert(texts(files@) =~= paths(texts(found.free@)));
                    Invocation::Run { files, append: found.append }
                }
            },
        }
    }

    /// How the process ends if the invocation asks for no run: successfully
    /// after the usage text, with a failure after a malformed command line.
    pub fn ending(&self) -> (ending: Option<Ending>)
        ensures
            ending == match self@ {
                Plan::Help { .. } => Some(Ending::Completed),
                Plan::Run { .. } => None,
                Plan::Reject { .. } => Some(Ending::Aborted(Fault::Argument)),
            },
    {
        match self {
            Invocation::Help { .. } => Some(Ending::Completed),
            Invocation::Run { .. } => None,
            Invocation::Reject { .. } => Some(Ending::Aborted(Fault::Argument)),
        }
    }
}

/// The usage text for a program called `program`.
pub fn usage(program: &str) -> (text: String)
    ensures
        text@ == usage_of(flags(), brief(program@)),
{
    let options = program_options();
    let mut lines = String::from_str("Usage: ");
    lines.append(program);
    lines.append(
        " [OPTION]... [FILE]...\nCopy standard input to each FILE, and also to standard output.",
    );
    usage_text(&options, lines.as_str())
}

/// The options of this program.
fn program_options() -> (options: getopts::Options)
    ensures
        flags_only(options),
        declared(options) == flags(),
{
    let mut options = new_options();
    proof {
        reveal_strlit("h");
        reveal_strlit("help");
        reveal_strlit("a");
        reveal_strlit("append");
    }
    declare_flag(&mut options, "h", "help", "display this help message");
    declare_flag(&mut options, "a", "append", "append to the given FILES; do not overwrite");
    assert(declared(options) =~= flags());
    options
}

/// Reads the command line, the program's name first, and decides what to do.
pub fn plan(arguments: &Vec<String>) -> (invocation: Invocation)
    ensures
        invocation@ == planned(texts(arguments@)),
{
    let options = program_options();
    let text = if arguments.len() > 0 {
        usage(arguments[0].as_str())
    } else {
        usage(String::new().as_str())
    };
    let outcome = match parse_arguments(&options, arguments) {
        Err(reason) => Err(reason),
        Ok(matches) => {
            let help = is_matched(&matches, &String::from_str("h"));
            let append = is_matched(&matches, &String::from_str("a"));
            Ok(Flags { help, append, free: free_of(&matches) })
        },
    };
    Invocation::from_parsed(outcome, text)
}

} // verus!
