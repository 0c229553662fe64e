use vstd::prelude::*;
use crate::text::strings_view;

verus! {

/// The words that `shlex::split` makes of a command line, or `None` where it
/// finds the line erroneous (an open quote, a backslash at the end).
pub uninterp spec fn shlex_words(command: Seq<char>) -> Option<Seq<Seq<char>>>;

/// What is to be done for one process at start-up.
#[derive(Debug, PartialEq, Eq)]
pub enum SpawnPlan {
    /// Start `executable` with `args`, both standard streams piped.
    Run { executable: String, args: Vec<String> },
    /// Start nothing; show `message` as a line of the process.
    Reject { message: String },
}

/// A `SpawnPlan` with its texts as characters.
pub enum SpawnPlanView {
    Run { executable: Seq<char>, args: Seq<Seq<char>> },
    Reject { message: Seq<char> },
}

impl View for SpawnPlan {
    type V = SpawnPlanView;

    open spec fn view(&self) -> SpawnPlanView {
        match self {
            SpawnPlan::Run { executable, args } => SpawnPlanView::Run {
                executable: executable@,
                args: strings_view(args@),
            },
            SpawnPlan::Reject { message } => SpawnPlanView::Reject { message: message@ },
        }
    }
}

/// The words of an optional list of strings, each as its characters.
pub open spec fn words_view(words: Option<Vec<String>>) -> Option<Seq<Seq<char>>> {
    match words {
        Some(w) => Some(strings_view(w@)),
        None => None,
    }
}

/// The line shown for a process whose command line cannot be split.
pub open spec fn parse_failure_text(name: Seq<char>) -> Seq<char> {
    "Failed to parse command line for <"@ + name + ">"@
}

/// The line shown for a process that could not be started.
pub open spec fn spawn_failure_text(name: Seq<char>) -> Seq<char> {
    "Failed to spawn process <"@ + name + ">"@
}

/// A line of the error stream as it is stored: marked in front.
pub open spec fn stderr_text(line: Seq<char>) -> Seq<char> {
    "[STDERR] "@ + line
}

/// The plan that follows from the words of a command line: no words at all
/// (the line could not be split) give the parse failure; an empty list of
/// words names no executable and gives the spawn failure; otherwise the first
/// word is the executable and the others are its arguments.
pub open spec fn plan_spec(name: Seq<char>, words: Option<Seq<Seq<char>>>) -> SpawnPlanView {
    match words {
        None => SpawnPlanView::Reject { message: parse_failure_text(name) },
        Some(w) => if w.len() == 0 {
            SpawnPlanView::Reject { message: spawn_failure_text(name) }
        } else {
            SpawnPlanView::Run { executable: w[0], args: w.subrange(1, w.len() as int) }
        },
    }
}

/// `shlex::split`: splits a command line into words as a POSIX shell would,
/// and gives `None` for a line that it finds erroneous. The result depends on
/// the line alone; it is given the name `shlex_words`.
#[verifier::external_body]
fn split_command(command: &str) -> (words: Option<Vec<String>>)
    ensures
        words_view(words) == shlex_words(command@),
{
    shlex::split(command)
}

/// The line shown for a process whose command line cannot be split.
pub fn parse_failure_message(name: &str) -> (m: String)
    ensures
        m@ == parse_failure_text(name@),
{
    let mut m = String::from_str("Failed to parse command line for <");
    m.append(name);
    m.append(">");
    m
}

/// The line shown for a process that could not be started.
pub fn spawn_failure_message(name: &str) -> (m: String)
    ensures
        m@ == spawn_failure_text(name@),
{
    let mut m = String::from_str("Failed to spawn process <");
    m.append(name);
    m.append(">");
    m
}

/// A line read from a process's error stream, marked as such.
pub fn stderr_line(line: &str) -> (m: String)
    ensures
        m@ == stderr_text(line@),
{
    let mut m = String::from_str("[STDERR] ");
    m.append(line);
    m
}

/// Decides from the words of a command line what to do for the process.
pub fn plan_from_words(name: &str, words: Option<Vec<String>>) -> (plan: SpawnPlan)
    ensures
        plan@ == plan_spec(name@, words_view(words)),
{
    match words {
        None => SpawnPlan::Reject { message: parse_failure_message(name) },
        Some(mut w) => {
            if w.len() == 0 {
                SpawnPlan::Reject { message: spawn_failure_message(name) }
            } else {
                let ghost all = strings_view(w@);
                let executable = w.remove(0);
                assert(strings_view(w@) =~= all.subrange(1, all.len() as int));
                SpawnPlan::Run { executable, args: w }
            }
        },
    }
}

/// Splits the command line of a process into words and decides what to do
/// for it: start the executable that the first word names, or start nothing
/// and show why.
pub fn plan_spawn(name: &str, command: &str) -> (plan: SpawnPlan)
    ensures
        plan@ == plan_spec(name@, shlex_words(command@)),
{
    plan_from_words(name, split_command(command))
}

} // verus!
