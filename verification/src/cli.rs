//! The command surface, and the reading of a confirmation.

use vstd::prelude::*;
use vstd::string::*;

verus! {

/// One command of the tool.
#[derive(Debug, PartialEq, Eq)]
#[allow(inconsistent_fields)]
pub enum Actions {
    /// Start a fresh store; what the old one held is lost.
    Init,
    /// Register the directory `place` under `name`.
    Add { name: String, place: String },
    /// Bring the mirror of the named pair, or of every pair, up to its live directory.
    Export { name: Option<String> },
    /// Bring the live directory of the named pair, or of every pair, up to its mirror.
    Import { name: Option<String> },
}

/// The arguments of one run of the tool.
#[derive(Debug, PartialEq, Eq)]
pub struct Args {
    pub action: Actions,
}

/// What a line that the user typed says to a question whose answer is
/// `default` when nothing is typed: yes, no, or nothing that can be read.
pub open spec fn confirm_answer(line: Seq<char>, default: bool) -> Option<bool> {
    if line == "\n"@ {
        Some(default)
    } else if line == "y\n"@ || line == "Y\n"@ {
        Some(true)
    } else if line == "n\n"@ || line == "N\n"@ {
        Some(false)
    } else {
        None
    }
}

/// Whether `line` holds exactly `text`.
fn holds(line: &String, text: &str) -> (same: bool)
    ensures
        same == (line@ == text@),
{
    let wanted = String::from_str(text);
    *line == wanted
}

/// Reads the line that the user typed in answer to a question. An empty
/// line takes the default; `y` and `n`, in either case, say yes and no;
/// anything else is no answer.
pub fn confirm(line: &str, default: bool) -> (answer: Option<bool>)
    ensures
        answer == confirm_answer(line@, default),
{
    let line = String::from_str(line);
    if holds(&line, "\n") {
        Some(default)
    } else if holds(&line, "y\n") || holds(&line, "Y\n") {
        Some(true)
    } else if holds(&line, "n\n") || holds(&line, "N\n") {
        Some(false)
    } else {
        None
    }
}

/// The prompt that goes with a question whose default answer is `default`:
/// the default is written as a capital.
pub fn confirm_prompt(default: bool) -> (prompt: &'static str)
    ensures
        default ==> prompt@ == "Sure? [Y/n] "@,
        !default ==> prompt@ == "Sure? [y/N] "@,
{
    if default {
        "Sure? [Y/n] "
    } else {
        "Sure? [y/N] "
    }
}

} // verus!
