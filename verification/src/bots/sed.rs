//! A `sed` command line applied to a message, with the answer bounded to 512 bytes.

use vstd::prelude::*;
use vstd::string::*;
use crate::commands::leek::{bounded, capped, CapacityError};
use crate::regex_util::{match_groups, pattern_matching, Matching};
use crate::text::chars_of;

verus! {

/// The error type of the command interpreter.
#[verifier::external_type_specification]
#[verifier::external_body]
pub struct ExSedFault(sedregex::ErrorKind);

/// Why a command line could not be applied.
pub enum SedError {
    /// The answer does not fit into 512 bytes.
    Capacity(CapacityError),
    /// The line could not be searched for a command.
    Regex(fancy_regex::Error),
    /// The command is malformed.
    SedRegex(sedregex::ErrorKind),
}

/// `text` after the `sed` command `command` was applied to it, as
/// `sedregex` computes it; `None` where the command is malformed.
pub uninterp spec fn sed_applied(text: Seq<char>, command: Seq<char>) -> Option<Seq<char>>;

/// The text that a result of applying a command stands for.
pub open spec fn applied_of(r: Result<String, sedregex::ErrorKind>) -> Option<Seq<char>> {
    match r {
        Ok(s) => Some(s@),
        Err(_) => None,
    }
}

/// Calls `sedregex::find_and_replace` with the one command `command`. The
/// contract only names the outcome: it depends on the text and the command alone.
#[verifier::external_body]
fn find_and_replace(text: &str, command: &str) -> (r: Result<String, sedregex::ErrorKind>)
    ensures
        applied_of(r) == sed_applied(text@, command@),
{
    sedregex::find_and_replace(text, [command]).map(|formatted| formatted.into_owned())
}

/// Calls `to_string` on an error of the pattern engine.
#[verifier::external_body]
fn regex_fault_text(e: &fancy_regex::Error) -> String {
    e.to_string()
}

/// Calls `to_string` on an error of the command interpreter.
#[verifier::external_body]
fn sed_fault_text(e: &sedregex::ErrorKind) -> String {
    e.to_string()
}

impl SedError {
    /// The error in words: those of the error it holds.
    pub fn message(&self) -> (m: String)
        ensures
            self matches SedError::Capacity(_) ==> m@ == "insufficient capacity"@,
    {
        match self {
            SedError::Capacity(e) => e.message(),
            SedError::Regex(e) => regex_fault_text(e),
            SedError::SedRegex(e) => sed_fault_text(e),
        }
    }
}

/// The pattern that finds a command in a line.
pub open spec fn command_pattern() -> Seq<char> {
    "^s/.*/.*"@
}

/// The command that a match of the command pattern holds: the whole match.
pub open spec fn matched_command(groups: Seq<Option<Seq<char>>>) -> Option<Seq<char>> {
    if groups.len() > 0 {
        groups[0]
    } else {
        None
    }
}

/// What a line comes to.
pub ghost enum Resolution {
    /// The line holds no command.
    NoCommand,
    /// The message after the command was applied.
    Replaced(Seq<char>),
    /// The line could not be searched.
    SearchFailed,
    /// The command is malformed.
    Malformed,
    /// The answer does not fit.
    TooLong,
}

/// What the line `cmd` comes to on the message `prev_msg`.
pub open spec fn resolution(prev_msg: Seq<char>, cmd: Seq<char>) -> Resolution {
    match pattern_matching(command_pattern(), cmd) {
        Matching::Failed => Resolution::SearchFailed,
        Matching::Absent => Resolution::NoCommand,
        Matching::Found(groups) => match matched_command(groups) {
            None => Resolution::NoCommand,
            Some(command) => match sed_applied(prev_msg, command) {
                None => Resolution::Malformed,
                Some(formatted) => match capped(formatted) {
                    Some(text) => Resolution::Replaced(text),
                    None => Resolution::TooLong,
                },
            },
        },
    }
}

/// Applies the `sed` command that the line `cmd` begins with to `prev_msg`.
/// A line that holds no command comes to `Ok(None)`.
pub fn resolve(prev_msg: &str, cmd: &str) -> (r: Result<Option<String>, SedError>)
    ensures
        match resolution(prev_msg@, cmd@) {
            Resolution::NoCommand => r matches Ok(None),
            Resolution::Replaced(text) => r matches Ok(Some(s)) && s@ == text,
            Resolution::SearchFailed => r matches Err(SedError::Regex(_)),
            Resolution::Malformed => r matches Err(SedError::SedRegex(_)),
            Resolution::TooLong => r matches Err(SedError::Capacity(_)),
        },
{
    let groups = match match_groups("^s/.*/.*", cmd) {
        Ok(Some(groups)) => groups,
        Ok(None) => {
            return Ok(None);
        },
        Err(e) => {
            return Err(SedError::Regex(e));
        },
    };
    if groups.len() == 0 {
        return Ok(None);
    }
    let command = match &groups[0] {
        Some(command) => command,
        None => {
            return Ok(None);
        },
    };
    let formatted = match find_and_replace(prev_msg, command.as_str()) {
        Ok(formatted) => formatted,
        Err(e) => {
            return Err(SedError::SedRegex(e));
        },
    };
    let chars = chars_of(formatted.as_str());
    match bounded(&chars) {
        Ok(text) => Ok(Some(text)),
        Err(e) => Err(SedError::Capacity(e)),
    }
}

} // verus!
