//! Commands for looking into the bot while it runs.

use vstd::prelude::*;
use vstd::string::*;
use crate::bot::CommandContext;
use crate::history::{log_tail, texts_of, MessageHistory};
use crate::text::{decimal, parse_bounded, parse_number, push_decimal, NumberError};

verus! {

/// The command that shows the recorded messages of an author.
pub struct LastMsg;

/// The command that waits for a number of seconds.
pub struct Sleep;

/// The recorded messages `messages` as `{:?}` shows them, which is a matter of the texts alone.
pub uninterp spec fn debug_text(messages: Option<Seq<Seq<char>>>) -> Seq<char>;

/// Formats `messages` with `{:?}`. The contract only names the outcome.
#[verifier::external_body]
fn format_debug(messages: &Option<Vec<String>>) -> (text: String)
    ensures
        text@ == debug_text(
            match messages {
                Some(v) => Some(texts_of(v@)),
                None => None,
            },
        ),
{
    format!("{:?}", messages)
}

impl LastMsg {
    /// Whose messages are shown: the author named by the argument, else the author of the command.
    pub open spec fn subject(msg: &CommandContext) -> Seq<char> {
        match msg.content {
            Some(nick) => nick@,
            None => msg.author@,
        }
    }

    /// The answer: the author's name, then all of their recorded messages, oldest first.
    pub fn execute(&self, msg: &CommandContext, history: &MessageHistory) -> (text: String)
        requires
            history.wf(),
        ensures
            text@ == Self::subject(msg) + ": "@ + debug_text(
                if history@.dom().contains(Self::subject(msg)) {
                    Some(log_tail(history@[Self::subject(msg)], usize::MAX as nat))
                } else {
                    None
                },
            ),
    {
        let nick = match &msg.content {
            Some(nick) => nick,
            None => &msg.author,
        };
        let messages = history.last_msgs(nick.as_str(), usize::MAX);
        let mut text = nick.clone();
        text.append(": ");
        let shown = format_debug(&messages);
        text.append(shown.as_str());
        text
    }
}

impl Sleep {
    /// How long to wait: the argument read as a number of seconds. Without
    /// an argument nothing is waited for, and the answer is `None`.
    pub fn duration(&self, msg: &CommandContext) -> (r: Result<Option<u64>, NumberError>)
        ensures
            match msg.content {
                Some(c) => match parse_number(c@, u64::MAX as nat) {
                    Ok(n) => r matches Ok(Some(secs)) && secs == n,
                    Err(e) => r matches Err(x) && x == e,
                },
                None => r matches Ok(None),
            },
    {
        match &msg.content {
            Some(c) => match parse_bounded(c.as_str(), u64::MAX) {
                Ok(n) => Ok(Some(n)),
                Err(e) => Err(e),
            },
            None => Ok(None),
        }
    }

    /// The answer once `slept` holds how long was waited, `None` standing for a command without argument.
    pub fn execute(&self, slept: Option<u64>) -> (text: String)
        ensures
            text@ == match slept {
                Some(secs) => "Slept "@ + decimal(secs as nat) + " seconds"@,
                None => "Invalid usage."@,
            },
    {
        match slept {
            Some(secs) => {
                let mut text = "Slept ".to_owned();
                push_decimal(&mut text, secs);
                text.append(" seconds");
                text
            },
            None => "Invalid usage.".to_owned(),
        }
    }
}

} // verus!
