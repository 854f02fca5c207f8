//! The web hooks: which requests are taken, and what is announced for them.

pub mod git;
pub mod parser;

use vstd::prelude::*;
use vstd::string::*;
use crate::string_map::StringMap;
use crate::text::{chars_of, decimal, push_decimal, str_eq, string_of};

verus! {

/// What becomes of a request to a web hook.
pub enum Admission {
    /// The request is refused with this status and this body.
    Rejected { status: u16, body: String },
    /// The request is for the hook `webhook`, whose announcements go to `channel`.
    Accepted { webhook: String, channel: String },
}

/// The name of the hook that a request path asks for: the path without its first character.
pub open spec fn webhook_name(path: Seq<char>) -> Seq<char> {
    if path.len() == 0 {
        path
    } else {
        path.drop_first()
    }
}

/// Decides on a request by its content type and its path. A request
/// without a content type, or with one other than `application/json`, is a
/// bad request. A path that names no registered hook is not found.
pub fn screen(content_type: Option<&str>, path: &str, webhooks: &StringMap<String>) -> (r: Admission)
    requires
        webhooks.wf(),
    ensures
        match content_type {
            None => r matches Admission::Rejected { status, body } && status == 400 && body@
                == "no content-type"@,
            Some(mime) => if mime@ != "application/json"@ {
                r matches Admission::Rejected { status, body } && status == 400 && body@
                    == "wrong content-type"@
            } else if !webhooks@.dom().contains(webhook_name(path@)) {
                r matches Admission::Rejected { status, body } && status == 404 && body@
                    == "webhook path not registered"@
            } else {
                r matches Admission::Accepted { webhook, channel } && webhook@ == webhook_name(
                    path@,
                ) && channel@ == webhooks@[webhook_name(path@)]@
            },
        },
{
    match content_type {
        None => Admission::Rejected { status: 400, body: "no content-type".to_owned() },
        Some(mime) => {
            if !str_eq(mime, "application/json") {
                return Admission::Rejected { status: 400, body: "wrong content-type".to_owned() };
            }
            let chars = chars_of(path);
            let from: usize = if chars.len() == 0 {
                0
            } else {
                1
            };
            let webhook = string_of(&chars, from, chars.len());
            assert(webhook@ =~= webhook_name(path@));
            match webhooks.get(webhook.as_str()) {
                Some(channel) => Admission::Accepted { webhook, channel: channel.clone() },
                None => Admission::Rejected {
                    status: 404,
                    body: "webhook path not registered".to_owned(),
                },
            }
        },
    }
}

/// The note above a page of quotes: for a search, how many of at most 50
/// results are shown, or that the store failed where `found` is `None`; without
/// a search, that up to 20 quotes picked at random are shown.
pub fn quotes_flash(query: Option<&str>, found: Option<usize>) -> (flash: String)
    ensures
        flash@ == match query {
            Some(q) => match found {
                Some(n) => "Displaying "@ + decimal(n as nat) + "/50 results for query \""@ + q@
                    + "\""@,
                None => "A database error has occurred"@,
            },
            None => "Displaying up to 20 random quotes"@,
        },
{
    match query {
        Some(q) => match found {
            Some(n) => {
                let mut flash = "Displaying ".to_owned();
                push_decimal(&mut flash, n as u64);
                flash.append("/50 results for query \"");
                flash.append(q);
                flash.append("\"");
                flash
            },
            None => "A database error has occurred".to_owned(),
        },
        None => "Displaying up to 20 random quotes".to_owned(),
    }
}

} // verus!
