//! The `waifu` command.

use vstd::prelude::*;
use vstd::string::*;
use crate::bot::CommandContext;
use crate::bots::weeb::{get_waifu_pic, json_url, waifu_request};
use crate::text::trimmed;

verus! {

/// The command that answers with the address of a picture.
pub struct Waifu;

impl Waifu {
    /// The address to ask: for the category that the argument names, else for `waifu`.
    pub fn request(&self, msg: &CommandContext) -> (url: String)
        ensures
            url@ == "https://api.waifu.pics/sfw/"@ + (match msg.content {
                Some(c) => c@,
                None => "waifu"@,
            }),
    {
        match &msg.content {
            Some(c) => waifu_request(c.as_str()),
            None => waifu_request("waifu"),
        }
    }

    /// The answer, given what the picture service answered: the address that
    /// it names, or a note that it named none. An answer that is no JSON is
    /// an error.
    pub fn execute(&self, response: &str) -> (r: Result<String, serde_json::Error>)
        ensures
            match json_url(trimmed(response@)) {
                None => r is Err,
                Some(Some(url)) => r matches Ok(text) && text@ == url,
                Some(None) => r matches Ok(text) && text@ == "Invalid API Response."@,
            },
    {
        match get_waifu_pic(response) {
            Ok(Some(url)) => Ok(url),
            Ok(None) => Ok("Invalid API Response.".to_owned()),
            Err(e) => Err(e),
        }
    }
}

} // verus!
