//! Pictures from `waifu.pics`: where to ask, and what the answer holds.

use vstd::prelude::*;
use vstd::string::*;
use crate::text::{chars_of, string_of, trim_bounds, trimmed};

verus! {

/// The error type of the JSON reader.
#[verifier::external_type_specification]
#[verifier::external_body]
pub struct ExJsonFault(serde_json::Error);

/// What reading `text` as JSON and looking up `url` comes to: `None` where
/// `text` is no JSON, else the string under the key `url`, if there is one.
pub uninterp spec fn json_url(text: Seq<char>) -> Option<Option<Seq<char>>>;

/// What a result of [`read_url`] stands for.
pub open spec fn url_of(r: Result<Option<String>, serde_json::Error>) -> Option<Option<Seq<char>>> {
    match r {
        Ok(Some(s)) => Some(Some(s@)),
        Ok(None) => Some(None),
        Err(_) => None,
    }
}

/// Reads `text` with `serde_json::from_str` as a `Value`, indexes it with
/// `url` and asks `Value::as_str` for the string. The contract only names the
/// outcome: it depends on the text alone.
#[verifier::external_body]
fn read_url(text: &str) -> (r: Result<Option<String>, serde_json::Error>)
    ensures
        url_of(r) == json_url(text@),
{
    let value: serde_json::Value = serde_json::from_str(text)?;
    Ok(value["url"].as_str().map(|v| v.to_string()))
}

/// The address that is asked for a picture of `category`.
pub fn waifu_request(category: &str) -> (url: String)
    ensures
        url@ == "https://api.waifu.pics/sfw/"@ + category@,
{
    let mut url = "https://api.waifu.pics/sfw/".to_owned();
    url.append(category);
    url
}

/// The address of the picture that the answer `api_resp` names: what the
/// trimmed answer holds under `url`, if it holds a string there. An answer
/// that is no JSON is an error.
pub fn get_waifu_pic(api_resp: &str) -> (r: Result<Option<String>, serde_json::Error>)
    ensures
        url_of(r) == json_url(trimmed(api_resp@)),
{
    let chars = chars_of(api_resp);
    let (from, to) = trim_bounds(&chars);
    let text = string_of(&chars, from, to);
    read_url(text.as_str())
}

} // verus!
