//! The `title` trigger: what is answered for the page or the file behind a link.

use vstd::prelude::*;
use vstd::string::*;
use crate::regex_util::{
    compile_check, group_at, match_groups, pattern_compiles, pattern_matching, Matching,
};
use crate::text::{chars_of, contains_text, decimal, push_decimal, rfind};

verus! {

/// The error type of the entity decoder.
#[verifier::external_type_specification]
#[verifier::external_body]
pub struct ExDecodeErr(htmlescape::DecodeErr);

/// `s` with its HTML entities replaced by the characters they stand for, as
/// `htmlescape` decodes it; `None` where it holds a malformed entity.
pub uninterp spec fn html_decoded(s: Seq<char>) -> Option<Seq<char>>;

/// The text that a result of decoding stands for.
pub open spec fn decoded_of(r: Result<String, htmlescape::DecodeErr>) -> Option<Seq<char>> {
    match r {
        Ok(s) => Some(s@),
        Err(_) => None,
    }
}

/// Calls `htmlescape::decode_html`. The contract only names the outcome:
/// it depends on the text alone.
#[verifier::external_body]
pub(crate) fn decode_html(s: &str) -> (r: Result<String, htmlescape::DecodeErr>)
    ensures
        decoded_of(r) == html_decoded(s@),
{
    htmlescape::decode_html(s)
}

/// The trigger that answers a link with the title of its page.
pub struct Title {
    user_agent: String,
}

/// The pattern that finds the title in a page.
pub open spec fn title_pattern() -> Seq<char> {
    "<title[^>]*>(.*?)</title>"@
}

/// The title that a match of the title pattern holds: its first group, where it took part.
pub open spec fn matched_title(groups: Seq<Option<Seq<char>>>) -> Option<Seq<char>> {
    group_at(groups, 1)
}

/// The answer for a page.
pub open spec fn page_answer(body: Seq<char>) -> Option<Seq<char>> {
    match pattern_matching(title_pattern(), body) {
        Matching::Failed => None,
        Matching::Absent => Some("\x039[Title]\x0311 No title"@),
        Matching::Found(groups) => match matched_title(groups) {
            None => Some("\x039[Title]\x0311 No title"@),
            Some(raw) => Some(
                "\x039[Title]\x0311 "@ + (match html_decoded(raw) {
                    Some(title) => title,
                    None => raw,
                }),
            ),
        },
    }
}

/// The content type to go by: the one that was sent, else `text/html`.
pub open spec fn effective_mime(mime: Option<Seq<char>>) -> Seq<char> {
    match mime {
        Some(m) => m,
        None => "text/html"@,
    }
}

/// The view of an optional string slice.
pub open spec fn slice_text(s: Option<&str>) -> Option<Seq<char>> {
    match s {
        Some(s) => Some(s@),
        None => None,
    }
}

impl Title {
    /// The user agent under which pages are fetched.
    pub closed spec fn agent(&self) -> Seq<char> {
        self.user_agent@
    }

    /// The trigger with the given user agent, else with one that names the
    /// bot and its version. An error where the title pattern does not compile.
    pub fn new(user_agent: Option<String>, version: &str) -> (r: Result<Title, fancy_regex::Error>)
        ensures
            (r is Ok) == pattern_compiles(title_pattern()),
            r matches Ok(title) ==> title.agent() == match user_agent {
                Some(ua) => ua@,
                None => "uberbot "@ + version@ + " (reqwest)"@,
            },
    {
        match compile_check("<title[^>]*>(.*?)</title>") {
            Ok(()) => {},
            Err(e) => {
                return Err(e);
            },
        }
        let user_agent = match user_agent {
            Some(ua) => ua,
            None => {
                let mut ua = "uberbot ".to_owned();
                ua.append(version);
                ua.append(" (reqwest)");
                ua
            },
        };
        Ok(Title { user_agent })
    }

    /// The user agent under which pages are fetched.
    pub fn user_agent(&self) -> (ua: &str)
        ensures
            ua@ == self.agent(),
    {
        self.user_agent.as_str()
    }

    /// Whether what was fetched is a page, by its content type: one that
    /// holds `text/html`, or none at all.
    pub fn is_page(&self, mime: Option<&str>) -> (r: bool)
        ensures
            r == contains_text(effective_mime(slice_text(mime)), "text/html"@),
    {
        let text = match mime {
            Some(m) => chars_of(m),
            None => chars_of("text/html"),
        };
        let token = chars_of("text/html");
        rfind(&text, &token).is_some()
    }

    /// The answer for a page with the text `body`: its title with the HTML
    /// entities decoded, or as it stands where they cannot be decoded. An
    /// error where the title pattern cannot be evaluated on the page.
    pub fn page_title(&self, body: &str) -> (r: Result<String, fancy_regex::Error>)
        ensures
            match page_answer(body@) {
                Some(text) => r matches Ok(t) && t@ == text,
                None => r is Err,
            },
    {
        let groups = match match_groups("<title[^>]*>(.*?)</title>", body) {
            Ok(Some(groups)) => groups,
            Ok(None) => {
                return Ok("\x039[Title]\x0311 No title".to_owned());
            },
            Err(e) => {
                return Err(e);
            },
        };
        if groups.len() > 1 {
            match &groups[1] {
                Some(raw) => {
                    let mut text = "\x039[Title]\x0311 ".to_owned();
                    match decode_html(raw.as_str()) {
                        Ok(title) => text.append(title.as_str()),
                        Err(_) => text.append(raw.as_str()),
                    }
                    return Ok(text);
                },
                None => {},
            }
        }
        Ok("\x039[Title]\x0311 No title".to_owned())
    }

    /// The answer for a file of the content type `mime` and, where it is
    /// known, of `content_length` bytes: the type and the size in whole kilobytes.
    pub fn file_info(&self, mime: &str, content_length: Option<u64>) -> (text: String)
        ensures
            text@ == "\x039[Title]\x0311 File: "@ + mime@ + "; "@ + (match content_length {
                Some(l) => decimal((l / 1024) as nat),
                None => "unknown"@,
            }) + "kb"@,
    {
        let mut text = "\x039[Title]\x0311 File: ".to_owned();
        text.append(mime);
        text.append("; ");
        match content_length {
            Some(l) => push_decimal(&mut text, l / 1024),
            None => text.append("unknown"),
        }
        text.append("kb");
        text
    }
}

} // verus!
