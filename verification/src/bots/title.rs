//! Links in a message: which of them names a Spotify resource, which a
//! page, and what is answered for the page.

use vstd::prelude::*;
use vstd::string::*;
use crate::commands::title::{decode_html, html_decoded};
use crate::regex_util::{group_at, match_groups, pattern_matching, Matching};
use crate::text::{chars_of, contains_text, rfind};

verus! {

/// The bot that answers links with what they point to.
pub struct Titlebot;

/// What a message links to.
pub enum Link {
    /// A Spotify resource of the kind `resource_type` with the id `resource_id`.
    Spotify { resource_type: String, resource_id: String },
    /// A page at the address `url`.
    Page { url: String },
    /// Nothing that is answered.
    Nothing,
}

/// A link as contracts speak of it.
pub ghost enum LinkSpec {
    Spotify { resource_type: Seq<char>, resource_id: Seq<char> },
    Page { url: Seq<char> },
    Nothing,
}

impl Link {
    /// What the link holds.
    pub open spec fn view(&self) -> LinkSpec {
        match self {
            Link::Spotify { resource_type, resource_id } => LinkSpec::Spotify {
                resource_type: resource_type@,
                resource_id: resource_id@,
            },
            Link::Page { url } => LinkSpec::Page { url: url@ },
            Link::Nothing => LinkSpec::Nothing,
        }
    }
}

/// The pattern of a link to a Spotify resource.
pub open spec fn spotify_pattern() -> Seq<char> {
    "(?:https?|spotify):(?://open\\.spotify\\.com/)?(track|artist|album|playlist)[/:]([a-zA-Z0-9]*)"@
}

/// The pattern of a link to a page.
pub open spec fn url_pattern() -> Seq<char> {
    "https?://\\w+\\.\\w+[/\\S+]*"@
}

/// The pattern of what stands between the title tags of a page.
pub open spec fn title_text_pattern() -> Seq<char> {
    "(?<=<title>)(.*)(?=</title>)"@
}

/// What `message` links to, or `None` where a pattern cannot be evaluated
/// on it. A link to a Spotify resource goes before a link to a page.
pub open spec fn link_of(message: Seq<char>) -> Option<LinkSpec> {
    match pattern_matching(spotify_pattern(), message) {
        Matching::Failed => None,
        Matching::Found(groups) => match (group_at(groups, 1), group_at(groups, 2)) {
            (Some(tp), Some(id)) => Some(LinkSpec::Spotify { resource_type: tp, resource_id: id }),
            _ => Some(LinkSpec::Nothing),
        },
        Matching::Absent => match pattern_matching(url_pattern(), message) {
            Matching::Failed => None,
            Matching::Found(groups) => match group_at(groups, 0) {
                Some(url) => Some(LinkSpec::Page { url }),
                None => Some(LinkSpec::Nothing),
            },
            Matching::Absent => Some(LinkSpec::Nothing),
        },
    }
}

/// The answer for a page with the text `body`: `None` where the title
/// pattern cannot be evaluated, `Some(None)` for a page without title.
pub open spec fn titled(body: Seq<char>) -> Option<Option<Seq<char>>> {
    match pattern_matching(title_text_pattern(), body) {
        Matching::Failed => None,
        Matching::Absent => Some(None),
        Matching::Found(groups) => match group_at(groups, 0) {
            None => Some(None),
            Some(raw) => Some(
                Some(
                    "\x039[Title]\x0311 "@ + (match html_decoded(raw) {
                        Some(title) => title,
                        None => raw,
                    }),
                ),
            ),
        },
    }
}

/// The group at position `i` of a match, if it took part.
fn group<'a>(groups: &'a Vec<Option<String>>, i: usize) -> (r: Option<&'a str>)
    ensures
        (match r {
            Some(s) => Some(s@),
            None => None,
        }) == group_at(crate::regex_util::optional_texts(groups@), i as int),
{
    if i < groups.len() {
        match &groups[i] {
            Some(s) => Some(s.as_str()),
            None => None,
        }
    } else {
        None
    }
}

impl Titlebot {
    /// Finds what `message` links to.
    pub fn resolve_link(&self, message: &str) -> (r: Result<Link, fancy_regex::Error>)
        ensures
            match link_of(message@) {
                Some(link) => r matches Ok(l) && l@ == link,
                None => r is Err,
            },
    {
        let spotify = match match_groups(
            "(?:https?|spotify):(?://open\\.spotify\\.com/)?(track|artist|album|playlist)[/:]([a-zA-Z0-9]*)",
            message,
        ) {
            Ok(found) => found,
            Err(e) => {
                return Err(e);
            },
        };
        if let Some(groups) = spotify {
            return match (group(&groups, 1), group(&groups, 2)) {
                (Some(tp), Some(id)) => Ok(
                    Link::Spotify { resource_type: tp.to_owned(), resource_id: id.to_owned() },
                ),
                _ => Ok(Link::Nothing),
            };
        }
        match match_groups("https?://\\w+\\.\\w+[/\\S+]*", message) {
            Ok(Some(groups)) => match group(&groups, 0) {
                Some(url) => Ok(Link::Page { url: url.to_owned() }),
                None => Ok(Link::Nothing),
            },
            Ok(None) => Ok(Link::Nothing),
            Err(e) => Err(e),
        }
    }

    /// Whether what was fetched is read for a title: anything without a
    /// content type, and with one what holds `text/html`.
    pub fn reads(&self, content_type: Option<&str>) -> (r: bool)
        ensures
            r == match content_type {
                Some(t) => contains_text(t@, "text/html"@),
                None => true,
            },
    {
        match content_type {
            Some(t) => {
                let text = chars_of(t);
                let token = chars_of("text/html");
                rfind(&text, &token).is_some()
            },
            None => true,
        }
    }

    /// The answer for a page with the text `body`, if it has a title: the
    /// title with the HTML entities decoded, or as it stands where they cannot
    /// be decoded.
    pub fn page_title(&self, body: &str) -> (r: Result<Option<String>, fancy_regex::Error>)
        ensures
            match titled(body@) {
                None => r is Err,
                Some(None) => r matches Ok(None),
                Some(Some(text)) => r matches Ok(Some(t)) && t@ == text,
            },
    {
        let groups = match match_groups("(?<=<title>)(.*)(?=</title>)", body) {
            Ok(Some(groups)) => groups,
            Ok(None) => {
                return Ok(None);
            },
            Err(e) => {
                return Err(e);
            },
        };
        match group(&groups, 0) {
            Some(raw) => {
                let mut text = "\x039[Title]\x0311 ".to_owned();
                match decode_html(raw) {
                    Ok(title) => text.append(title.as_str()),
                    Err(_) => text.append(raw),
                }
                Ok(Some(text))
            },
            None => Ok(None),
        }
    }
}

} // verus!
