//! The `sed` trigger: `s/find/replace/flags` corrects the last message of
//! its author, or shows a correction of somebody else's last message.

use vstd::prelude::*;
use vstd::string::*;
use crate::bot::TriggerContext;
use crate::history::{log_edit, log_of, MessageHistory};
use crate::regex_util::OwnedCaptures;
use crate::text::{chars_of, find_char, lemma_first_index_of};

verus! {

/// The error type of the engine that replaces.
#[verifier::external_type_specification]
#[verifier::external_body]
pub struct ExReplaceFault(regex::Error);

/// `text` with the first match of the pattern `find` replaced by the
/// expansion of `with`, as `regex` computes it; `None` when `regex` does not
/// build the pattern.
pub uninterp spec fn first_replaced(
    find: Seq<char>,
    ignore_case: bool,
    text: Seq<char>,
    with: Seq<char>,
) -> Option<Seq<char>>;

/// `text` with every match of the pattern `find` replaced by the expansion
/// of `with`, as `regex` computes it; `None` when `regex` does not build the
/// pattern.
pub uninterp spec fn all_replaced(
    find: Seq<char>,
    ignore_case: bool,
    text: Seq<char>,
    with: Seq<char>,
) -> Option<Seq<char>>;

/// The text that a result of replacing stands for.
pub open spec fn replaced_of(r: Result<String, regex::Error>) -> Option<Seq<char>> {
    match r {
        Ok(s) => Some(s@),
        Err(_) => None,
    }
}

/// Builds `find` with `regex::RegexBuilder`, case-insensitive if asked, and
/// calls `Regex::replace`. An error of the build comes back as it is. The
/// contract only names the outcome: it depends on the arguments alone.
#[verifier::external_body]
fn replace_first(find: &str, ignore_case: bool, text: &str, with: &str) -> (r: Result<
    String,
    regex::Error,
>)
    ensures
        replaced_of(r) == first_replaced(find@, ignore_case, text@, with@),
{
    let re = regex::RegexBuilder::new(find).case_insensitive(ignore_case).build()?;
    Ok(re.replace(text, with).into_owned())
}

/// Builds `find` with `regex::RegexBuilder`, case-insensitive if asked, and
/// calls `Regex::replace_all`. An error of the build comes back as it is. The
/// contract only names the outcome: it depends on the arguments alone.
#[verifier::external_body]
fn replace_every(find: &str, ignore_case: bool, text: &str, with: &str) -> (r: Result<
    String,
    regex::Error,
>)
    ensures
        replaced_of(r) == all_replaced(find@, ignore_case, text@, with@),
{
    let re = regex::RegexBuilder::new(find).case_insensitive(ignore_case).build()?;
    Ok(re.replace_all(text, with).into_owned())
}

/// The trigger that applies a substitution to a last message.
pub struct Sed;

/// What a `sed` line asks for.
pub ghost struct SedRequest {
    /// Whose last message is meant.
    pub author: Seq<char>,
    /// Whether the line names that author, who may be somebody else.
    pub foreign: bool,
    /// The pattern and the replacement, where the line holds both.
    pub substitution: Option<(Seq<char>, Seq<char>)>,
    /// Whether every match is replaced, not only the first.
    pub global: bool,
    /// Whether the pattern ignores case.
    pub ignore_case: bool,
}

/// What the groups `u`, `r`, `w` and `f` of a match ask for, on a line by `sender`.
pub open spec fn sed_request(sender: Seq<char>, captures: OwnedCaptures) -> SedRequest {
    SedRequest {
        author: match captures.named("u"@) {
            Some(author) => author,
            None => sender,
        },
        foreign: captures.named("u"@) is Some,
        substitution: match (captures.named("r"@), captures.named("w"@)) {
            (Some(find), Some(with)) => Some((find, with)),
            _ => None,
        },
        global: captures.named("f"@) matches Some(flags) && flags.contains('g'),
        ignore_case: captures.named("f"@) matches Some(flags) && flags.contains('i'),
    }
}

/// The corrected text, or `None` where the pattern cannot be built.
pub open spec fn sed_result(req: SedRequest, message: Seq<char>) -> Option<Seq<char>> {
    match req.substitution {
        Some((find, with)) => if req.global {
            all_replaced(find, req.ignore_case, message, with)
        } else {
            first_replaced(find, req.ignore_case, message, with)
        },
        None => None,
    }
}

/// Whether `s` holds the character `c`.
fn has_char(s: &str, c: char) -> (r: bool)
    ensures
        r == s@.contains(c),
{
    let chars = chars_of(s);
    let at = find_char(&chars, 0, c);
    proof {
        lemma_first_index_of(chars@, 0, c);
        if at < chars.len() {
            assert(chars@[at as int] == c);
        }
    }
    at < chars.len()
}

impl Sed {
    /// Applies the substitution of a matched line. The message that is
    /// corrected is the last one of the named author, else of the sender.
    /// Without such a message, or without a pattern and a replacement, the
    /// answer says so and nothing changes. A pattern that cannot be built is an
    /// error and changes nothing. A correction of the sender's own message
    /// replaces it in the history; one of somebody else's message is only shown.
    pub fn execute(&self, ctx: &TriggerContext, history: &mut MessageHistory) -> (r: Result<
        String,
        regex::Error,
    >)
        requires
            ctx.captures.wf(),
            old(history).wf(),
        ensures
            final(history).wf(),
            final(history).capacity() == old(history).capacity(),
            ({
                let req = sed_request(ctx.author@, ctx.captures);
                let log = log_of(old(history)@, req.author);
                if log.len() == 0 {
                    &&& r matches Ok(text)
                    &&& text@ == "No previous messages found."@
                    &&& final(history)@ == old(history)@
                } else if req.substitution is None {
                    &&& r matches Ok(text)
                    &&& text@ == "Invalid usage."@
                    &&& final(history)@ == old(history)@
                } else {
                    match sed_result(req, log.last()) {
                        None => r is Err && final(history)@ == old(history)@,
                        Some(result) => if req.foreign {
                            &&& r matches Ok(text)
                            &&& text@ == "(edited by "@ + ctx.author@ + ") <"@ + req.author + "> "@
                                + result
                            &&& final(history)@ == old(history)@
                        } else {
                            &&& r matches Ok(text)
                            &&& text@ == "<"@ + req.author + "> "@ + result
                            &&& final(history)@ == old(history)@.insert(
                                req.author,
                                log_edit(log, 0, result),
                            )
                        },
                    }
                }
            }),
    {
        let named = ctx.captures.name("u");
        let foreign_author = named.is_some();
        let author: &str = match named {
            Some(author) => author,
            None => ctx.author.as_str(),
        };
        let message = match history.last_msg(author) {
            Some(msg) => msg,
            None => {
                return Ok("No previous messages found.".to_owned());
            },
        };
        let (find, replace) = match (ctx.captures.name("r"), ctx.captures.name("w")) {
            (Some(find), Some(replace)) => (find, replace),
            _ => {
                return Ok("Invalid usage.".to_owned());
            },
        };
        let (global, ignore_case) = match ctx.captures.name("f") {
            Some(flags) => (has_char(flags, 'g'), has_char(flags, 'i')),
            None => (false, false),
        };
        let replaced = if global {
            replace_every(find, ignore_case, message.as_str(), replace)
        } else {
            replace_first(find, ignore_case, message.as_str(), replace)
        };
        let result = match replaced {
            Ok(result) => result,
            Err(e) => {
                return Err(e);
            },
        };
        if foreign_author {
            let mut text = "(edited by ".to_owned();
            text.append(ctx.author.as_str());
            text.append(") <");
            text.append(author);
            text.append("> ");
            text.append(result.as_str());
            Ok(text)
        } else {
            let mut text = "<".to_owned();
            text.append(author);
            text.append("> ");
            text.append(result.as_str());
            history.edit_message(author, 0, result);
            Ok(text)
        }
    }
}

} // verus!
