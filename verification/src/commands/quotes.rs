//! The quote commands: `grab` stores what somebody said, `quot` recalls a
//! quote, `qsearch` and `qnext` page through the quotes that match a query.

use vstd::prelude::*;
use vstd::string::*;
use crate::bot::CommandContext;
use crate::database::{quote_views, Quote, QuoteSpec};
use crate::history::{log_tail, texts_of, MessageHistory};
use crate::text::{
    chars_of, join, joined, parse_number, parse_usize, push_decimal, decimal, split_after,
    split_once_space, str_eq, NumberError,
};

verus! {

/// The command that stores the last messages of somebody as a quote.
pub struct Grab;

/// The command that recalls a quote at random.
pub struct Quot;

/// The command that starts a search through the quotes.
pub struct Search {
    limit: usize,
}

/// The command that continues a search through the quotes.
pub struct SearchNext {
    limit: usize,
}

/// What `grab` does next.
pub enum GrabStep {
    /// Send this text.
    Reply(String),
    /// Store this quote, which was made of `taken` messages, and send the
    /// text of [`Grab::stored`] when that is done.
    Store { quote: Quote, taken: usize },
}

/// Whose messages `grab` is asked for, and how many: `count user`, or `user` for one message.
pub open spec fn grab_target(content: Seq<char>) -> Result<(Seq<char>, nat), NumberError> {
    let (first, second) = split_once_space(content);
    match second {
        Some(author) => match parse_number(first, usize::MAX as nat) {
            Ok(count) => Ok((author, count)),
            Err(e) => Err(e),
        },
        None => Ok((first, 1)),
    }
}

/// One found quote as it is shown: the text in quotation marks, then the author.
pub open spec fn quote_text(q: QuoteSpec) -> Seq<char> {
    "\""@ + q.quote + "\" ~"@ + q.author
}

/// The found quotes as they are shown, one to a line.
pub open spec fn quote_lines(quotes: Seq<QuoteSpec>) -> Seq<char>
    decreases quotes.len(),
{
    if quotes.len() == 0 {
        Seq::empty()
    } else {
        quote_lines(quotes.drop_last()) + quote_text(quotes.last()) + "\r\n"@
    }
}

/// The answer to a search that found `quotes` where at most `limit` were
/// asked for, ending in `more` when the limit was reached.
pub open spec fn search_answer(quotes: Seq<QuoteSpec>, limit: nat, more: Seq<char>) -> Seq<char> {
    if quotes.len() == 0 {
        "No results."@
    } else if quotes.len() == limit {
        quote_lines(quotes) + more
    } else {
        quote_lines(quotes)
    }
}

/// Appends one found quote to `buf` as it is shown.
fn push_quote(buf: &mut String, q: &Quote)
    ensures
        final(buf)@ == old(buf)@ + quote_text(q@),
{
    buf.append("\"");
    buf.append(q.quote.as_str());
    buf.append("\" ~");
    buf.append(q.author.as_str());
    assert(buf@ =~= old(buf)@ + quote_text(q@));
}

/// The answer to a search that found `results`.
fn answer_search(results: &Vec<Quote>, limit: usize, more: &str) -> (text: String)
    ensures
        text@ == search_answer(quote_views(results@), limit as nat, more@),
{
    if results.len() == 0 {
        return "No results.".to_owned();
    }
    let ghost quotes = quote_views(results@);
    let mut buf = String::new();
    let mut i: usize = 0;
    while i < results.len()
        invariant
            i <= results.len(),
            quotes == quote_views(results@),
            buf@ == quote_lines(quotes.take(i as int)),
        decreases results.len() - i,
    {
        push_quote(&mut buf, &results[i]);
        buf.append("\r\n");
        i += 1;
        proof {
            assert(quotes.take(i as int).drop_last() =~= quotes.take(i - 1));
            assert(quotes.take(i as int).last() == results@[i - 1]@);
            assert(buf@ =~= quote_lines(quotes.take(i as int)));
        }
    }
    assert(quotes.take(i as int) =~= quotes);
    if results.len() == limit {
        buf.append(more);
    }
    buf
}

impl Grab {
    /// Decides what a `grab` comes to. Without an argument the usage is
    /// wrong. The argument names an author, after a count where more than one
    /// message is wanted; a count that is no number is an error. Nothing is
    /// grabbed for a count of 0, from the author of the command, or from
    /// somebody the history does not know. Else the quote is the `count` most
    /// recent messages of the author, oldest first, joined by ` | `.
    pub fn execute(&self, msg: &CommandContext, history: &MessageHistory) -> (r: Result<
        GrabStep,
        NumberError,
    >)
        requires
            history.wf(),
        ensures
            match msg.content {
                None => r matches Ok(GrabStep::Reply(t)) && t@ == "Invalid usage."@,
                Some(content) => match grab_target(content@) {
                    Err(e) => r matches Err(x) && x == e,
                    Ok((author, count)) => if count == 0 {
                        r matches Ok(GrabStep::Reply(t)) && t@
                            == "So are you going to grab anything?"@
                    } else if author == msg.author@ {
                        r matches Ok(GrabStep::Reply(t)) && t@ == "You can't grab yourself."@
                    } else if !history@.dom().contains(author) {
                        r matches Ok(GrabStep::Reply(t)) && t@ == "No previous messages to grab."@
                    } else {
                        &&& r matches Ok(GrabStep::Store { quote, taken })
                        &&& quote.author@ == author
                        &&& quote.quote@ == joined(log_tail(history@[author], count), " | "@)
                        &&& taken == log_tail(history@[author], count).len()
                    },
                },
            },
    {
        let content = match &msg.content {
            Some(c) => c,
            None => {
                return Ok(GrabStep::Reply("Invalid usage.".to_owned()));
            },
        };
        let chars = chars_of(content.as_str());
        assert(chars@.subrange(0, chars@.len() as int) =~= chars@);
        let (first, second) = split_after(&chars, 0);
        let (author, count) = match second {
            Some(author) => match parse_usize(first.as_str()) {
                Ok(count) => (author, count),
                Err(e) => {
                    return Err(e);
                },
            },
            None => (first, 1),
        };
        if count == 0 {
            return Ok(GrabStep::Reply("So are you going to grab anything?".to_owned()));
        }
        if str_eq(author.as_str(), msg.author.as_str()) {
            return Ok(GrabStep::Reply("You can't grab yourself.".to_owned()));
        }
        match history.last_msgs(author.as_str(), count) {
            Some(messages) => {
                assert(Seq::new(messages@.len(), |i: int| messages@[i]@) =~= texts_of(messages@));
                let text = join(&messages, " | ");
                let taken = messages.len();
                Ok(GrabStep::Store { quote: Quote { author, quote: text }, taken })
            },
            None => Ok(GrabStep::Reply("No previous messages to grab.".to_owned())),
        }
    }

    /// The answer once a quote made of `taken` messages was stored.
    pub fn stored(taken: usize) -> (text: String)
        ensures
            text@ == "Quote added ("@ + decimal(taken as nat) + " messages)."@,
    {
        let mut text = "Quote added (".to_owned();
        push_decimal(&mut text, taken as u64);
        text.append(" messages).");
        text
    }
}

impl Quot {
    /// The answer to `quot`, given the quote that the store picked, if it had one.
    pub fn execute(&self, found: Option<Quote>) -> (text: String)
        ensures
            text@ == match found {
                Some(q) => quote_text(q@),
                None => "No quotes found from this user."@,
            },
    {
        match found {
            Some(q) => {
                let mut text = String::new();
                push_quote(&mut text, &q);
                assert(text@ =~= quote_text(q@));
                text
            },
            None => "No quotes found from this user.".to_owned(),
        }
    }
}

impl Search {
    /// A search command that asks for `limit` quotes at a time.
    pub fn new(limit: usize) -> (s: Self)
        ensures
            s.limit() == limit,
    {
        Self { limit }
    }

    /// The number of quotes asked for at a time.
    pub closed spec fn limit(&self) -> usize {
        self.limit
    }

    /// The number of quotes asked for at a time.
    pub fn page_size(&self) -> (n: usize)
        ensures
            n == self.limit(),
    {
        self.limit
    }

    /// What `qsearch` asks the store for: the query, which is the command's
    /// argument. Without an argument nothing is asked, and the answer says so.
    pub fn query(&self, msg: &CommandContext) -> (r: Result<String, String>)
        ensures
            match msg.content {
                Some(c) => r matches Ok(q) && q@ == c@,
                None => r matches Err(t) && t@ == "Invalid usage."@,
            },
    {
        match &msg.content {
            Some(c) => Ok(c.clone()),
            None => Err("Invalid usage.".to_owned()),
        }
    }

    /// The answer to `qsearch`, given the quotes that the store found.
    pub fn execute(&self, results: &Vec<Quote>) -> (text: String)
        ensures
            text@ == search_answer(
                quote_views(results@),
                self.limit() as nat,
                "Use 'qnext' for more results."@,
            ),
    {
        answer_search(results, self.limit, "Use 'qnext' for more results.")
    }
}

impl SearchNext {
    /// A command that continues a search with `limit` quotes at a time.
    pub fn new(limit: usize) -> (s: Self)
        ensures
            s.limit() == limit,
    {
        Self { limit }
    }

    /// The number of quotes asked for at a time.
    pub closed spec fn limit(&self) -> usize {
        self.limit
    }

    /// The number of quotes asked for at a time.
    pub fn page_size(&self) -> (n: usize)
        ensures
            n == self.limit(),
    {
        self.limit
    }

    /// The answer to `qnext`, given what the store found; `None` stands for
    /// a requester without a search in progress.
    pub fn execute(&self, results: &Option<Vec<Quote>>) -> (text: String)
        ensures
            text@ == match results {
                Some(found) => search_answer(
                    quote_views(found@),
                    self.limit() as nat,
                    "Use 'qnext' again for more results."@,
                ),
                None => "You need to initiate a search first using 'qsearch'."@,
            },
    {
        match results {
            Some(found) => answer_search(found, self.limit, "Use 'qnext' again for more results."),
            None => "You need to initiate a search first using 'qsearch'.".to_owned(),
        }
    }
}

} // verus!
