//! The commands that run code on the Rust playground: which code is sent,
//! and what is shown of the answer.

pub mod util;

use vstd::prelude::*;
use vstd::string::*;
use crate::bot::CommandContext;
use crate::commands::playground::util::{
    chunk_len, format_play_eval_stderr, play_eval_stderr, StrChunks,
};
use crate::history::{log_tail, texts_of, MessageHistory};
use crate::text::{
    chars_of, contains_text, join, joined, lines_of, parse_number, parse_usize, push_char, rfind,
    split_lines, string_of, utf8_len, NumberError,
};

verus! {

/// What the playground answered.
#[derive(Debug)]
pub struct PlayResult {
    pub success: bool,
    pub stdout: String,
    pub stderr: String,
}

impl PlayResult {
    /// The result that stands for an answer which holds nothing but an error.
    pub fn from_error(error: String) -> (r: PlayResult)
        ensures
            !r.success,
            r.stdout@ == Seq::<char>::empty(),
            r.stderr@ == error@,
    {
        PlayResult { success: false, stdout: String::new(), stderr: error }
    }
}

/// Why there is no code to run.
#[derive(Debug, Clone, Copy, PartialEq, Eq, Structural)]
pub enum PlayError {
    /// The command has no argument.
    NoCount,
    /// The argument is no number.
    BadCount(NumberError),
    /// The author has no recorded messages.
    NoCode,
    /// The code for `dbg` holds a `main` function.
    MainInDbg,
}

impl PlayError {
    /// The error in words.
    pub fn message(&self) -> (m: String)
        ensures
            m@ == match self {
                PlayError::NoCount => "No count specified"@,
                PlayError::BadCount(NumberError::Empty) => "cannot parse integer from empty string"@,
                PlayError::BadCount(NumberError::InvalidDigit) => "invalid digit found in string"@,
                PlayError::BadCount(NumberError::TooLarge) => "number too large to fit in target type"@,
                PlayError::NoCode => "No code to run!"@,
                PlayError::MainInDbg => "fn main is not allowed in dbg"@,
            },
    {
        match self {
            PlayError::NoCount => "No count specified".to_owned(),
            PlayError::BadCount(e) => e.message(),
            PlayError::NoCode => "No code to run!".to_owned(),
            PlayError::MainInDbg => "fn main is not allowed in dbg".to_owned(),
        }
    }
}

/// The code as `dbg` runs it: an expression whose value is printed.
pub open spec fn dbg_wrapped(code: Seq<char>) -> Seq<char> {
    "fn main() { println!(\"{:?}\", {"@ + code + "}) }"@
}

/// The code that a playground command runs.
pub open spec fn play_code_spec(
    content: Option<Seq<char>>,
    log: Option<Seq<Seq<char>>>,
    dbg: bool,
) -> Result<Seq<char>, PlayError> {
    match content {
        None => Err(PlayError::NoCount),
        Some(c) => match parse_number(c, usize::MAX as nat) {
            Err(e) => Err(PlayError::BadCount(e)),
            Ok(count) => match log {
                None => Err(PlayError::NoCode),
                Some(log) => {
                    let code = joined(log_tail(log, count), "\n"@);
                    if !dbg {
                        Ok(code)
                    } else if contains_text(code, "fn main()"@) {
                        Err(PlayError::MainInDbg)
                    } else {
                        Ok(dbg_wrapped(code))
                    }
                },
            },
        },
    }
}

/// What a result of [`play_code`] stands for.
pub open spec fn code_of(r: Result<String, PlayError>) -> Result<Seq<char>, PlayError> {
    match r {
        Ok(s) => Ok(s@),
        Err(e) => Err(e),
    }
}

/// The code to run: the author's most recent messages, as many as the
/// argument says, oldest first, one to a line. For `dbg` the code is an
/// expression to print, and must hold no `main` function.
pub fn play_code(ctx: &CommandContext, history: &MessageHistory, dbg: bool) -> (r: Result<
    String,
    PlayError,
>)
    requires
        history.wf(),
    ensures
        code_of(r) == play_code_spec(
            crate::text::optional_text(ctx.content),
            if history@.dom().contains(ctx.author@) {
                Some(history@[ctx.author@])
            } else {
                None
            },
            dbg,
        ),
{
    let content = match &ctx.content {
        Some(c) => c,
        None => {
            return Err(PlayError::NoCount);
        },
    };
    let count = match parse_usize(content.as_str()) {
        Ok(count) => count,
        Err(e) => {
            return Err(PlayError::BadCount(e));
        },
    };
    let messages = match history.last_msgs(ctx.author.as_str(), count) {
        Some(messages) => messages,
        None => {
            return Err(PlayError::NoCode);
        },
    };
    assert(Seq::new(messages@.len(), |i: int| messages@[i]@) =~= texts_of(messages@));
    let code = join(&messages, "\n");
    if dbg {
        let text = chars_of(code.as_str());
        let main = chars_of("fn main()");
        if rfind(&text, &main).is_some() {
            return Err(PlayError::MainInDbg);
        }
        let mut wrapped = "fn main() { println!(\"{:?}\", {".to_owned();
        wrapped.append(code.as_str());
        wrapped.append("}) }");
        Ok(wrapped)
    } else {
        Ok(code)
    }
}

/// `s` with a carriage return before every line feed.
pub open spec fn with_returns(s: Seq<char>) -> Seq<char>
    decreases s.len(),
{
    if s.len() == 0 {
        Seq::empty()
    } else if s.last() == '\n' {
        with_returns(s.drop_last()) + seq!['\r', '\n']
    } else {
        with_returns(s.drop_last()).push(s.last())
    }
}

/// What is shown of an answer of the playground: the program's error
/// output, then its output, each line ending in a carriage return and a line feed.
pub open spec fn play_output_spec(stdout: Seq<char>, stderr: Seq<char>) -> Seq<char> {
    let errors = play_eval_stderr(stderr, false);
    with_returns(
        if errors.len() == 0 {
            stdout
        } else if stdout.len() == 0 {
            errors
        } else {
            errors + "\n"@ + stdout
        },
    )
}

/// What is shown of an answer of the playground.
pub fn play_output(result: PlayResult) -> (to_send: String)
    ensures
        to_send@ == play_output_spec(result.stdout@, result.stderr@),
{
    let errors = format_play_eval_stderr(result.stderr.as_str(), false);
    let plain = if errors.as_str().unicode_len() == 0 {
        result.stdout
    } else if result.stdout.as_str().unicode_len() == 0 {
        errors
    } else {
        let mut both = errors;
        both.append("\n");
        both.append(result.stdout.as_str());
        both
    };
    let chars = chars_of(plain.as_str());
    let mut to_send = String::new();
    let mut i: usize = 0;
    while i < chars.len()
        invariant
            i <= chars.len(),
            to_send@ == with_returns(chars@.take(i as int)),
        decreases chars.len() - i,
    {
        if chars[i] == '\n' {
            push_char(&mut to_send, '\r');
        }
        push_char(&mut to_send, chars[i]);
        i += 1;
        proof {
            assert(chars@.take(i as int).drop_last() =~= chars@.take(i - 1));
            assert(chars@.take(i as int).last() == chars@[i - 1]);
            assert(to_send@ =~= with_returns(chars@.take(i as int)));
        }
    }
    assert(chars@.take(i as int) =~= chars@);
    to_send
}

/// The number of pieces of at most `size` bytes that `s` is cut into. A text
/// whose next character does not fit a piece is not cut further.
pub open spec fn piece_count(s: Seq<char>, size: nat) -> nat
    decreases s.len(),
{
    let n = chunk_len(s, size);
    if s.len() == 0 || n == 0 || n > s.len() {
        0
    } else {
        1 + piece_count(s.subrange(n as int, s.len() as int), size)
    }
}

/// The number of pieces that all of `lines` are cut into.
pub open spec fn pieces_of(lines: Seq<Seq<char>>, size: nat) -> nat
    decreases lines.len(),
{
    if lines.len() == 0 {
        0
    } else {
        pieces_of(lines.drop_last(), size) + piece_count(lines.last(), size)
    }
}

/// The greatest number of bytes in a line of an answer.
pub const PIECE_SIZE: usize = 400;

/// The greatest number of lines in an answer.
pub const MAX_PIECES: usize = 10;

/// The number of pieces of at most 400 bytes that `line` is cut into, counted up to `limit`.
fn count_pieces(line: &Vec<char>, limit: usize) -> (n: usize)
    ensures
        n <= limit,
        n == if piece_count(line@, PIECE_SIZE as nat) <= limit {
            piece_count(line@, PIECE_SIZE as nat)
        } else {
            limit as nat
        },
{
    let text = string_of(line, 0, line.len());
    assert(line@.subrange(0, line@.len() as int) =~= line@);
    let mut chunks = StrChunks::new(text.as_str(), PIECE_SIZE);
    let mut n: usize = 0;
    while n < limit
        invariant
            n <= limit,
            chunks.wf(),
            chunks.size() == PIECE_SIZE,
            piece_count(line@, PIECE_SIZE as nat) == n + piece_count(
                chunks.rest(),
                PIECE_SIZE as nat,
            ),
        decreases limit - n,
    {
        let ghost rest = chunks.rest();
        proof {
            if rest.len() > 0 {
                assert(utf8_len(rest[0]) <= 4);
                assert(chunk_len(rest, PIECE_SIZE as nat) >= 1);
            }
        }
        match chunks.next() {
            Some(_) => {
                n += 1;
            },
            None => {
                return n;
            },
        }
    }
    n
}

/// Whether an answer takes more than ten lines, a line being cut into
/// pieces of at most 400 bytes.
pub fn too_large(to_send: &str) -> (r: bool)
    ensures
        r == (pieces_of(lines_of(to_send@), PIECE_SIZE as nat) > MAX_PIECES),
{
    let text = chars_of(to_send);
    let lines = split_lines(&text);
    let ghost all = Seq::new(lines@.len(), |i: int| lines@[i]@);
    let mut total: usize = 0;
    let mut i: usize = 0;
    while i < lines.len()
        invariant
            i <= lines.len(),
            all == Seq::new(lines@.len(), |i: int| lines@[i]@),
            all == lines_of(to_send@),
            total <= MAX_PIECES,
            total == pieces_of(all.take(i as int), PIECE_SIZE as nat),
        decreases lines.len() - i,
    {
        let room = MAX_PIECES + 1 - total;
        let n = count_pieces(&lines[i], room);
        proof {
            assert(all.take(i + 1).drop_last() =~= all.take(i as int));
            assert(all.take(i + 1).last() == lines@[i as int]@);
            lemma_pieces_grow(all, i + 1);
        }
        if n == room {
            return true;
        }
        total += n;
        i += 1;
    }
    assert(all.take(i as int) =~= all);
    false
}

/// The pieces of the first lines are among the pieces of all lines.
proof fn lemma_pieces_grow(lines: Seq<Seq<char>>, n: int)
    requires
        0 <= n <= lines.len(),
    ensures
        pieces_of(lines.take(n), PIECE_SIZE as nat) <= pieces_of(lines, PIECE_SIZE as nat),
    decreases lines.len() - n,
{
    if n < lines.len() {
        lemma_pieces_grow(lines, n + 1);
        assert(lines.take(n + 1).drop_last() =~= lines.take(n));
    } else {
        assert(lines.take(n) =~= lines);
    }
}

/// The address under which the playground shows the gist `gist_id`.
pub fn gist_link(gist_id: &str) -> (link: String)
    ensures
        link@ == "https://play.rust-lang.org/?version=stable&mode=debug&edition=2021&gist="@
            + gist_id@,
{
    let mut link =
        "https://play.rust-lang.org/?version=stable&mode=debug&edition=2021&gist=".to_owned();
    link.append(gist_id);
    link
}

/// What is shown in place of an answer that is too large.
pub fn large_output(link: &str) -> (to_send: String)
    ensures
        to_send@ == "Output too large.\r\nPlayground link: "@ + link@,
{
    let mut to_send = "Output too large.\r\nPlayground link: ".to_owned();
    to_send.append(link);
    to_send
}

/// The answer to the author: their name, and on the next line what is shown.
pub fn play_reply(author: &str, to_send: &str) -> (text: String)
    ensures
        text@ == author@ + ":\r\n"@ + to_send@,
{
    let mut text = author.to_owned();
    text.append(":\r\n");
    text.append(to_send);
    text
}

} // verus!
