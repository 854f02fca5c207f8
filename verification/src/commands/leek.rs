//! The commands that garble somebody's last message: `leet` replaces letters
//! by digits, `mock` mixes upper and lower case at random, `owo` speaks cute.
//! An answer has room for 512 bytes.

use arrayvec::ArrayString;
use vstd::prelude::*;
use vstd::string::*;
use crate::bot::CommandContext;
use crate::history::{log_of, MessageHistory};
use crate::text::{
    ascii_lower, ascii_upper, byte_len, chars_of, lemma_byte_len_concat, lemma_byte_len_push,
    to_ascii_lower, to_ascii_upper, utf8_len,
};

verus! {

/// A string with room for a fixed number of bytes.
#[verifier::external_type_specification]
#[verifier::external_body]
pub struct ExArrayString<const CAP: usize>(ArrayString<CAP>);

/// The text that a bounded string holds.
pub uninterp spec fn array_text(a: ArrayString<512>) -> Seq<char>;

/// Calls `ArrayString::new`: the new string is empty.
#[verifier::external_body]
fn array_new() -> (a: ArrayString<512>)
    ensures
        array_text(a) == Seq::<char>::empty(),
{
    ArrayString::new()
}

/// Calls `ArrayString::try_push`, which appends `c` where the bytes of its
/// UTF-8 encoding still fit into the 512, and else leaves the string as it is.
/// The answer is whether `c` was appended.
#[verifier::external_body]
fn array_try_push(a: &mut ArrayString<512>, c: char) -> (fits: bool)
    ensures
        fits == (byte_len(array_text(*old(a))) + utf8_len(c) <= 512),
        array_text(*final(a)) == if fits {
            array_text(*old(a)).push(c)
        } else {
            array_text(*old(a))
        },
{
    a.try_push(c).is_ok()
}

/// Calls `ArrayString::as_str` and copies the text.
#[verifier::external_body]
fn array_to_string(a: &ArrayString<512>) -> (s: String)
    ensures
        s@ == array_text(*a),
{
    a.as_str().to_owned()
}

/// Calls `rand::random` for a `bool`.
#[verifier::external_body]
fn coin() -> bool {
    rand::random()
}

/// Calls `Rng::gen_ratio` on the thread's generator: `true` with the
/// probability `numerator / denominator`. The call panics for a zero
/// denominator and for a numerator above the denominator.
#[verifier::external_body]
fn chance(numerator: u32, denominator: u32) -> bool
    requires
        0 < denominator,
        numerator <= denominator,
{
    rand::Rng::gen_ratio(&mut rand::thread_rng(), numerator, denominator)
}

/// Calls `Rng::gen_range(0..bound)` on the thread's generator: a number
/// below `bound`. The call panics for an empty range.
#[verifier::external_body]
fn below(bound: u8) -> (r: u8)
    requires
        0 < bound,
    ensures
        r < bound,
{
    rand::Rng::gen_range(&mut rand::thread_rng(), 0..bound)
}

/// The answer does not fit into 512 bytes.
#[derive(Debug, Clone, Copy, PartialEq, Eq, Structural)]
pub struct CapacityError;

impl CapacityError {
    /// The error in words.
    pub fn message(&self) -> (m: String)
        ensures
            m@ == "insufficient capacity"@,
    {
        "insufficient capacity".to_owned()
    }
}

/// `text` where it fits into 512 bytes.
pub open spec fn capped(text: Seq<char>) -> Option<Seq<char>> {
    if byte_len(text) <= 512 {
        Some(text)
    } else {
        None
    }
}

/// The text that a result stands for.
pub open spec fn result_text(r: Result<String, CapacityError>) -> Option<Seq<char>> {
    match r {
        Ok(s) => Some(s@),
        Err(_) => None,
    }
}

/// Puts `text` into a string with room for 512 bytes.
pub(crate) fn bounded(text: &Vec<char>) -> (r: Result<String, CapacityError>)
    ensures
        result_text(r) == capped(text@),
{
    let mut builder = array_new();
    let mut i: usize = 0;
    while i < text.len()
        invariant
            i <= text.len(),
            array_text(builder) == text@.take(i as int),
            byte_len(text@.take(i as int)) <= 512,
        decreases text.len() - i,
    {
        proof {
            lemma_byte_len_push(text@.take(i as int), text@[i as int]);
            assert(text@.take(i + 1) =~= text@.take(i as int).push(text@[i as int]));
        }
        if !array_try_push(&mut builder, text[i]) {
            proof {
                lemma_byte_len_concat(text@.take(i + 1), text@.skip(i + 1));
                assert(text@.take(i + 1) + text@.skip(i + 1) =~= text@);
            }
            return Err(CapacityError);
        }
        i += 1;
    }
    assert(text@.take(i as int) =~= text@);
    Ok(array_to_string(&builder))
}

/// The digit that stands for a letter, or the character itself.
pub open spec fn leet_char(c: char) -> char {
    let l = ascii_lower(c);
    if l == 'a' {
        '4'
    } else if l == 'e' {
        '3'
    } else if l == 'i' {
        '1'
    } else if l == 'o' {
        '0'
    } else if l == 'g' {
        '6'
    } else if l == 's' {
        '5'
    } else if l == 't' {
        '7'
    } else if l == 'b' {
        '8'
    } else {
        c
    }
}

/// `s` with letters replaced by the digits that look like them.
pub open spec fn leetified(s: Seq<char>) -> Seq<char> {
    Seq::new(s.len(), |i: int| leet_char(s[i]))
}

/// Replaces letters by the digits that look like them.
pub fn leetify(input: &str) -> (r: Result<String, CapacityError>)
    ensures
        result_text(r) == capped(leetified(input@)),
{
    let chars = chars_of(input);
    let mut out: Vec<char> = Vec::new();
    let mut i: usize = 0;
    while i < chars.len()
        invariant
            i <= chars.len(),
            chars@ == input@,
            out@ == leetified(input@).take(i as int),
        decreases chars.len() - i,
    {
        let ch = chars[i];
        let l = to_ascii_lower(ch);
        let d = if l == 'a' {
            '4'
        } else if l == 'e' {
            '3'
        } else if l == 'i' {
            '1'
        } else if l == 'o' {
            '0'
        } else if l == 'g' {
            '6'
        } else if l == 's' {
            '5'
        } else if l == 't' {
            '7'
        } else if l == 'b' {
            '8'
        } else {
            ch
        };
        out.push(d);
        i += 1;
        assert(out@ =~= leetified(input@).take(i as int));
    }
    assert(leetified(input@).take(i as int) =~= leetified(input@));
    bounded(&out)
}

/// The draw for position `i`, `false` where none was made.
pub open spec fn flip_at(flips: Seq<bool>, i: int) -> bool {
    0 <= i < flips.len() && flips[i]
}

/// The draw for position `i`, 0 where none was made.
pub open spec fn face_at(faces: Seq<u8>, i: int) -> u8 {
    if 0 <= i < faces.len() {
        faces[i]
    } else {
        0
    }
}

/// `s` with each letter in upper case where the draw for its position is
/// `true`, and in lower case where it is `false`.
pub open spec fn mocked(s: Seq<char>, flips: Seq<bool>) -> Seq<char> {
    Seq::new(
        s.len(),
        |i: int|
            if flip_at(flips, i) {
                ascii_upper(s[i])
            } else {
                ascii_lower(s[i])
            },
    )
}

/// Puts each letter of `input` in upper or lower case as `flips` says, position by position.
pub fn mock_with(input: &str, flips: &Vec<bool>) -> (r: Result<String, CapacityError>)
    ensures
        result_text(r) == capped(mocked(input@, flips@)),
{
    let chars = chars_of(input);
    let mut out: Vec<char> = Vec::new();
    let mut i: usize = 0;
    while i < chars.len()
        invariant
            i <= chars.len(),
            chars@ == input@,
            out@ == mocked(input@, flips@).take(i as int),
        decreases chars.len() - i,
    {
        let up = i < flips.len() && flips[i];
        if up {
            out.push(to_ascii_upper(chars[i]));
        } else {
            out.push(to_ascii_lower(chars[i]));
        }
        i += 1;
        assert(out@ =~= mocked(input@, flips@).take(i as int));
    }
    assert(mocked(input@, flips@).take(i as int) =~= mocked(input@, flips@));
    bounded(&out)
}

/// Puts each letter of `input` in upper or lower case at random.
pub fn mock(input: &str) -> (r: Result<String, CapacityError>)
    ensures
        exists|flips: Seq<bool>| result_text(r) == capped(#[trigger] mocked(input@, flips)),
{
    let n = input.unicode_len();
    let mut flips: Vec<bool> = Vec::new();
    let mut i: usize = 0;
    while i < n
        invariant
            i <= n,
        decreases n - i,
    {
        flips.push(coin());
        i += 1;
    }
    let r = mock_with(input, &flips);
    assert(result_text(r) == capped(mocked(input@, flips@)));
    r
}

/// Whether `c` is an ASCII character.
pub open spec fn is_ascii_char(c: char) -> bool {
    (c as u32) < 128
}

/// `c` with `r` and `l`, in either case, turned into `w`.
pub open spec fn owo_letter(c: char) -> char {
    if ascii_lower(c) == 'r' || ascii_lower(c) == 'l' {
        'w'
    } else {
        c
    }
}

/// Whether `c` is a small vowel.
pub open spec fn is_vowel(c: char) -> bool {
    c == 'a' || c == 'e' || c == 'i' || c == 'o' || c == 'u'
}

/// The face with the number `n`.
pub open spec fn face(n: u8) -> Seq<char> {
    if n == 1 {
        " >~<"@
    } else if n == 2 {
        " (◕ᴗ◕✿)"@
    } else if n == 3 {
        " >w<"@
    } else if n == 4 {
        " >_<"@
    } else if n == 5 {
        " OwO"@
    } else {
        " ^^"@
    }
}

/// What one character `c` comes to after the character `last`: a stutter
/// after a space if the draw says so, a `y` between `n` and a vowel, a face
/// before a full stop, and then the character.
pub open spec fn owo_piece(last: char, c: char, stutter: bool, face_no: u8) -> Seq<char> {
    let stuttered = if last == ' ' && stutter {
        seq![c, '-']
    } else {
        Seq::empty()
    };
    let inserted = if is_vowel(c) && last == 'n' {
        seq!['y']
    } else if c == '.' {
        face(face_no)
    } else {
        Seq::empty()
    };
    stuttered + inserted + seq![c]
}

/// What the first `n` characters of `input` come to, and the last character
/// that was written. Characters outside ASCII are left out.
pub open spec fn owo_body(input: Seq<char>, stutters: Seq<bool>, faces: Seq<u8>, n: nat) -> (
    Seq<char>,
    char,
)
    decreases n,
{
    if n == 0 {
        (Seq::empty(), '\0')
    } else {
        let (text, last) = owo_body(input, stutters, faces, (n - 1) as nat);
        let c0 = input[n - 1];
        if !is_ascii_char(c0) {
            (text, last)
        } else {
            let c = owo_letter(c0);
            (text + owo_piece(last, c, flip_at(stutters, n - 1), face_at(faces, n - 1)), c)
        }
    }
}

/// `input` spoken cute, with the draws `stutters` and `faces` for each position.
pub open spec fn owoified(input: Seq<char>, stutters: Seq<bool>, faces: Seq<u8>) -> Seq<char> {
    "\x1d"@ + owo_body(input, stutters, faces, input.len()).0 + "~~"@
}

/// Appends all of `more` to `out`.
fn extend(out: &mut Vec<char>, more: &Vec<char>)
    ensures
        final(out)@ == old(out)@ + more@,
{
    let mut i: usize = 0;
    while i < more.len()
        invariant
            i <= more.len(),
            out@ == old(out)@ + more@.take(i as int),
        decreases more.len() - i,
    {
        out.push(more[i]);
        i += 1;
        assert(out@ =~= old(out)@ + more@.take(i as int));
    }
    assert(more@.take(i as int) =~= more@);
}

/// The face with the number `n`.
fn face_of(n: u8) -> (f: Vec<char>)
    ensures
        f@ == face(n),
{
    if n == 1 {
        chars_of(" >~<")
    } else if n == 2 {
        chars_of(" (◕ᴗ◕✿)")
    } else if n == 3 {
        chars_of(" >w<")
    } else if n == 4 {
        chars_of(" >_<")
    } else if n == 5 {
        chars_of(" OwO")
    } else {
        chars_of(" ^^")
    }
}

/// Speaks `input` cute, with the draws `stutters` and `faces` for each position.
pub fn owoify_with(input: &str, stutters: &Vec<bool>, faces: &Vec<u8>) -> (r: Result<
    String,
    CapacityError,
>)
    ensures
        result_text(r) == capped(owoified(input@, stutters@, faces@)),
{
    let chars = chars_of(input);
    let mut out: Vec<char> = chars_of("\x1d");
    let mut last_char = '\0';
    let mut i: usize = 0;
    while i < chars.len()
        invariant
            i <= chars.len(),
            chars@ == input@,
            out@ == "\x1d"@ + owo_body(input@, stutters@, faces@, i as nat).0,
            last_char == owo_body(input@, stutters@, faces@, i as nat).1,
        decreases chars.len() - i,
    {
        let ghost before = out@;
        let c0 = chars[i];
        if (c0 as u32) < 128 {
            // owoify character
            let l = to_ascii_lower(c0);
            let ch = if l == 'r' || l == 'l' {
                'w'
            } else {
                c0
            };
            let stutter = i < stutters.len() && stutters[i];
            let face_no: u8 = if i < faces.len() {
                faces[i]
            } else {
                0
            };
            // stutter (e.g. "o-ohayou gozaimasu!")
            if last_char == ' ' && stutter {
                out.push(ch);
                out.push('-');
            }
            if (ch == 'a' || ch == 'e' || ch == 'i' || ch == 'o' || ch == 'u') && last_char == 'n' {
                // nya-ify
                out.push('y');
            } else if ch == '.' {
                // textmoji
                let f = face_of(face_no);
                extend(&mut out, &f);
            }
            out.push(ch);
            assert(out@ =~= before + owo_piece(last_char, ch, stutter, face_no));
            last_char = ch;
        }
        i += 1;
        assert(out@ =~= "\x1d"@ + owo_body(input@, stutters@, faces@, i as nat).0);
    }
    let tail = chars_of("~~");
    extend(&mut out, &tail);
    assert(out@ =~= owoified(input@, stutters@, faces@));
    bounded(&out)
}

/// Speaks `input` cute, with a stutter after one space in five and a face
/// picked at random before each full stop.
pub fn owoify(input: &str) -> (r: Result<String, CapacityError>)
    ensures
        exists|stutters: Seq<bool>, faces: Seq<u8>|
            result_text(r) == capped(#[trigger] owoified(input@, stutters, faces)),
{
    let n = input.unicode_len();
    let mut stutters: Vec<bool> = Vec::new();
    let mut faces: Vec<u8> = Vec::new();
    let mut i: usize = 0;
    while i < n
        invariant
            i <= n,
        decreases n - i,
    {
        stutters.push(chance(1, 5));
        faces.push(below(6));
        i += 1;
    }
    let r = owoify_with(input, &stutters, &faces);
    assert(result_text(r) == capped(owoified(input@, stutters@, faces@)));
    r
}

/// The three ways to garble a message.
#[derive(Debug, Clone, Copy, PartialEq, Eq, Structural)]
pub enum LeekCommand {
    Owo,
    Leet,
    Mock,
}

/// Whose last message a command garbles: the author named by the argument,
/// else the author of the command.
pub open spec fn leek_subject(msg: &CommandContext) -> Seq<char> {
    match msg.content {
        Some(nick) => nick@,
        None => msg.author@,
    }
}

/// Whether `r` is an answer of `cmd` to the message `text`.
pub open spec fn garbles(cmd: LeekCommand, text: Seq<char>, r: Result<String, CapacityError>) -> bool {
    match cmd {
        LeekCommand::Owo => exists|stutters: Seq<bool>, faces: Seq<u8>|
            result_text(r) == capped(#[trigger] owoified(text, stutters, faces)),
        LeekCommand::Leet => result_text(r) == capped(leetified(text)),
        LeekCommand::Mock => exists|flips: Seq<bool>|
            result_text(r) == capped(#[trigger] mocked(text, flips)),
    }
}

/// Garbles the last message of the author that the command names, or of its
/// own author. Without such a message the answer says so.
pub fn execute_leek(cmd: LeekCommand, msg: &CommandContext, history: &MessageHistory) -> (r: Result<
    String,
    CapacityError,
>)
    requires
        history.wf(),
    ensures
        ({
            let log = log_of(history@, leek_subject(msg));
            if log.len() == 0 {
                r matches Ok(text) && text@ == "No previous messages found."@
            } else {
                garbles(cmd, log.last(), r)
            }
        }),
{
    let nick = match &msg.content {
        Some(nick) => nick,
        None => &msg.author,
    };
    match history.last_msg(nick.as_str()) {
        Some(last) => match cmd {
            LeekCommand::Owo => owoify(last.as_str()),
            LeekCommand::Leet => leetify(last.as_str()),
            LeekCommand::Mock => mock(last.as_str()),
        },
        None => Ok("No previous messages found.".to_owned()),
    }
}

/// The command that speaks a last message cute.
pub struct Owo;

/// The command that writes a last message with digits for letters.
pub struct Leet;

/// The command that writes a last message in mixed case.
pub struct Mock;

impl Owo {
    /// Speaks the last message of the named author cute.
    pub fn execute(&self, msg: &CommandContext, history: &MessageHistory) -> (r: Result<
        String,
        CapacityError,
    >)
        requires
            history.wf(),
        ensures
            ({
                let log = log_of(history@, leek_subject(msg));
                if log.len() == 0 {
                    r matches Ok(text) && text@ == "No previous messages found."@
                } else {
                    garbles(LeekCommand::Owo, log.last(), r)
                }
            }),
    {
        execute_leek(LeekCommand::Owo, msg, history)
    }
}

impl Leet {
    /// Writes the last message of the named author with digits for letters.
    pub fn execute(&self, msg: &CommandContext, history: &MessageHistory) -> (r: Result<
        String,
        CapacityError,
    >)
        requires
            history.wf(),
        ensures
            ({
                let log = log_of(history@, leek_subject(msg));
                if log.len() == 0 {
                    r matches Ok(text) && text@ == "No previous messages found."@
                } else {
                    garbles(LeekCommand::Leet, log.last(), r)
                }
            }),
    {
        execute_leek(LeekCommand::Leet, msg, history)
    }
}

impl Mock {
    /// Writes the last message of the named author in mixed case.
    pub fn execute(&self, msg: &CommandContext, history: &MessageHistory) -> (r: Result<
        String,
        CapacityError,
    >)
        requires
            history.wf(),
        ensures
            ({
                let log = log_of(history@, leek_subject(msg));
                if log.len() == 0 {
                    r matches Ok(text) && text@ == "No previous messages found."@
                } else {
                    garbles(LeekCommand::Mock, log.last(), r)
                }
            }),
    {
        execute_leek(LeekCommand::Mock, msg, history)
    }
}

} // verus!
