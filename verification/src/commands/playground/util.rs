//! What the playground commands show of a compiler's and a program's error
//! output, and how a long line is cut into pieces that fit a message.

use vstd::prelude::*;
use vstd::string::*;
use crate::text::{
    byte_len, char_len, chars_of, contains_text, find_char, first_index_of, last_index_of,
    last_occurrence, rfind, rfind_char, slice_of, string_of, utf8_len,
};

verus! {

/// The characters of each of some string slices.
pub open spec fn token_texts(tokens: Seq<&str>) -> Seq<Seq<char>> {
    Seq::new(tokens.len(), |i: int| tokens[i]@)
}

/// The greatest of the last occurrences in `s` of each of `tokens`.
pub open spec fn latest_token(s: Seq<char>, tokens: Seq<Seq<char>>) -> Option<int>
    decreases tokens.len(),
{
    if tokens.len() == 0 {
        None
    } else {
        match (latest_token(s, tokens.drop_last()), last_occurrence(s, tokens.last())) {
            (Some(a), Some(b)) => Some(
                if a >= b {
                    a
                } else {
                    b
                },
            ),
            (Some(a), None) => Some(a),
            (None, b) => b,
        }
    }
}

/// The least of the last occurrences in `s` of each of `tokens`.
pub open spec fn earliest_token(s: Seq<char>, tokens: Seq<Seq<char>>) -> Option<int>
    decreases tokens.len(),
{
    if tokens.len() == 0 {
        None
    } else {
        match (earliest_token(s, tokens.drop_last()), last_occurrence(s, tokens.last())) {
            (Some(a), Some(b)) => Some(
                if a <= b {
                    a
                } else {
                    b
                },
            ),
            (Some(a), None) => Some(a),
            (None, b) => b,
        }
    }
}

/// What follows the line of `s` in which position `at` lies.
pub open spec fn lines_after(s: Seq<char>, at: int) -> Seq<char> {
    let end = first_index_of(s, at, '\n');
    if end < s.len() {
        s.subrange(end + 1, s.len() as int)
    } else {
        Seq::empty()
    }
}

/// What precedes the line of `s` in which position `at` lies, with the line break before it.
pub open spec fn lines_before(s: Seq<char>, at: int) -> Seq<char> {
    match last_index_of(s, at, '\n') {
        Some(end) => s.subrange(0, end + 1),
        None => Seq::empty(),
    }
}

/// The number of line breaks that `s` begins with.
pub open spec fn leading_breaks(s: Seq<char>) -> nat
    decreases s.len(),
{
    if s.len() > 0 && s[0] == '\n' {
        1 + leading_breaks(s.drop_first())
    } else {
        0
    }
}

/// `s` with the line breaks at its end brought down to one.
pub open spec fn single_final_break(s: Seq<char>) -> Seq<char>
    decreases s.len(),
{
    if s.len() >= 2 && s[s.len() - 1] == '\n' && s[s.len() - 2] == '\n' {
        single_final_break(s.drop_last())
    } else {
        s
    }
}

/// `s` cut down to the lines after its last start token and before the
/// first of the last end tokens, without empty lines at its start and end.
pub open spec fn relevant_lines(s: Seq<char>, starts: Seq<Seq<char>>, ends: Seq<Seq<char>>) -> Seq<
    char,
> {
    let begun = match latest_token(s, starts) {
        Some(at) => lines_after(s, at),
        None => s,
    };
    let ended = match earliest_token(begun, ends) {
        Some(at) => lines_before(begun, at),
        None => begun,
    };
    let stripped = ended.subrange(leading_breaks(ended) as int, ended.len() as int);
    single_final_break(stripped)
}

proof fn lemma_leading_breaks(s: Seq<char>, i: int)
    requires
        0 <= i <= s.len(),
        forall|j: int| 0 <= j < i ==> s[j] == '\n',
    ensures
        leading_breaks(s) == i + leading_breaks(s.subrange(i, s.len() as int)),
        leading_breaks(s) <= s.len(),
    decreases i,
{
    if i > 0 {
        let t = s.drop_first();
        assert forall|j: int| 0 <= j < i - 1 implies t[j] == '\n' by {
            assert(t[j] == s[j + 1]);
        }
        lemma_leading_breaks(t, i - 1);
        assert(t.subrange(i - 1, t.len() as int) =~= s.subrange(i, s.len() as int));
        assert(s[0] == '\n');
    } else {
        assert(s.subrange(0, s.len() as int) =~= s);
        lemma_leading_breaks_bound(s);
    }
}

proof fn lemma_leading_breaks_bound(s: Seq<char>)
    ensures
        leading_breaks(s) <= s.len(),
    decreases s.len(),
{
    if s.len() > 0 && s[0] == '\n' {
        lemma_leading_breaks_bound(s.drop_first());
    }
}

/// The greatest of the last occurrences in `text` of each of `tokens`.
fn latest(text: &Vec<char>, tokens: &[&str]) -> (r: Option<usize>)
    ensures
        match r {
            Some(at) => latest_token(text@, token_texts(tokens@)) == Some(at as int)
                && at <= text.len(),
            None => latest_token(text@, token_texts(tokens@)) is None,
        },
{
    let ghost all = token_texts(tokens@);
    let mut best: Option<usize> = None;
    let mut i: usize = 0;
    while i < tokens.len()
        invariant
            i <= tokens.len(),
            all == token_texts(tokens@),
            match best {
                Some(at) => latest_token(text@, all.take(i as int)) == Some(at as int)
                    && at <= text.len(),
                None => latest_token(text@, all.take(i as int)) is None,
            },
        decreases tokens.len() - i,
    {
        let token = chars_of(tokens[i]);
        let found = rfind(text, &token);
        proof {
            assert(all.take(i + 1).drop_last() =~= all.take(i as int));
            assert(all.take(i + 1).last() == token@);
            crate::text::lemma_last_occurrence_from(text@, token@, text@.len() - token@.len());
        }
        best = match (best, found) {
            (Some(a), Some(b)) => Some(
                if a >= b {
                    a
                } else {
                    b
                },
            ),
            (Some(a), None) => Some(a),
            (None, b) => b,
        };
        i += 1;
    }
    assert(all.take(i as int) =~= all);
    best
}

/// The least of the last occurrences in `text` of each of `tokens`.
fn earliest(text: &Vec<char>, tokens: &[&str]) -> (r: Option<usize>)
    ensures
        match r {
            Some(at) => earliest_token(text@, token_texts(tokens@)) == Some(at as int)
                && at <= text.len(),
            None => earliest_token(text@, token_texts(tokens@)) is None,
        },
{
    let ghost all = token_texts(tokens@);
    let mut best: Option<usize> = None;
    let mut i: usize = 0;
    while i < tokens.len()
        invariant
            i <= tokens.len(),
            all == token_texts(tokens@),
            match best {
                Some(at) => earliest_token(text@, all.take(i as int)) == Some(at as int)
                    && at <= text.len(),
                None => earliest_token(text@, all.take(i as int)) is None,
            },
        decreases tokens.len() - i,
    {
        let token = chars_of(tokens[i]);
        let found = rfind(text, &token);
        proof {
            assert(all.take(i + 1).drop_last() =~= all.take(i as int));
            assert(all.take(i + 1).last() == token@);
            crate::text::lemma_last_occurrence_from(text@, token@, text@.len() - token@.len());
        }
        best = match (best, found) {
            (Some(a), Some(b)) => Some(
                if a <= b {
                    a
                } else {
                    b
                },
            ),
            (Some(a), None) => Some(a),
            (None, b) => b,
        };
        i += 1;
    }
    assert(all.take(i as int) =~= all);
    best
}

/// The lines of `text` that matter, as characters.
fn relevant(text: Vec<char>, strip_start_tokens: &[&str], strip_end_tokens: &[&str]) -> (r: Vec<
    char,
>)
    ensures
        r@ == relevant_lines(
            text@,
            token_texts(strip_start_tokens@),
            token_texts(strip_end_tokens@),
        ),
{
    // Find best matching start token, and keep only the lines after that
    let begun = match latest(&text, strip_start_tokens) {
        Some(at) => {
            let end = find_char(&text, at, '\n');
            if end < text.len() {
                slice_of(&text, end + 1, text.len())
            } else {
                Vec::new()
            }
        },
        None => text,
    };
    // Find best matching end token, and keep only the lines before that
    let ended = match earliest(&begun, strip_end_tokens) {
        Some(at) => match rfind_char(&begun, at, '\n') {
            Some(end) => slice_of(&begun, 0, end + 1),
            None => Vec::new(),
        },
        None => begun,
    };
    // Strip trailing or leading empty lines
    let mut from: usize = 0;
    while from < ended.len() && ended[from] == '\n'
        invariant
            from <= ended.len(),
            forall|j: int| 0 <= j < from ==> ended@[j] == '\n',
        decreases ended.len() - from,
    {
        from += 1;
    }
    proof {
        lemma_leading_breaks(ended@, from as int);
        let rest = ended@.subrange(from as int, ended@.len() as int);
        if from < ended.len() {
            assert(rest[0] == ended@[from as int]);
        }
        assert(leading_breaks(rest) == 0);
    }
    let ghost stripped = ended@.subrange(from as int, ended@.len() as int);
    let mut to: usize = ended.len();
    while to - from >= 2 && ended[to - 1] == '\n' && ended[to - 2] == '\n'
        invariant
            from <= to <= ended.len(),
            stripped == ended@.subrange(from as int, ended@.len() as int),
            single_final_break(stripped) == single_final_break(
                ended@.subrange(from as int, to as int),
            ),
        decreases to,
    {
        proof {
            let cur = ended@.subrange(from as int, to as int);
            assert(cur[cur.len() - 1] == ended@[to - 1]);
            assert(cur[cur.len() - 2] == ended@[to - 2]);
            assert(cur.drop_last() =~= ended@.subrange(from as int, to - 1));
        }
        to -= 1;
    }
    proof {
        let cur = ended@.subrange(from as int, to as int);
        if cur.len() >= 2 {
            assert(cur[cur.len() - 1] == ended@[to - 1]);
            assert(cur[cur.len() - 2] == ended@[to - 2]);
        }
        assert(single_final_break(cur) == cur);
    }
    slice_of(&ended, from, to)
}

/// The lines of `stderr` after the last start token and before the first of
/// the last end tokens, without empty lines at the start and the end.
pub fn extract_relevant_lines(stderr: &str, strip_start_tokens: &[&str], strip_end_tokens: &[&str]) -> (r:
    String)
    ensures
        r@ == relevant_lines(
            stderr@,
            token_texts(strip_start_tokens@),
            token_texts(strip_end_tokens@),
        ),
{
    let lines = relevant(chars_of(stderr), strip_start_tokens, strip_end_tokens);
    let r = string_of(&lines, 0, lines.len());
    assert(lines@.subrange(0, lines@.len() as int) =~= lines@);
    r
}

/// The tokens that end the compiler's output.
pub open spec fn compiler_end_tokens() -> Seq<Seq<char>> {
    seq![
        "warning emitted"@,
        "warnings emitted"@,
        "warning: `playground` (bin \"playground\") generated"@,
        "error: could not compile"@,
        "error: aborting"@,
        "Finished "@,
    ]
}

/// What is shown of the error output of a playground run: where the program
/// ran, its own error output, after the compiler's warnings if they are
/// wanted; where it did not run, the compiler's output.
pub open spec fn play_eval_stderr(stderr: Seq<char>, show_compiler_warnings: bool) -> Seq<char> {
    let compiler_output = relevant_lines(
        stderr,
        seq!["Compiling playground"@],
        compiler_end_tokens(),
    );
    if contains_text(stderr, "Running `target"@) {
        let program_stderr = relevant_lines(stderr, seq!["Running `target"@], Seq::empty());
        if !show_compiler_warnings || compiler_output.len() == 0 {
            program_stderr
        } else if program_stderr.len() == 0 {
            compiler_output
        } else {
            compiler_output + "\n"@ + program_stderr
        }
    } else {
        compiler_output
    }
}

/// What is shown of the error output of a playground run.
pub fn format_play_eval_stderr(stderr: &str, show_compiler_warnings: bool) -> (r: String)
    ensures
        r@ == play_eval_stderr(stderr@, show_compiler_warnings),
{
    let start: [&str; 1] = ["Compiling playground"];
    let end: [&str; 6] = [
        "warning emitted",
        "warnings emitted",
        "warning: `playground` (bin \"playground\") generated",
        "error: could not compile",
        "error: aborting",
        "Finished ",
    ];
    assert(token_texts(start@) =~= seq!["Compiling playground"@]);
    assert(token_texts(end@) =~= compiler_end_tokens());
    let compiler_output = extract_relevant_lines(stderr, start.as_slice(), end.as_slice());
    let running = chars_of("Running `target");
    let text = chars_of(stderr);
    if rfind(&text, &running).is_some() {
        // Program successfully compiled, so compiler output will be just warnings
        let run: [&str; 1] = ["Running `target"];
        let none: [&str; 0] = [];
        assert(token_texts(run@) =~= seq!["Running `target"@]);
        assert(token_texts(none@) =~= Seq::<Seq<char>>::empty());
        let program_stderr = extract_relevant_lines(stderr, run.as_slice(), none.as_slice());
        if !show_compiler_warnings || compiler_output.as_str().unicode_len() == 0 {
            program_stderr
        } else if program_stderr.as_str().unicode_len() == 0 {
            compiler_output
        } else {
            // Concatenate compiler output and program stderr with a newline
            let mut both = compiler_output;
            both.append("\n");
            both.append(program_stderr.as_str());
            both
        }
    } else {
        // Program didn't get to run, so there must be an error, so we yield the compiler output
        // regardless of whether warn is enabled or not
        compiler_output
    }
}

/// The number of characters at the start of `s` that a piece of at most
/// `size` bytes can take.
pub open spec fn chunk_len(s: Seq<char>, size: nat) -> nat
    decreases s.len(),
{
    if s.len() > 0 && utf8_len(s[0]) <= size {
        1 + chunk_len(s.drop_first(), (size - utf8_len(s[0])) as nat)
    } else {
        0
    }
}

/// A text that is handed out in pieces of a limited number of bytes.
pub struct StrChunks {
    v: Vec<char>,
    at: usize,
    size: usize,
}

impl StrChunks {
    /// The invariant of the cursor.
    pub closed spec fn wf(&self) -> bool {
        self.at <= self.v.len()
    }

    /// What is still to be handed out.
    pub closed spec fn rest(&self) -> Seq<char> {
        self.v@.subrange(self.at as int, self.v@.len() as int)
    }

    /// The greatest number of bytes in a piece.
    pub closed spec fn size(&self) -> nat {
        self.size as nat
    }

    /// The pieces of `v`, none longer than `size` bytes.
    pub fn new(v: &str, size: usize) -> (r: Self)
        ensures
            r.wf(),
            r.rest() == v@,
            r.size() == size,
    {
        let r = Self { v: chars_of(v), at: 0, size };
        assert(r.v@.subrange(0, r.v@.len() as int) =~= r.v@);
        r
    }

    /// The next piece: as many of the remaining characters as fit into the
    /// size. `None` when nothing remains. Where not even one character fits,
    /// the piece is empty and nothing is used up.
    pub fn next(&mut self) -> (r: Option<String>)
        requires
            old(self).wf(),
        ensures
            final(self).wf(),
            final(self).size() == old(self).size(),
            match r {
                None => old(self).rest().len() == 0 && final(self).rest() == old(self).rest(),
                Some(piece) => {
                    let n = chunk_len(old(self).rest(), old(self).size()) as int;
                    &&& old(self).rest().len() > 0
                    &&& n <= old(self).rest().len()
                    &&& piece@ == old(self).rest().subrange(0, n)
                    &&& final(self).rest() == old(self).rest().subrange(
                        n,
                        old(self).rest().len() as int,
                    )
                },
            },
    {
        if self.at == self.v.len() {
            return None;
        }
        let ghost rest = self.rest();
        let start = self.at;
        let mut end: usize = start;
        let mut room: usize = self.size;
        while end < self.v.len() && char_len(self.v[end]) <= room
            invariant
                start <= end <= self.v.len(),
                self.at == start,
                rest == self.v@.subrange(start as int, self.v@.len() as int),
                chunk_len(rest, self.size as nat) == (end - start) + chunk_len(
                    self.v@.subrange(end as int, self.v@.len() as int),
                    room as nat,
                ),
            decreases self.v.len() - end,
        {
            proof {
                let cur = self.v@.subrange(end as int, self.v@.len() as int);
                assert(cur[0] == self.v@[end as int]);
                assert(cur.drop_first() =~= self.v@.subrange(end + 1, self.v@.len() as int));
            }
            room -= char_len(self.v[end]);
            end += 1;
        }
        proof {
            let cur = self.v@.subrange(end as int, self.v@.len() as int);
            if end < self.v.len() {
                assert(cur[0] == self.v@[end as int]);
            }
            assert(chunk_len(cur, room as nat) == 0);
            assert(rest.subrange(0, end - start) =~= self.v@.subrange(start as int, end as int));
            assert(rest.subrange(end - start, rest.len() as int) =~= self.v@.subrange(
                end as int,
                self.v@.len() as int,
            ));
        }
        let piece = string_of(&self.v, start, end);
        self.at = end;
        Some(piece)
    }
}

/// A piece takes no more bytes than the size allows.
pub proof fn lemma_chunk_fits(s: Seq<char>, size: nat)
    ensures
        chunk_len(s, size) <= s.len(),
        byte_len(s.subrange(0, chunk_len(s, size) as int)) <= size,
    decreases s.len(),
{
    if s.len() > 0 && utf8_len(s[0]) <= size {
        let rest = s.drop_first();
        let left = (size - utf8_len(s[0])) as nat;
        lemma_chunk_fits(rest, left);
        let n = chunk_len(rest, left);
        let piece = s.subrange(0, n as int + 1);
        assert(piece.drop_first() =~= rest.subrange(0, n as int));
        assert(piece[0] == s[0]);
    } else {
        assert(s.subrange(0, 0) =~= Seq::<char>::empty());
    }
}

} // verus!
