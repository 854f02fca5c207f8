//! Text as sequences of characters: the conversions between strings and
//! character vectors, and the small searches the rest of the crate is built on.

use vstd::prelude::*;
use vstd::string::*;

verus! {

/// Whether `c` has the Unicode `White_Space` property: the characters that
/// `char::is_whitespace` knows as whitespace.
pub open spec fn unicode_whitespace(c: char) -> bool {
    let u = c as u32;
    ||| 0x09 <= u <= 0x0d
    ||| u == 0x20
    ||| u == 0x85
    ||| u == 0xa0
    ||| u == 0x1680
    ||| 0x2000 <= u <= 0x200a
    ||| u == 0x2028
    ||| u == 0x2029
    ||| u == 0x202f
    ||| u == 0x205f
    ||| u == 0x3000
}

/// Whether `c` is whitespace.
pub fn is_whitespace(c: char) -> (r: bool)
    ensures
        r == unicode_whitespace(c),
{
    let u: u32 = c as u32;
    (0x09 <= u && u <= 0x0d) || u == 0x20 || u == 0x85 || u == 0xa0 || u == 0x1680 || (0x2000 <= u
        && u <= 0x200a) || u == 0x2028 || u == 0x2029 || u == 0x202f || u == 0x205f || u == 0x3000
}

/// Calls `String::push`, which appends one character to the end of the string.
#[verifier::external_body]
pub(crate) fn push_char(s: &mut String, c: char)
    ensures
        final(s)@ == old(s)@.push(c),
{
    s.push(c)
}

/// The characters of `s`, in order.
pub fn chars_of(s: &str) -> (v: Vec<char>)
    ensures
        v@ == s@,
{
    let mut v: Vec<char> = Vec::new();
    for c in it: s.chars()
        invariant
            v@ == it.seq().take(it.index() as int),
    {
        v.push(c);
    }
    v
}

/// Appends the characters `v[from..to]` to `s`.
pub fn push_chars(s: &mut String, v: &Vec<char>, from: usize, to: usize)
    requires
        from <= to <= v.len(),
    ensures
        final(s)@ == old(s)@ + v@.subrange(from as int, to as int),
{
    let mut i: usize = from;
    while i < to
        invariant
            from <= i <= to <= v.len(),
            s@ == old(s)@ + v@.subrange(from as int, i as int),
        decreases to - i,
    {
        push_char(s, v[i]);
        i += 1;
        assert(v@.subrange(from as int, i as int) == v@.subrange(from as int, i - 1).push(
            v@[i - 1],
        ));
    }
}

/// The string made of the characters `v[from..to]`.
pub fn string_of(v: &Vec<char>, from: usize, to: usize) -> (s: String)
    requires
        from <= to <= v.len(),
    ensures
        s@ == v@.subrange(from as int, to as int),
{
    let mut s = String::new();
    push_chars(&mut s, v, from, to);
    s
}

/// Whether two string slices hold the same characters.
pub fn str_eq(a: &str, b: &str) -> (r: bool)
    ensures
        r == (a@ == b@),
{
    let x = a.as_bytes();
    let y = b.as_bytes();
    if x.len() != y.len() {
        return false;
    }
    let mut i: usize = 0;
    while i < x.len()
        invariant
            i <= x.len(),
            x.len() == y.len(),
            x@ == a.spec_bytes(),
            y@ == b.spec_bytes(),
            forall|j: int| 0 <= j < i ==> x@[j] == y@[j],
        decreases x.len() - i,
    {
        if x[i] != y[i] {
            assert(x@[i as int] != y@[i as int]);
            return false;
        }
        i += 1;
    }
    proof {
        assert(x@ =~= y@);
        vstd::utf8::encode_utf8_decode_utf8(a@);
        vstd::utf8::encode_utf8_decode_utf8(b@);
    }
    true
}

/// `s` begins with `p`.
pub open spec fn is_prefix(p: Seq<char>, s: Seq<char>) -> bool {
    p.len() <= s.len() && s.subrange(0, p.len() as int) == p
}

/// Whether `text` begins with `prefix`.
pub fn starts_with(text: &Vec<char>, prefix: &Vec<char>) -> (r: bool)
    ensures
        r == is_prefix(prefix@, text@),
{
    if prefix.len() > text.len() {
        return false;
    }
    let mut i: usize = 0;
    while i < prefix.len()
        invariant
            i <= prefix.len() <= text.len(),
            forall|j: int| 0 <= j < i ==> text@[j] == prefix@[j],
        decreases prefix.len() - i,
    {
        if text[i] != prefix[i] {
            assert(text@.subrange(0, prefix@.len() as int)[i as int] != prefix@[i as int]);
            return false;
        }
        i += 1;
    }
    assert(text@.subrange(0, prefix@.len() as int) =~= prefix@);
    true
}

/// The first position in `s` at or after `from` that holds `c`, or the length
/// of `s` when there is none.
pub open spec fn first_index_of(s: Seq<char>, from: int, c: char) -> int
    decreases s.len() - from,
{
    if from < 0 || from >= s.len() {
        s.len() as int
    } else if s[from] == c {
        from
    } else {
        first_index_of(s, from + 1, c)
    }
}

/// `first_index_of` lands on the first occurrence and nothing before it matches.
pub proof fn lemma_first_index_of(s: Seq<char>, from: int, c: char)
    requires
        0 <= from <= s.len(),
    ensures
        from <= first_index_of(s, from, c) <= s.len(),
        first_index_of(s, from, c) < s.len() ==> s[first_index_of(s, from, c)] == c,
        forall|j: int| from <= j < first_index_of(s, from, c) ==> s[j] != c,
    decreases s.len() - from,
{
    if from < s.len() && s[from] != c {
        lemma_first_index_of(s, from + 1, c);
    }
}

/// Finds the first `c` in `text` at or after `from`.
pub fn find_char(text: &Vec<char>, from: usize, c: char) -> (r: usize)
    requires
        from <= text.len(),
    ensures
        r == first_index_of(text@, from as int, c),
        from <= r <= text.len(),
{
    let mut i: usize = from;
    while i < text.len()
        invariant
            from <= i <= text.len(),
            first_index_of(text@, from as int, c) == first_index_of(text@, i as int, c),
        decreases text.len() - i,
    {
        if text[i] == c {
            return i;
        }
        i += 1;
    }
    i
}

/// The number of leading characters of `s` that are whitespace.
pub open spec fn leading_whitespace(s: Seq<char>) -> nat
    decreases s.len(),
{
    if s.len() > 0 && unicode_whitespace(s[0]) {
        1 + leading_whitespace(s.drop_first())
    } else {
        0
    }
}

/// The number of trailing characters of `s` that are whitespace.
pub open spec fn trailing_whitespace(s: Seq<char>) -> nat
    decreases s.len(),
{
    if s.len() > 0 && unicode_whitespace(s.last()) {
        1 + trailing_whitespace(s.drop_last())
    } else {
        0
    }
}

/// `s` without its leading and trailing whitespace.
pub open spec fn trimmed(s: Seq<char>) -> Seq<char> {
    let rest = s.subrange(leading_whitespace(s) as int, s.len() as int);
    rest.subrange(0, rest.len() - trailing_whitespace(rest))
}

/// Counting leading whitespace from position `i` on, when everything before `i` is whitespace.
proof fn lemma_leading_whitespace_step(s: Seq<char>, i: int)
    requires
        0 <= i <= s.len(),
        forall|j: int| 0 <= j < i ==> unicode_whitespace(s[j]),
    ensures
        leading_whitespace(s) == i + leading_whitespace(s.subrange(i, s.len() as int)),
    decreases i,
{
    if i > 0 {
        let t = s.drop_first();
        assert forall|j: int| 0 <= j < i - 1 implies unicode_whitespace(t[j]) by {
            assert(t[j] == s[j + 1]);
        }
        lemma_leading_whitespace_step(t, i - 1);
        assert(t.subrange(i - 1, t.len() as int) =~= s.subrange(i, s.len() as int));
        assert(unicode_whitespace(s[0]));
    } else {
        assert(s.subrange(0, s.len() as int) =~= s);
    }
}

/// Counting trailing whitespace before position `i`, when everything from `i` on is whitespace.
proof fn lemma_trailing_whitespace_step(s: Seq<char>, i: int)
    requires
        0 <= i <= s.len(),
        forall|j: int| i <= j < s.len() ==> unicode_whitespace(s[j]),
    ensures
        trailing_whitespace(s) == (s.len() - i) + trailing_whitespace(s.subrange(0, i)),
    decreases s.len() - i,
{
    if i < s.len() {
        let t = s.drop_last();
        lemma_trailing_whitespace_step(t, i);
        assert(t.subrange(0, i) =~= s.subrange(0, i));
        assert(unicode_whitespace(s.last()));
    } else {
        assert(s.subrange(0, s.len() as int) =~= s);
    }
}

/// The bounds of `text` without its leading and trailing whitespace:
/// `text[r.0..r.1]` is the trimmed text.
pub fn trim_bounds(text: &Vec<char>) -> (r: (usize, usize))
    ensures
        r.0 <= r.1 <= text.len(),
        text@.subrange(r.0 as int, r.1 as int) == trimmed(text@),
{
    let mut start: usize = 0;
    while start < text.len() && is_whitespace(text[start])
        invariant
            start <= text.len(),
            forall|j: int| 0 <= j < start ==> unicode_whitespace(text@[j]),
        decreases text.len() - start,
    {
        start += 1;
    }
    let mut end: usize = text.len();
    while end > start && is_whitespace(text[end - 1])
        invariant
            start <= end <= text.len(),
            forall|j: int| end <= j < text.len() ==> unicode_whitespace(text@[j]),
        decreases end,
    {
        end -= 1;
    }
    proof {
        let s = text@;
        let rest = s.subrange(start as int, s.len() as int);
        lemma_leading_whitespace_step(s, start as int);
        assert(leading_whitespace(rest) == 0) by {
            if start < s.len() {
                assert(rest[0] == s[start as int]);
            }
        }
        assert forall|j: int| end - start <= j < rest.len() implies unicode_whitespace(
            rest[j],
        ) by {
            assert(rest[j] == s[j + start]);
        }
        lemma_trailing_whitespace_step(rest, end - start);
        let kept = rest.subrange(0, end - start);
        assert(trailing_whitespace(kept) == 0) by {
            if end > start {
                assert(kept.last() == s[end - 1]);
            }
        }
        assert(kept =~= s.subrange(start as int, end as int));
    }
    (start, end)
}

/// `c` in lower case if it is an ASCII capital letter, else `c`.
pub open spec fn ascii_lower(c: char) -> char {
    if 'A' <= c <= 'Z' {
        ((c as u8 + 32) as u8) as char
    } else {
        c
    }
}

/// `c` in upper case if it is an ASCII small letter, else `c`.
pub open spec fn ascii_upper(c: char) -> char {
    if 'a' <= c <= 'z' {
        ((c as u8 - 32) as u8) as char
    } else {
        c
    }
}

/// `s` with every ASCII capital letter in lower case.
pub open spec fn ascii_lowercase(s: Seq<char>) -> Seq<char> {
    Seq::new(s.len(), |i: int| ascii_lower(s[i]))
}

/// `c` in lower case if it is an ASCII capital letter, else `c`.
pub fn to_ascii_lower(c: char) -> (r: char)
    ensures
        r == ascii_lower(c),
{
    if 'A' <= c && c <= 'Z' {
        let code: u8 = c as u8;
        (code + 32) as char
    } else {
        c
    }
}

/// `c` in upper case if it is an ASCII small letter, else `c`.
pub fn to_ascii_upper(c: char) -> (r: char)
    ensures
        r == ascii_upper(c),
{
    if 'a' <= c && c <= 'z' {
        let code: u8 = c as u8;
        (code - 32) as char
    } else {
        c
    }
}

/// `s` with every ASCII capital letter in lower case.
pub fn to_ascii_lowercase(s: &str) -> (r: String)
    ensures
        r@ == ascii_lowercase(s@),
{
    let chars = chars_of(s);
    let mut r = String::new();
    let mut i: usize = 0;
    while i < chars.len()
        invariant
            i <= chars.len(),
            chars@ == s@,
            r@ == ascii_lowercase(s@).subrange(0, i as int),
        decreases chars.len() - i,
    {
        push_char(&mut r, to_ascii_lower(chars[i]));
        i += 1;
        assert(r@ =~= ascii_lowercase(s@).subrange(0, i as int));
    }
    assert(ascii_lowercase(s@).subrange(0, i as int) =~= ascii_lowercase(s@));
    r
}

/// The decimal digit for `d`, which is below 10.
pub open spec fn digit_char(d: nat) -> char {
    (('0' as u8 + d) as u8) as char
}

/// `n` written in decimal, without leading zeros.
pub open spec fn decimal(n: nat) -> Seq<char>
    decreases n,
{
    if n < 10 {
        seq![digit_char(n)]
    } else {
        decimal(n / 10).push(digit_char(n % 10))
    }
}

/// Appends `n` in decimal to `s`.
pub fn push_decimal(s: &mut String, n: u64)
    ensures
        final(s)@ == old(s)@ + decimal(n as nat),
    decreases n,
{
    if n >= 10 {
        push_decimal(s, n / 10);
    }
    let d: u8 = (n % 10) as u8;
    push_char(s, (48u8 + d) as char);
    assert(s@ =~= old(s)@ + decimal(n as nat));
}

/// Why a text is no number.
#[derive(Debug, Clone, Copy, PartialEq, Eq, Structural)]
pub enum NumberError {
    /// The text is empty.
    Empty,
    /// The text holds something that is no digit, or only a sign.
    InvalidDigit,
    /// The number does not fit.
    TooLarge,
}

impl NumberError {
    /// The error in words.
    pub fn message(&self) -> (m: String)
        ensures
            m@ == match self {
                NumberError::Empty => "cannot parse integer from empty string"@,
                NumberError::InvalidDigit => "invalid digit found in string"@,
                NumberError::TooLarge => "number too large to fit in target type"@,
            },
    {
        match self {
            NumberError::Empty => "cannot parse integer from empty string".to_owned(),
            NumberError::InvalidDigit => "invalid digit found in string".to_owned(),
            NumberError::TooLarge => "number too large to fit in target type".to_owned(),
        }
    }
}

/// Whether `c` is a decimal digit.
pub open spec fn is_digit(c: char) -> bool {
    '0' <= c <= '9'
}

/// Reads the digits of `s` from left to right onto `acc`; the first
/// character that is no digit, or the first digit that takes the value above
/// `max`, decides.
pub open spec fn parse_digits(s: Seq<char>, acc: nat, max: nat) -> Result<nat, NumberError>
    decreases s.len(),
{
    if s.len() == 0 {
        Ok(acc)
    } else if !is_digit(s[0]) {
        Err(NumberError::InvalidDigit)
    } else {
        let value = (acc * 10 + (s[0] as u8 - '0' as u8)) as nat;
        if value > max {
            Err(NumberError::TooLarge)
        } else {
            parse_digits(s.drop_first(), value, max)
        }
    }
}

/// Reads `s` as a decimal number up to `max`: digits, and before them at most one `+`.
pub open spec fn parse_number(s: Seq<char>, max: nat) -> Result<nat, NumberError> {
    if s.len() == 0 {
        Err(NumberError::Empty)
    } else {
        let digits = if s[0] == '+' {
            s.drop_first()
        } else {
            s
        };
        if digits.len() == 0 {
            Err(NumberError::InvalidDigit)
        } else {
            parse_digits(digits, 0, max)
        }
    }
}

/// What a result of reading a number stands for.
pub open spec fn number_of(r: Result<u64, NumberError>) -> Result<nat, NumberError> {
    match r {
        Ok(n) => Ok(n as nat),
        Err(e) => Err(e),
    }
}

/// Reads `s` as a decimal number up to `max`.
pub fn parse_bounded(s: &str, max: u64) -> (r: Result<u64, NumberError>)
    ensures
        number_of(r) == parse_number(s@, max as nat),
        r matches Ok(n) ==> n <= max,
{
    let chars = chars_of(s);
    if chars.len() == 0 {
        return Err(NumberError::Empty);
    }
    let start: usize = if chars[0] == '+' {
        1
    } else {
        0
    };
    if start == chars.len() {
        return Err(NumberError::InvalidDigit);
    }
    let ghost digits = chars@.subrange(start as int, chars@.len() as int);
    assert(digits =~= if chars@[0] == '+' {
        chars@.drop_first()
    } else {
        chars@
    });
    let mut acc: u64 = 0;
    let mut i: usize = start;
    while i < chars.len()
        invariant
            start <= i <= chars.len(),
            acc <= max,
            digits == chars@.subrange(start as int, chars@.len() as int),
            parse_number(s@, max as nat) == parse_digits(digits, 0, max as nat),
            parse_digits(digits, 0, max as nat) == parse_digits(
                chars@.subrange(i as int, chars@.len() as int),
                acc as nat,
                max as nat,
            ),
        decreases chars.len() - i,
    {
        let c = chars[i];
        let ghost rest = chars@.subrange(i as int, chars@.len() as int);
        assert(rest[0] == c);
        assert(rest.drop_first() =~= chars@.subrange(i + 1, chars@.len() as int));
        if !('0' <= c && c <= '9') {
            return Err(NumberError::InvalidDigit);
        }
        let d: u64 = (c as u8 - 48u8) as u64;
        if d > max || acc > (max - d) / 10 {
            return Err(NumberError::TooLarge);
        }
        acc = acc * 10 + d;
        i += 1;
    }
    Ok(acc)
}

/// What a result of reading a `usize` stands for.
pub open spec fn size_of(r: Result<usize, NumberError>) -> Result<nat, NumberError> {
    match r {
        Ok(n) => Ok(n as nat),
        Err(e) => Err(e),
    }
}

/// Reads `s` as a decimal number that fits `usize`.
pub fn parse_usize(s: &str) -> (r: Result<usize, NumberError>)
    ensures
        size_of(r) == parse_number(s@, usize::MAX as nat),
{
    match parse_bounded(s, usize::MAX as u64) {
        Ok(n) => Ok(n as usize),
        Err(e) => Err(e),
    }
}

/// The texts of `parts` in a row, with `sep` between each two of them.
pub open spec fn joined(parts: Seq<Seq<char>>, sep: Seq<char>) -> Seq<char>
    decreases parts.len(),
{
    if parts.len() == 0 {
        Seq::empty()
    } else if parts.len() == 1 {
        parts[0]
    } else {
        joined(parts.drop_last(), sep) + sep + parts.last()
    }
}

/// The strings of `parts` in a row, with `sep` between each two of them.
pub fn join(parts: &Vec<String>, sep: &str) -> (r: String)
    ensures
        r@ == joined(Seq::new(parts@.len(), |i: int| parts@[i]@), sep@),
{
    let ghost texts = Seq::new(parts@.len(), |i: int| parts@[i]@);
    let mut r = String::new();
    let mut i: usize = 0;
    while i < parts.len()
        invariant
            i <= parts.len(),
            texts == Seq::new(parts@.len(), |i: int| parts@[i]@),
            r@ == joined(texts.take(i as int), sep@),
        decreases parts.len() - i,
    {
        if i > 0 {
            r.append(sep);
        }
        r.append(parts[i].as_str());
        i += 1;
        proof {
            assert(texts.take(i as int).drop_last() =~= texts.take(i - 1));
            assert(texts.take(i as int).last() == parts@[i - 1]@);
            if i == 1 {
                assert(r@ =~= texts.take(1)[0]);
            }
        }
    }
    assert(texts.take(i as int) =~= texts);
    r
}

/// A text split at its first space into what stands before it and what
/// follows it; without a space all of it stands before.
pub open spec fn split_once_space(s: Seq<char>) -> (Seq<char>, Option<Seq<char>>) {
    let k = first_index_of(s, 0, ' ');
    if k < s.len() {
        (s.subrange(0, k), Some(s.subrange(k + 1, s.len() as int)))
    } else {
        (s, None)
    }
}

/// Searching from `from` in a text is searching from the start in what follows `from`.
pub proof fn lemma_first_index_shift(s: Seq<char>, from: int, c: char)
    requires
        0 <= from <= s.len(),
    ensures
        first_index_of(s.subrange(from, s.len() as int), 0, c) == first_index_of(s, from, c)
            - from,
{
    let rest = s.subrange(from, s.len() as int);
    lemma_first_index_shift_at(s, rest, from, 0, c);
}

proof fn lemma_first_index_shift_at(s: Seq<char>, rest: Seq<char>, from: int, k: int, c: char)
    requires
        0 <= from <= s.len(),
        rest == s.subrange(from, s.len() as int),
        0 <= k <= rest.len(),
    ensures
        first_index_of(rest, k, c) == first_index_of(s, from + k, c) - from,
    decreases rest.len() - k,
{
    if k < rest.len() {
        assert(rest[k] == s[from + k]);
        if rest[k] != c {
            lemma_first_index_shift_at(s, rest, from, k + 1, c);
        }
    }
}

/// Splits what follows position `from` in `text` at its first space.
pub fn split_after(text: &Vec<char>, from: usize) -> (r: (String, Option<String>))
    requires
        from <= text.len(),
    ensures
        (r.0@, optional_text(r.1)) == split_once_space(
            text@.subrange(from as int, text@.len() as int),
        ),
{
    let space = find_char(text, from, ' ');
    proof {
        let rest = text@.subrange(from as int, text@.len() as int);
        lemma_first_index_shift(text@, from as int, ' ');
        assert(rest.subrange(0, space - from) =~= text@.subrange(from as int, space as int));
        if space < text.len() {
            assert(rest.subrange(space - from + 1, rest.len() as int) =~= text@.subrange(
                space + 1,
                text@.len() as int,
            ));
        } else {
            assert(rest =~= text@.subrange(from as int, space as int));
        }
    }
    let head = string_of(text, from, space);
    if space < text.len() {
        (head, Some(string_of(text, space + 1, text.len())))
    } else {
        (head, None)
    }
}

/// The text of an optional string.
pub open spec fn optional_text(s: Option<String>) -> Option<Seq<char>> {
    match s {
        Some(s) => Some(s@),
        None => None,
    }
}

/// Whether `t` stands in `s` at position `i`.
pub open spec fn occurs_at(s: Seq<char>, t: Seq<char>, i: int) -> bool {
    0 <= i && i + t.len() <= s.len() && s.subrange(i, i + t.len()) == t
}

/// The last position at or before `i` at which `t` stands in `s`.
pub open spec fn last_occurrence_from(s: Seq<char>, t: Seq<char>, i: int) -> Option<int>
    decreases i + 1,
{
    if i < 0 {
        None
    } else if occurs_at(s, t, i) {
        Some(i)
    } else {
        last_occurrence_from(s, t, i - 1)
    }
}

/// The last position at which `t` stands in `s`.
pub open spec fn last_occurrence(s: Seq<char>, t: Seq<char>) -> Option<int> {
    last_occurrence_from(s, t, s.len() - t.len())
}

/// Whether `t` stands somewhere in `s`.
pub open spec fn contains_text(s: Seq<char>, t: Seq<char>) -> bool {
    last_occurrence(s, t) is Some
}

/// `last_occurrence_from` finds an occurrence, and none stands after it up to `i`.
pub proof fn lemma_last_occurrence_from(s: Seq<char>, t: Seq<char>, i: int)
    ensures
        match last_occurrence_from(s, t, i) {
            Some(k) => 0 <= k <= i && occurs_at(s, t, k) && forall|j: int|
                k < j <= i ==> !occurs_at(s, t, j),
            None => forall|j: int| 0 <= j <= i ==> !occurs_at(s, t, j),
        },
    decreases i + 1,
{
    if i >= 0 && !occurs_at(s, t, i) {
        lemma_last_occurrence_from(s, t, i - 1);
    }
}

/// Whether `token` stands in `text` at position `i`.
pub fn occurs(text: &Vec<char>, token: &Vec<char>, i: usize) -> (r: bool)
    ensures
        r == occurs_at(text@, token@, i as int),
{
    if token.len() > text.len() || i > text.len() - token.len() {
        return false;
    }
    let mut k: usize = 0;
    while k < token.len()
        invariant
            k <= token.len(),
            i + token.len() <= text.len(),
            forall|j: int| 0 <= j < k ==> text@[i + j] == token@[j],
        decreases token.len() - k,
    {
        if text[i + k] != token[k] {
            assert(text@.subrange(i as int, i + token@.len())[k as int] != token@[k as int]);
            return false;
        }
        k += 1;
    }
    assert(text@.subrange(i as int, i + token@.len()) =~= token@);
    true
}

/// The last position at which `token` stands in `text`.
pub fn rfind(text: &Vec<char>, token: &Vec<char>) -> (r: Option<usize>)
    ensures
        match r {
            Some(k) => last_occurrence(text@, token@) == Some(k as int),
            None => last_occurrence(text@, token@) is None,
        },
{
    if token.len() > text.len() {
        return None;
    }
    let mut i: usize = text.len() - token.len();
    loop
        invariant
            i + token.len() <= text.len(),
            last_occurrence(text@, token@) == last_occurrence_from(text@, token@, i as int),
        decreases i,
    {
        if occurs(text, token, i) {
            return Some(i);
        }
        if i == 0 {
            assert(last_occurrence_from(text@, token@, -1) is None);
            return None;
        }
        i -= 1;
    }
}

/// The last position before `before` at which `s` holds `c`.
pub open spec fn last_index_of(s: Seq<char>, before: int, c: char) -> Option<int>
    decreases before,
{
    if before <= 0 || before > s.len() {
        None
    } else if s[before - 1] == c {
        Some(before - 1)
    } else {
        last_index_of(s, before - 1, c)
    }
}

/// The last position before `before` at which `text` holds `c`.
pub fn rfind_char(text: &Vec<char>, before: usize, c: char) -> (r: Option<usize>)
    requires
        before <= text.len(),
    ensures
        match r {
            Some(k) => last_index_of(text@, before as int, c) == Some(k as int) && k < before,
            None => last_index_of(text@, before as int, c) is None,
        },
{
    let mut i: usize = before;
    while i > 0
        invariant
            i <= before <= text.len(),
            last_index_of(text@, before as int, c) == last_index_of(text@, i as int, c),
        decreases i,
    {
        if text[i - 1] == c {
            return Some(i - 1);
        }
        i -= 1;
    }
    None
}

/// The characters `v[from..to]` as a vector of their own.
pub fn slice_of(v: &Vec<char>, from: usize, to: usize) -> (r: Vec<char>)
    requires
        from <= to <= v.len(),
    ensures
        r@ == v@.subrange(from as int, to as int),
{
    let mut r: Vec<char> = Vec::new();
    let mut i: usize = from;
    while i < to
        invariant
            from <= i <= to <= v.len(),
            r@ == v@.subrange(from as int, i as int),
        decreases to - i,
    {
        r.push(v[i]);
        i += 1;
        assert(r@ =~= v@.subrange(from as int, i as int));
    }
    r
}

/// The number of bytes that the UTF-8 encoding of `c` takes.
pub open spec fn utf8_len(c: char) -> nat {
    vstd::utf8::encode_scalar(c as u32).len()
}

/// The number of bytes that the UTF-8 encoding of `s` takes.
pub open spec fn byte_len(s: Seq<char>) -> nat {
    vstd::utf8::encode_utf8(s).len()
}

/// The bytes of a text are those of its parts.
pub proof fn lemma_byte_len_concat(a: Seq<char>, b: Seq<char>)
    ensures
        byte_len(a + b) == byte_len(a) + byte_len(b),
    decreases a.len(),
{
    if a.len() == 0 {
        assert(a + b =~= b);
    } else {
        lemma_byte_len_concat(a.drop_first(), b);
        assert((a + b).drop_first() =~= a.drop_first() + b);
        assert((a + b)[0] == a[0]);
    }
}

/// One more character takes the bytes of its encoding.
pub proof fn lemma_byte_len_push(s: Seq<char>, c: char)
    ensures
        byte_len(s.push(c)) == byte_len(s) + utf8_len(c),
{
    lemma_byte_len_concat(s, seq![c]);
    assert(s.push(c) =~= s + seq![c]);
    assert(seq![c].drop_first() =~= Seq::<char>::empty());
    assert(byte_len(seq![c]) == utf8_len(c)) by {
        reveal_with_fuel(vstd::utf8::encode_utf8, 2);
    }
}

/// The number of bytes that the UTF-8 encoding of `c` takes.
pub fn char_len(c: char) -> (n: usize)
    ensures
        n == utf8_len(c),
        1 <= n <= 4,
{
    let code: u32 = c as u32;
    if code < 0x80 {
        1
    } else if code < 0x800 {
        2
    } else if code < 0x10000 {
        3
    } else {
        4
    }
}

/// A line without the carriage return at its end, if it has one.
pub open spec fn without_return(line: Seq<char>) -> Seq<char> {
    if line.len() > 0 && line.last() == '\r' {
        line.drop_last()
    } else {
        line
    }
}

/// The lines of `s`: what stands between line feeds, without the carriage
/// return before a line feed. What follows the last line feed is a line only
/// if it is not empty, and keeps a carriage return at its end.
pub open spec fn lines_of(s: Seq<char>) -> Seq<Seq<char>>
    decreases s.len(),
{
    if s.len() == 0 {
        Seq::empty()
    } else {
        let end = first_index_of(s, 0, '\n');
        if 0 <= end < s.len() {
            seq![without_return(s.subrange(0, end))] + lines_of(
                s.subrange(end + 1, s.len() as int),
            )
        } else {
            seq![s]
        }
    }
}

/// The lines of `text`.
pub fn split_lines(text: &Vec<char>) -> (lines: Vec<Vec<char>>)
    ensures
        Seq::new(lines@.len(), |i: int| lines@[i]@) == lines_of(text@),
{
    let mut lines: Vec<Vec<char>> = Vec::new();
    let mut from: usize = 0;
    proof {
        assert(text@.subrange(0, text@.len() as int) =~= text@);
        assert(Seq::new(lines@.len(), |i: int| lines@[i]@) + lines_of(text@) =~= lines_of(text@));
    }
    while from < text.len()
        invariant
            from <= text.len(),
            lines_of(text@) == Seq::new(lines@.len(), |i: int| lines@[i]@) + lines_of(
                text@.subrange(from as int, text@.len() as int),
            ),
        decreases text.len() - from,
    {
        let ghost rest = text@.subrange(from as int, text@.len() as int);
        let ghost had = Seq::new(lines@.len(), |i: int| lines@[i]@);
        let end = find_char(text, from, '\n');
        proof {
            lemma_first_index_shift(text@, from as int, '\n');
            assert(rest.subrange(0, end - from) =~= text@.subrange(from as int, end as int));
        }
        if end < text.len() {
            let stop: usize = if end > from && text[end - 1] == '\r' {
                end - 1
            } else {
                end
            };
            let line = slice_of(text, from, stop);
            proof {
                let raw = text@.subrange(from as int, end as int);
                if end > from {
                    assert(raw.last() == text@[end - 1]);
                }
                assert(line@ =~= without_return(raw));
                assert(rest.subrange(end - from + 1, rest.len() as int) =~= text@.subrange(
                    end + 1,
                    text@.len() as int,
                ));
            }
            lines.push(line);
            from = end + 1;
            assert(Seq::new(lines@.len(), |i: int| lines@[i]@) =~= had.push(line@));
            assert(lines_of(text@) =~= had.push(line@) + lines_of(
                text@.subrange(from as int, text@.len() as int),
            ));
        } else {
            let line = slice_of(text, from, text.len());
            lines.push(line);
            from = text.len();
            assert(Seq::new(lines@.len(), |i: int| lines@[i]@) =~= had.push(line@));
            assert(text@.subrange(from as int, text@.len() as int) =~= Seq::<char>::empty());
            assert(lines_of(text@) =~= had.push(line@) + lines_of(
                text@.subrange(from as int, text@.len() as int),
            ));
        }
    }
    proof {
        assert(text@.subrange(from as int, text@.len() as int) =~= Seq::<char>::empty());
        assert(lines_of(text@) =~= Seq::new(lines@.len(), |i: int| lines@[i]@));
    }
    lines
}

} // verus!
