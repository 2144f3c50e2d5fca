//! The lexer: from bytes to tokens.
//!
//! The grammar is stated on the bytes of the source text. Every token but a
//! string starts and ends with ASCII bytes; bytes of other characters can
//! stand in strings and comments, and anywhere else give an error token.

use vstd::prelude::*;

verus! {

/// The kinds of token.
#[derive(Clone, Copy, Debug, PartialEq, Eq, Structural)]
pub enum Token {
    /// An identifier or operator symbol, or a lone `-`.
    Ident,
    /// `'` and a bare word.
    Atom,
    /// An integer: digits, with an optional `-` before them.
    Int,
    /// A float: an integer, a `.`, and any number of digits.
    Float,
    /// A string in double quotes.
    String,
    /// `(`
    GroupStart,
    /// `)`
    GroupEnd,
    /// `'(`
    ListStart,
    /// Anything that is no token.
    Error,
}

/// A token with the bytes `start..end` that it covers.
#[derive(Clone, Copy, Debug, PartialEq, Eq, Structural)]
pub struct Lexeme {
    pub token: Token,
    pub start: usize,
    pub end: usize,
}

/// Sets of bytes that the grammar speaks of.
#[derive(Clone, Copy, Debug, PartialEq, Eq, Structural)]
pub enum Class {
    /// `0` to `9`.
    Digit,
    /// What an identifier goes on with: letters, digits, `_`, `+ * / = < > !` and `-`.
    IdentContinue,
    /// What an atom is made of: letters, digits, `_` and `-`.
    AtomChar,
    /// The bytes after the first of a character that takes several bytes.
    Continuation,
}

/// Space, tab, line feed, vertical tab, form feed and carriage return.
pub open spec fn is_space(b: u8) -> bool {
    b == 32 || 9 <= b <= 13
}

pub open spec fn is_digit(b: u8) -> bool {
    48 <= b <= 57
}

pub open spec fn is_letter(b: u8) -> bool {
    65 <= b <= 90 || 97 <= b <= 122
}

/// One of `+ * / = < > !`.
pub open spec fn is_glyph(b: u8) -> bool {
    b == 43 || b == 42 || b == 47 || b == 61 || b == 60 || b == 62 || b == 33
}

/// What an identifier starts with: a letter, `_`, or one of `+ * / = < > !`.
pub open spec fn is_ident_start(b: u8) -> bool {
    is_letter(b) || b == 95 || is_glyph(b)
}

/// The characters that may follow a backslash in a string by themselves:
/// `n r t \ 0 ' "`.
pub open spec fn is_simple_escape(b: u8) -> bool {
    b == 110 || b == 114 || b == 116 || b == 92 || b == 48 || b == 39 || b == 34
}

/// A hexadecimal digit, in lower case.
pub open spec fn is_lower_hex(b: u8) -> bool {
    is_digit(b) || 97 <= b <= 102
}

pub open spec fn in_class(class: Class, b: u8) -> bool {
    match class {
        Class::Digit => is_digit(b),
        Class::IdentContinue => is_letter(b) || is_digit(b) || b == 95 || is_glyph(b) || b == 45,
        Class::AtomChar => is_letter(b) || is_digit(b) || b == 95 || b == 45,
        Class::Continuation => 128 <= b <= 191,
    }
}

/// Where the longest run of bytes of `class` that starts at `from` ends.
pub open spec fn run_end(bytes: Seq<u8>, from: int, class: Class) -> int
    decreases bytes.len() - from,
{
    if 0 <= from < bytes.len() && in_class(class, bytes[from]) {
        run_end(bytes, from + 1, class)
    } else {
        from
    }
}

/// Where the white space and comments that start at `from` end. A comment
/// runs from a `;` to the end of its line, or to the end of the text.
pub open spec fn trivia_end(bytes: Seq<u8>, from: int, in_comment: bool) -> int
    decreases bytes.len() - from,
{
    if from < 0 || from >= bytes.len() {
        from
    } else if in_comment {
        trivia_end(bytes, from + 1, bytes[from] != 10)
    } else if is_space(bytes[from]) {
        trivia_end(bytes, from + 1, false)
    } else if bytes[from] == 59 {
        trivia_end(bytes, from + 1, true)
    } else {
        from
    }
}

/// Where the string whose inside goes on at `from` ends: after its closing
/// quote. There is no end where the text ends first, or where a backslash
/// is followed by anything but `n r t \ 0 ' "` or `x` and two hexadecimal
/// digits in lower case.
pub open spec fn string_end(bytes: Seq<u8>, from: int) -> Option<int>
    decreases bytes.len() - from,
{
    if from < 0 || from >= bytes.len() {
        None
    } else if bytes[from] == 34 {
        Some(from + 1)
    } else if bytes[from] == 92 {
        if from + 1 < bytes.len() && is_simple_escape(bytes[from + 1]) {
            string_end(bytes, from + 2)
        } else if from + 3 < bytes.len() && bytes[from + 1] == 120 && is_lower_hex(bytes[from + 2])
            && is_lower_hex(bytes[from + 3]) {
            string_end(bytes, from + 4)
        } else {
            None
        }
    } else {
        string_end(bytes, from + 1)
    }
}

/// The error token at `at`: the one character there, with all its bytes.
pub open spec fn error_at(bytes: Seq<u8>, at: int) -> (Token, int) {
    (Token::Error, run_end(bytes, at + 1, Class::Continuation))
}

/// The number whose digits start at `digits`: a float where a `.` follows
/// the digits, with the digits after it, and an integer otherwise.
pub open spec fn number_at(bytes: Seq<u8>, digits: int) -> (Token, int) {
    let end = run_end(bytes, digits, Class::Digit);
    if end < bytes.len() && bytes[end] == 46 {
        (Token::Float, run_end(bytes, end + 1, Class::Digit))
    } else {
        (Token::Int, end)
    }
}

/// The token that starts at `at`, where `at` is inside the text, and where
/// it ends. The first byte decides what the token can be, and the token is
/// the longest of its kind.
pub open spec fn token_at(bytes: Seq<u8>, at: int) -> (Token, int) {
    let b = bytes[at];
    if b == 40 {
        (Token::GroupStart, at + 1)
    } else if b == 41 {
        (Token::GroupEnd, at + 1)
    } else if b == 39 {
        if at + 1 < bytes.len() && bytes[at + 1] == 40 {
            (Token::ListStart, at + 2)
        } else if run_end(bytes, at + 1, Class::AtomChar) > at + 1 {
            (Token::Atom, run_end(bytes, at + 1, Class::AtomChar))
        } else {
            error_at(bytes, at)
        }
    } else if is_digit(b) {
        number_at(bytes, at)
    } else if b == 45 {
        if at + 1 < bytes.len() && is_digit(bytes[at + 1]) {
            number_at(bytes, at + 1)
        } else {
            (Token::Ident, at + 1)
        }
    } else if is_ident_start(b) {
        (Token::Ident, run_end(bytes, at + 1, Class::IdentContinue))
    } else if b == 34 {
        match string_end(bytes, at + 1) {
            Some(end) => (Token::String, end),
            None => error_at(bytes, at),
        }
    } else {
        error_at(bytes, at)
    }
}

/// The next token at or after `from`, with its start and end, after white
/// space and comments; `None` where only those are left.
pub open spec fn next_lexeme(bytes: Seq<u8>, from: int) -> Option<(Token, int, int)> {
    let start = trivia_end(bytes, from, false);
    if start >= bytes.len() {
        None
    } else {
        Some((token_at(bytes, start).0, start, token_at(bytes, start).1))
    }
}

/// A run ends at or after its start and inside the text.
pub proof fn lemma_run_end(bytes: Seq<u8>, from: int, class: Class)
    requires
        0 <= from <= bytes.len(),
    ensures
        from <= run_end(bytes, from, class) <= bytes.len(),
        forall|i: int| from <= i < run_end(bytes, from, class) ==> in_class(class, #[trigger] bytes[i]),
    decreases bytes.len() - from,
{
    if from < bytes.len() && in_class(class, bytes[from]) {
        lemma_run_end(bytes, from + 1, class);
    }
}

/// White space and comments end at or after their start and inside the text.
pub proof fn lemma_trivia_end(bytes: Seq<u8>, from: int, in_comment: bool)
    requires
        0 <= from <= bytes.len(),
    ensures
        from <= trivia_end(bytes, from, in_comment) <= bytes.len(),
    decreases bytes.len() - from,
{
    if from < bytes.len() {
        if in_comment {
            lemma_trivia_end(bytes, from + 1, bytes[from] != 10);
        } else if is_space(bytes[from]) {
            lemma_trivia_end(bytes, from + 1, false);
        } else if bytes[from] == 59 {
            lemma_trivia_end(bytes, from + 1, true);
        }
    }
}

/// A string ends after its start, inside the text, with a double quote.
pub proof fn lemma_string_end(bytes: Seq<u8>, from: int)
    requires
        0 <= from <= bytes.len(),
    ensures
        string_end(bytes, from) matches Some(end) ==> from < end <= bytes.len() && bytes[end - 1]
            == 34,
    decreases bytes.len() - from,
{
    if from < bytes.len() && bytes[from] != 34 {
        if bytes[from] == 92 {
            if from + 1 < bytes.len() && is_simple_escape(bytes[from + 1]) {
                lemma_string_end(bytes, from + 2);
            } else if from + 3 < bytes.len() && bytes[from + 1] == 120 && is_lower_hex(
                bytes[from + 2],
            ) && is_lower_hex(bytes[from + 3]) {
                lemma_string_end(bytes, from + 4);
            }
        } else {
            lemma_string_end(bytes, from + 1);
        }
    }
}

/// A token is not empty and lies inside the text. A token that is no error
/// starts and ends with ASCII bytes.
pub proof fn lemma_token_at(bytes: Seq<u8>, at: int)
    requires
        0 <= at < bytes.len(),
    ensures
        at < token_at(bytes, at).1 <= bytes.len(),
        token_at(bytes, at).0 != Token::Error ==> bytes[at] < 128 && bytes[token_at(bytes, at).1
            - 1] < 128,
{
    lemma_run_end(bytes, at + 1, Class::AtomChar);
    lemma_run_end(bytes, at + 1, Class::IdentContinue);
    lemma_run_end(bytes, at + 1, Class::Continuation);
    lemma_run_end(bytes, at, Class::Digit);
    lemma_string_end(bytes, at + 1);
    if at + 1 < bytes.len() {
        lemma_run_end(bytes, at + 1, Class::Digit);
        let end = run_end(bytes, at + 1, Class::Digit);
        if end < bytes.len() {
            lemma_run_end(bytes, end + 1, Class::Digit);
        }
    }
    let end = run_end(bytes, at, Class::Digit);
    if end < bytes.len() {
        lemma_run_end(bytes, end + 1, Class::Digit);
    }
}

/// A number is made of digits, with at most a `-` before them and a `.`
/// among them.
pub proof fn lemma_number_bytes(bytes: Seq<u8>, at: int)
    requires
        0 <= at < bytes.len(),
        token_at(bytes, at).0 == Token::Float || token_at(bytes, at).0 == Token::Int,
    ensures
        forall|i: int|
            at <= i < token_at(bytes, at).1 ==> is_digit(#[trigger] bytes[i]) || bytes[i] == 45
                || bytes[i] == 46,
{
    lemma_run_end(bytes, at + 1, Class::AtomChar);
    lemma_string_end(bytes, at + 1);
    let digits = if bytes[at] == 45 {
        at + 1
    } else {
        at
    };
    lemma_run_end(bytes, digits, Class::Digit);
    let end = run_end(bytes, digits, Class::Digit);
    if end < bytes.len() {
        lemma_run_end(bytes, end + 1, Class::Digit);
    }
}

/// Whether `b` is in `class`.
pub fn class_has(class: Class, b: u8) -> (r: bool)
    ensures
        r == in_class(class, b),
{
    let letter = (65 <= b && b <= 90) || (97 <= b && b <= 122);
    let digit = 48 <= b && b <= 57;
    let glyph = b == 43 || b == 42 || b == 47 || b == 61 || b == 60 || b == 62 || b == 33;
    match class {
        Class::Digit => digit,
        Class::IdentContinue => letter || digit || b == 95 || glyph || b == 45,
        Class::AtomChar => letter || digit || b == 95 || b == 45,
        Class::Continuation => 128 <= b && b <= 191,
    }
}

/// Where the longest run of bytes of `class` that starts at `from` ends.
pub fn scan(bytes: &[u8], from: usize, class: Class) -> (r: usize)
    requires
        from <= bytes.len(),
    ensures
        r == run_end(bytes@, from as int, class),
        from <= r <= bytes.len(),
{
    let mut i: usize = from;
    while i < bytes.len() && class_has(class, bytes[i])
        invariant
            from <= i <= bytes.len(),
            run_end(bytes@, from as int, class) == run_end(bytes@, i as int, class),
        decreases bytes.len() - i,
    {
        i += 1;
    }
    i
}

/// Where the white space and comments that start at `from` end.
pub fn skip_trivia(bytes: &[u8], from: usize) -> (r: usize)
    requires
        from <= bytes.len(),
    ensures
        r == trivia_end(bytes@, from as int, false),
        from <= r <= bytes.len(),
{
    let mut i: usize = from;
    let mut in_comment = false;
    while i < bytes.len()
        invariant
            from <= i <= bytes.len(),
            trivia_end(bytes@, from as int, false) == trivia_end(bytes@, i as int, in_comment),
        decreases bytes.len() - i,
    {
        let b = bytes[i];
        if in_comment {
            in_comment = b != 10;
        } else if b == 32 || (9 <= b && b <= 13) {
        } else if b == 59 {
            in_comment = true;
        } else {
            return i;
        }
        i += 1;
    }
    i
}

/// Where the string whose inside goes on at `from` ends, if it does.
pub fn scan_string(bytes: &[u8], from: usize) -> (r: Option<usize>)
    requires
        from <= bytes.len(),
    ensures
        match r {
            Some(end) => string_end(bytes@, from as int) == Some(end as int) && from < end
                <= bytes.len(),
            None => string_end(bytes@, from as int).is_none(),
        },
{
    let mut i: usize = from;
    proof {
        lemma_string_end(bytes@, from as int);
    }
    while i < bytes.len()
        invariant
            from <= i <= bytes.len(),
            string_end(bytes@, from as int) == string_end(bytes@, i as int),
            string_end(bytes@, from as int) matches Some(end) ==> from < end <= bytes.len(),
        decreases bytes.len() - i,
    {
        let b = bytes[i];
        if b == 34 {
            return Some(i + 1);
        } else if b == 92 {
            if bytes.len() - i > 1 && (bytes[i + 1] == 110 || bytes[i + 1] == 114 || bytes[i + 1]
                == 116 || bytes[i + 1] == 92 || bytes[i + 1] == 48 || bytes[i + 1] == 39 || bytes[i
                + 1] == 34) {
                i += 2;
            } else if bytes.len() - i > 3 && bytes[i + 1] == 120 && is_hex(bytes[i + 2]) && is_hex(
                bytes[i + 3],
            ) {
                i += 4;
            } else {
                return None;
            }
        } else {
            i += 1;
        }
    }
    None
}

/// Whether `b` is a hexadecimal digit in lower case.
pub fn is_hex(b: u8) -> (r: bool)
    ensures
        r == is_lower_hex(b),
{
    (48 <= b && b <= 57) || (97 <= b && b <= 102)
}

/// The token that starts at `at`, and where it ends.
pub fn read_token(bytes: &[u8], at: usize) -> (r: (Token, usize))
    requires
        at < bytes.len(),
    ensures
        (r.0, r.1 as int) == token_at(bytes@, at as int),
        at < r.1 <= bytes.len(),
{
    proof {
        lemma_token_at(bytes@, at as int);
    }
    let b = bytes[at];
    if b == 40 {
        (Token::GroupStart, at + 1)
    } else if b == 41 {
        (Token::GroupEnd, at + 1)
    } else if b == 39 {
        if bytes.len() - at > 1 && bytes[at + 1] == 40 {
            (Token::ListStart, at + 2)
        } else {
            let end = scan(bytes, at + 1, Class::AtomChar);
            if end > at + 1 {
                (Token::Atom, end)
            } else {
                (Token::Error, scan(bytes, at + 1, Class::Continuation))
            }
        }
    } else if 48 <= b && b <= 57 {
        read_number(bytes, at)
    } else if b == 45 {
        if bytes.len() - at > 1 && 48 <= bytes[at + 1] && bytes[at + 1] <= 57 {
            read_number(bytes, at + 1)
        } else {
            (Token::Ident, at + 1)
        }
    } else if (65 <= b && b <= 90) || (97 <= b && b <= 122) || b == 95 || b == 43 || b == 42 || b
        == 47 || b == 61 || b == 60 || b == 62 || b == 33 {
        (Token::Ident, scan(bytes, at + 1, Class::IdentContinue))
    } else if b == 34 {
        match scan_string(bytes, at + 1) {
            Some(end) => (Token::String, end),
            None => (Token::Error, scan(bytes, at + 1, Class::Continuation)),
        }
    } else {
        (Token::Error, scan(bytes, at + 1, Class::Continuation))
    }
}

/// The number whose digits start at `digits`, and where it ends.
pub fn read_number(bytes: &[u8], digits: usize) -> (r: (Token, usize))
    requires
        digits <= bytes.len(),
    ensures
        (r.0, r.1 as int) == number_at(bytes@, digits as int),
{
    let end = scan(bytes, digits, Class::Digit);
    if end < bytes.len() && bytes[end] == 46 {
        (Token::Float, scan(bytes, end + 1, Class::Digit))
    } else {
        (Token::Int, end)
    }
}

/// The next token at or after `from`, after white space and comments;
/// `None` where only those are left.
pub fn next_token(bytes: &[u8], from: usize) -> (r: Option<Lexeme>)
    requires
        from <= bytes.len(),
    ensures
        match r {
            Some(l) => next_lexeme(bytes@, from as int) == Some(
                (l.token, l.start as int, l.end as int),
            ) && from <= l.start < l.end <= bytes.len(),
            None => next_lexeme(bytes@, from as int).is_none(),
        },
{
    let start = skip_trivia(bytes, from);
    if start >= bytes.len() {
        None
    } else {
        let (token, end) = read_token(bytes, start);
        Some(Lexeme { token, start, end })
    }
}

} // verus!
