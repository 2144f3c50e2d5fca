//! The parser: from source text to actions.
//!
//! The text is read as its UTF-8 bytes. Tokens are taken from left to right;
//! a group is opened by `(` or `'(` and closed by `)` or by the end of the
//! text. A `)` that closes nothing, an error token and a number that is out
//! of range are syntax errors at the place of the token.

pub mod token;

use crate::action::{actions_view, lemma_actions_view, Action, ActionVal};
use crate::error::{error_at, Error, ErrorKind, ErrorKindView, ErrorView};
use crate::location::{Location, LocationView, Source};
use crate::model::{ActionValView, ActionView, ValueView};
use crate::parser::token::{
    lemma_number_bytes, lemma_token_at, lemma_trivia_end, next_lexeme, next_token, token_at, Lexeme,
    Token,
};
use crate::value::float::{float_from_text, ieee_from_text};
use crate::value::number::Number;
use crate::value::Value;
use vstd::prelude::*;
use vstd::string::StringSliceAdditionalSpecFns;
use vstd::utf8::{
    decode_utf8, encode_utf8, encode_utf8_decode_utf8, encode_utf8_valid_utf8, is_char_boundary,
    is_char_boundary_iff_not_is_continuation_byte, is_char_boundary_start_end_of_seq,
    is_continuation_byte, pop_first_scalar, valid_utf8, valid_utf8_split,
};

verus! {

/// What a quoted string literal stands for once its quotes are taken off and
/// its escapes resolved, as `enquote` does it; `None` where it rejects the
/// literal.
pub uninterp spec fn unquoted(text: Seq<char>) -> Option<Seq<char>>;

/// Calls `enquote::unquote` and drops what its error says. The contract says
/// that the outcome is a function of the text, and promises no success.
#[verifier::external_body]
pub(crate) fn unquote(text: &str) -> (r: Option<String>)
    ensures
        match r {
            Some(s) => unquoted(text@) == Some(s@),
            None => unquoted(text@).is_none(),
        },
{
    match enquote::unquote(text) {
        Ok(s) => Some(s),
        Err(_) => None,
    }
}

/// In valid UTF-8, a character starts at an ASCII byte and another one, or
/// the end, comes right after it.
pub proof fn lemma_ascii_boundary(bytes: Seq<u8>, i: int)
    requires
        valid_utf8(bytes),
        0 <= i < bytes.len(),
        bytes[i] < 128,
    ensures
        is_char_boundary(bytes, i),
        is_char_boundary(bytes, i + 1),
{
    is_char_boundary_iff_not_is_continuation_byte(bytes, i);
    if i + 1 == bytes.len() {
        is_char_boundary_start_end_of_seq(bytes);
    } else {
        valid_utf8_split(bytes, i);
        let tail = bytes.subrange(i, bytes.len() as int);
        assert(tail[0] == bytes[i]);
        assert(valid_utf8(tail));
        let rest = pop_first_scalar(tail);
        assert(rest =~= bytes.subrange(i + 1, bytes.len() as int));
        assert(valid_utf8(rest));
        assert(rest[0] == bytes[i + 1]);
        assert(!is_continuation_byte(rest[0]));
        is_char_boundary_iff_not_is_continuation_byte(bytes, i + 1);
    }
}

/// The text of the bytes `from..to` of `src`.
pub fn slice_text(src: &str, from: usize, to: usize) -> (r: &str)
    requires
        from <= to <= src.spec_bytes().len(),
        is_char_boundary(src.spec_bytes(), from as int),
        is_char_boundary(src.spec_bytes(), to as int),
    ensures
        r@ == decode_utf8(src.spec_bytes().subrange(from as int, to as int)),
        r.spec_bytes() == src.spec_bytes().subrange(from as int, to as int),
{
    let (head, _) = src.split_at(to);
    proof {
        let bytes = src.spec_bytes();
        encode_utf8_valid_utf8(src@);
        encode_utf8_valid_utf8(head@);
        if from == to {
            is_char_boundary_start_end_of_seq(head.spec_bytes());
        } else {
            is_char_boundary_iff_not_is_continuation_byte(bytes, from as int);
            is_char_boundary_iff_not_is_continuation_byte(head.spec_bytes(), from as int);
        }
    }
    let (_, mid) = head.split_at(from);
    proof {
        encode_utf8_decode_utf8(mid@);
        assert(mid.spec_bytes() =~= src.spec_bytes().subrange(from as int, to as int));
    }
    mid
}

/// What a decimal digit counts; a byte that is no digit counts nothing.
pub open spec fn digit_of(b: u8) -> nat {
    if 48 <= b <= 57 {
        (b - 48) as nat
    } else {
        0
    }
}

/// The number that a sequence of decimal digits denotes.
pub open spec fn digits_value(digits: Seq<u8>) -> nat
    decreases digits.len(),
{
    if digits.len() == 0 {
        0
    } else {
        digits_value(digits.drop_last()) * 10 + digit_of(digits.last())
    }
}

/// The integer that the text of an integer token denotes, where it fits in
/// 64 bits.
pub open spec fn int_of(text: Seq<u8>) -> Option<i64> {
    if text.len() > 0 && text[0] == 45 {
        if digits_value(text.skip(1)) <= 0x8000_0000_0000_0000 {
            Some((-(digits_value(text.skip(1)) as int)) as i64)
        } else {
            None
        }
    } else if digits_value(text) <= 0x7fff_ffff_ffff_ffff {
        Some(digits_value(text) as i64)
    } else {
        None
    }
}

/// The first digits of a numeral denote no more than all of them.
pub proof fn lemma_digits_monotone(digits: Seq<u8>, i: int)
    requires
        0 <= i <= digits.len(),
    ensures
        digits_value(digits.take(i)) <= digits_value(digits),
    decreases digits.len() - i,
{
    if i == digits.len() {
        assert(digits.take(i) =~= digits);
    } else {
        lemma_digits_monotone(digits, i + 1);
        assert(digits.take(i + 1).drop_last() =~= digits.take(i));
    }
}

/// The number that the digits `from..to` of `bytes` denote, where it is at
/// most 2^63.
pub fn parse_digits(bytes: &[u8], from: usize, to: usize) -> (r: Option<u64>)
    requires
        from <= to <= bytes.len(),
    ensures
        match r {
            Some(v) => v == digits_value(bytes@.subrange(from as int, to as int)) && v
                <= 0x8000_0000_0000_0000,
            None => digits_value(bytes@.subrange(from as int, to as int)) > 0x8000_0000_0000_0000,
        },
{
    let ghost digits = bytes@.subrange(from as int, to as int);
    let mut value: u64 = 0;
    let mut i: usize = from;
    assert(digits.take(0).len() == 0);
    while i < to
        invariant
            from <= i <= to <= bytes.len(),
            digits == bytes@.subrange(from as int, to as int),
            value == digits_value(digits.take(i - from)),
            value <= 0x8000_0000_0000_0000,
        decreases to - i,
    {
        let b = bytes[i];
        let d: u64 = if 48 <= b && b <= 57 {
            (b - 48) as u64
        } else {
            0
        };
        proof {
            assert(digits.take(i - from + 1).drop_last() =~= digits.take(i - from));
            assert(digits.take(i - from + 1).last() == b);
            lemma_digits_monotone(digits, i - from + 1);
        }
        if value > (0x8000_0000_0000_0000 - d) / 10 {
            return None;
        }
        value = value * 10 + d;
        i += 1;
    }
    assert(digits.take(to - from) =~= digits);
    Some(value)
}

/// The integer that the bytes `from..to` of `bytes` denote, where it fits in
/// 64 bits.
pub fn parse_int(bytes: &[u8], from: usize, to: usize) -> (r: Option<i64>)
    requires
        from < to <= bytes.len(),
    ensures
        r == int_of(bytes@.subrange(from as int, to as int)),
{
    let ghost text = bytes@.subrange(from as int, to as int);
    if bytes[from] == 45 {
        assert(text.skip(1) =~= bytes@.subrange(from as int + 1, to as int));
        match parse_digits(bytes, from + 1, to) {
            Some(v) => {
                if v == 0x8000_0000_0000_0000 {
                    Some(i64::MIN)
                } else {
                    Some(-(v as i64))
                }
            },
            None => None,
        }
    } else {
        match parse_digits(bytes, from, to) {
            Some(v) => {
                if v <= 0x7fff_ffff_ffff_ffff {
                    Some(v as i64)
                } else {
                    None
                }
            },
            None => None,
        }
    }
}

/// The action that an integer token at `location` stands for; a syntax
/// error where the integer does not fit in 64 bits.
pub fn int_literal(value: Option<i64>, location: Location) -> (r: Result<Action, Error>)
    ensures
        action_result(r) == match value {
            Some(i) => Ok::<ActionView, ErrorView>(
                literal(ValueView::Number(Number::Int(i)), location@),
            ),
            None => Err(error_at(ErrorKindView::Syntax, location@)),
        },
{
    match value {
        Some(i) => Ok(Action { val: ActionVal::Literal(Value::Number(Number::Int(i))), location }),
        None => Err(Error::new_at(ErrorKind::Syntax, location)),
    }
}

/// The action that a float token at `location` stands for, given what its
/// text was read as; a syntax error where it was not read.
pub fn float_literal(bits: Option<u64>, location: Location) -> (r: Result<Action, Error>)
    ensures
        action_result(r) == match bits {
            Some(b) => Ok::<ActionView, ErrorView>(
                literal(ValueView::Number(Number::Float(b)), location@),
            ),
            None => Err(error_at(ErrorKindView::Syntax, location@)),
        },
{
    match bits {
        Some(b) => Ok(
            Action { val: ActionVal::Literal(Value::Number(Number::Float(b))), location },
        ),
        None => Err(Error::new_at(ErrorKind::Syntax, location)),
    }
}

/// The action that a string token at `location` stands for, given what
/// unquoting its text gave; a syntax error where that failed.
pub fn string_literal(text: Option<String>, location: Location) -> (r: Result<Action, Error>)
    ensures
        action_result(r) == match text {
            Some(s) => Ok::<ActionView, ErrorView>(literal(ValueView::Str(s@), location@)),
            None => Err(error_at(ErrorKindView::Syntax, location@)),
        },
{
    match text {
        Some(s) => Ok(Action { val: ActionVal::Literal(Value::String(s)), location }),
        None => Err(Error::new_at(ErrorKind::Syntax, location)),
    }
}

/// The view of an action or an error.
pub open spec fn action_result(r: Result<Action, Error>) -> Result<ActionView, ErrorView> {
    match r {
        Ok(action) => Ok(action@),
        Err(e) => Err(e@),
    }
}

/// The views of a sequence of actions or of an error.
pub open spec fn actions_result(r: Result<Vec<Action>, Error>) -> Result<Seq<ActionView>, ErrorView> {
    match r {
        Ok(actions) => Ok(actions_view(actions@)),
        Err(e) => Err(e@),
    }
}

/// The literal `value` at `location`.
pub open spec fn literal(value: ValueView, location: LocationView) -> ActionView {
    ActionView { val: ActionValView::Literal(value), location }
}

/// The action that the token `token` on the bytes `start..end` stands for,
/// where the token opens or closes no group.
pub open spec fn leaf(file: Seq<char>, bytes: Seq<u8>, token: Token, start: int, end: int) -> Result<
    ActionView,
    ErrorView,
> {
    let location = LocationView { file, start: start as nat, end: end as nat };
    let text = decode_utf8(bytes.subrange(start, end));
    match token {
        Token::Ident => Ok(ActionView { val: ActionValView::Ident(text), location }),
        Token::Atom => Ok(
            literal(ValueView::Atom(decode_utf8(bytes.subrange(start + 1, end))), location),
        ),
        Token::Int => match int_of(bytes.subrange(start, end)) {
            Some(i) => Ok(literal(ValueView::Number(Number::Int(i)), location)),
            None => Err(error_at(ErrorKindView::Syntax, location)),
        },
        Token::Float => match ieee_from_text(text) {
            Some(b) => Ok(literal(ValueView::Number(Number::Float(b)), location)),
            None => Err(error_at(ErrorKindView::Syntax, location)),
        },
        Token::String => match unquoted(text) {
            Some(s) => Ok(literal(ValueView::Str(s), location)),
            None => Err(error_at(ErrorKindView::Syntax, location)),
        },
        _ => Err(error_at(ErrorKindView::Syntax, location)),
    }
}

/// What parsing gave, and the byte at which it stopped.
pub struct Parsed {
    pub result: Result<Seq<ActionView>, ErrorView>,
    pub next: int,
}

/// Parses the actions from byte `pos` on and adds them to `actions`, inside
/// a group where `nested`. It stops after the `)` that closes the group, at
/// the end of the text, or at the first error. The location of a group is
/// that of the token that opened it.
///
/// The two tests of positions only serve to show that the definition ends:
/// no token is empty, and parsing never steps back.
pub open spec fn parse_from(
    file: Seq<char>,
    bytes: Seq<u8>,
    actions: Seq<ActionView>,
    pos: int,
    nested: bool,
) -> Parsed
    decreases bytes.len() - pos,
{
    match next_lexeme(bytes, pos) {
        None => Parsed { result: Ok(actions), next: bytes.len() as int },
        Some((token, start, end)) => {
            let location = LocationView { file, start: start as nat, end: end as nat };
            if !(pos < end <= bytes.len()) {
                Parsed { result: Err(error_at(ErrorKindView::Syntax, location)), next: end }
            } else if token == Token::GroupEnd {
                if nested {
                    Parsed { result: Ok(actions), next: end }
                } else {
                    Parsed { result: Err(error_at(ErrorKindView::Syntax, location)), next: end }
                }
            } else if token == Token::GroupStart || token == Token::ListStart {
                let inner = parse_from(file, bytes, Seq::empty(), end, true);
                match inner.result {
                    Ok(content) => if end <= inner.next <= bytes.len() {
                        parse_from(
                            file,
                            bytes,
                            actions.push(
                                ActionView {
                                    val: ActionValView::Group {
                                        content,
                                        quoted: token == Token::ListStart,
                                    },
                                    location,
                                },
                            ),
                            inner.next,
                            nested,
                        )
                    } else {
                        inner
                    },
                    Err(e) => inner,
                }
            } else {
                match leaf(file, bytes, token, start, end) {
                    Ok(action) => parse_from(file, bytes, actions.push(action), end, nested),
                    Err(e) => Parsed { result: Err(e), next: end },
                }
            }
        },
    }
}

/// Parsing stops at or after the byte it starts from, and inside the text:
/// the tests of positions in [`parse_from`] never fail.
pub proof fn lemma_parse_advances(
    file: Seq<char>,
    bytes: Seq<u8>,
    actions: Seq<ActionView>,
    pos: int,
    nested: bool,
)
    requires
        0 <= pos <= bytes.len(),
    ensures
        pos <= parse_from(file, bytes, actions, pos, nested).next <= bytes.len(),
    decreases bytes.len() - pos,
{
    lemma_trivia_end(bytes, pos, false);
    match next_lexeme(bytes, pos) {
        None => {},
        Some((token, start, end)) => {
            lemma_token_at(bytes, start);
            let location = LocationView { file, start: start as nat, end: end as nat };
            if token == Token::GroupEnd {
            } else if token == Token::GroupStart || token == Token::ListStart {
                lemma_parse_advances(file, bytes, Seq::empty(), end, true);
                let inner = parse_from(file, bytes, Seq::empty(), end, true);
                match inner.result {
                    Ok(content) => {
                        lemma_parse_advances(
                            file,
                            bytes,
                            actions.push(
                                ActionView {
                                    val: ActionValView::Group {
                                        content,
                                        quoted: token == Token::ListStart,
                                    },
                                    location,
                                },
                            ),
                            inner.next,
                            nested,
                        );
                    },
                    Err(_) => {},
                }
            } else {
                match leaf(file, bytes, token, start, end) {
                    Ok(action) => {
                        lemma_parse_advances(file, bytes, actions.push(action), end, nested);
                    },
                    Err(_) => {},
                }
            }
        },
    }
}

/// The actions that the text `text` of the file `file` stands for.
pub open spec fn parse_text(file: Seq<char>, text: Seq<char>) -> Result<Seq<ActionView>, ErrorView> {
    parse_from(file, encode_utf8(text), Seq::empty(), 0, false).result
}

/// The action that the token `l` stands for, where it opens or closes no group.
pub fn parse_leaf(source: &Source, src: &str, l: Lexeme) -> (r: Result<Action, Error>)
    requires
        l.start < l.end <= src.spec_bytes().len(),
        (l.token, l.end as int) == token_at(src.spec_bytes(), l.start as int),
    ensures
        action_result(r) == leaf(
            source@,
            src.spec_bytes(),
            l.token,
            l.start as int,
            l.end as int,
        ),
{
    let location = Location::new(source, l.start, l.end);
    proof {
        encode_utf8_valid_utf8(src@);
        lemma_token_at(src.spec_bytes(), l.start as int);
        if l.token != Token::Error {
            lemma_ascii_boundary(src.spec_bytes(), l.start as int);
            lemma_ascii_boundary(src.spec_bytes(), l.end - 1);
        }
    }
    match l.token {
        Token::Ident => {
            let name = slice_text(src, l.start, l.end);
            Ok(Action { val: ActionVal::Ident(name.to_owned()), location })
        },
        Token::Atom => {
            let name = slice_text(src, l.start + 1, l.end);
            Ok(Action { val: ActionVal::Literal(Value::Atom(name.to_owned())), location })
        },
        Token::Int => int_literal(parse_int(src.as_bytes(), l.start, l.end), location),
        Token::Float => {
            let text = slice_text(src, l.start, l.end);
            proof {
                lemma_number_bytes(src.spec_bytes(), l.start as int);
            }
            float_literal(float_from_text(text), location)
        },
        Token::String => string_literal(unquote(slice_text(src, l.start, l.end)), location),
        _ => Err(Error::new_at(ErrorKind::Syntax, location)),
    }
}

/// Parses the actions from byte `pos` of `src` on, inside a group where
/// `nested`. Returns them, or the first error, and the byte at which
/// parsing stopped.
pub fn parse_rec(source: &Source, src: &str, pos: usize, nested: bool) -> (r: (
    Result<Vec<Action>, Error>,
    usize,
))
    requires
        pos <= src.spec_bytes().len(),
    ensures
        parse_from(source@, src.spec_bytes(), Seq::empty(), pos as int, nested) == (Parsed {
            result: actions_result(r.0),
            next: r.1 as int,
        }),
        pos <= r.1 <= src.spec_bytes().len(),
    decreases src.spec_bytes().len() - pos,
{
    let bytes = src.as_bytes();
    let mut res: Vec<Action> = Vec::new();
    let mut cur: usize = pos;
    proof {
        lemma_actions_view(res@);
        assert(actions_view(res@) =~= Seq::empty());
    }
    loop
        invariant
            bytes@ == src.spec_bytes(),
            pos <= cur <= bytes.len(),
            parse_from(source@, bytes@, Seq::empty(), pos as int, nested) == parse_from(
                source@,
                bytes@,
                actions_view(res@),
                cur as int,
                nested,
            ),
        decreases bytes.len() - cur,
    {
        proof {
            lemma_trivia_end(bytes@, cur as int, false);
        }
        let l = match next_token(bytes, cur) {
            Some(l) => l,
            None => {
                return (Ok(res), bytes.len());
            },
        };
        proof {
            lemma_token_at(bytes@, l.start as int);
        }
        let ghost before = res@;
        match l.token {
            Token::GroupEnd => {
                if nested {
                    return (Ok(res), l.end);
                } else {
                    return (
                        Err(Error::new_at(ErrorKind::Syntax, Location::new(source, l.start, l.end))),
                        l.end,
                    );
                }
            },
            Token::GroupStart | Token::ListStart => {
                let location = Location::new(source, l.start, l.end);
                let (inner, next) = parse_rec(source, src, l.end, true);
                match inner {
                    Ok(content) => {
                        let quoted = match l.token {
                            Token::ListStart => true,
                            _ => false,
                        };
                        res.push(Action { val: ActionVal::Group { content, quoted }, location });
                        cur = next;
                    },
                    Err(e) => {
                        return (Err(e), next);
                    },
                }
            },
            _ => {
                match parse_leaf(source, src, l) {
                    Ok(action) => {
                        res.push(action);
                        cur = l.end;
                    },
                    Err(e) => {
                        return (Err(e), l.end);
                    },
                }
            },
        }
        proof {
            lemma_actions_view(before);
            lemma_actions_view(res@);
            assert(actions_view(res@) =~= actions_view(before).push(res@.last()@));
        }
    }
}

/// Parses the text `src` of `source` into actions. A group left open at the
/// end of the text is closed there.
pub fn parse(source: Source, src: &str) -> (r: Result<Vec<Action>, Error>)
    ensures
        actions_result(r) == parse_text(source@, src@),
{
    parse_rec(&source, src, 0, false).0
}

} // verus!
