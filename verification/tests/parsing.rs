use ab_lisp::action::{Action, ActionVal};
use ab_lisp::error::{Error, ErrorKind};
use ab_lisp::location::Source;
use ab_lisp::parser::parse;
use ab_lisp::parser::token::{next_token, Lexeme, Token};
use ab_lisp::value::number::Number;
use ab_lisp::value::Value;

fn tokens(src: &str) -> Vec<(Token, usize, usize)> {
    let bytes = src.as_bytes();
    let mut out = Vec::new();
    let mut pos = 0;
    while let Some(Lexeme { token, start, end }) = next_token(bytes, pos) {
        out.push((token, start, end));
        pos = end;
    }
    out
}

fn kinds(src: &str) -> Vec<Token> {
    tokens(src).into_iter().map(|t| t.0).collect()
}

fn parse_str(src: &str) -> Result<Vec<Action>, Error> {
    parse(Source::File("input.abl".to_string()), src)
}

fn syntax_error_span(src: &str) -> (usize, usize) {
    let e = parse_str(src).unwrap_err();
    assert!(matches!(e.kind(), ErrorKind::Syntax));
    let l = e.location().expect("a syntax error has a location");
    match &l.source {
        Source::File(path) => assert_eq!(path, "input.abl"),
    }
    (l.span.start, l.span.end)
}

#[test]
fn lexes_brackets() {
    assert_eq!(
        tokens("( ) '("),
        vec![(Token::GroupStart, 0, 1), (Token::GroupEnd, 2, 3), (Token::ListStart, 4, 6)]
    );
}

#[test]
fn lexes_identifiers() {
    assert_eq!(tokens("foo"), vec![(Token::Ident, 0, 3)]);
    assert_eq!(tokens("_a1-b"), vec![(Token::Ident, 0, 5)]);
    assert_eq!(tokens("+"), vec![(Token::Ident, 0, 1)]);
    assert_eq!(tokens("<="), vec![(Token::Ident, 0, 2)]);
    assert_eq!(tokens("!="), vec![(Token::Ident, 0, 2)]);
    assert_eq!(tokens("put-str"), vec![(Token::Ident, 0, 7)]);
    assert_eq!(tokens("+5"), vec![(Token::Ident, 0, 2)]);
    assert_eq!(tokens("-"), vec![(Token::Ident, 0, 1)]);
    assert_eq!(tokens("- 1"), vec![(Token::Ident, 0, 1), (Token::Int, 2, 3)]);
    assert_eq!(tokens("-a"), vec![(Token::Ident, 0, 1), (Token::Ident, 1, 2)]);
    assert_eq!(tokens("--"), vec![(Token::Ident, 0, 1), (Token::Ident, 1, 2)]);
}

#[test]
fn lexes_numbers() {
    assert_eq!(tokens("42"), vec![(Token::Int, 0, 2)]);
    assert_eq!(tokens("-42"), vec![(Token::Int, 0, 3)]);
    assert_eq!(tokens("1.5"), vec![(Token::Float, 0, 3)]);
    assert_eq!(tokens("-1.5"), vec![(Token::Float, 0, 4)]);
    assert_eq!(tokens("1."), vec![(Token::Float, 0, 2)]);
    assert_eq!(tokens("1abc"), vec![(Token::Int, 0, 1), (Token::Ident, 1, 4)]);
    assert_eq!(
        tokens("1.5.3"),
        vec![(Token::Float, 0, 3), (Token::Error, 3, 4), (Token::Int, 4, 5)]
    );
    assert_eq!(tokens(".5"), vec![(Token::Error, 0, 1), (Token::Int, 1, 2)]);
}

#[test]
fn lexes_atoms() {
    assert_eq!(tokens("'abc"), vec![(Token::Atom, 0, 4)]);
    assert_eq!(tokens("'a-b_9"), vec![(Token::Atom, 0, 6)]);
    assert_eq!(tokens("'"), vec![(Token::Error, 0, 1)]);
    assert_eq!(tokens("' a"), vec![(Token::Error, 0, 1), (Token::Ident, 2, 3)]);
    assert_eq!(tokens("'+"), vec![(Token::Error, 0, 1), (Token::Ident, 1, 2)]);
}

#[test]
fn lexes_strings() {
    assert_eq!(tokens("\"\""), vec![(Token::String, 0, 2)]);
    assert_eq!(tokens("\"abc\""), vec![(Token::String, 0, 5)]);
    assert_eq!(tokens("\"a\\nb\""), vec![(Token::String, 0, 6)]);
    assert_eq!(tokens("\"a\\\"b\""), vec![(Token::String, 0, 6)]);
    assert_eq!(tokens("\"\\x4f\""), vec![(Token::String, 0, 6)]);
    assert_eq!(tokens("\"h\u{e9}\""), vec![(Token::String, 0, 5)]);
    assert_eq!(kinds("\"\\n\\r\\t\\\\\\0\\'\\\"\""), vec![Token::String]);
}

#[test]
fn rejects_malformed_strings() {
    assert_eq!(tokens("\"abc")[0], (Token::Error, 0, 1));
    assert_eq!(tokens("\"a\\qb\"")[0], (Token::Error, 0, 1));
    assert_eq!(tokens("\"\\x4F\"")[0], (Token::Error, 0, 1));
    assert_eq!(tokens("\"\\x4\"")[0], (Token::Error, 0, 1));
    assert_eq!(tokens("\"\\")[0], (Token::Error, 0, 1));
}

#[test]
fn skips_white_space_and_comments() {
    assert_eq!(tokens("  \t\r\n a"), vec![(Token::Ident, 6, 7)]);
    assert_eq!(tokens("; comment\na"), vec![(Token::Ident, 10, 11)]);
    assert_eq!(tokens("a ; b c\n; d\n e"), vec![(Token::Ident, 0, 1), (Token::Ident, 13, 14)]);
    assert_eq!(tokens("a ; to the end"), vec![(Token::Ident, 0, 1)]);
    assert_eq!(tokens(""), vec![]);
    assert_eq!(tokens("   "), vec![]);
    assert_eq!(tokens("; \u{e9}\n1"), vec![(Token::Int, 5, 6)]);
}

#[test]
fn error_token_covers_one_character() {
    assert_eq!(tokens("#"), vec![(Token::Error, 0, 1)]);
    assert_eq!(tokens("\u{e9}a"), vec![(Token::Error, 0, 2), (Token::Ident, 2, 3)]);
    assert_eq!(tokens("\u{20ac}"), vec![(Token::Error, 0, 3)]);
    assert_eq!(tokens("\u{1f600} 1"), vec![(Token::Error, 0, 4), (Token::Int, 5, 6)]);
    assert_eq!(tokens("[")[0], (Token::Error, 0, 1));
    assert_eq!(tokens("^")[0], (Token::Error, 0, 1));
}

#[test]
fn parses_leaves() {
    let actions = parse_str("foo 'bar 12 -3 1.5 \"s\\n\"").unwrap();
    assert_eq!(actions.len(), 6);
    assert!(matches!(&actions[0].val, ActionVal::Ident(n) if n == "foo"));
    assert!(matches!(&actions[1].val, ActionVal::Literal(Value::Atom(n)) if n == "bar"));
    assert!(matches!(&actions[2].val, ActionVal::Literal(Value::Number(Number::Int(12)))));
    assert!(matches!(&actions[3].val, ActionVal::Literal(Value::Number(Number::Int(-3)))));
    assert!(
        matches!(&actions[4].val, ActionVal::Literal(Value::Number(Number::Float(b))) if *b == 1.5f64.to_bits())
    );
    assert!(matches!(&actions[5].val, ActionVal::Literal(Value::String(s)) if s == "s\n"));
    assert_eq!(actions[0].location.span, 0..3);
    assert_eq!(actions[1].location.span, 4..8);
    assert_eq!(actions[5].location.span, 19..24);
    assert!(matches!(&actions[0].location.source, Source::File(p) if p == "input.abl"));
}

#[test]
fn parses_floats_like_the_host() {
    for text in ["0.1", "1.", "-0.0", "3.141592653589793", "123456789.125", "0.000001", "-2.5",
        "179769313486231570000000000000000000000000000000000000000000000000000000000000000000000000000000000000000000000000000000000000000000000000000000000000000000000000000000000000000000000000000000000000000000000000000000000000000000000000000000000000000000000000000000000000000000000000000000000000000000000000000000000.0",
        "9007199254740993.0", "0.30000000000000004"]
    {
        let actions = parse_str(text).unwrap();
        let want: f64 = text.parse().unwrap();
        match &actions[0].val {
            ActionVal::Literal(Value::Number(Number::Float(b))) => {
                assert_eq!(*b, want.to_bits(), "{text}")
            }
            other => panic!("not a float: {:?}", other),
        }
    }
}

#[test]
fn parses_integers_at_the_limits() {
    let actions = parse_str("9223372036854775807 -9223372036854775808 007").unwrap();
    assert!(matches!(&actions[0].val, ActionVal::Literal(Value::Number(Number::Int(i64::MAX)))));
    assert!(matches!(&actions[1].val, ActionVal::Literal(Value::Number(Number::Int(i64::MIN)))));
    assert!(matches!(&actions[2].val, ActionVal::Literal(Value::Number(Number::Int(7)))));
    assert_eq!(syntax_error_span("1 9223372036854775808"), (2, 21));
    assert_eq!(syntax_error_span("-9223372036854775809"), (0, 20));
    assert_eq!(syntax_error_span("99999999999999999999999999999999"), (0, 32));
}

#[test]
fn parses_string_escapes() {
    let actions = parse_str("\"a\\tb\\\\c\\\"d\\'e\\x41\\rf\"").unwrap();
    assert!(matches!(&actions[0].val, ActionVal::Literal(Value::String(s)) if s == "a\tb\\c\"d'eA\rf"));
    let actions = parse_str("\"h\u{e9}llo\"").unwrap();
    assert!(matches!(&actions[0].val, ActionVal::Literal(Value::String(s)) if s == "h\u{e9}llo"));
    let actions = parse_str("\"\\012\"").unwrap();
    assert!(matches!(&actions[0].val, ActionVal::Literal(Value::String(s)) if s == "\n"));
}

#[test]
fn a_string_that_cannot_be_unquoted_is_a_syntax_error() {
    assert_eq!(syntax_error_span("(f \"a\\0\")"), (3, 8));
}

#[test]
fn parses_groups() {
    let actions = parse_str("(a (b 1) '(c))").unwrap();
    assert_eq!(actions.len(), 1);
    assert_eq!(actions[0].location.span, 0..1);
    match &actions[0].val {
        ActionVal::Group { content, quoted } => {
            assert!(!quoted);
            assert_eq!(content.len(), 3);
            assert!(matches!(&content[0].val, ActionVal::Ident(n) if n == "a"));
            match &content[1].val {
                ActionVal::Group { content, quoted } => {
                    assert!(!quoted);
                    assert_eq!(content.len(), 2);
                }
                other => panic!("not a group: {:?}", other),
            }
            assert_eq!(content[1].location.span, 3..4);
            match &content[2].val {
                ActionVal::Group { content, quoted } => {
                    assert!(*quoted);
                    assert_eq!(content.len(), 1);
                }
                other => panic!("not a group: {:?}", other),
            }
            assert_eq!(content[2].location.span, 9..11);
        }
        other => panic!("not a group: {:?}", other),
    }
}

#[test]
fn parses_empty_input_and_empty_groups() {
    assert!(parse_str("").unwrap().is_empty());
    assert!(parse_str("  ; nothing\n").unwrap().is_empty());
    let actions = parse_str("() '()").unwrap();
    assert!(matches!(&actions[0].val, ActionVal::Group { content, quoted: false } if content.is_empty()));
    assert!(matches!(&actions[1].val, ActionVal::Group { content, quoted: true } if content.is_empty()));
}

#[test]
fn end_of_input_closes_open_groups() {
    let actions = parse_str("(a (b").unwrap();
    assert_eq!(actions.len(), 1);
    match &actions[0].val {
        ActionVal::Group { content, .. } => {
            assert_eq!(content.len(), 2);
            assert!(matches!(&content[1].val, ActionVal::Group { content, .. } if content.len() == 1));
        }
        other => panic!("not a group: {:?}", other),
    }
}

#[test]
fn unmatched_closer_is_a_syntax_error() {
    assert_eq!(syntax_error_span(")"), (0, 1));
    assert_eq!(syntax_error_span("(a) ) b"), (4, 5));
    assert_eq!(syntax_error_span("a )"), (2, 3));
}

#[test]
fn error_token_is_a_syntax_error() {
    assert_eq!(syntax_error_span("(a # b)"), (3, 4));
    assert_eq!(syntax_error_span("(a \"open)"), (3, 4));
    assert_eq!(syntax_error_span("\u{e9}"), (0, 2));
    assert_eq!(syntax_error_span("(a (b '))"), (6, 7));
}

#[test]
fn deep_nesting_parses() {
    let mut src = String::new();
    for _ in 0..200 {
        src.push('(');
    }
    src.push('x');
    for _ in 0..200 {
        src.push(')');
    }
    let mut actions = parse_str(&src).unwrap();
    let mut depth = 0;
    loop {
        assert_eq!(actions.len(), 1);
        let first = actions.remove(0);
        match first.val {
            ActionVal::Group { content, .. } => {
                depth += 1;
                actions = content;
            }
            ActionVal::Ident(n) => {
                assert_eq!(n, "x");
                break;
            }
            other => panic!("unexpected {:?}", other),
        }
    }
    assert_eq!(depth, 200);
}
