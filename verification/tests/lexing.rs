use minipy::lexer::tokenize;
use minipy::rational::Rat;
use minipy::types::{Error, ErrorKind, Token};

fn toks(line: &str, prev: i32) -> (Vec<Token>, i32) {
    tokenize(line, &prev).unwrap()
}

#[test]
fn numbers_and_operators() {
    let (ts, ind) = toks("1 + 2.5", 0);
    assert_eq!(ind, 0);
    assert_eq!(
        ts,
        vec![
            Token::TokInt(1),
            Token::TokPlus,
            Token::TokFloat(Rat::new(25, 10)),
        ]
    );
}

#[test]
fn float_without_integer_part() {
    let (ts, _) = toks(".5", 0);
    assert_eq!(ts, vec![Token::TokFloat(Rat::new(5, 10))]);
}

#[test]
fn negative_literals_use_the_unary_marker() {
    let (ts, _) = toks("3-4", 0);
    assert_eq!(
        ts,
        vec![Token::TokInt(3), Token::TokUnaryMinus, Token::TokInt(4)]
    );
    let (ts, _) = toks("-2.5", 0);
    assert_eq!(
        ts,
        vec![Token::TokUnaryMinus, Token::TokFloat(Rat::new(25, 10))]
    );
    let (ts, _) = toks("- 4", 0);
    assert_eq!(ts, vec![Token::TokMinus, Token::TokInt(4)]);
}

#[test]
fn indent_and_dedent_carry_absolute_depth() {
    let (ts, ind) = toks("    x", 0);
    assert_eq!(ind, 4);
    assert_eq!(
        ts,
        vec![Token::TokIndent(4), Token::TokVar("x".to_string())]
    );
    let (ts, ind) = toks("x", 4);
    assert_eq!(ind, 0);
    assert_eq!(
        ts,
        vec![Token::TokDedent(0), Token::TokVar("x".to_string())]
    );
    let (ts, ind) = toks("  y", 2);
    assert_eq!(ind, 2);
    assert_eq!(ts, vec![Token::TokVar("y".to_string())]);
}

#[test]
fn blank_line_gets_the_sentinel_depth() {
    // A line that is empty after its whitespace is one shallower than the
    // whitespace count, so a bare blank line never produces an indent.
    let (ts, ind) = toks("", 0);
    assert_eq!(ind, -1);
    assert_eq!(ts, vec![Token::TokDedent(-1)]);
    let (ts, ind) = toks("\n", 4);
    assert_eq!(ind, 0);
    assert_eq!(ts, vec![Token::TokDedent(0)]);
}

#[test]
fn keywords_and_names() {
    let (ts, _) = toks("if x and yonder or not True", 0);
    assert_eq!(
        ts,
        vec![
            Token::TokIf,
            Token::TokVar("x".to_string()),
            Token::TokAnd,
            Token::TokVar("yonder".to_string()),
            Token::TokOr,
            Token::TokNot,
            Token::TokBool(true),
        ]
    );
    let (ts, _) = toks("def f(a, b): return False", 0);
    assert_eq!(
        ts,
        vec![
            Token::TokDef,
            Token::TokVar("f".to_string()),
            Token::TokLParen,
            Token::TokVar("a".to_string()),
            Token::TokComma,
            Token::TokVar("b".to_string()),
            Token::TokRParen,
            Token::TokColon,
            Token::TokReturn,
            Token::TokBool(false),
        ]
    );
}

#[test]
fn two_character_operators_win_over_prefixes() {
    let (ts, _) = toks("a<=b<c==d!=e>=f>g=h", 0);
    assert_eq!(
        ts,
        vec![
            Token::TokVar("a".to_string()),
            Token::TokLessEqual,
            Token::TokVar("b".to_string()),
            Token::TokLess,
            Token::TokVar("c".to_string()),
            Token::TokDoubleEqual,
            Token::TokVar("d".to_string()),
            Token::TokNotEqual,
            Token::TokVar("e".to_string()),
            Token::TokGreaterEqual,
            Token::TokVar("f".to_string()),
            Token::TokGreater,
            Token::TokVar("g".to_string()),
            Token::TokAssign,
            Token::TokVar("h".to_string()),
        ]
    );
}

#[test]
fn string_literals() {
    let (ts, _) = toks("\"hello\"", 0);
    assert_eq!(ts, vec![Token::TokString("hello".to_string())]);
    let (ts, _) = toks("'hi'", 0);
    assert_eq!(ts, vec![Token::TokString("hi".to_string())]);
    // A double-quoted string may hold single quotes.
    let (ts, _) = toks("\"it's\"", 0);
    assert_eq!(ts, vec![Token::TokString("it's".to_string())]);
}

#[test]
fn lexical_errors_carry_the_remainder() {
    let e = tokenize("\"abc", &0).unwrap_err();
    assert_eq!(e.kind(), ErrorKind::LexError);
    match e {
        Error::LexError(rest) => assert_eq!(rest, "\"abc"),
        other => panic!("expected a lexical error, got {:?}", other),
    }
    let e = tokenize("a # b", &0).unwrap_err();
    assert_eq!(e.kind(), ErrorKind::LexError);
    match e {
        Error::LexError(rest) => assert_eq!(rest, "# b"),
        other => panic!("expected a lexical error, got {:?}", other),
    }
}

#[test]
fn oversized_integer_literal_is_refused() {
    let e = tokenize("99999999999999999999", &0).unwrap_err();
    assert_eq!(e.kind(), ErrorKind::LexError);
}

#[test]
fn unicode_whitespace_counts_for_indentation() {
    // The space class is the Unicode white-space set: a no-break-space-led
    // line is indented, not a lexical error.
    let (ts, ind) = toks("\u{00A0}\u{00A0}x", 0);
    assert_eq!(ind, 2);
    assert_eq!(
        ts,
        vec![Token::TokIndent(2), Token::TokVar("x".to_string())]
    );
}

#[test]
fn elif_is_tokenized() {
    let (ts, _) = toks("elif", 0);
    assert_eq!(ts, vec![Token::TokElif]);
}
