use tokenizer::classify::is_whitespace;
use tokenizer::Token::{
    And, Assign, Colon, Comma, Dot, Eof, Equal, Float, Ge, Greater, Ident, Int, KwDefault,
    KwFalse, KwGiven, KwMethod, KwTrue, KwWhen, LBrace, LBracket, LParen, Le, Less, Minus,
    NotEqual, Or, Plus, RArrow, RBrace, RBracket, RParen, Semicolon, Slash, Star, Tilda,
};
use tokenizer::{Token, TokenAt, Tokenizer};

fn all_tokens(src: &str) -> Vec<TokenAt> {
    let mut t = Tokenizer::new(src);
    let mut out = Vec::new();
    loop {
        let ta = t.next_token();
        let stop = matches!(ta.token, Token::Eof | Token::Error(_));
        out.push(ta);
        if stop {
            return out;
        }
    }
}

fn kinds(src: &str) -> Vec<Token> {
    all_tokens(src).into_iter().map(|ta| ta.token).collect()
}

fn positions(src: &str) -> Vec<(usize, usize)> {
    all_tokens(src).iter().map(|ta| (ta.line, ta.col)).collect()
}

fn first_error(src: &str) -> String {
    match Tokenizer::new(src).next_token().token {
        Token::Error(m) => m,
        other => panic!("expected an error, got {:?}", other),
    }
}

fn s(x: &str) -> String {
    x.to_string()
}

#[test]
fn punctuation() {
    assert_eq!(
        kinds(". , ( ) { } : ; + - * / & |"),
        vec![
            Dot, Comma, LParen, RParen, LBrace, RBrace, Colon, Semicolon, Plus, Minus, Star,
            Slash, And, Or, Eof
        ]
    );
}

#[test]
fn brackets_tilde_and_arrow() {
    assert_eq!(kinds("[ ] ~ =>"), vec![LBracket, RBracket, Tilda, RArrow, Eof]);
    assert_eq!(kinds("a=>b"), vec![Ident(s("a")), RArrow, Ident(s("b")), Eof]);
}

#[test]
fn comparison_operators() {
    assert_eq!(
        kinds("< <= > >= = == /="),
        vec![Less, Le, Greater, Ge, Assign, Equal, NotEqual, Eof]
    );
}

#[test]
fn operators_without_spaces() {
    assert_eq!(kinds("<<=/"), vec![Less, Le, Slash, Eof]);
    assert_eq!(kinds("==="), vec![Equal, Assign, Eof]);
    assert_eq!(kinds("&&||"), vec![And, And, Or, Or, Eof]);
}

#[test]
fn keywords_and_identifiers() {
    assert_eq!(
        kinds("method given when default true false foo foo123 bar? baz! qux-abc foo_bar"),
        vec![
            KwMethod,
            KwGiven,
            KwWhen,
            KwDefault,
            KwTrue,
            KwFalse,
            Ident(s("foo")),
            Ident(s("foo123")),
            Ident(s("bar?")),
            Ident(s("baz!")),
            Ident(s("qux-abc")),
            Ident(s("foo_bar")),
            Eof
        ]
    );
}

#[test]
fn keyword_prefixes_are_identifiers() {
    assert_eq!(
        kinds("methods when2 True"),
        vec![Ident(s("methods")), Ident(s("when2")), Ident(s("True")), Eof]
    );
}

#[test]
fn non_ascii_identifier() {
    assert_eq!(kinds("héllo wörld"), vec![Token::Ident(s("héllo")), Token::Ident(s("wörld")), Token::Eof]);
}

#[test]
fn integers_keep_underscores() {
    assert_eq!(kinds("123 4_567"), vec![Int(s("123")), Int(s("4_567")), Eof]);
}

#[test]
fn floats() {
    assert_eq!(kinds("1.5 10_0.2_5"), vec![Float(s("1.5")), Float(s("10_0.2_5")), Eof]);
}

#[test]
fn second_dot_is_not_consumed() {
    assert_eq!(kinds("1.2.3"), vec![Float(s("1.2")), Dot, Int(s("3")), Eof]);
}

#[test]
fn dot_without_digits_after_it_is_not_consumed() {
    assert_eq!(kinds("1.x"), vec![Int(s("1")), Dot, Ident(s("x")), Eof]);
    assert_eq!(kinds("7."), vec![Int(s("7")), Dot, Eof]);
    assert_eq!(kinds("1..2"), vec![Int(s("1")), Dot, Dot, Int(s("2")), Eof]);
}

#[test]
fn non_ascii_digits_make_a_number() {
    assert_eq!(kinds("٣٤"), vec![Token::Int(s("٣٤")), Token::Eof]);
}

#[test]
fn string_literal() {
    assert_eq!(kinds("\"hello\""), vec![Token::Str(s("hello")), Token::Eof]);
}

#[test]
fn string_keeps_backslashes_and_hashes() {
    assert_eq!(kinds("\"a\\n # b\""), vec![Token::Str(s("a\\n # b")), Token::Eof]);
    assert_eq!(kinds("\"\""), vec![Token::Str(s("")), Token::Eof]);
}

#[test]
fn unterminated_string_at_newline() {
    let m = first_error("\"\n").to_lowercase();
    assert!(m.contains("unterminated string"));
    assert!(m.contains("newline"));
}

#[test]
fn unterminated_string_at_end_of_input() {
    let m = first_error("\"not closed").to_lowercase();
    assert!(m.contains("end of input") || m.contains("closing"));
}

#[test]
fn unknown_character() {
    let m = first_error("@");
    assert!(m.contains('@'));
    assert!(m.to_lowercase().contains("unknown character"));
}

#[test]
fn error_messages_start_with_the_position() {
    assert_eq!(
        first_error("  @"),
        "1:3: Unknown character '@' -- did you mean an operator, identifier or a string? \
         Try adding spaces, or wrap text in double quotes."
    );
    assert_eq!(
        first_error("\"ab\n\""),
        "1:4: Unterminated string -- found a newline before the closing quote. \
         Keep strings on one line."
    );
    assert_eq!(
        first_error("\n\n\"abc"),
        "3:5: Unterminated string -- reached end of input before closing quote. \
         Add a closing '\"'"
    );
}

#[test]
fn error_positions_past_nine_use_several_digits() {
    let src = format!("{}  @", "\n".repeat(11));
    assert!(first_error(&src).starts_with("12:3: "));
    let long = format!("{}@", " ".repeat(123));
    assert!(first_error(&long).starts_with("1:124: "));
}

#[test]
fn error_token_has_start_position_of_string() {
    let toks = all_tokens("x \"ab\ncd\"");
    assert_eq!((toks[1].line, toks[1].col), (1, 3));
    assert!(matches!(toks[1].token, Token::Error(_)));
}

#[test]
fn scan_stops_after_a_failure() {
    let mut t = Tokenizer::new("a @ b");
    assert_eq!(t.next_token().token, Token::Ident(s("a")));
    assert!(matches!(t.next_token().token, Token::Error(_)));
    let after = t.next_token();
    assert_eq!(after.token, Token::Eof);
    assert_eq!((after.line, after.col), (1, 3));
    assert_eq!(t.next_token().token, Token::Eof);
}

#[test]
fn scan_stops_after_a_newline_in_a_string() {
    let mut t = Tokenizer::new("\"a\nb c");
    assert!(matches!(t.next_token().token, Token::Error(_)));
    assert_eq!(t.next_token().token, Token::Eof);
}

#[test]
fn eof_repeats() {
    let mut t = Tokenizer::new("x");
    assert_eq!(t.next_token().token, Token::Ident(s("x")));
    assert_eq!(t.next_token().token, Token::Eof);
    let again = t.next_token();
    assert_eq!(again.token, Token::Eof);
    assert_eq!((again.line, again.col), (1, 2));
}

#[test]
fn empty_and_blank_inputs() {
    assert_eq!(positions(""), vec![(1, 1)]);
    assert_eq!(kinds(" \t\r\n "), vec![Token::Eof]);
    assert_eq!(positions(" \t\r\n "), vec![(2, 2)]);
}

#[test]
fn comments_are_skipped() {
    assert_eq!(kinds("# only a comment"), vec![Eof]);
    assert_eq!(kinds("a # b c\nd"), vec![Ident(s("a")), Ident(s("d")), Eof]);
    assert_eq!(kinds("#x"), vec![Eof]);
}

#[test]
fn whitespace_and_comments_alternate() {
    assert_eq!(positions("  # one\n  # two\n\n   x"), vec![(4, 4), (4, 5)]);
    assert_eq!(kinds("#a\n#b\n# c\n+"), vec![Token::Plus, Token::Eof]);
}

#[test]
fn positions_of_tokens() {
    assert_eq!(positions("a\n  bb\nc"), vec![(1, 1), (2, 3), (3, 1), (3, 2)]);
    assert_eq!(positions("f(x, 12)"), vec![(1, 1), (1, 2), (1, 3), (1, 4), (1, 6), (1, 8), (1, 9)]);
}

#[test]
fn positions_line_order_and_first_column() {
    let src = "method f(a, b)\n  when a >= b\n\"s\" # c\nx\n";
    let toks = all_tokens(src);
    let chars: Vec<char> = src.chars().collect();
    let mut offsets = Vec::new();
    let (mut line, mut col) = (1usize, 1usize);
    for (i, c) in chars.iter().enumerate() {
        offsets.push((line, col, i));
        if *c == '\n' {
            line += 1;
            col = 1;
        } else {
            col += 1;
        }
    }
    offsets.push((line, col, chars.len()));
    for w in toks.windows(2) {
        assert!(w[0].line <= w[1].line);
    }
    for ta in &toks {
        let at = offsets.iter().find(|o| o.0 == ta.line && o.1 == ta.col).unwrap().2;
        let after_newline = at > 0 && chars[at - 1] == '\n';
        assert_eq!(ta.col == 1, at == 0 || after_newline);
    }
}

#[test]
fn independent_scanners_agree() {
    let src = "method m(x) when x >= 1_0 => \"ok\" # done\n y-1";
    let mut a = Tokenizer::new(src);
    let mut b = Tokenizer::new(src);
    let _ = Tokenizer::new("other text").next_token();
    loop {
        let x = a.next_token();
        let y = b.next_token();
        assert_eq!(x, y);
        if x.token == Token::Eof {
            break;
        }
    }
}

#[test]
fn sequence_view_ends_at_eof() {
    let mut t = Tokenizer::new("a + 1");
    let mut got = Vec::new();
    while let Some(ta) = t.next() {
        got.push(ta.token);
    }
    assert_eq!(got, vec![Token::Ident(s("a")), Token::Plus, Token::Int(s("1"))]);
    assert!(t.next().is_none());
}

#[test]
fn sequence_view_hides_the_failure() {
    let mut t = Tokenizer::new("a @ b");
    let first = t.next().unwrap();
    assert_eq!(first, TokenAt { token: Token::Ident(s("a")), line: 1, col: 1 });
    assert!(t.next().is_none());
    assert!(t.next().is_none());
}

#[test]
fn blank_text() {
    assert!(is_whitespace(""));
    assert!(is_whitespace(" \t\n\r"));
    assert!(is_whitespace("\u{A0}"));
    assert!(!is_whitespace(" a "));
    assert!(!is_whitespace("x"));
}
