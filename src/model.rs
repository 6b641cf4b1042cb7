//! The meaning of a scan: positions, skipped text, and the token that starts
//! at each point of the source, stated over the text as a character sequence.
use crate::classify::{alphabetic_char, numeric_char, whitespace_char};
use crate::token::{Token, TokenAtView, TokenView};
use vstd::prelude::*;

verus! {

/// The line of offset `i` of `s`: one more than the newlines before it.
pub open spec fn line_at(s: Seq<char>, i: int) -> nat
    decreases i,
{
    if i <= 0 {
        1
    } else if s[i - 1] == '\n' {
        line_at(s, i - 1) + 1
    } else {
        line_at(s, i - 1)
    }
}

/// The column of offset `i` of `s`: 1 at the start of the text and right
/// after a newline, one more for each character since.
pub open spec fn col_at(s: Seq<char>, i: int) -> nat
    decreases i,
{
    if i <= 0 {
        1
    } else if s[i - 1] == '\n' {
        1
    } else {
        col_at(s, i - 1) + 1
    }
}

/// Positions grow no faster than offsets.
pub proof fn lemma_position_bounds(s: Seq<char>, i: int)
    requires
        0 <= i,
    ensures
        1 <= line_at(s, i) <= i + 1,
        1 <= col_at(s, i) <= i + 1,
    decreases i,
{
    if i > 0 {
        lemma_position_bounds(s, i - 1);
    }
}

/// Characters that may continue an identifier.
pub open spec fn ident_char(c: char) -> bool {
    alphabetic_char(c) || numeric_char(c) || c == '?' || c == '!' || c == '-' || c == '_'
}

/// Characters of the digit runs of a number literal.
pub open spec fn number_char(c: char) -> bool {
    numeric_char(c) || c == '_'
}

/// The end of the run of identifier characters that starts at `i`.
pub open spec fn ident_end(s: Seq<char>, i: int) -> int
    decreases s.len() - i,
{
    if i < s.len() && ident_char(s[i]) {
        ident_end(s, i + 1)
    } else {
        i
    }
}

/// The end of the run of whitespace that starts at `i`.
pub open spec fn blank_end(s: Seq<char>, i: int) -> int
    decreases s.len() - i,
{
    if i < s.len() && whitespace_char(s[i]) {
        blank_end(s, i + 1)
    } else {
        i
    }
}

/// The end of the run of number characters that starts at `i`.
pub open spec fn digits_end(s: Seq<char>, i: int) -> int
    decreases s.len() - i,
{
    if i < s.len() && number_char(s[i]) {
        digits_end(s, i + 1)
    } else {
        i
    }
}

/// The first newline at or after `i`, or the end of the text.
pub open spec fn line_end(s: Seq<char>, i: int) -> int
    decreases s.len() - i,
{
    if i < s.len() && s[i] != '\n' {
        line_end(s, i + 1)
    } else {
        i
    }
}

/// The first quote or newline at or after `i`, or the end of the text.
pub open spec fn quote_end(s: Seq<char>, i: int) -> int
    decreases s.len() - i,
{
    if i < s.len() && s[i] != '"' && s[i] != '\n' {
        quote_end(s, i + 1)
    } else {
        i
    }
}

pub proof fn lemma_line_end(s: Seq<char>, i: int)
    requires
        0 <= i <= s.len(),
    ensures
        i <= line_end(s, i) <= s.len(),
        line_end(s, i) < s.len() ==> s[line_end(s, i)] == '\n',
    decreases s.len() - i,
{
    if i < s.len() && s[i] != '\n' {
        lemma_line_end(s, i + 1);
    }
}

/// The offset at which the next token starts when scanning resumes at `i`:
/// whitespace and `#` comments (up to the end of their line) are passed over
/// until neither is found.
pub open spec fn skip(s: Seq<char>, i: int) -> int
    decreases s.len() - i,
{
    if 0 <= i < s.len() && whitespace_char(s[i]) {
        skip(s, i + 1)
    } else if 0 <= i < s.len() && s[i] == '#' {
        proof {
            lemma_line_end(s, i);
        }
        skip(s, line_end(s, i))
    } else {
        i
    }
}

/// Tokens of one character.
pub open spec fn single(c: char) -> Option<Token> {
    match c {
        '.' => Some(Token::Dot),
        ',' => Some(Token::Comma),
        '(' => Some(Token::LParen),
        ')' => Some(Token::RParen),
        '{' => Some(Token::LBrace),
        '}' => Some(Token::RBrace),
        ':' => Some(Token::Colon),
        ';' => Some(Token::Semicolon),
        '+' => Some(Token::Plus),
        '-' => Some(Token::Minus),
        '*' => Some(Token::Star),
        '[' => Some(Token::LBracket),
        ']' => Some(Token::RBracket),
        '~' => Some(Token::Tilda),
        '&' => Some(Token::And),
        '|' => Some(Token::Or),
        _ => None,
    }
}

/// The reserved word spelled by `w`, if any.
pub open spec fn keyword(w: Seq<char>) -> Option<Token> {
    if w == "method"@ {
        Some(Token::KwMethod)
    } else if w == "given"@ {
        Some(Token::KwGiven)
    } else if w == "when"@ {
        Some(Token::KwWhen)
    } else if w == "default"@ {
        Some(Token::KwDefault)
    } else if w == "true"@ {
        Some(Token::KwTrue)
    } else if w == "false"@ {
        Some(Token::KwFalse)
    } else {
        None
    }
}

/// A scanned word: its reserved word, or else an identifier.
pub open spec fn word(w: Seq<char>) -> TokenView {
    match keyword(w) {
        Some(k) => TokenView::Plain(k),
        None => TokenView::Ident(w),
    }
}

/// The decimal digit `d` (below ten).
pub open spec fn digit(d: nat) -> char {
    if d == 0 {
        '0'
    } else if d == 1 {
        '1'
    } else if d == 2 {
        '2'
    } else if d == 3 {
        '3'
    } else if d == 4 {
        '4'
    } else if d == 5 {
        '5'
    } else if d == 6 {
        '6'
    } else if d == 7 {
        '7'
    } else if d == 8 {
        '8'
    } else {
        '9'
    }
}

/// `n` written in decimal, without leading zeros.
pub open spec fn decimal(n: nat) -> Seq<char>
    decreases n,
{
    if n < 10 {
        seq![digit(n)]
    } else {
        decimal(n / 10).push(digit(n % 10))
    }
}

/// `msg` prefixed with the position of offset `i` of `s`, as `line:column: `.
pub open spec fn located(s: Seq<char>, i: int, msg: Seq<char>) -> Seq<char> {
    decimal(line_at(s, i)) + ":"@ + decimal(col_at(s, i)) + ": "@ + msg
}

pub open spec fn unknown_message(c: char) -> Seq<char> {
    "Unknown character '"@ + seq![c]
        + "' -- did you mean an operator, identifier or a string? Try adding spaces, or wrap text in double quotes."@
}

pub open spec fn newline_message() -> Seq<char> {
    "Unterminated string -- found a newline before the closing quote. Keep strings on one line."@
}

pub open spec fn end_message() -> Seq<char> {
    "Unterminated string -- reached end of input before closing quote. Add a closing '\"'"@
}

/// What a scan yields at a point of the text.
pub ghost struct Scanned {
    /// The token.
    pub token: TokenView,
    /// Where scanning resumes (for a failure: where it was detected).
    pub end: int,
    /// Whether the token is a failure, after which scanning stops.
    pub fails: bool,
}

pub open spec fn scanned(token: TokenView, end: int) -> Scanned {
    Scanned { token, end, fails: false }
}

pub open spec fn failed(s: Seq<char>, at: int, msg: Seq<char>) -> Scanned {
    Scanned { token: TokenView::Error(located(s, at, msg)), end: at, fails: true }
}

/// The number literal that starts at `i`: digit runs, and at most one `.`
/// that is followed at once by a further digit run.
pub open spec fn number_at(s: Seq<char>, i: int) -> Scanned {
    let j = digits_end(s, i);
    if j + 1 < s.len() && s[j] == '.' && number_char(s[j + 1]) {
        let k = digits_end(s, j + 1);
        scanned(TokenView::Float(s.subrange(i, k)), k)
    } else {
        scanned(TokenView::Int(s.subrange(i, j)), j)
    }
}

/// The string literal whose opening quote is at `i`.
pub open spec fn string_at(s: Seq<char>, i: int) -> Scanned {
    let k = quote_end(s, i + 1);
    if k >= s.len() {
        failed(s, k, end_message())
    } else if s[k] == '\n' {
        failed(s, k, newline_message())
    } else {
        scanned(TokenView::Str(s.subrange(i + 1, k)), k + 1)
    }
}

/// The token of an operator whose first character `c` is at `i`, where
/// `then` is what a following `=` makes of it.
pub open spec fn operator_at(s: Seq<char>, i: int, alone: Token, then: Token) -> Scanned {
    if i + 1 < s.len() && s[i + 1] == '=' {
        scanned(TokenView::Plain(then), i + 2)
    } else {
        scanned(TokenView::Plain(alone), i + 1)
    }
}

/// The token that starts at offset `i` (a character of `s`, not blank).
pub open spec fn scan_at(s: Seq<char>, i: int) -> Scanned {
    let c = s[i];
    if single(c) is Some {
        scanned(TokenView::Plain(single(c)->0), i + 1)
    } else if c == '/' {
        operator_at(s, i, Token::Slash, Token::NotEqual)
    } else if c == '<' {
        operator_at(s, i, Token::Less, Token::Le)
    } else if c == '>' {
        operator_at(s, i, Token::Greater, Token::Ge)
    } else if c == '=' {
        if i + 1 < s.len() && s[i + 1] == '>' {
            scanned(TokenView::Plain(Token::RArrow), i + 2)
        } else {
            operator_at(s, i, Token::Assign, Token::Equal)
        }
    } else if alphabetic_char(c) {
        let j = ident_end(s, i);
        scanned(word(s.subrange(i, j)), j)
    } else if numeric_char(c) {
        number_at(s, i)
    } else if c == '"' {
        string_at(s, i)
    } else {
        failed(s, i, unknown_message(c))
    }
}

/// The state of a scan: the text, the offset of the lookahead character
/// (the length of the text once it is used up), and whether a failure has
/// stopped the scan.
pub ghost struct Cursor {
    pub text: Seq<char>,
    pub pos: int,
    pub halted: bool,
}

/// A fresh scan of `text`.
pub open spec fn start(text: Seq<char>) -> Cursor {
    Cursor { text, pos: 0, halted: false }
}

/// Where the next token starts.
pub open spec fn token_start(c: Cursor) -> int {
    if c.halted {
        c.pos
    } else {
        skip(c.text, c.pos)
    }
}

/// The next token, with the position of its first character, and the state
/// after it. Once the text is used up, or a failure has stopped the scan,
/// every pull gives the end marker and leaves the state as it is.
pub open spec fn pull(c: Cursor) -> (TokenAtView, Cursor) {
    let at = token_start(c);
    let (token, after) = if c.halted || at >= c.text.len() {
        (TokenView::Plain(Token::Eof), Cursor { pos: at, ..c })
    } else {
        let r = scan_at(c.text, at);
        (r.token, Cursor { text: c.text, pos: r.end, halted: r.fails })
    };
    (TokenAtView { token, line: line_at(c.text, at), col: col_at(c.text, at) }, after)
}

/// The states in which `n` pulls, one after another, begin.
pub open spec fn trace(c: Cursor, n: nat) -> Seq<Cursor>
    decreases n,
{
    if n == 0 {
        Seq::empty()
    } else {
        seq![c] + trace(pull(c).1, (n - 1) as nat)
    }
}

/// The tokens that `n` pulls give, one after another.
pub open spec fn pulled(c: Cursor, n: nat) -> Seq<TokenAtView> {
    trace(c, n).map_values(|d: Cursor| pull(d).0)
}

} // verus!
