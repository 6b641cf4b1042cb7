//! The scanner: a forward-only cursor over the source with one character of
//! lookahead, pulled one token at a time.
use crate::classify::{
    char_is_alphabetic, char_is_numeric, char_is_whitespace, push_char, whitespace_char,
};
use crate::model::{
    blank_end, col_at, decimal, digit, digits_end, ident_char, ident_end, lemma_line_end,
    lemma_position_bounds, line_at, line_end, located, number_at, number_char, pull, quote_end,
    skip, start, string_at, unknown_message, word, Cursor,
};
use crate::laws::in_text;
use crate::token::{Token, TokenAt, TokenView};
use vstd::prelude::*;
use vstd::string::StringExecFns;

verus! {

/// Turns source text into tokens, one per call of [`Tokenizer::next_token`].
pub struct Tokenizer {
    input: Vec<char>,
    /// Offset of the next character to read into `last`.
    next: usize,
    /// The lookahead character, meaningful while `eof` is false.
    last: char,
    eof: bool,
    /// Set once a failure was produced: the scan does not resume.
    halted: bool,
    line: usize,
    col: usize,
}

/// The decimal digit `d`.
fn digit_char(d: usize) -> (r: char)
    requires
        d < 10,
    ensures
        r == digit(d as nat),
{
    match d {
        0 => '0',
        1 => '1',
        2 => '2',
        3 => '3',
        4 => '4',
        5 => '5',
        6 => '6',
        7 => '7',
        8 => '8',
        _ => '9',
    }
}

/// Appends `n` in decimal.
fn push_decimal(out: &mut String, n: usize)
    ensures
        final(out)@ == old(out)@ + decimal(n as nat),
    decreases n,
{
    if n >= 10 {
        push_decimal(out, n / 10);
    }
    push_char(out, digit_char(n % 10));
    proof {
        assert(old(out)@ + decimal(n as nat) =~= final(out)@);
    }
}

/// Whether `w` spells `k`.
fn spells(w: &String, k: &str) -> (r: bool)
    ensures
        r == (w@ == k@),
{
    let other = String::from_str(k);
    *w == other
}

/// The reserved word that `w` spells, or else an identifier of it.
fn identifier_or_keyword(w: String) -> (r: Token)
    ensures
        r@ == word(w@),
{
    if spells(&w, "method") {
        Token::KwMethod
    } else if spells(&w, "given") {
        Token::KwGiven
    } else if spells(&w, "when") {
        Token::KwWhen
    } else if spells(&w, "default") {
        Token::KwDefault
    } else if spells(&w, "true") {
        Token::KwTrue
    } else if spells(&w, "false") {
        Token::KwFalse
    } else {
        Token::Ident(w)
    }
}

impl View for Tokenizer {
    type V = Cursor;

    closed spec fn view(&self) -> Cursor {
        Cursor {
            text: self.input@,
            pos: if self.eof {
                self.input.len() as int
            } else {
                self.next - 1
            },
            halted: self.halted,
        }
    }
}

impl Tokenizer {
    /// The cursor is consistent: the lookahead is the character before
    /// `next`, and the line and column are those of its offset.
    pub closed spec fn wf(&self) -> bool {
        &&& self.input.len() < usize::MAX
        &&& self.next <= self.input.len()
        &&& self.eof ==> self.next == self.input.len()
        &&& !self.eof ==> 1 <= self.next && self.last == self.input@[self.next - 1]
        &&& self.line == line_at(self@.text, self@.pos)
        &&& self.col == col_at(self@.text, self@.pos)
    }

    /// A well-formed scanner's state lies within its text, so the laws over
    /// whole scans apply to it.
    pub proof fn lemma_in_text(&self)
        requires
            self.wf(),
        ensures
            in_text(self@),
    {
    }

    /// A scan of `source` from its start.
    pub fn new(source: &str) -> (r: Tokenizer)
        requires
            source@.len() < usize::MAX,
        ensures
            r.wf(),
            r@ == start(source@),
    {
        let mut input: Vec<char> = Vec::new();
        for c in it: source.chars()
            invariant
                it.seq() == source@,
                input@ == source@.take(it.index() as int),
        {
            input.push(c);
            proof {
                assert(source@.take(it.index() + 1) =~= input@);
            }
        }
        proof {
            assert(source@.take(source@.len() as int) =~= source@);
        }
        if input.len() > 0 {
            let first = input[0];
            Tokenizer { input, next: 1, last: first, eof: false, halted: false, line: 1, col: 1 }
        } else {
            Tokenizer { input, next: 0, last: ' ', eof: true, halted: false, line: 1, col: 1 }
        }
    }

    /// Moves the lookahead one character on, keeping the position in step;
    /// nothing happens at the end of the input.
    fn advance(&mut self)
        requires
            old(self).wf(),
        ensures
            final(self).wf(),
            final(self)@ == (Cursor {
                pos: if old(self)@.pos < old(self)@.text.len() {
                    old(self)@.pos + 1
                } else {
                    old(self)@.pos
                },
                ..old(self)@
            }),
    {
        if self.eof {
            return ;
        }
        proof {
            lemma_position_bounds(self@.text, self@.pos + 1);
        }
        if self.last == '\n' {
            self.line = self.line + 1;
            self.col = 1;
        } else {
            self.col = self.col + 1;
        }
        if self.next < self.input.len() {
            self.last = self.input[self.next];
            self.next = self.next + 1;
        } else {
            self.eof = true;
        }
    }

    /// The lookahead character, unless the input is used up.
    fn peek(&self) -> (r: Option<char>)
        requires
            self.wf(),
        ensures
            r == (if self@.pos < self@.text.len() {
                Some(self@.text[self@.pos])
            } else {
                None
            }),
    {
        if self.eof {
            None
        } else {
            Some(self.last)
        }
    }

    /// Whether the lookahead is `ch`.
    fn is_current_char(&self, ch: char) -> (r: bool)
        requires
            self.wf(),
        ensures
            r == (self@.pos < self@.text.len() && self@.text[self@.pos] == ch),
    {
        !self.eof && self.last == ch
    }

    /// The character after the lookahead, if there is one.
    fn peek_second(&self) -> (r: Option<char>)
        requires
            self.wf(),
        ensures
            r == (if self@.pos + 1 < self@.text.len() {
                Some(self@.text[self@.pos + 1])
            } else {
                None
            }),
    {
        if !self.eof && self.next < self.input.len() {
            Some(self.input[self.next])
        } else {
            None
        }
    }

    /// Whether the lookahead is whitespace.
    fn at_whitespace(&self) -> (r: bool)
        requires
            self.wf(),
        ensures
            r == (self@.pos < self@.text.len() && whitespace_char(self@.text[self@.pos])),
    {
        !self.eof && char_is_whitespace(self.last)
    }

    /// Passes over a run of whitespace.
    fn consume_whitespace(&mut self)
        requires
            old(self).wf(),
        ensures
            final(self).wf(),
            final(self)@.text == old(self)@.text,
            final(self)@.halted == old(self)@.halted,
            final(self)@.pos == blank_end(old(self)@.text, old(self)@.pos),
            !(final(self)@.pos < final(self)@.text.len() && whitespace_char(
                final(self)@.text[final(self)@.pos],
            )),
            old(self)@.pos <= final(self)@.pos,
            old(self)@.pos < old(self)@.text.len() && whitespace_char(old(self)@.text[old(self)@.pos])
                ==> old(self)@.pos < final(self)@.pos,
            skip(final(self)@.text, final(self)@.pos) == skip(old(self)@.text, old(self)@.pos),
    {
        while self.at_whitespace()
            invariant
                self.wf(),
                self@.text == old(self)@.text,
                self@.halted == old(self)@.halted,
                old(self)@.pos <= self@.pos,
                blank_end(self@.text, self@.pos) == blank_end(old(self)@.text, old(self)@.pos),
                skip(self@.text, self@.pos) == skip(old(self)@.text, old(self)@.pos),
            decreases self@.text.len() - self@.pos,
        {
            self.advance();
        }
    }

    /// Passes over a comment, from its `#` to the end of its line.
    fn consume_comment(&mut self)
        requires
            old(self).wf(),
            old(self)@.pos < old(self)@.text.len(),
            old(self)@.text[old(self)@.pos] == '#',
        ensures
            final(self).wf(),
            final(self)@.text == old(self)@.text,
            final(self)@.halted == old(self)@.halted,
            final(self)@.pos == line_end(old(self)@.text, old(self)@.pos),
    {
        let ghost s = self@.text;
        let ghost target = line_end(s, self@.pos);
        self.advance();
        while !self.eof && self.last != '\n'
            invariant
                self.wf(),
                self@.text == s,
                self@.halted == old(self)@.halted,
                line_end(s, self@.pos) == target,
                0 <= self@.pos <= s.len(),
            decreases s.len() - self@.pos,
        {
            self.advance();
        }
    }

    /// Passes over whitespace and comments until neither starts at the
    /// lookahead.
    fn skip_trivia(&mut self)
        requires
            old(self).wf(),
        ensures
            final(self).wf(),
            final(self)@ == (Cursor { pos: skip(old(self)@.text, old(self)@.pos), ..old(self)@ }),
    {
        loop
            invariant
                self.wf(),
                self@.text == old(self)@.text,
                self@.halted == old(self)@.halted,
                0 <= self@.pos <= self@.text.len(),
                skip(self@.text, self@.pos) == skip(old(self)@.text, old(self)@.pos),
            ensures
                self.wf(),
                self@ == (Cursor { pos: skip(old(self)@.text, old(self)@.pos), ..old(self)@ }),
            decreases self@.text.len() - self@.pos,
        {
            if self.at_whitespace() {
                self.consume_whitespace();
            } else if self.is_current_char('#') {
                proof {
                    lemma_line_end(self@.text, self@.pos + 1);
                }
                self.consume_comment();
            } else {
                assert(skip(self@.text, self@.pos) == self@.pos);
                break;
            }
        }
    }

    /// A failure token: `msg` prefixed with the lookahead's position.
    fn error(&self, msg: &str) -> (r: Token)
        requires
            self.wf(),
        ensures
            r@ == TokenView::Error(located(self@.text, self@.pos, msg@)),
    {
        let mut out = String::new();
        push_decimal(&mut out, self.line);
        out.append(":");
        push_decimal(&mut out, self.col);
        out.append(": ");
        out.append(msg);
        Token::Error(out)
    }

    /// Whether the lookahead may continue an identifier.
    fn possible_part_of_identifier(&self) -> (r: bool)
        requires
            self.wf(),
        ensures
            r == (self@.pos < self@.text.len() && ident_char(self@.text[self@.pos])),
    {
        if self.eof {
            return false;
        }
        let c = self.last;
        char_is_alphabetic(c) || char_is_numeric(c) || c == '?' || c == '!' || c == '-' || c == '_'
    }

    /// Whether `c` belongs to a digit run.
    fn part_of_number(c: char) -> (r: bool)
        ensures
            r == number_char(c),
    {
        char_is_numeric(c) || c == '_'
    }

    /// Whether the lookahead belongs to a digit run.
    fn possible_part_of_number(&self) -> (r: bool)
        requires
            self.wf(),
        ensures
            r == (self@.pos < self@.text.len() && number_char(self@.text[self@.pos])),
    {
        !self.eof && Self::part_of_number(self.last)
    }

    /// Scans a word that starts at the lookahead.
    fn read_identifier_or_keyword(&mut self) -> (r: Token)
        requires
            old(self).wf(),
            0 <= old(self)@.pos,
        ensures
            final(self).wf(),
            final(self)@ == (Cursor {
                pos: ident_end(old(self)@.text, old(self)@.pos),
                ..old(self)@
            }),
            r@ == word(old(self)@.text.subrange(old(self)@.pos, final(self)@.pos)),
    {
        let ghost s = self@.text;
        let ghost from = self@.pos;
        let mut buf = String::new();
        while self.possible_part_of_identifier()
            invariant
                self.wf(),
                s == old(self)@.text,
                from == old(self)@.pos,
                0 <= from,
                self@.text == s,
                self@.halted == old(self)@.halted,
                from <= self@.pos <= s.len(),
                ident_end(s, self@.pos) == ident_end(s, from),
                buf@ == s.subrange(from, self@.pos),
            decreases s.len() - self@.pos,
        {
            let ghost here = self@.pos;
            push_char(&mut buf, self.last);
            self.advance();
            proof {
                assert(s.subrange(from, here + 1) =~= s.subrange(from, here).push(s[here]));
            }
        }
        identifier_or_keyword(buf)
    }

    /// Appends the digit run that starts at the lookahead to `buf`.
    fn read_digits(&mut self, buf: &mut String)
        requires
            old(self).wf(),
            0 <= old(self)@.pos,
        ensures
            final(self).wf(),
            final(self)@ == (Cursor {
                pos: digits_end(old(self)@.text, old(self)@.pos),
                ..old(self)@
            }),
            old(self)@.pos <= final(self)@.pos <= old(self)@.text.len(),
            final(buf)@ == old(buf)@ + old(self)@.text.subrange(old(self)@.pos, final(self)@.pos),
    {
        let ghost s = self@.text;
        let ghost from = self@.pos;
        while self.possible_part_of_number()
            invariant
                self.wf(),
                s == old(self)@.text,
                from == old(self)@.pos,
                0 <= from,
                self@.text == s,
                self@.halted == old(self)@.halted,
                from <= self@.pos <= s.len(),
                digits_end(s, self@.pos) == digits_end(s, from),
                buf@ == old(buf)@ + s.subrange(from, self@.pos),
            decreases s.len() - self@.pos,
        {
            let ghost here = self@.pos;
            push_char(buf, self.last);
            self.advance();
            proof {
                assert(s.subrange(from, here + 1) =~= s.subrange(from, here).push(s[here]));
                assert(buf@ =~= old(buf)@ + s.subrange(from, self@.pos));
            }
        }
    }

    /// Scans a number literal that starts at the lookahead.
    fn read_number_literal(&mut self) -> (r: Token)
        requires
            old(self).wf(),
            0 <= old(self)@.pos,
        ensures
            final(self).wf(),
            final(self)@ == (Cursor {
                pos: number_at(old(self)@.text, old(self)@.pos).end,
                ..old(self)@
            }),
            r@ == number_at(old(self)@.text, old(self)@.pos).token,
    {
        let ghost s = self@.text;
        let ghost from = self@.pos;
        let mut buf = String::new();
        self.read_digits(&mut buf);
        let dot = match self.peek_second() {
            Some(c) => self.is_current_char('.') && Self::part_of_number(c),
            None => false,
        };
        if dot {
            push_char(&mut buf, '.');
            self.advance();
            self.read_digits(&mut buf);
            proof {
                assert(buf@ =~= s.subrange(from, self@.pos));
            }
            Token::Float(buf)
        } else {
            proof {
                assert(buf@ =~= s.subrange(from, self@.pos));
            }
            Token::Int(buf)
        }
    }

    /// Scans a string literal whose opening quote is the lookahead.
    fn read_string_literal(&mut self) -> (r: Token)
        requires
            old(self).wf(),
            0 <= old(self)@.pos < old(self)@.text.len(),
        ensures
            final(self).wf(),
            final(self)@ == (Cursor {
                pos: string_at(old(self)@.text, old(self)@.pos).end,
                ..old(self)@
            }),
            r@ == string_at(old(self)@.text, old(self)@.pos).token,
    {
        let ghost s = self@.text;
        let ghost from = self@.pos;
        let mut buf = String::new();
        self.advance();
        while !self.eof && self.last != '"'
            invariant
                self.wf(),
                s == old(self)@.text,
                from == old(self)@.pos,
                0 <= from,
                self@.text == s,
                self@.halted == old(self)@.halted,
                from + 1 <= self@.pos <= s.len(),
                quote_end(s, self@.pos) == quote_end(s, from + 1),
                buf@ == s.subrange(from + 1, self@.pos),
            decreases s.len() - self@.pos,
        {
            if self.last == '\n' {
                return self.error(
                    "Unterminated string -- found a newline before the closing quote. Keep strings on one line.",
                );
            }
            let ghost here = self@.pos;
            push_char(&mut buf, self.last);
            self.advance();
            proof {
                assert(s.subrange(from + 1, here + 1) =~= s.subrange(from + 1, here).push(s[here]));
            }
        }
        if self.eof {
            return self.error(
                "Unterminated string -- reached end of input before closing quote. Add a closing '\"'",
            );
        }
        self.advance();
        Token::Str(buf)
    }

    /// The next token, with the position of its first character. Once the
    /// input is used up, or after a failure token, every call gives
    /// [`Token::Eof`].
    pub fn next_token(&mut self) -> (r: TokenAt)
        requires
            old(self).wf(),
        ensures
            final(self).wf(),
            (r@, final(self)@) == pull(old(self)@),
    {
        if self.halted {
            return TokenAt { token: Token::Eof, line: self.line, col: self.col };
        }
        self.skip_trivia();
        let line = self.line;
        let col = self.col;
        let c = match self.peek() {
            Some(c) => c,
            None => {
                return TokenAt { token: Token::Eof, line, col };
            },
        };
        let mut advance = true;
        let token = match c {
            '.' => Token::Dot,
            ',' => Token::Comma,
            '(' => Token::LParen,
            ')' => Token::RParen,
            '{' => Token::LBrace,
            '}' => Token::RBrace,
            ':' => Token::Colon,
            ';' => Token::Semicolon,
            '+' => Token::Plus,
            '-' => Token::Minus,
            '*' => Token::Star,
            '[' => Token::LBracket,
            ']' => Token::RBracket,
            '~' => Token::Tilda,
            '&' => Token::And,
            '|' => Token::Or,
            '/' => {
                self.advance();
                if self.is_current_char('=') {
                    Token::NotEqual
                } else {
                    advance = false;
                    Token::Slash
                }
            },
            '<' => {
                self.advance();
                if self.is_current_char('=') {
                    Token::Le
                } else {
                    advance = false;
                    Token::Less
                }
            },
            '>' => {
                self.advance();
                if self.is_current_char('=') {
                    Token::Ge
                } else {
                    advance = false;
                    Token::Greater
                }
            },
            '=' => {
                self.advance();
                if self.is_current_char('=') {
                    Token::Equal
                } else if self.is_current_char('>') {
                    Token::RArrow
                } else {
                    advance = false;
                    Token::Assign
                }
            },
            _ => {
                // each scanner leaves the character after its token as the
                // lookahead
                advance = false;
                if char_is_alphabetic(c) {
                    self.read_identifier_or_keyword()
                } else if char_is_numeric(c) {
                    self.read_number_literal()
                } else if c == '"' {
                    self.read_string_literal()
                } else {
                    let mut msg = String::from_str("Unknown character '");
                    push_char(&mut msg, c);
                    msg.append(
                        "' -- did you mean an operator, identifier or a string? Try adding spaces, or wrap text in double quotes.",
                    );
                    assert(msg@ =~= unknown_message(c));
                    self.error(msg.as_str())
                }
            },
        };
        if advance {
            self.advance();
        }
        if matches!(token, Token::Error(_)) {
            self.halted = true;
        }
        TokenAt { token, line, col }
    }

    /// The next token of the lazy sequence view: like
    /// [`Tokenizer::next_token`], but the sequence ends, with `None`, at the
    /// end marker or at a failure, whose message it does not hand out.
    pub fn next(&mut self) -> (r: Option<TokenAt>)
        requires
            old(self).wf(),
        ensures
            final(self).wf(),
            final(self)@ == pull(old(self)@).1,
            r is None <==> (pull(old(self)@).0.token is Error || pull(old(self)@).0.token
                == TokenView::Plain(Token::Eof)),
            r matches Some(t) ==> t@ == pull(old(self)@).0,
    {
        let ta = self.next_token();
        if matches!(ta.token, Token::Eof | Token::Error(_)) {
            None
        } else {
            Some(ta)
        }
    }
}

} // verus!
