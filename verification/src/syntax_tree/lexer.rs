//! Tokens, source spans and the lexer.
//!
//! The lexer turns program text into a sequence of tokens, each carrying a
//! kind and an exact source span.  Its behaviour is specified against a
//! mathematical model: `lex_from(text, 0)` is the full token sequence for
//! `text`, and `Lexer::next_token` produces exactly that sequence, one token
//! per call, followed by `None`.

use vstd::prelude::*;
use vstd::string::StrSliceExecFns;
use vstd::string::StringExecFns;

verus! {

/// The kind of a token.  `NUMERAL` carries the decoded value of a run of
/// digits.  `RETURN` is the caret symbol `^` (bitwise xor).
#[derive(Clone, Copy, Debug, PartialEq, Eq, Structural)]
pub enum TokenType {
    NUMERAL(i64),
    PLUS,
    MINUS,
    ASTERISK,
    SLASH,
    EQUALS,
    AMPERSAND,
    PIPE,
    RETURN,
    POWER,
    NOT,
    LET,
    LEFTPAR,
    RIGHTPAR,
    WHITESPACE,
    IDENTIFIER,
    EOF,
    INVALID,
}

/// The display name of a token kind, as diagnostics render it.
pub open spec fn token_type_text(kind: TokenType) -> Seq<char> {
    match kind {
        TokenType::NUMERAL(_) => "NUMERAL"@,
        TokenType::PLUS => "+"@,
        TokenType::MINUS => "-"@,
        TokenType::ASTERISK => "*"@,
        TokenType::SLASH => "/"@,
        TokenType::EQUALS => "="@,
        TokenType::AMPERSAND => "&"@,
        TokenType::PIPE => "|"@,
        TokenType::RETURN => "^"@,
        TokenType::POWER => "**"@,
        TokenType::NOT => "~"@,
        TokenType::LET => "LET"@,
        TokenType::LEFTPAR => "("@,
        TokenType::RIGHTPAR => ")"@,
        TokenType::WHITESPACE => "WHITESPACE"@,
        TokenType::IDENTIFIER => "IDENTIFIER"@,
        TokenType::EOF => "EOF"@,
        TokenType::INVALID => "INVALID"@,
    }
}

impl TokenType {
    /// The kind's display name as an owned string.
    pub fn text(&self) -> (r: String)
        ensures
            r@ == token_type_text(*self),
    {
        match self {
            TokenType::NUMERAL(_) => String::from_str("NUMERAL"),
            TokenType::PLUS => String::from_str("+"),
            TokenType::MINUS => String::from_str("-"),
            TokenType::ASTERISK => String::from_str("*"),
            TokenType::SLASH => String::from_str("/"),
            TokenType::EQUALS => String::from_str("="),
            TokenType::AMPERSAND => String::from_str("&"),
            TokenType::PIPE => String::from_str("|"),
            TokenType::RETURN => String::from_str("^"),
            TokenType::POWER => String::from_str("**"),
            TokenType::NOT => String::from_str("~"),
            TokenType::LET => String::from_str("LET"),
            TokenType::LEFTPAR => String::from_str("("),
            TokenType::RIGHTPAR => String::from_str(")"),
            TokenType::WHITESPACE => String::from_str("WHITESPACE"),
            TokenType::IDENTIFIER => String::from_str("IDENTIFIER"),
            TokenType::EOF => String::from_str("EOF"),
            TokenType::INVALID => String::from_str("INVALID"),
        }
    }
}

/// Mathematical model of a source span: half-open character offsets into the
/// program text plus the exact substring between them.
pub ghost struct SpanModel {
    pub start: int,
    pub end: int,
    pub literal: Seq<char>,
}

impl SpanModel {
    /// A well-formed span: ordered offsets whose distance equals the length
    /// of the literal.  The synthetic end-of-file span is the one exception
    /// permitted to break this.
    pub open spec fn wf(&self) -> bool {
        0 <= self.start <= self.end && self.literal.len() == self.end - self.start
    }
}

/// A half-open range of character offsets into the source text, together
/// with the exact substring it covers.
#[derive(Debug, Clone, PartialEq)]
pub struct SourceCodeSpan {
    pub start: usize,
    pub end: usize,
    pub literal: String,
}

impl View for SourceCodeSpan {
    type V = SpanModel;

    open spec fn view(&self) -> SpanModel {
        SpanModel { start: self.start as int, end: self.end as int, literal: self.literal@ }
    }
}

impl SourceCodeSpan {
    pub fn new(start: usize, end: usize, literal: String) -> (r: Self)
        ensures
            r@ == (SpanModel { start: start as int, end: end as int, literal: literal@ }),
    {
        Self { start, end, literal }
    }

    /// The number of characters the span covers.
    pub fn length(&self) -> (r: usize)
        requires
            self@.start <= self@.end,
        ensures
            r == self@.end - self@.start,
    {
        self.end - self.start
    }

    /// An owned copy of the span, equal to the original.
    pub fn duplicate(&self) -> (r: Self)
        ensures
            r == *self,
    {
        SourceCodeSpan { start: self.start, end: self.end, literal: self.literal.clone() }
    }
}

/// Mathematical model of a token: its kind and its span.
pub ghost struct TokenModel {
    pub kind: TokenType,
    pub span: SpanModel,
}

/// The minimal lexical unit: a kind plus the span it was read from.
#[derive(Debug, Clone, PartialEq)]
pub struct Token {
    pub kind: TokenType,
    pub span: SourceCodeSpan,
}

impl View for Token {
    type V = TokenModel;

    open spec fn view(&self) -> TokenModel {
        TokenModel { kind: self.kind, span: self.span@ }
    }
}

impl Token {
    pub fn new(kind: TokenType, span: SourceCodeSpan) -> (r: Self)
        ensures
            r@ == (TokenModel { kind: kind, span: span@ }),
    {
        Self { kind, span }
    }

    /// An owned copy of the token, equal to the original.
    pub fn duplicate(&self) -> (r: Self)
        ensures
            r == *self,
    {
        Token { kind: self.kind, span: self.span.duplicate() }
    }
}

/// Whether `c` is an ASCII letter.
pub open spec fn is_ascii_letter(c: char) -> bool {
    (65 <= c as u32 && c as u32 <= 90) || (97 <= c as u32 && c as u32 <= 122)
}

/// Whether `c` is one of the six ASCII whitespace characters (tab, line
/// feed, vertical tab, form feed, carriage return, space).
pub open spec fn is_ascii_space(c: char) -> bool {
    (9 <= c as u32 && c as u32 <= 13) || c as u32 == 32
}

/// Whether `c` has the Unicode `Alphabetic` property, as decided by
/// `char::is_alphabetic`.
pub uninterp spec fn is_alphabetic_char(c: char) -> bool;

/// Whether `c` has the Unicode `White_Space` property, as decided by
/// `char::is_whitespace`.
pub uninterp spec fn is_whitespace_char(c: char) -> bool;

/// Relies on `char::is_alphabetic`: the result depends on the character
/// alone, and within ASCII exactly the letters `A`-`Z` and `a`-`z` have the
/// `Alphabetic` property.
#[verifier::external_body]
fn char_is_alphabetic(c: char) -> (r: bool)
    ensures
        r == is_alphabetic_char(c),
        is_ascii_letter(c) ==> r,
        (c as u32) < 128 && !is_ascii_letter(c) ==> !r,
{
    c.is_alphabetic()
}

/// Relies on `char::is_whitespace`: the result depends on the character
/// alone, and within ASCII exactly tab, line feed, vertical tab, form feed,
/// carriage return and space have the `White_Space` property.
#[verifier::external_body]
fn char_is_whitespace(c: char) -> (r: bool)
    ensures
        r == is_whitespace_char(c),
        is_ascii_space(c) ==> r,
        (c as u32) < 128 && !is_ascii_space(c) ==> !r,
{
    c.is_whitespace()
}

/// Whether `c` is a decimal digit.
pub open spec fn is_digit_char(c: char) -> bool {
    48 <= c as u32 && c as u32 <= 57
}

/// The numeric value of a decimal digit.
pub open spec fn digit_value(c: char) -> int {
    c as int - 48
}

/// The value of a run of decimal digits, most significant first.
pub open spec fn digits_value(s: Seq<char>) -> int
    decreases s.len(),
{
    if s.len() == 0 {
        0
    } else {
        digits_value(s.drop_last()) * 10 + digit_value(s.last())
    }
}

/// The end of the maximal run of decimal digits starting at `pos`.
pub open spec fn scan_digits(text: Seq<char>, pos: int) -> int
    decreases text.len() - pos,
{
    if pos < 0 || pos >= text.len() {
        pos
    } else if is_digit_char(text[pos]) {
        scan_digits(text, pos + 1)
    } else {
        pos
    }
}

pub proof fn lemma_scan_digits_bounds(text: Seq<char>, pos: int)
    requires
        0 <= pos <= text.len(),
    ensures
        pos <= scan_digits(text, pos) <= text.len(),
        forall|i: int| pos <= i < scan_digits(text, pos) ==> is_digit_char(text[i]),
        scan_digits(text, pos) < text.len() ==> !is_digit_char(text[scan_digits(text, pos)]),
        pos < text.len() && is_digit_char(text[pos]) ==> scan_digits(text, pos) >= pos + 1,
    decreases text.len() - pos,
{
    if pos < text.len() && is_digit_char(text[pos]) {
        lemma_scan_digits_bounds(text, pos + 1);
    }
}

/// The end of the maximal run of alphabetic characters starting at `pos`.
pub open spec fn scan_alpha(text: Seq<char>, pos: int) -> int
    decreases text.len() - pos,
{
    if pos < 0 || pos >= text.len() {
        pos
    } else if is_alphabetic_char(text[pos]) {
        scan_alpha(text, pos + 1)
    } else {
        pos
    }
}

pub proof fn lemma_scan_alpha_bounds(text: Seq<char>, pos: int)
    requires
        0 <= pos <= text.len(),
    ensures
        pos <= scan_alpha(text, pos) <= text.len(),
        forall|i: int| pos <= i < scan_alpha(text, pos) ==> is_alphabetic_char(text[i]),
        scan_alpha(text, pos) < text.len() ==> !is_alphabetic_char(text[scan_alpha(text, pos)]),
        pos < text.len() && is_alphabetic_char(text[pos]) ==> scan_alpha(text, pos) >= pos + 1,
    decreases text.len() - pos,
{
    if pos < text.len() && is_alphabetic_char(text[pos]) {
        lemma_scan_alpha_bounds(text, pos + 1);
    }
}

/// Classification of a maximal run of alphabetic characters: the two keyword
/// spellings lex to the keyword kind, everything else is an identifier.
pub open spec fn keyword_or_identifier(literal: Seq<char>) -> TokenType {
    if literal == "let"@ || literal == "var"@ {
        TokenType::LET
    } else {
        TokenType::IDENTIFIER
    }
}

/// The kind and end position of a symbol token starting at `pos`: one
/// character from the fixed symbol set, except that `*` immediately followed
/// by `*` forms the two-character power operator.  Characters outside the
/// set become `INVALID` tokens.
pub open spec fn symbol_kind_end(text: Seq<char>, pos: int) -> (TokenType, int) {
    let c = text[pos];
    if c == '+' {
        (TokenType::PLUS, pos + 1)
    } else if c == '-' {
        (TokenType::MINUS, pos + 1)
    } else if c == '*' {
        if pos + 1 < text.len() && text[pos + 1] == '*' {
            (TokenType::POWER, pos + 2)
        } else {
            (TokenType::ASTERISK, pos + 1)
        }
    } else if c == '/' {
        (TokenType::SLASH, pos + 1)
    } else if c == '(' {
        (TokenType::LEFTPAR, pos + 1)
    } else if c == ')' {
        (TokenType::RIGHTPAR, pos + 1)
    } else if c == '=' {
        (TokenType::EQUALS, pos + 1)
    } else if c == '&' {
        (TokenType::AMPERSAND, pos + 1)
    } else if c == '|' {
        (TokenType::PIPE, pos + 1)
    } else if c == '^' {
        (TokenType::RETURN, pos + 1)
    } else if c == '~' {
        (TokenType::NOT, pos + 1)
    } else {
        (TokenType::INVALID, pos + 1)
    }
}

/// The kind and end position of the token starting at `pos` (which must lie
/// strictly inside the text).  A run of digits whose value does not fit in
/// an `i64` lexes as `INVALID` rather than silently wrapping.
pub open spec fn token_kind_end(text: Seq<char>, pos: int) -> (TokenType, int) {
    let c = text[pos];
    if is_digit_char(c) {
        let end = scan_digits(text, pos);
        let value = digits_value(text.subrange(pos, end));
        (
            if value <= i64::MAX as int {
                TokenType::NUMERAL(value as i64)
            } else {
                TokenType::INVALID
            },
            end,
        )
    } else if is_whitespace_char(c) {
        (TokenType::WHITESPACE, pos + 1)
    } else if is_alphabetic_char(c) {
        let end = scan_alpha(text, pos);
        (keyword_or_identifier(text.subrange(pos, end)), end)
    } else {
        symbol_kind_end(text, pos)
    }
}

pub proof fn lemma_token_end_bounds(text: Seq<char>, pos: int)
    requires
        0 <= pos < text.len(),
    ensures
        pos < token_kind_end(text, pos).1 <= text.len(),
{
    lemma_scan_digits_bounds(text, pos);
    lemma_scan_alpha_bounds(text, pos);
}

/// The synthetic end-of-file token, with its degenerate zero-length span.
pub open spec fn eof_token_model() -> TokenModel {
    TokenModel { kind: TokenType::EOF, span: SpanModel { start: 0, end: 0, literal: "\0"@ } }
}

/// The token starting at `pos` (strictly inside the text), with its span.
pub open spec fn token_model_at(text: Seq<char>, pos: int) -> TokenModel {
    let kind = token_kind_end(text, pos).0;
    let end = token_kind_end(text, pos).1;
    TokenModel { kind: kind, span: SpanModel { start: pos, end: end, literal: text.subrange(pos, end) } }
}

/// Every token from position `pos` to the end of the text, ending with the
/// synthetic end-of-file token.
pub open spec fn lex_from(text: Seq<char>, pos: int) -> Seq<TokenModel>
    decreases text.len() - pos,
        via lex_from_decreases
{
    if pos < 0 || pos >= text.len() {
        seq![eof_token_model()]
    } else {
        seq![token_model_at(text, pos)] + lex_from(text, token_kind_end(text, pos).1)
    }
}

#[via_fn]
proof fn lex_from_decreases(text: Seq<char>, pos: int) {
    if 0 <= pos && pos < text.len() {
        lemma_token_end_bounds(text, pos);
    }
}

/// The lexer: a single forward cursor over the program text.  Each call of
/// `next_token` yields the next element of `lex_from(text, 0)`; after the
/// end-of-file token has been produced, every further call yields `None`.
pub struct Lexer<'a> {
    input: &'a str,
    current_pos: usize,
    reached_end: bool,
}

impl<'a> Lexer<'a> {
    /// The program text being scanned.
    pub closed spec fn text(&self) -> Seq<char> {
        self.input@
    }

    /// The cursor: the position the next token will start at.
    pub closed spec fn pos(&self) -> int {
        self.current_pos as int
    }

    /// Whether the end-of-file token has already been produced.
    pub closed spec fn done(&self) -> bool {
        self.reached_end
    }

    pub open spec fn wf(&self) -> bool {
        0 <= self.pos() <= self.text().len()
    }

    pub fn new(input: &'a str) -> (r: Self)
        ensures
            r.text() == input@,
            r.pos() == 0,
            !r.done(),
            r.wf(),
    {
        Self { input, current_pos: 0, reached_end: false }
    }

    /// The character under the cursor, if the cursor is inside the text.
    fn current_char(&self) -> (r: Option<char>)
        requires
            self.wf(),
        ensures
            self.pos() < self.text().len() ==> r == Some(self.text()[self.pos()]),
            self.pos() == self.text().len() ==> r is None,
    {
        if self.current_pos < self.input.unicode_len() {
            Some(self.input.get_char(self.current_pos))
        } else {
            None
        }
    }

    /// Consumes one character: returns the character under the cursor and
    /// advances past it, or returns `None` at the end of the text.
    fn consume_token(&mut self) -> (r: Option<char>)
        requires
            old(self).wf(),
        ensures
            final(self).wf(),
            final(self).text() == old(self).text(),
            final(self).done() == old(self).done(),
            old(self).pos() < old(self).text().len() ==> r == Some(
                old(self).text()[old(self).pos()],
            ) && final(self).pos() == old(self).pos() + 1,
            old(self).pos() == old(self).text().len() ==> r is None && final(self).pos() == old(
                self,
            ).pos(),
    {
        if self.current_pos >= self.input.unicode_len() {
            return None;
        }
        let c = self.input.get_char(self.current_pos);
        self.current_pos += 1;
        Some(c)
    }

    pub fn is_number_start(c: &char) -> (r: bool)
        ensures
            r == is_digit_char(*c),
    {
        let u = *c as u32;
        48 <= u && u <= 57
    }

    pub fn is_identifier_start(c: &char) -> (r: bool)
        ensures
            r == is_alphabetic_char(*c),
    {
        char_is_alphabetic(*c)
    }

    pub fn is_whitespace(c: &char) -> (r: bool)
        ensures
            r == is_whitespace_char(*c),
    {
        char_is_whitespace(*c)
    }

    /// Decodes the maximal run of digits under the cursor by repeated
    /// `value * 10 + digit` steps.  A value that does not fit in an `i64` is
    /// reported as `None`; the whole run is consumed either way.
    fn consume_number(&mut self) -> (r: Option<i64>)
        requires
            old(self).wf(),
            old(self).pos() < old(self).text().len(),
            is_digit_char(old(self).text()[old(self).pos()]),
        ensures
            final(self).wf(),
            final(self).text() == old(self).text(),
            final(self).done() == old(self).done(),
            final(self).pos() == scan_digits(old(self).text(), old(self).pos()),
            ({
                let value = digits_value(
                    old(self).text().subrange(old(self).pos(), final(self).pos()),
                );
                r == if value <= i64::MAX as int {
                    Some(value as i64)
                } else {
                    None::<i64>
                }
            }),
    {
        let ghost text = self.input@;
        let ghost start = self.current_pos as int;
        let ghost done0 = self.reached_end;
        let ghost end = scan_digits(text, start);
        proof {
            lemma_scan_digits_bounds(text, start);
        }
        let len = self.input.unicode_len();
        let mut number: i64 = 0;
        let mut overflow = false;
        loop
            invariant
                self.text() == text,
                self.done() == done0,
                start <= self.pos() <= end,
                end == scan_digits(text, start),
                end <= text.len(),
                len == text.len(),
                forall|i: int| start <= i < end ==> is_digit_char(text[i]),
                end < text.len() ==> !is_digit_char(text[end]),
                !overflow ==> number == digits_value(text.subrange(start, self.pos()))
                    && number >= 0,
                overflow ==> digits_value(text.subrange(start, self.pos())) > i64::MAX as int,
            ensures
                self.text() == text,
                self.done() == done0,
                self.pos() == end,
                !overflow ==> number == digits_value(text.subrange(start, end)) && number >= 0,
                overflow ==> digits_value(text.subrange(start, end)) > i64::MAX as int,
            decreases end - self.pos(),
        {
            if self.current_pos >= len {
                proof {
                    assert(self.pos() == end);
                }
                break;
            }
            let c = self.input.get_char(self.current_pos);
            if !Lexer::is_number_start(&c) {
                proof {
                    assert(self.pos() == end);
                }
                break;
            }
            let ghost p = self.pos();
            proof {
                assert(p < end) by {
                    if p == end {
                        assert(!is_digit_char(text[end]));
                    }
                };
            }
            self.current_pos += 1;
            let digit = (c as u32 - 48) as i64;
            proof {
                assert(text.subrange(start, p + 1).drop_last() =~= text.subrange(start, p));
                assert(text.subrange(start, p + 1).last() == text[p]);
            }
            if !overflow {
                let stepped = match number.checked_mul(10) {
                    Some(m) => m.checked_add(digit),
                    None => None,
                };
                match stepped {
                    Some(v) => {
                        number = v;
                    },
                    None => {
                        overflow = true;
                    },
                }
            } else {
                proof {
                    let prev = digits_value(text.subrange(start, p));
                    assert(digits_value(text.subrange(start, p + 1)) == prev * 10 + digit_value(
                        text[p],
                    ));
                }
            }
        }
        if overflow {
            None
        } else {
            Some(number)
        }
    }

    /// Consumes the maximal run of alphabetic characters under the cursor
    /// and returns its text.
    fn consume_identifier(&mut self) -> (r: String)
        requires
            old(self).wf(),
            old(self).pos() < old(self).text().len(),
            is_alphabetic_char(old(self).text()[old(self).pos()]),
        ensures
            final(self).wf(),
            final(self).text() == old(self).text(),
            final(self).done() == old(self).done(),
            final(self).pos() == scan_alpha(old(self).text(), old(self).pos()),
            r@ == old(self).text().subrange(old(self).pos(), final(self).pos()),
    {
        let ghost text = self.input@;
        let ghost start_g = self.current_pos as int;
        let ghost done0 = self.reached_end;
        let ghost end = scan_alpha(text, start_g);
        proof {
            lemma_scan_alpha_bounds(text, start_g);
        }
        let len = self.input.unicode_len();
        let start = self.current_pos;
        loop
            invariant
                self.text() == text,
                self.done() == done0,
                start as int == start_g,
                start_g <= self.pos() <= end,
                end == scan_alpha(text, start_g),
                end <= text.len(),
                len == text.len(),
                forall|i: int| start_g <= i < end ==> is_alphabetic_char(text[i]),
                end < text.len() ==> !is_alphabetic_char(text[end]),
            ensures
                self.text() == text,
                self.done() == done0,
                self.pos() == end,
            decreases end - self.pos(),
        {
            if self.current_pos >= len {
                break;
            }
            let c = self.input.get_char(self.current_pos);
            if !Lexer::is_identifier_start(&c) {
                break;
            }
            proof {
                assert(self.pos() < end) by {
                    if self.pos() == end {
                        assert(!is_alphabetic_char(text[end]));
                    }
                };
            }
            self.current_pos += 1;
        }
        let sub = self.input.substring_char(start, self.current_pos);
        String::from_str(sub)
    }

    /// Consumes one symbol token: a single character from the fixed symbol
    /// set, with the two-character `**` special case; anything unrecognized
    /// becomes an `INVALID` token.
    fn consume_symbol(&mut self) -> (r: TokenType)
        requires
            old(self).wf(),
            old(self).pos() < old(self).text().len(),
        ensures
            final(self).wf(),
            final(self).text() == old(self).text(),
            final(self).done() == old(self).done(),
            r == symbol_kind_end(old(self).text(), old(self).pos()).0,
            final(self).pos() == symbol_kind_end(old(self).text(), old(self).pos()).1,
    {
        let c = self.consume_token().unwrap();
        match c {
            '+' => TokenType::PLUS,
            '-' => TokenType::MINUS,
            '*' => {
                let next = self.current_char();
                if next.is_some() && next.unwrap() == '*' {
                    self.consume_token();
                    TokenType::POWER
                } else {
                    TokenType::ASTERISK
                }
            },
            '/' => TokenType::SLASH,
            '(' => TokenType::LEFTPAR,
            ')' => TokenType::RIGHTPAR,
            '=' => TokenType::EQUALS,
            '&' => TokenType::AMPERSAND,
            '|' => TokenType::PIPE,
            '^' => TokenType::RETURN,
            '~' => TokenType::NOT,
            _ => TokenType::INVALID,
        }
    }

    /// Produces the next token of the text: the element of
    /// `lex_from(text, pos)` under the cursor.  The end-of-file token is
    /// synthesized exactly once when the cursor reaches the text length;
    /// after that, scanning yields nothing further.
    pub fn next_token(&mut self) -> (r: Option<Token>)
        requires
            old(self).wf(),
        ensures
            final(self).wf(),
            final(self).text() == old(self).text(),
            old(self).done() ==> r is None && final(self).done(),
            !old(self).done() && old(self).pos() == old(self).text().len() ==> {
                &&& r matches Some(t) && t@ == eof_token_model()
                &&& final(self).done()
            },
            !old(self).done() && old(self).pos() < old(self).text().len() ==> {
                &&& r matches Some(t) && t@ == token_model_at(old(self).text(), old(self).pos())
                &&& !final(self).done()
                &&& final(self).pos() == token_kind_end(old(self).text(), old(self).pos()).1
            },
    {
        let ghost text = self.input@;
        let len = self.input.unicode_len();
        if self.reached_end {
            return None;
        }
        if self.current_pos == len {
            self.reached_end = true;
            return Some(
                Token::new(TokenType::EOF, SourceCodeSpan::new(0, 0, String::from_str("\0"))),
            );
        }
        let start = self.current_pos;
        proof {
            lemma_scan_digits_bounds(text, start as int);
            lemma_scan_alpha_bounds(text, start as int);
        }
        let c = self.current_char().unwrap();
        let kind: TokenType;
        if Lexer::is_number_start(&c) {
            kind = match self.consume_number() {
                Some(number) => TokenType::NUMERAL(number),
                None => TokenType::INVALID,
            };
        } else if Lexer::is_whitespace(&c) {
            self.consume_token();
            kind = TokenType::WHITESPACE;
        } else if Lexer::is_identifier_start(&c) {
            let identifier = self.consume_identifier();
            let let_keyword = String::from_str("let");
            let var_keyword = String::from_str("var");
            kind = if identifier == let_keyword || identifier == var_keyword {
                TokenType::LET
            } else {
                TokenType::IDENTIFIER
            };
        } else {
            kind = self.consume_symbol();
        }
        let end = self.current_pos;
        let literal = String::from_str(self.input.substring_char(start, end));
        let span = SourceCodeSpan::new(start, end, literal);
        Some(Token::new(kind, span))
    }
}

} // verus!
