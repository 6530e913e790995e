//! The tokenizer: turns the input text into lexical tokens, one at a time.
//!
//! The spec model works on the character sequence and a scan position:
//! `lex_at` says which token starts at a position and where the scan ends.

use vstd::prelude::*;
use crate::numeric::{float_of_text, parse_number_bits};

verus! {

// ---------------------------------------------------------------------------
// Character classes
// ---------------------------------------------------------------------------

/// The code points of the Unicode `White_Space` property, which is what
/// `char::is_whitespace` tests.
pub open spec fn is_space_char(c: char) -> bool {
    let u = c as u32;
    (0x9 <= u && u <= 0xD) || u == 0x20 || u == 0x85 || u == 0xA0 || u == 0x1680
        || (0x2000 <= u && u <= 0x200A) || u == 0x2028 || u == 0x2029 || u == 0x202F
        || u == 0x205F || u == 0x3000
}

fn char_is_space(c: char) -> (r: bool)
    ensures
        r == is_space_char(c),
{
    let u = c as u32;
    (0x9 <= u && u <= 0xD) || u == 0x20 || u == 0x85 || u == 0xA0 || u == 0x1680
        || (0x2000 <= u && u <= 0x200A) || u == 0x2028 || u == 0x2029 || u == 0x202F
        || u == 0x205F || u == 0x3000
}

/// An ASCII decimal digit.
pub open spec fn is_digit_char(c: char) -> bool {
    0x30 <= c as u32 && c as u32 <= 0x39
}

fn char_is_digit(c: char) -> (r: bool)
    ensures
        r == is_digit_char(c),
{
    let u = c as u32;
    0x30 <= u && u <= 0x39
}

/// An ASCII letter, which starts an identifier.
pub open spec fn is_alpha_char(c: char) -> bool {
    let u = c as u32;
    (0x41 <= u && u <= 0x5A) || (0x61 <= u && u <= 0x7A)
}

fn char_is_alpha(c: char) -> (r: bool)
    ensures
        r == is_alpha_char(c),
{
    let u = c as u32;
    (0x41 <= u && u <= 0x5A) || (0x61 <= u && u <= 0x7A)
}

/// A character that may continue an identifier: a letter, a digit or `_`.
pub open spec fn is_ident_char(c: char) -> bool {
    is_alpha_char(c) || is_digit_char(c) || c == '_'
}

fn char_is_ident(c: char) -> (r: bool)
    ensures
        r == is_ident_char(c),
{
    char_is_alpha(c) || char_is_digit(c) || c == '_'
}

/// A character that may continue a numeric literal: a digit or a dot.
pub open spec fn is_number_char(c: char) -> bool {
    is_digit_char(c) || c == '.'
}

fn char_is_number(c: char) -> (r: bool)
    ensures
        r == is_number_char(c),
{
    char_is_digit(c) || c == '.'
}

/// One of the five operator characters.
pub open spec fn is_op_char(c: char) -> bool {
    c == '+' || c == '-' || c == '*' || c == '/' || c == '^'
}

fn char_is_op(c: char) -> (r: bool)
    ensures
        r == is_op_char(c),
{
    c == '+' || c == '-' || c == '*' || c == '/' || c == '^'
}

// ---------------------------------------------------------------------------
// Scanning, at the spec level
// ---------------------------------------------------------------------------

/// The first position at or after `i` that does not hold whitespace.
pub open spec fn ws_end(s: Seq<char>, i: int) -> int
    decreases s.len() - i,
{
    if i < s.len() && is_space_char(s[i]) {
        ws_end(s, i + 1)
    } else {
        i
    }
}

/// The first position at or after `i` that does not hold a digit or a dot.
pub open spec fn num_end(s: Seq<char>, i: int) -> int
    decreases s.len() - i,
{
    if i < s.len() && is_number_char(s[i]) {
        num_end(s, i + 1)
    } else {
        i
    }
}

/// The first position at or after `i` that cannot continue an identifier.
pub open spec fn ident_end(s: Seq<char>, i: int) -> int
    decreases s.len() - i,
{
    if i < s.len() && is_ident_char(s[i]) {
        ident_end(s, i + 1)
    } else {
        i
    }
}

/// How many dots a piece of text holds.
pub open spec fn dot_count(s: Seq<char>) -> nat
    decreases s.len(),
{
    if s.len() == 0 {
        0
    } else {
        dot_count(s.drop_last()) + if s.last() == '.' { 1nat } else { 0nat }
    }
}

pub proof fn lemma_ws_end_bounds(s: Seq<char>, i: int)
    requires
        0 <= i <= s.len(),
    ensures
        i <= ws_end(s, i) <= s.len(),
    decreases s.len() - i,
{
    if i < s.len() && is_space_char(s[i]) {
        lemma_ws_end_bounds(s, i + 1);
    }
}

pub proof fn lemma_num_end_bounds(s: Seq<char>, i: int)
    requires
        0 <= i <= s.len(),
    ensures
        i <= num_end(s, i) <= s.len(),
    decreases s.len() - i,
{
    if i < s.len() && is_number_char(s[i]) {
        lemma_num_end_bounds(s, i + 1);
    }
}

pub proof fn lemma_ident_end_bounds(s: Seq<char>, i: int)
    requires
        0 <= i <= s.len(),
    ensures
        i <= ident_end(s, i) <= s.len(),
    decreases s.len() - i,
{
    if i < s.len() && is_ident_char(s[i]) {
        lemma_ident_end_bounds(s, i + 1);
    }
}

// ---------------------------------------------------------------------------
// Tokens
// ---------------------------------------------------------------------------

/// A lexical token. A number carries the bit pattern of its binary64 value.
#[derive(Debug, Clone, PartialEq)]
pub enum Token {
    Number(u64),
    Identifier(String),
    Operator(char),
    LParen,
    RParen,
    Comma,
    EOF,
}

/// A failure while scanning a token.
#[derive(Debug, Clone, PartialEq)]
pub enum LexError {
    InvalidCharacter(char),
    UnexpectedEOF,
}

/// The spec-level image of a token; `Bad` stands for an invalid character.
pub enum TokenSpec {
    Num(u64),
    Ident(Seq<char>),
    Op(char),
    LParen,
    RParen,
    Comma,
    End,
    Bad(char),
}

/// What a token looks like at the spec level.
pub open spec fn tok_view(t: Token) -> TokenSpec {
    match t {
        Token::Number(b) => TokenSpec::Num(b),
        Token::Identifier(s) => TokenSpec::Ident(s@),
        Token::Operator(c) => TokenSpec::Op(c),
        Token::LParen => TokenSpec::LParen,
        Token::RParen => TokenSpec::RParen,
        Token::Comma => TokenSpec::Comma,
        Token::EOF => TokenSpec::End,
    }
}

impl Token {
    /// An explicit copy whose spec image is the same.
    pub fn dup(&self) -> (t: Token)
        ensures
            tok_view(t) == tok_view(*self),
    {
        match self {
            Token::Number(b) => Token::Number(*b),
            Token::Identifier(s) => Token::Identifier(s.clone()),
            Token::Operator(c) => Token::Operator(*c),
            Token::LParen => Token::LParen,
            Token::RParen => Token::RParen,
            Token::Comma => Token::Comma,
            Token::EOF => Token::EOF,
        }
    }
}

/// The token that starts at position `i`, and the position where its scan ends.
pub struct LexStep {
    pub tok: TokenSpec,
    pub end: int,
}

/// Scanning one token from position `i`: skip whitespace, then dispatch on
/// the first character, as `Lexer::next_token` does.
pub open spec fn lex_at(s: Seq<char>, i: int) -> LexStep {
    let j = ws_end(s, i);
    if j >= s.len() {
        LexStep { tok: TokenSpec::End, end: j }
    } else {
        let c = s[j];
        if is_digit_char(c) {
            let k = num_end(s, j);
            let text = s.subrange(j, k);
            if dot_count(text) <= 1 {
                LexStep { tok: TokenSpec::Num(float_of_text(text)), end: k }
            } else {
                LexStep { tok: TokenSpec::Bad('.'), end: k }
            }
        } else if is_alpha_char(c) {
            LexStep { tok: TokenSpec::Ident(s.subrange(j, ident_end(s, j))), end: ident_end(s, j) }
        } else if is_op_char(c) {
            LexStep { tok: TokenSpec::Op(c), end: j + 1 }
        } else if c == '(' {
            LexStep { tok: TokenSpec::LParen, end: j + 1 }
        } else if c == ')' {
            LexStep { tok: TokenSpec::RParen, end: j + 1 }
        } else if c == ',' {
            LexStep { tok: TokenSpec::Comma, end: j + 1 }
        } else {
            LexStep { tok: TokenSpec::Bad(c), end: j + 1 }
        }
    }
}

pub proof fn lemma_lex_at_bounds(s: Seq<char>, i: int)
    requires
        0 <= i <= s.len(),
    ensures
        i <= lex_at(s, i).end <= s.len(),
{
    lemma_ws_end_bounds(s, i);
    let j = ws_end(s, i);
    if j < s.len() {
        lemma_num_end_bounds(s, j);
        lemma_ident_end_bounds(s, j);
    }
}

/// Scanning one token moves forward, and strictly so except at the end of
/// the input.
pub proof fn lemma_lex_at_advances(s: Seq<char>, i: int)
    requires
        0 <= i <= s.len(),
    ensures
        i <= lex_at(s, i).end <= s.len(),
        !(lex_at(s, i).tok is End) ==> lex_at(s, i).end > i,
{
    lemma_ws_end_bounds(s, i);
    let j = ws_end(s, i);
    if j < s.len() {
        let c = s[j];
        if is_digit_char(c) {
            assert(num_end(s, j) == num_end(s, j + 1));
            lemma_num_end_bounds(s, j + 1);
        } else if is_alpha_char(c) {
            assert(ident_end(s, j) == ident_end(s, j + 1));
            lemma_ident_end_bounds(s, j + 1);
        }
    }
}

/// How `next_token`'s result and final position relate to the spec scan.
pub open spec fn next_token_rel(s: Seq<char>, i: int, r: Result<Token, LexError>, end: int) -> bool {
    let step = lex_at(s, i);
    end == step.end && match step.tok {
        TokenSpec::Bad(c) => r matches Err(LexError::InvalidCharacter(b)) && b == c,
        tk => r matches Ok(t) && tok_view(t) == tk,
    }
}

// ---------------------------------------------------------------------------
// The lexer
// ---------------------------------------------------------------------------

/// Scans the input one character at a time, with no lookahead beyond one
/// character.
pub struct Lexer {
    chars: Vec<char>,
    pos: usize,
}

impl Lexer {
    /// The input text.
    pub closed spec fn text(self) -> Seq<char> {
        self.chars@
    }

    /// The current scan position.
    pub closed spec fn at(self) -> int {
        self.pos as int
    }

    /// The position never runs past the end of the text.
    pub closed spec fn wf(self) -> bool {
        self.pos <= self.chars@.len()
    }

    pub fn new(input: &str) -> (l: Lexer)
        ensures
            l.wf(),
            l.text() == input@,
            l.at() == 0,
    {
        let n = input.unicode_len();
        let mut chars: Vec<char> = Vec::new();
        let mut i: usize = 0;
        while i < n
            invariant
                i <= n,
                n == input@.len(),
                chars@.len() == i as int,
                forall|j: int| 0 <= j < i ==> chars@[j] == input@[j],
            decreases n - i,
        {
            chars.push(input.get_char(i));
            i += 1;
        }
        proof {
            assert(chars@ =~= input@);
        }
        Lexer { chars, pos: 0 }
    }

    /// The length of the input text.
    pub fn text_len(&self) -> (n: usize)
        ensures
            n == self.text().len(),
    {
        self.chars.len()
    }

    /// Moves past the current character; at the end of the input it stays put.
    pub fn bump(&mut self)
        requires
            old(self).wf(),
        ensures
            final(self).wf(),
            final(self).text() == old(self).text(),
            final(self).at() == if old(self).at() < old(self).text().len() {
                old(self).at() + 1
            } else {
                old(self).at()
            },
    {
        if self.pos < self.chars.len() {
            self.pos += 1;
        }
    }

    /// Moves the scan position past any whitespace.
    pub fn skip_whitespace(&mut self)
        requires
            old(self).wf(),
        ensures
            final(self).wf(),
            final(self).text() == old(self).text(),
            final(self).at() == ws_end(old(self).text(), old(self).at()),
    {
        while self.pos < self.chars.len() && char_is_space(self.chars[self.pos])
            invariant
                self.wf(),
                self.text() == old(self).text(),
                ws_end(old(self).text(), old(self).at()) == ws_end(self.text(), self.at()),
            decreases self.chars@.len() - self.pos,
        {
            self.bump();
        }
    }

    /// Scans a numeric literal; the scan consumes every digit and dot, and
    /// text with more than one dot is reported as an invalid character.
    fn lex_number(&mut self) -> (r: Result<Token, LexError>)
        requires
            old(self).wf(),
            old(self).at() < old(self).text().len(),
            is_digit_char(old(self).text()[old(self).at()]),
        ensures
            final(self).wf(),
            final(self).text() == old(self).text(),
            final(self).at() == num_end(old(self).text(), old(self).at()),
            ({
                let text = old(self).text().subrange(old(self).at(), final(self).at());
                if dot_count(text) <= 1 {
                    r matches Ok(t) && tok_view(t) == TokenSpec::Num(float_of_text(text))
                } else {
                    r matches Err(LexError::InvalidCharacter(c)) && c == '.'
                }
            }),
    {
        let ghost start = self.pos as int;
        let mut text: Vec<char> = Vec::new();
        while self.pos < self.chars.len() && char_is_number(self.chars[self.pos])
            invariant
                self.wf(),
                self.text() == old(self).text(),
                start <= self.at() <= self.text().len(),
                text@.len() == self.at() - start,
                forall|j: int| 0 <= j < text@.len() ==> text@[j] == self.text()[start + j],
                forall|j: int| start <= j < self.at() ==> is_number_char(self.text()[j]),
                num_end(self.text(), start) == num_end(self.text(), self.at()),
            decreases self.chars@.len() - self.pos,
        {
            let c = self.chars[self.pos];
            text.push(c);
            self.bump();
        }
        proof {
            let s = self.text();
            assert(self.at() == num_end(s, start));
            assert(num_end(s, start) == num_end(s, start + 1));
            lemma_num_end_bounds(s, start + 1);
            assert(text@ =~= s.subrange(start, self.at()));
        }
        match parse_number_bits(&text) {
            Some(b) => Ok(Token::Number(b)),
            None => Err(LexError::InvalidCharacter('.')),
        }
    }

    /// Scans an identifier: letters, digits and underscores.
    fn lex_identifier(&mut self) -> (t: Token)
        requires
            old(self).wf(),
            old(self).at() < old(self).text().len(),
            is_alpha_char(old(self).text()[old(self).at()]),
        ensures
            final(self).wf(),
            final(self).text() == old(self).text(),
            final(self).at() == ident_end(old(self).text(), old(self).at()),
            tok_view(t) == TokenSpec::Ident(old(self).text().subrange(old(self).at(), final(self).at())),
    {
        let ghost start = self.pos as int;
        let mut ident = String::new();
        while self.pos < self.chars.len() && char_is_ident(self.chars[self.pos])
            invariant
                self.wf(),
                self.text() == old(self).text(),
                start <= self.at() <= self.text().len(),
                ident@.len() == self.at() - start,
                forall|j: int| 0 <= j < ident@.len() ==> ident@[j] == self.text()[start + j],
                ident_end(self.text(), start) == ident_end(self.text(), self.at()),
            decreases self.chars@.len() - self.pos,
        {
            let c = self.chars[self.pos];
            push_char(&mut ident, c);
            self.bump();
        }
        proof {
            assert(ident@ =~= self.text().subrange(start, self.at()));
        }
        Token::Identifier(ident)
    }

    /// Produces the next token, or an invalid-character failure. The end of
    /// the input yields the terminal `EOF` token.
    pub fn next_token(&mut self) -> (r: Result<Token, LexError>)
        requires
            old(self).wf(),
        ensures
            final(self).wf(),
            final(self).text() == old(self).text(),
            next_token_rel(old(self).text(), old(self).at(), r, final(self).at()),
    {
        self.skip_whitespace();
        if self.pos == self.chars.len() {
            return Ok(Token::EOF);
        }
        let c = self.chars[self.pos];
        if char_is_digit(c) {
            self.lex_number()
        } else if char_is_alpha(c) {
            Ok(self.lex_identifier())
        } else if char_is_op(c) {
            self.bump();
            Ok(Token::Operator(c))
        } else if c == '(' {
            self.bump();
            Ok(Token::LParen)
        } else if c == ')' {
            self.bump();
            Ok(Token::RParen)
        } else if c == ',' {
            self.bump();
            Ok(Token::Comma)
        } else {
            self.bump();
            Err(LexError::InvalidCharacter(c))
        }
    }
}

/// Relies on `String::push`: appends one character.
#[verifier::external_body]
fn push_char(s: &mut String, c: char)
    ensures
        final(s)@ == old(s)@.push(c),
{
    s.push(c);
}

} // verus!
