//! The parser: precedence-climbing recursive descent over the token stream.
//!
//! The spec model mirrors the parse functions over the character sequence
//! and the position of the current token. Every spec function carries a fuel
//! that falls by one at each recursive step; the executable parser carries
//! the same fuel as an explicit depth guard and fails gracefully with
//! [`ParseError::TooDeep`] when it runs out, which on any input of sane
//! length it never does.

use vstd::prelude::*;
use crate::token::{LexError, Lexer, Token, TokenSpec};
use crate::token::{is_op_char, lex_at, lemma_lex_at_advances, lemma_lex_at_bounds, tok_view};

verus! {

/// The abstract syntax tree node. A number leaf carries the bit pattern of
/// its binary64 value. Once built, a node is never mutated.
#[derive(Debug, PartialEq)]
pub enum ExprNode {
    Number(u64),
    Variable(String),
    BinaryOp { op: char, left: Box<ExprNode>, right: Box<ExprNode> },
    FunctionCall { name: String, args: Vec<ExprNode> },
}

/// A failure during parsing. `TooDeep` reports that the depth guard ran out.
#[derive(Debug, Clone, PartialEq)]
pub enum ParseError {
    UnexpectedToken(Token),
    UnexpectedEOF,
    Lex(LexError),
    TooDeep,
}

/// Binding strength of an operator; anything unknown binds weakest.
pub open spec fn precedence_of(op: char) -> u8 {
    if op == '+' || op == '-' {
        1
    } else if op == '*' || op == '/' {
        2
    } else if op == '^' {
        3
    } else {
        0
    }
}

/// Binding strength of an operator character.
pub fn get_precedence(op: char) -> (p: u8)
    ensures
        p == precedence_of(op),
{
    if op == '+' || op == '-' {
        1
    } else if op == '*' || op == '/' {
        2
    } else if op == '^' {
        3
    } else {
        0
    }
}

// ---------------------------------------------------------------------------
// The spec-level tree and the spec-level parse
// ---------------------------------------------------------------------------

/// The spec-level image of a syntax tree.
pub enum PNode {
    Num(u64),
    Var(Seq<char>),
    Bin(char, Box<PNode>, Box<PNode>),
    Call(Seq<char>, Seq<PNode>),
}

/// What a tree looks like at the spec level.
pub open spec fn node_view(e: ExprNode) -> PNode
    decreases e,
{
    match e {
        ExprNode::Number(b) => PNode::Num(b),
        ExprNode::Variable(s) => PNode::Var(s@),
        ExprNode::BinaryOp { op, left, right } => PNode::Bin(
            op,
            Box::new(node_view(*left)),
            Box::new(node_view(*right)),
        ),
        ExprNode::FunctionCall { name, args } => PNode::Call(name@, node_view_list(args@)),
    }
}

/// The images of a sequence of trees.
pub open spec fn node_view_list(es: Seq<ExprNode>) -> Seq<PNode>
    decreases es,
{
    if es.len() == 0 {
        Seq::empty()
    } else {
        node_view_list(es.drop_last()).push(node_view(es.last()))
    }
}

pub proof fn lemma_view_list_len(es: Seq<ExprNode>)
    ensures
        node_view_list(es).len() == es.len(),
        forall|i: int| 0 <= i < es.len() ==> node_view_list(es)[i] == node_view(es[i]),
    decreases es.len(),
{
    if es.len() > 0 {
        lemma_view_list_len(es.drop_last());
    }
}

pub proof fn lemma_view_list_push(es: Seq<ExprNode>, e: ExprNode)
    ensures
        node_view_list(es.push(e)) == node_view_list(es).push(node_view(e)),
{
    assert(es.push(e).drop_last() =~= es);
    assert(es.push(e).last() == e);
}

/// The spec-level image of a parse failure.
pub enum PErr {
    /// A token stood where the grammar disallows it.
    BadTok(TokenSpec),
    /// The scan hit an invalid character.
    BadChar(char),
    /// The depth guard ran out.
    Deep,
}

/// The spec-level result of a parse step: a tree and the position of the
/// token that follows it, or a failure.
pub enum POut {
    Node(PNode, int),
    Fail(PErr),
}

/// How an executable parse failure relates to its spec image.
pub open spec fn perr_matches(e: ParseError, pe: PErr) -> bool {
    match pe {
        PErr::BadTok(tk) => e matches ParseError::UnexpectedToken(t) && tok_view(t) == tk,
        PErr::BadChar(c) => e matches ParseError::Lex(LexError::InvalidCharacter(b)) && b == c,
        PErr::Deep => e == ParseError::TooDeep,
    }
}

/// The token the parser holds when it stands at position `p`.
pub open spec fn cur_tok(s: Seq<char>, p: int) -> TokenSpec {
    lex_at(s, p).tok
}

/// Where the scan of the token at position `p` ends.
pub open spec fn tok_end(s: Seq<char>, p: int) -> int {
    lex_at(s, p).end
}

/// Consuming the token at `p`: the parser moves to the following token and
/// fails right away if its scan hits an invalid character.
pub open spec fn sp_bump(s: Seq<char>, p: int) -> Result<int, PErr> {
    let p1 = tok_end(s, p);
    match cur_tok(s, p1) {
        TokenSpec::Bad(c) => Err(PErr::BadChar(c)),
        _ => Ok(p1),
    }
}

/// One primary expression: a number, a variable, a function call or a
/// parenthesized subexpression.
pub open spec fn sp_primary(s: Seq<char>, p: int, fuel: nat) -> POut
    decreases fuel,
{
    if fuel == 0 {
        POut::Fail(PErr::Deep)
    } else {
        match cur_tok(s, p) {
            TokenSpec::Num(b) => match sp_bump(s, p) {
                Ok(p1) => POut::Node(PNode::Num(b), p1),
                Err(pe) => POut::Fail(pe),
            },
            TokenSpec::Ident(nm) => match sp_bump(s, p) {
                Ok(p1) => if cur_tok(s, p1) is LParen {
                    match sp_bump(s, p1) {
                        Ok(p2) => if cur_tok(s, p2) is RParen {
                            match sp_bump(s, p2) {
                                Ok(p3) => POut::Node(PNode::Call(nm, Seq::empty()), p3),
                                Err(pe) => POut::Fail(pe),
                            }
                        } else {
                            sp_args(s, p2, nm, Seq::empty(), (fuel - 1) as nat)
                        },
                        Err(pe) => POut::Fail(pe),
                    }
                } else {
                    POut::Node(PNode::Var(nm), p1)
                },
                Err(pe) => POut::Fail(pe),
            },
            TokenSpec::LParen => match sp_bump(s, p) {
                Ok(p1) => match sp_binary(s, p1, 0, (fuel - 1) as nat) {
                    POut::Node(n, p2) => if cur_tok(s, p2) is RParen {
                        match sp_bump(s, p2) {
                            Ok(p3) => POut::Node(n, p3),
                            Err(pe) => POut::Fail(pe),
                        }
                    } else {
                        POut::Fail(PErr::BadTok(cur_tok(s, p2)))
                    },
                    f => f,
                },
                Err(pe) => POut::Fail(pe),
            },
            tk => POut::Fail(PErr::BadTok(tk)),
        }
    }
}

/// A comma-separated argument list, after at least one argument is known to
/// follow; ends at the closing parenthesis.
pub open spec fn sp_args(s: Seq<char>, p: int, nm: Seq<char>, acc: Seq<PNode>, fuel: nat) -> POut
    decreases fuel,
{
    if fuel == 0 {
        POut::Fail(PErr::Deep)
    } else {
        match sp_binary(s, p, 0, (fuel - 1) as nat) {
            POut::Node(arg, p1) => {
                let acc1 = acc.push(arg);
                if cur_tok(s, p1) is RParen {
                    match sp_bump(s, p1) {
                        Ok(p2) => POut::Node(PNode::Call(nm, acc1), p2),
                        Err(pe) => POut::Fail(pe),
                    }
                } else if cur_tok(s, p1) is Comma {
                    match sp_bump(s, p1) {
                        Ok(p2) => sp_args(s, p2, nm, acc1, (fuel - 1) as nat),
                        Err(pe) => POut::Fail(pe),
                    }
                } else {
                    POut::Fail(PErr::BadTok(cur_tok(s, p1)))
                }
            },
            f => f,
        }
    }
}

/// A binary expression: one primary, then every operator that binds at least
/// as strongly as `min`.
pub open spec fn sp_binary(s: Seq<char>, p: int, min: u8, fuel: nat) -> POut
    decreases fuel,
{
    if fuel == 0 {
        POut::Fail(PErr::Deep)
    } else {
        match sp_primary(s, p, (fuel - 1) as nat) {
            POut::Node(lhs, p1) => sp_binrest(s, p1, min, lhs, (fuel - 1) as nat),
            f => f,
        }
    }
}

/// Folding operators into a left-hand side, left to right: each operator of
/// sufficient strength takes a right-hand side parsed with its strength
/// raised by one, so every operator associates left.
pub open spec fn sp_binrest(s: Seq<char>, p: int, min: u8, lhs: PNode, fuel: nat) -> POut
    decreases fuel,
{
    if fuel == 0 {
        POut::Fail(PErr::Deep)
    } else {
        match cur_tok(s, p) {
            TokenSpec::Op(op) => if precedence_of(op) >= min {
                match sp_bump(s, p) {
                    Ok(p1) => match sp_binary(s, p1, (precedence_of(op) + 1) as u8, (fuel - 1) as nat) {
                        POut::Node(rhs, p2) => sp_binrest(
                            s,
                            p2,
                            min,
                            PNode::Bin(op, Box::new(lhs), Box::new(rhs)),
                            (fuel - 1) as nat,
                        ),
                        f => f,
                    },
                    Err(pe) => POut::Fail(pe),
                }
            } else {
                POut::Node(lhs, p)
            },
            _ => POut::Node(lhs, p),
        }
    }
}

/// Inputs longer than this are refused by the depth guard before parsing.
pub const MAX_TEXT_LEN: usize = 0x0FFF_FFFF;

/// The fuel `parse` starts with: generous enough that every recursive step
/// of the grammar over an input of accepted length is covered.
pub open spec fn parse_fuel(s: Seq<char>) -> nat {
    if s.len() > MAX_TEXT_LEN as nat {
        0
    } else {
        (4 * s.len() + 16) as nat
    }
}

/// Parsing a whole text: fetching the first token, then one binary
/// expression. Trailing input after that expression is left unread, as the
/// top-level parse leaves it unvalidated.
pub open spec fn text_parse(s: Seq<char>) -> POut {
    match cur_tok(s, 0) {
        TokenSpec::Bad(c) => POut::Fail(PErr::BadChar(c)),
        _ => sp_binary(s, 0, 0, parse_fuel(s)),
    }
}

proof fn lemma_primary_total(s: Seq<char>, p: int, fuel: nat)
    requires
        0 <= p <= s.len(),
        fuel >= 3 * (s.len() - p) + 2,
    ensures
        match sp_primary(s, p, fuel) {
            POut::Node(n, q) => p < q <= s.len(),
            POut::Fail(pe) => !(pe is Deep),
        },
    decreases fuel,
{
    lemma_lex_at_advances(s, p);
    let p1 = tok_end(s, p);
    match cur_tok(s, p) {
        TokenSpec::Num(_) => {},
        TokenSpec::Ident(nm) => {
            if !(cur_tok(s, p1) is Bad) {
                lemma_lex_at_advances(s, p1);
                if cur_tok(s, p1) is LParen {
                    let p2 = tok_end(s, p1);
                    if !(cur_tok(s, p2) is Bad) {
                        lemma_lex_at_advances(s, p2);
                        if cur_tok(s, p2) is RParen {
                        } else {
                            lemma_args_total(s, p2, nm, Seq::empty(), (fuel - 1) as nat);
                        }
                    }
                }
            }
        },
        TokenSpec::LParen => {
            if !(cur_tok(s, p1) is Bad) {
                lemma_binary_total(s, p1, 0, (fuel - 1) as nat);
                match sp_binary(s, p1, 0, (fuel - 1) as nat) {
                    POut::Node(_, p2) => {
                        lemma_lex_at_advances(s, p2);
                    },
                    _ => {},
                }
            }
        },
        _ => {},
    }
}

proof fn lemma_args_total(s: Seq<char>, p: int, nm: Seq<char>, acc: Seq<PNode>, fuel: nat)
    requires
        0 <= p <= s.len(),
        fuel >= 3 * (s.len() - p) + 4,
    ensures
        match sp_args(s, p, nm, acc, fuel) {
            POut::Node(n, q) => p < q <= s.len(),
            POut::Fail(pe) => !(pe is Deep),
        },
    decreases fuel,
{
    lemma_binary_total(s, p, 0, (fuel - 1) as nat);
    match sp_binary(s, p, 0, (fuel - 1) as nat) {
        POut::Node(arg, p1) => {
            lemma_lex_at_advances(s, p1);
            let p2 = tok_end(s, p1);
            if cur_tok(s, p1) is RParen {
            } else if cur_tok(s, p1) is Comma {
                if !(cur_tok(s, p2) is Bad) {
                    lemma_args_total(s, p2, nm, acc.push(arg), (fuel - 1) as nat);
                }
            }
        },
        _ => {},
    }
}

proof fn lemma_binary_total(s: Seq<char>, p: int, min: u8, fuel: nat)
    requires
        0 <= p <= s.len(),
        fuel >= 3 * (s.len() - p) + 3,
    ensures
        match sp_binary(s, p, min, fuel) {
            POut::Node(n, q) => p < q <= s.len(),
            POut::Fail(pe) => !(pe is Deep),
        },
    decreases fuel,
{
    lemma_primary_total(s, p, (fuel - 1) as nat);
    match sp_primary(s, p, (fuel - 1) as nat) {
        POut::Node(lhs, p1) => {
            lemma_rest_total(s, p1, min, lhs, (fuel - 1) as nat);
        },
        _ => {},
    }
}

proof fn lemma_rest_total(s: Seq<char>, p: int, min: u8, lhs: PNode, fuel: nat)
    requires
        0 <= p <= s.len(),
        fuel >= 3 * (s.len() - p) + 1,
    ensures
        match sp_binrest(s, p, min, lhs, fuel) {
            POut::Node(n, q) => p <= q <= s.len(),
            POut::Fail(pe) => !(pe is Deep),
        },
    decreases fuel,
{
    match cur_tok(s, p) {
        TokenSpec::Op(op) => {
            if precedence_of(op) >= min {
                lemma_lex_at_advances(s, p);
                let p1 = tok_end(s, p);
                if !(cur_tok(s, p1) is Bad) {
                    lemma_binary_total(s, p1, (precedence_of(op) + 1) as u8, (fuel - 1) as nat);
                    match sp_binary(s, p1, (precedence_of(op) + 1) as u8, (fuel - 1) as nat) {
                        POut::Node(rhs, p2) => {
                            lemma_rest_total(
                                s,
                                p2,
                                min,
                                PNode::Bin(op, Box::new(lhs), Box::new(rhs)),
                                (fuel - 1) as nat,
                            );
                        },
                        _ => {},
                    }
                }
            }
        },
        _ => {},
    }
}

/// The depth guard is generous: on any input within the accepted length, a
/// parse from any position never ends with the depth error — it yields a
/// tree, or reports a lexical or grammatical failure. The executable parser
/// returns exactly these outcomes, so `TooDeep` is never seen on such input.
pub proof fn lemma_parse_never_too_deep(s: Seq<char>, p: int)
    requires
        0 <= p <= s.len(),
        s.len() <= MAX_TEXT_LEN as nat,
    ensures
        match sp_binary(s, p, 0, parse_fuel(s)) {
            POut::Fail(pe) => !(pe is Deep),
            _ => true,
        },
        match text_parse(s) {
            POut::Fail(pe) => !(pe is Deep),
            _ => true,
        },
{
    lemma_binary_total(s, p, 0, parse_fuel(s));
    lemma_binary_total(s, 0, 0, parse_fuel(s));
}

// ---------------------------------------------------------------------------
// The executable parser
// ---------------------------------------------------------------------------

/// The recursive descent parser: a lexer plus one token of lookahead.
pub struct Parser {
    lexer: Lexer,
    current: Token,
    cur_at: Ghost<int>,
}

/// How one executable parse step relates to its spec image: on success the
/// tree matches and the parser stands at the following token, on failure the
/// error matches.
pub open spec fn step_rel(pre: Parser, out: POut, r: Result<ExprNode, ParseError>, post: Parser) -> bool {
    post.text() == pre.text() && match out {
        POut::Node(n, q) => r matches Ok(node) && node_view(node) == n && post.wf() && post.at()
            == q,
        POut::Fail(pe) => r matches Err(e) && perr_matches(e, pe),
    }
}

impl Parser {
    /// The input text.
    pub closed spec fn text(self) -> Seq<char> {
        self.lexer.text()
    }

    /// The position where the current token starts its scan.
    pub closed spec fn at(self) -> int {
        self.cur_at@
    }

    /// The lexer stands right after the current token, and the held token is
    /// the one that starts at `at()`.
    pub closed spec fn wf(self) -> bool {
        &&& self.lexer.wf()
        &&& 0 <= self.cur_at@ <= self.lexer.text().len()
        &&& self.lexer.at() == tok_end(self.lexer.text(), self.cur_at@)
        &&& tok_view(self.current) == cur_tok(self.lexer.text(), self.cur_at@)
    }

    /// Builds a parser over the input and fetches the first token.
    pub fn new(input: &str) -> (r: Result<Parser, ParseError>)
        ensures
            match r {
                Ok(p) => p.wf() && p.text() == input@ && p.at() == 0 && !(cur_tok(input@, 0)
                    is Bad),
                Err(e) => cur_tok(input@, 0) matches TokenSpec::Bad(c) && perr_matches(
                    e,
                    PErr::BadChar(c),
                ),
            },
    {
        let mut lexer = Lexer::new(input);
        proof {
            lemma_lex_at_bounds(input@, 0);
        }
        match lexer.next_token() {
            Ok(t) => Ok(Parser { lexer, current: t, cur_at: Ghost(0) }),
            Err(e) => Err(ParseError::Lex(e)),
        }
    }

    /// Replaces the current token by the next one.
    fn bump(&mut self) -> (r: Result<(), ParseError>)
        requires
            old(self).wf(),
        ensures
            final(self).text() == old(self).text(),
            match sp_bump(old(self).text(), old(self).at()) {
                Ok(p1) => r is Ok && final(self).wf() && final(self).at() == p1,
                Err(pe) => r matches Err(e) && perr_matches(e, pe),
            },
    {
        proof {
            lemma_lex_at_bounds(self.text(), self.cur_at@);
            lemma_lex_at_bounds(self.text(), tok_end(self.text(), self.cur_at@));
        }
        let ghost p1 = tok_end(self.text(), self.cur_at@);
        match self.lexer.next_token() {
            Ok(t) => {
                self.current = t;
                self.cur_at = Ghost(p1);
                Ok(())
            },
            Err(e) => Err(ParseError::Lex(e)),
        }
    }

    /// Parses one expression from the current position. What follows the
    /// expression is left unread.
    pub fn parse(&mut self) -> (r: Result<ExprNode, ParseError>)
        requires
            old(self).wf(),
        ensures
            step_rel(
                *old(self),
                sp_binary(old(self).text(), old(self).at(), 0, parse_fuel(old(self).text())),
                r,
                *final(self),
            ),
    {
        let n = self.lexer.text_len();
        if n > MAX_TEXT_LEN {
            return Err(ParseError::TooDeep);
        }
        let fuel: usize = 4 * n + 16;
        proof {
            assert(fuel as nat == parse_fuel(self.text()));
        }
        self.parse_expr(fuel)
    }

    fn parse_expr(&mut self, fuel: usize) -> (r: Result<ExprNode, ParseError>)
        requires
            old(self).wf(),
        ensures
            step_rel(
                *old(self),
                sp_binary(old(self).text(), old(self).at(), 0, fuel as nat),
                r,
                *final(self),
            ),
    {
        self.parse_binary_expr(0, fuel)
    }

    fn parse_binary_expr(&mut self, min_prec: u8, fuel: usize) -> (r: Result<ExprNode, ParseError>)
        requires
            old(self).wf(),
        ensures
            step_rel(
                *old(self),
                sp_binary(old(self).text(), old(self).at(), min_prec, fuel as nat),
                r,
                *final(self),
            ),
        decreases fuel,
    {
        if fuel == 0 {
            return Err(ParseError::TooDeep);
        }
        let lhs = self.parse_primary(fuel - 1)?;
        self.parse_bin_rest(lhs, min_prec, fuel - 1)
    }

    fn parse_bin_rest(&mut self, lhs: ExprNode, min_prec: u8, fuel: usize) -> (r: Result<
        ExprNode,
        ParseError,
    >)
        requires
            old(self).wf(),
        ensures
            step_rel(
                *old(self),
                sp_binrest(old(self).text(), old(self).at(), min_prec, node_view(lhs), fuel as nat),
                r,
                *final(self),
            ),
        decreases fuel,
    {
        if fuel == 0 {
            return Err(ParseError::TooDeep);
        }
        match &self.current {
            Token::Operator(c) => {
                let op = *c;
                let prec = get_precedence(op);
                if prec < min_prec {
                    return Ok(lhs);
                }
                self.bump()?;
                let rhs = self.parse_binary_expr(prec + 1, fuel - 1)?;
                self.parse_bin_rest(
                    ExprNode::BinaryOp { op, left: Box::new(lhs), right: Box::new(rhs) },
                    min_prec,
                    fuel - 1,
                )
            },
            _ => Ok(lhs),
        }
    }

    fn parse_primary(&mut self, fuel: usize) -> (r: Result<ExprNode, ParseError>)
        requires
            old(self).wf(),
        ensures
            step_rel(
                *old(self),
                sp_primary(old(self).text(), old(self).at(), fuel as nat),
                r,
                *final(self),
            ),
        decreases fuel,
    {
        if fuel == 0 {
            return Err(ParseError::TooDeep);
        }
        match &self.current {
            Token::Number(n) => {
                let node = ExprNode::Number(*n);
                self.bump()?;
                Ok(node)
            },
            Token::Identifier(name) => {
                let ident = name.clone();
                self.bump()?;
                if matches!(self.current, Token::LParen) {
                    self.bump()?;
                    if matches!(self.current, Token::RParen) {
                        self.bump()?;
                        let args: Vec<ExprNode> = Vec::new();
                        proof {
                            assert(node_view_list(args@) =~= Seq::<PNode>::empty());
                        }
                        Ok(ExprNode::FunctionCall { name: ident, args })
                    } else {
                        let args: Vec<ExprNode> = Vec::new();
                        proof {
                            assert(node_view_list(args@) =~= Seq::<PNode>::empty());
                        }
                        self.parse_args(ident, args, fuel - 1)
                    }
                } else {
                    Ok(ExprNode::Variable(ident))
                }
            },
            Token::LParen => {
                self.bump()?;
                let expr = self.parse_binary_expr(0, fuel - 1)?;
                match &self.current {
                    Token::RParen => {
                        self.bump()?;
                        Ok(expr)
                    },
                    _ => Err(ParseError::UnexpectedToken(self.current.dup())),
                }
            },
            _ => Err(ParseError::UnexpectedToken(self.current.dup())),
        }
    }

    fn parse_args(&mut self, name: String, args: Vec<ExprNode>, fuel: usize) -> (r: Result<
        ExprNode,
        ParseError,
    >)
        requires
            old(self).wf(),
        ensures
            step_rel(
                *old(self),
                sp_args(old(self).text(), old(self).at(), name@, node_view_list(args@), fuel as nat),
                r,
                *final(self),
            ),
        decreases fuel,
    {
        if fuel == 0 {
            return Err(ParseError::TooDeep);
        }
        let mut args = args;
        let arg = self.parse_binary_expr(0, fuel - 1)?;
        proof {
            lemma_view_list_push(args@, arg);
        }
        args.push(arg);
        match &self.current {
            Token::RParen => {
                self.bump()?;
                Ok(ExprNode::FunctionCall { name, args })
            },
            Token::Comma => {
                self.bump()?;
                self.parse_args(name, args, fuel - 1)
            },
            _ => Err(ParseError::UnexpectedToken(self.current.dup())),
        }
    }
}

/// An input whose scan yields a number, an operator, a number and then the
/// end of the input parses to exactly the binary node on the two literals;
/// the operator's precedence never falls below the starting minimum of zero,
/// so the fold always takes it.
pub proof fn lemma_parse_binop_form(s: Seq<char>, x: u64, op: char, y: u64)
    requires
        s.len() <= MAX_TEXT_LEN as nat,
        cur_tok(s, 0) == TokenSpec::Num(x),
        cur_tok(s, tok_end(s, 0)) == TokenSpec::Op(op),
        cur_tok(s, tok_end(s, tok_end(s, 0))) == TokenSpec::Num(y),
        cur_tok(s, tok_end(s, tok_end(s, tok_end(s, 0)))) == TokenSpec::End,
    ensures
        text_parse(s) == POut::Node(
            PNode::Bin(op, Box::new(PNode::Num(x)), Box::new(PNode::Num(y))),
            tok_end(s, tok_end(s, tok_end(s, 0))),
        ),
        is_op_char(op),
{
    let p1 = tok_end(s, 0);
    let p2 = tok_end(s, p1);
    let p3 = tok_end(s, p2);
    let fuel = parse_fuel(s);
    let bin = PNode::Bin(op, Box::new(PNode::Num(x)), Box::new(PNode::Num(y)));
    assert(fuel >= 16);
    assert(sp_bump(s, 0) == Ok::<int, PErr>(p1));
    assert(sp_bump(s, p1) == Ok::<int, PErr>(p2));
    assert(sp_bump(s, p2) == Ok::<int, PErr>(p3));
    assert(sp_primary(s, 0, (fuel - 1) as nat) == POut::Node(PNode::Num(x), p1));
    assert(sp_primary(s, p2, (fuel - 3) as nat) == POut::Node(PNode::Num(y), p3));
    assert(sp_binrest(s, p3, (precedence_of(op) + 1) as u8, PNode::Num(y), (fuel - 3) as nat)
        == POut::Node(PNode::Num(y), p3));
    assert(sp_binary(s, p2, (precedence_of(op) + 1) as u8, (fuel - 2) as nat) == POut::Node(
        PNode::Num(y),
        p3,
    ));
    assert(sp_binrest(s, p3, 0, bin, (fuel - 2) as nat) == POut::Node(bin, p3));
    assert(sp_binrest(s, p1, 0, PNode::Num(x), (fuel - 1) as nat) == POut::Node(bin, p3));
    assert(sp_binary(s, 0, 0, fuel) == POut::Node(bin, p3));
}

/// Left-to-right association: when the scan yields `<number> <op> <number>
/// <op> <number>` and then the end of the input, and the second operator
/// binds no tighter than the first — in particular whenever the two are the
/// same operator — the parse groups to the left: the first operation becomes
/// the left child of the second. This holds for `^` like for every other
/// operator: there is no right-associative special case.
pub proof fn lemma_parse_left_assoc(s: Seq<char>, x: u64, op1: char, y: u64, op2: char, z: u64)
    requires
        s.len() <= MAX_TEXT_LEN as nat,
        cur_tok(s, 0) == TokenSpec::Num(x),
        cur_tok(s, tok_end(s, 0)) == TokenSpec::Op(op1),
        cur_tok(s, tok_end(s, tok_end(s, 0))) == TokenSpec::Num(y),
        cur_tok(s, tok_end(s, tok_end(s, tok_end(s, 0)))) == TokenSpec::Op(op2),
        cur_tok(s, tok_end(s, tok_end(s, tok_end(s, tok_end(s, 0))))) == TokenSpec::Num(z),
        cur_tok(s, tok_end(s, tok_end(s, tok_end(s, tok_end(s, tok_end(s, 0))))))
            == TokenSpec::End,
        precedence_of(op2) <= precedence_of(op1),
    ensures
        text_parse(s) == POut::Node(
            PNode::Bin(
                op2,
                Box::new(PNode::Bin(op1, Box::new(PNode::Num(x)), Box::new(PNode::Num(y)))),
                Box::new(PNode::Num(z)),
            ),
            tok_end(s, tok_end(s, tok_end(s, tok_end(s, tok_end(s, 0))))),
        ),
{
    let p1 = tok_end(s, 0);
    let p2 = tok_end(s, p1);
    let p3 = tok_end(s, p2);
    let p4 = tok_end(s, p3);
    let p5 = tok_end(s, p4);
    let f = parse_fuel(s);
    let bin1 = PNode::Bin(op1, Box::new(PNode::Num(x)), Box::new(PNode::Num(y)));
    let bin2 = PNode::Bin(op2, Box::new(bin1), Box::new(PNode::Num(z)));
    assert(f >= 16);
    assert(sp_bump(s, 0) == Ok::<int, PErr>(p1));
    assert(sp_bump(s, p1) == Ok::<int, PErr>(p2));
    assert(sp_bump(s, p2) == Ok::<int, PErr>(p3));
    assert(sp_bump(s, p3) == Ok::<int, PErr>(p4));
    assert(sp_bump(s, p4) == Ok::<int, PErr>(p5));
    assert(sp_primary(s, 0, (f - 1) as nat) == POut::Node(PNode::Num(x), p1));
    assert(sp_primary(s, p2, (f - 3) as nat) == POut::Node(PNode::Num(y), p3));
    assert(sp_binrest(s, p3, (precedence_of(op1) + 1) as u8, PNode::Num(y), (f - 3) as nat)
        == POut::Node(PNode::Num(y), p3));
    assert(sp_binary(s, p2, (precedence_of(op1) + 1) as u8, (f - 2) as nat) == POut::Node(
        PNode::Num(y),
        p3,
    ));
    assert(sp_primary(s, p4, (f - 4) as nat) == POut::Node(PNode::Num(z), p5));
    assert(sp_binrest(s, p5, (precedence_of(op2) + 1) as u8, PNode::Num(z), (f - 4) as nat)
        == POut::Node(PNode::Num(z), p5));
    assert(sp_binary(s, p4, (precedence_of(op2) + 1) as u8, (f - 3) as nat) == POut::Node(
        PNode::Num(z),
        p5,
    ));
    assert(sp_binrest(s, p5, 0, bin2, (f - 3) as nat) == POut::Node(bin2, p5));
    assert(sp_binrest(s, p3, 0, bin1, (f - 2) as nat) == POut::Node(bin2, p5));
    assert(sp_binrest(s, p1, 0, PNode::Num(x), (f - 1) as nat) == POut::Node(bin2, p5));
    assert(sp_binary(s, 0, 0, f) == POut::Node(bin2, p5));
}

/// Precedence: when the scan yields `<number> <op> <number> <op> <number>`
/// and then the end of the input, and the second operator binds tighter than
/// the first — multiplication after addition, say — the parse groups to the
/// right: the tighter operation becomes the right child of the looser one.
pub proof fn lemma_parse_precedence(s: Seq<char>, x: u64, op1: char, y: u64, op2: char, z: u64)
    requires
        s.len() <= MAX_TEXT_LEN as nat,
        cur_tok(s, 0) == TokenSpec::Num(x),
        cur_tok(s, tok_end(s, 0)) == TokenSpec::Op(op1),
        cur_tok(s, tok_end(s, tok_end(s, 0))) == TokenSpec::Num(y),
        cur_tok(s, tok_end(s, tok_end(s, tok_end(s, 0)))) == TokenSpec::Op(op2),
        cur_tok(s, tok_end(s, tok_end(s, tok_end(s, tok_end(s, 0))))) == TokenSpec::Num(z),
        cur_tok(s, tok_end(s, tok_end(s, tok_end(s, tok_end(s, tok_end(s, 0))))))
            == TokenSpec::End,
        precedence_of(op2) > precedence_of(op1),
    ensures
        text_parse(s) == POut::Node(
            PNode::Bin(
                op1,
                Box::new(PNode::Num(x)),
                Box::new(PNode::Bin(op2, Box::new(PNode::Num(y)), Box::new(PNode::Num(z)))),
            ),
            tok_end(s, tok_end(s, tok_end(s, tok_end(s, tok_end(s, 0))))),
        ),
{
    let p1 = tok_end(s, 0);
    let p2 = tok_end(s, p1);
    let p3 = tok_end(s, p2);
    let p4 = tok_end(s, p3);
    let p5 = tok_end(s, p4);
    let f = parse_fuel(s);
    let inner = PNode::Bin(op2, Box::new(PNode::Num(y)), Box::new(PNode::Num(z)));
    let whole = PNode::Bin(op1, Box::new(PNode::Num(x)), Box::new(inner));
    assert(f >= 16);
    assert(sp_bump(s, 0) == Ok::<int, PErr>(p1));
    assert(sp_bump(s, p1) == Ok::<int, PErr>(p2));
    assert(sp_bump(s, p2) == Ok::<int, PErr>(p3));
    assert(sp_bump(s, p3) == Ok::<int, PErr>(p4));
    assert(sp_bump(s, p4) == Ok::<int, PErr>(p5));
    assert(sp_primary(s, 0, (f - 1) as nat) == POut::Node(PNode::Num(x), p1));
    assert(sp_primary(s, p2, (f - 3) as nat) == POut::Node(PNode::Num(y), p3));
    assert(sp_primary(s, p4, (f - 5) as nat) == POut::Node(PNode::Num(z), p5));
    assert(sp_binrest(s, p5, (precedence_of(op2) + 1) as u8, PNode::Num(z), (f - 5) as nat)
        == POut::Node(PNode::Num(z), p5));
    assert(sp_binary(s, p4, (precedence_of(op2) + 1) as u8, (f - 4) as nat) == POut::Node(
        PNode::Num(z),
        p5,
    ));
    assert(sp_binrest(s, p5, (precedence_of(op1) + 1) as u8, inner, (f - 4) as nat)
        == POut::Node(inner, p5));
    assert(sp_binrest(s, p3, (precedence_of(op1) + 1) as u8, PNode::Num(y), (f - 3) as nat)
        == POut::Node(inner, p5));
    assert(sp_binary(s, p2, (precedence_of(op1) + 1) as u8, (f - 2) as nat) == POut::Node(
        inner,
        p5,
    ));
    assert(sp_binrest(s, p5, 0, whole, (f - 2) as nat) == POut::Node(whole, p5));
    assert(sp_binrest(s, p1, 0, PNode::Num(x), (f - 1) as nat) == POut::Node(whole, p5));
    assert(sp_binary(s, 0, 0, f) == POut::Node(whole, p5));
}

impl core::str::FromStr for ExprNode {
    type Err = ParseError;

    /// Parse a tree from a string.
    fn from_str(s: &str) -> Result<ExprNode, ParseError> {
        let mut parser = Parser::new(s)?;
        parser.parse()
    }
}

} // verus!
