//! What the parser computes, stated over the token sequence of the input.
use vstd::prelude::*;
use crate::ast::{SpecBlock, SpecExpr, SpecIdent, SpecStmt};
use crate::lexer::end_token;
use crate::token::{kind_name, kind_text, SpecToken, TokenKind};

verus! {

/// Binding power of an operator, lowest first.
#[derive(Debug, Clone, Copy, PartialEq, Eq, Structural)]
pub enum PrecedenceLevel {
    Lowest,
    Equals,
    LessGreater,
    Sum,
    Product,
    Prefix,
    Call,
}

pub open spec fn level_rank(level: PrecedenceLevel) -> u8 {
    match level {
        PrecedenceLevel::Lowest => 0,
        PrecedenceLevel::Equals => 1,
        PrecedenceLevel::LessGreater => 2,
        PrecedenceLevel::Sum => 3,
        PrecedenceLevel::Product => 4,
        PrecedenceLevel::Prefix => 5,
        PrecedenceLevel::Call => 6,
    }
}

impl PrecedenceLevel {
    pub fn rank(self) -> (r: u8)
        ensures
            r == level_rank(self),
    {
        match self {
            PrecedenceLevel::Lowest => 0,
            PrecedenceLevel::Equals => 1,
            PrecedenceLevel::LessGreater => 2,
            PrecedenceLevel::Sum => 3,
            PrecedenceLevel::Product => 4,
            PrecedenceLevel::Prefix => 5,
            PrecedenceLevel::Call => 6,
        }
    }
}

/// The binding power of a token kind when it follows an expression.
pub open spec fn spec_precedence(kind: TokenKind) -> PrecedenceLevel {
    match kind {
        TokenKind::EQ | TokenKind::NotEQ => PrecedenceLevel::Equals,
        TokenKind::LT | TokenKind::GT => PrecedenceLevel::LessGreater,
        TokenKind::Plus | TokenKind::Minus => PrecedenceLevel::Sum,
        TokenKind::Slash | TokenKind::Asterisk => PrecedenceLevel::Product,
        TokenKind::LParen => PrecedenceLevel::Call,
        _ => PrecedenceLevel::Lowest,
    }
}

pub fn precedence_map(kind: TokenKind) -> (level: PrecedenceLevel)
    ensures
        level == spec_precedence(kind),
{
    match kind {
        TokenKind::EQ | TokenKind::NotEQ => PrecedenceLevel::Equals,
        TokenKind::LT | TokenKind::GT => PrecedenceLevel::LessGreater,
        TokenKind::Plus | TokenKind::Minus => PrecedenceLevel::Sum,
        TokenKind::Slash | TokenKind::Asterisk => PrecedenceLevel::Product,
        TokenKind::LParen => PrecedenceLevel::Call,
        _ => PrecedenceLevel::Lowest,
    }
}

/// How an expression that starts with a given token is parsed.
#[derive(Debug, Clone, Copy, PartialEq, Eq, Structural)]
pub enum PrefixRule {
    Identifier,
    Integer,
    Operator,
    Boolean,
    Grouped,
    If,
    Function,
}

/// How a token that follows an expression extends it.
#[derive(Debug, Clone, Copy, PartialEq, Eq, Structural)]
pub enum InfixRule {
    Operator,
    Call,
}

// The rule tables map each token kind to the rule that parses an expression
// starting with it (prefix) or extending one (infix). They are total functions
// over the closed set of kinds rather than a map of function values filled
// when the parser is made: the pairs are the same, a `match` holds them once
// for every parser, and Verus reads a `match` where it could not see into a
// `HashMap` of function pointers.

/// The prefix rule table.
pub open spec fn spec_prefix_rule(kind: TokenKind) -> Option<PrefixRule> {
    match kind {
        TokenKind::Ident => Some(PrefixRule::Identifier),
        TokenKind::Int => Some(PrefixRule::Integer),
        TokenKind::Bang | TokenKind::Minus => Some(PrefixRule::Operator),
        TokenKind::True | TokenKind::False => Some(PrefixRule::Boolean),
        TokenKind::LParen => Some(PrefixRule::Grouped),
        TokenKind::If => Some(PrefixRule::If),
        TokenKind::Function => Some(PrefixRule::Function),
        _ => None,
    }
}

/// The infix rule table.
pub open spec fn spec_infix_rule(kind: TokenKind) -> Option<InfixRule> {
    match kind {
        TokenKind::Plus | TokenKind::Minus | TokenKind::Slash | TokenKind::Asterisk
        | TokenKind::EQ | TokenKind::NotEQ | TokenKind::LT | TokenKind::GT => Some(
            InfixRule::Operator,
        ),
        TokenKind::LParen => Some(InfixRule::Call),
        _ => None,
    }
}

pub fn prefix_rule(kind: TokenKind) -> (r: Option<PrefixRule>)
    ensures
        r == spec_prefix_rule(kind),
{
    match kind {
        TokenKind::Ident => Some(PrefixRule::Identifier),
        TokenKind::Int => Some(PrefixRule::Integer),
        TokenKind::Bang | TokenKind::Minus => Some(PrefixRule::Operator),
        TokenKind::True | TokenKind::False => Some(PrefixRule::Boolean),
        TokenKind::LParen => Some(PrefixRule::Grouped),
        TokenKind::If => Some(PrefixRule::If),
        TokenKind::Function => Some(PrefixRule::Function),
        _ => None,
    }
}

pub fn infix_rule(kind: TokenKind) -> (r: Option<InfixRule>)
    ensures
        r == spec_infix_rule(kind),
{
    match kind {
        TokenKind::Plus | TokenKind::Minus | TokenKind::Slash | TokenKind::Asterisk
        | TokenKind::EQ | TokenKind::NotEQ | TokenKind::LT | TokenKind::GT => Some(
            InfixRule::Operator,
        ),
        TokenKind::LParen => Some(InfixRule::Call),
        _ => None,
    }
}

// ---------------------------------------------------------------------------
// Integer literals.

pub open spec fn digit_value(c: char) -> int {
    (c as int) - ('0' as int)
}

/// The number that a run of decimal digits denotes.
pub open spec fn decimal_value(s: Seq<char>) -> int
    decreases s.len(),
{
    if s.len() == 0 {
        0
    } else {
        decimal_value(s.drop_last()) * 10 + digit_value(s.last())
    }
}

pub open spec fn all_digits(s: Seq<char>) -> bool {
    forall|i: int| 0 <= i < s.len() ==> '0' <= #[trigger] s[i] && s[i] <= '9'
}

/// The value of an integer literal, when it is a non-empty run of digits
/// whose value fits in an `i64`.
pub open spec fn literal_value(s: Seq<char>) -> Option<i64> {
    if s.len() > 0 && all_digits(s) && decimal_value(s) <= i64::MAX {
        Some(decimal_value(s) as i64)
    } else {
        None
    }
}

// ---------------------------------------------------------------------------
// Diagnostics.

/// The diagnostic for a token that is not the one expected; it names both
/// kinds as written in the enum.
pub open spec fn peek_error_text(expected: TokenKind, got: TokenKind) -> Seq<char> {
    "expected next token to be "@ + kind_name(expected) + ", got "@ + kind_name(got)
        + " instead"@
}

pub open spec fn no_prefix_text(kind: TokenKind) -> Seq<char> {
    "no prefix parse function for '"@ + kind_text(kind) + "' found"@
}

pub open spec fn integer_error_text(literal: Seq<char>) -> Seq<char> {
    "could not parse '"@ + literal + "' as integer"@
}

// ---------------------------------------------------------------------------
// The parse, one production at a time. A state is the index of the current
// token and the diagnostics so far. Every production reads the token stream
// forward only; the few branches that test for a position that moved
// backwards or past the end keep the definitions total and are never taken
// (the parser proves its positions only grow and stay in the stream).

pub struct PState {
    pub k: int,
    pub errs: Seq<Seq<char>>,
}

/// The token at index `k`; the last token of the stream and everything past
/// it is the end marker.
pub open spec fn tok(toks: Seq<SpecToken>, k: int) -> SpecToken {
    if 0 <= k < toks.len() - 1 {
        toks[k]
    } else {
        end_token()
    }
}

pub open spec fn cur(toks: Seq<SpecToken>, st: PState) -> SpecToken {
    tok(toks, st.k)
}

pub open spec fn peek(toks: Seq<SpecToken>, st: PState) -> SpecToken {
    tok(toks, st.k + 1)
}

/// One token on; at the end of the stream the position stays.
pub open spec fn adv(toks: Seq<SpecToken>, st: PState) -> PState {
    PState { k: if st.k + 1 < toks.len() { st.k + 1 } else { st.k }, errs: st.errs }
}

pub open spec fn with_error(st: PState, msg: Seq<char>) -> PState {
    PState { k: st.k, errs: st.errs.push(msg) }
}

pub open spec fn p_expect_peek(toks: Seq<SpecToken>, st: PState, kind: TokenKind) -> (bool, PState) {
    if peek(toks, st).kind == kind {
        (true, adv(toks, st))
    } else {
        (false, with_error(st, peek_error_text(kind, peek(toks, st).kind)))
    }
}

/// Moves past an optional semicolon.
pub open spec fn skip_semicolon(toks: Seq<SpecToken>, st: PState) -> PState {
    if peek(toks, st).kind == TokenKind::Semicolon {
        adv(toks, st)
    } else {
        st
    }
}

pub open spec fn ident_of(t: SpecToken) -> SpecIdent {
    SpecIdent { token: t, value: t.literal }
}

#[verifier::opaque]
pub open spec fn p_program_items(toks: Seq<SpecToken>, st: PState, acc: Seq<SpecStmt>) -> (
    Seq<SpecStmt>,
    PState,
)
    decreases toks.len() - st.k,
{
    if cur(toks, st).kind == TokenKind::EOF {
        (acc, st)
    } else {
        let (s, st1) = p_statement(toks, st);
        if !(st.k <= st1.k < toks.len()) {
            (acc, st1)
        } else {
            let acc1 = match s {
                Some(x) => acc.push(x),
                None => acc,
            };
            p_program_items(toks, adv(toks, st1), acc1)
        }
    }
}

/// The statements of a whole program and the final state.
pub open spec fn p_program(toks: Seq<SpecToken>, st: PState) -> (Seq<SpecStmt>, PState) {
    p_program_items(toks, st, Seq::empty())
}

#[verifier::opaque]
pub open spec fn p_statement(toks: Seq<SpecToken>, st: PState) -> (Option<SpecStmt>, PState)
    decreases toks.len() - st.k, 13int,
{
    match cur(toks, st).kind {
        TokenKind::Let => p_let(toks, st),
        TokenKind::Return => p_return(toks, st),
        _ => p_expression_statement(toks, st),
    }
}

#[verifier::opaque]
pub open spec fn p_let(toks: Seq<SpecToken>, st: PState) -> (Option<SpecStmt>, PState)
    decreases toks.len() - st.k, 12int,
{
    let t = cur(toks, st);
    let (ok1, st1) = p_expect_peek(toks, st, TokenKind::Ident);
    if !ok1 {
        (None, st1)
    } else {
        let name = ident_of(cur(toks, st1));
        let (ok2, st2) = p_expect_peek(toks, st1, TokenKind::Assign);
        if !ok2 {
            (None, st2)
        } else {
            let (v, st3) = p_expression(toks, adv(toks, st2), PrecedenceLevel::Lowest);
            (Some(SpecStmt::Let { token: t, name, value: v }), skip_semicolon(toks, st3))
        }
    }
}

#[verifier::opaque]
pub open spec fn p_return(toks: Seq<SpecToken>, st: PState) -> (Option<SpecStmt>, PState)
    decreases toks.len() - st.k, 12int,
{
    let t = cur(toks, st);
    let p = peek(toks, st).kind;
    if p == TokenKind::Semicolon || p == TokenKind::EOF {
        (Some(SpecStmt::Return { token: t, value: None }), skip_semicolon(toks, st))
    } else {
        let (v, st1) = p_expression(toks, adv(toks, st), PrecedenceLevel::Lowest);
        (Some(SpecStmt::Return { token: t, value: v }), skip_semicolon(toks, st1))
    }
}

#[verifier::opaque]
pub open spec fn p_expression_statement(toks: Seq<SpecToken>, st: PState) -> (
    Option<SpecStmt>,
    PState,
)
    decreases toks.len() - st.k, 12int,
{
    let t = cur(toks, st);
    let (e, st1) = p_expression(toks, st, PrecedenceLevel::Lowest);
    (Some(SpecStmt::Expr { token: t, expression: e }), skip_semicolon(toks, st1))
}

/// Precedence climbing: an expression whose operators bind tighter than `prec`.
#[verifier::opaque]
pub open spec fn p_expression(toks: Seq<SpecToken>, st: PState, prec: PrecedenceLevel) -> (
    Option<SpecExpr>,
    PState,
)
    decreases toks.len() - st.k, 11int,
{
    let t = cur(toks, st);
    match spec_prefix_rule(t.kind) {
        None => (None, with_error(st, no_prefix_text(t.kind))),
        Some(rule) => {
            let (left, st1) = p_prefix(toks, st);
            if left is None || !(st.k <= st1.k < toks.len()) {
                (None, st1)
            } else {
                p_infix_loop(toks, st1, prec, left->0)
            }
        },
    }
}

/// The prefix rule of the current token, applied.
#[verifier::opaque]
pub open spec fn p_prefix(toks: Seq<SpecToken>, st: PState) -> (Option<SpecExpr>, PState)
    decreases toks.len() - st.k, 10int,
{
    let t = cur(toks, st);
    match spec_prefix_rule(t.kind) {
        None => (None, st),
        Some(PrefixRule::Identifier) => (Some(SpecExpr::Ident(ident_of(t))), st),
        Some(PrefixRule::Integer) => match literal_value(t.literal) {
            Some(v) => (Some(SpecExpr::Int { token: t, value: v }), st),
            None => (None, with_error(st, integer_error_text(t.literal))),
        },
        Some(PrefixRule::Operator) => {
            let (r, st1) = p_expression(toks, adv(toks, st), PrecedenceLevel::Prefix);
            match r {
                Some(x) => (
                    Some(SpecExpr::Prefix { token: t, operator: t.literal, right: Box::new(x) }),
                    st1,
                ),
                None => (None, st1),
            }
        },
        Some(PrefixRule::Boolean) => (
            Some(SpecExpr::Bool { token: t, value: t.kind == TokenKind::True }),
            st,
        ),
        Some(PrefixRule::Grouped) => {
            let (e, st1) = p_expression(toks, adv(toks, st), PrecedenceLevel::Lowest);
            let (ok, st2) = p_expect_peek(toks, st1, TokenKind::RParen);
            if ok {
                (e, st2)
            } else {
                (None, st2)
            }
        },
        Some(PrefixRule::If) => p_if(toks, st),
        Some(PrefixRule::Function) => p_function(toks, st),
    }
}

#[verifier::opaque]
pub open spec fn p_if(toks: Seq<SpecToken>, st: PState) -> (Option<SpecExpr>, PState)
    decreases toks.len() - st.k, 9int,
{
    let t = cur(toks, st);
    let (ok1, st1) = p_expect_peek(toks, st, TokenKind::LParen);
    if !ok1 {
        (None, st1)
    } else {
        let (c, st2) = p_expression(toks, adv(toks, st1), PrecedenceLevel::Lowest);
        if c is None {
            (None, st2)
        } else {
            let (ok2, st3) = p_expect_peek(toks, st2, TokenKind::RParen);
            if !ok2 {
                (None, st3)
            } else {
                let (ok3, st4) = p_expect_peek(toks, st3, TokenKind::LBrace);
                if !ok3 {
                    (None, st4)
                } else if !(st.k < st4.k < toks.len()) {
                    (None, st4)
                } else {
                    let (consequence, st5) = p_block(toks, st4);
                    if cur(toks, st5).kind != TokenKind::RBrace {
                        (None, st5)
                    } else if peek(toks, st5).kind == TokenKind::Else {
                        let (ok4, st6) = p_expect_peek(toks, adv(toks, st5), TokenKind::LBrace);
                        if !ok4 {
                            (None, st6)
                        } else if !(st.k < st6.k < toks.len()) {
                            (None, st6)
                        } else {
                            let (alternative, st7) = p_block(toks, st6);
                            if cur(toks, st7).kind != TokenKind::RBrace {
                                (None, st7)
                            } else {
                            (
                                Some(
                                    SpecExpr::If {
                                        token: t,
                                        condition: Box::new(c->0),
                                        consequence,
                                        alternative: Some(alternative),
                                    },
                                ),
                                st7,
                            )
                            }
                        }
                    } else {
                        (
                            Some(
                                SpecExpr::If {
                                    token: t,
                                    condition: Box::new(c->0),
                                    consequence,
                                    alternative: None,
                                },
                            ),
                            st5,
                        )
                    }
                }
            }
        }
    }
}

/// The statements of a brace-delimited block; the current token is `{`.
#[verifier::opaque]
pub open spec fn p_block(toks: Seq<SpecToken>, st: PState) -> (SpecBlock, PState)
    decreases toks.len() - st.k, 15int,
{
    let (stmts, st1) = p_block_items(toks, adv(toks, st), Seq::empty());
    let st2 = if cur(toks, st1).kind == TokenKind::EOF {
        with_error(st1, peek_error_text(TokenKind::RBrace, TokenKind::EOF))
    } else {
        st1
    };
    (SpecBlock { token: cur(toks, st), statements: stmts }, st2)
}

#[verifier::opaque]
pub open spec fn p_block_items(toks: Seq<SpecToken>, st: PState, acc: Seq<SpecStmt>) -> (
    Seq<SpecStmt>,
    PState,
)
    decreases toks.len() - st.k, 14int,
{
    let t = cur(toks, st);
    if t.kind == TokenKind::RBrace || t.kind == TokenKind::EOF {
        (acc, st)
    } else {
        let (s, st1) = p_statement(toks, st);
        if !(st.k <= st1.k < toks.len()) {
            (acc, st1)
        } else {
            let acc1 = match s {
                Some(x) => acc.push(x),
                None => acc,
            };
            p_block_items(toks, adv(toks, st1), acc1)
        }
    }
}

#[verifier::opaque]
pub open spec fn p_function(toks: Seq<SpecToken>, st: PState) -> (Option<SpecExpr>, PState)
    decreases toks.len() - st.k, 9int,
{
    let t = cur(toks, st);
    let (ok1, st1) = p_expect_peek(toks, st, TokenKind::LParen);
    if !ok1 {
        (None, st1)
    } else {
        let (params, st2) = p_parameters(toks, st1);
        if params is None {
            (None, st2)
        } else {
            let (ok2, st3) = p_expect_peek(toks, st2, TokenKind::LBrace);
            if !ok2 {
                (None, st3)
            } else if !(st.k < st3.k < toks.len()) {
                (None, st3)
            } else {
                let (body, st4) = p_block(toks, st3);
                if cur(toks, st4).kind != TokenKind::RBrace {
                    (None, st4)
                } else {
                    (Some(SpecExpr::Func { token: t, parameters: params->0, body }), st4)
                }
            }
        }
    }
}

/// The parameter names of a function literal; the current token is `(`.
pub open spec fn p_parameters(toks: Seq<SpecToken>, st: PState) -> (
    Option<Seq<SpecIdent>>,
    PState,
) {
    if peek(toks, st).kind == TokenKind::RParen {
        (Some(Seq::empty()), adv(toks, st))
    } else {
        let (ok, st1) = p_expect_peek(toks, st, TokenKind::Ident);
        if !ok {
            (None, st1)
        } else {
            p_parameters_rest(toks, st1, seq![ident_of(cur(toks, st1))])
        }
    }
}

#[verifier::opaque]
pub open spec fn p_parameters_rest(toks: Seq<SpecToken>, st: PState, acc: Seq<SpecIdent>) -> (
    Option<Seq<SpecIdent>>,
    PState,
)
    decreases toks.len() - st.k,
{
    if peek(toks, st).kind == TokenKind::Comma {
        let (ok, st1) = p_expect_peek(toks, adv(toks, st), TokenKind::Ident);
        if !ok {
            (None, st1)
        } else {
            p_parameters_rest(toks, st1, acc.push(ident_of(cur(toks, st1))))
        }
    } else {
        let (ok, st1) = p_expect_peek(toks, st, TokenKind::RParen);
        if ok {
            (Some(acc), st1)
        } else {
            (None, st1)
        }
    }
}

/// Extends `left` with operators that bind tighter than `prec`.
#[verifier::opaque]
pub open spec fn p_infix_loop(
    toks: Seq<SpecToken>,
    st: PState,
    prec: PrecedenceLevel,
    left: SpecExpr,
) -> (Option<SpecExpr>, PState)
    decreases toks.len() - st.k, 5int,
{
    let p = peek(toks, st).kind;
    if p == TokenKind::Semicolon || level_rank(prec) >= level_rank(spec_precedence(p)) {
        (Some(left), st)
    } else {
        let (r, st1) = match spec_infix_rule(p) {
            None => (Some(left), st),
            Some(InfixRule::Operator) => p_infix(toks, st, left),
            Some(InfixRule::Call) => p_call(toks, st, left),
        };
        if spec_infix_rule(p) is None || r is None || !(st.k < st1.k < toks.len()) {
            (r, st1)
        } else {
            p_infix_loop(toks, st1, prec, r->0)
        }
    }
}

/// A binary operator and its right operand; the operator is the next token.
#[verifier::opaque]
pub open spec fn p_infix(toks: Seq<SpecToken>, st: PState, left: SpecExpr) -> (
    Option<SpecExpr>,
    PState,
)
    decreases toks.len() - st.k, 4int,
{
    let st1 = adv(toks, st);
    if st1.k <= st.k {
        (None, st1)
    } else {
        let t = cur(toks, st1);
        let (r, st2) = p_expression(toks, adv(toks, st1), spec_precedence(t.kind));
        match r {
            Some(x) => (
                Some(
                    SpecExpr::Infix {
                        token: t,
                        left: Box::new(left),
                        operator: t.literal,
                        right: Box::new(x),
                    },
                ),
                st2,
            ),
            None => (None, st2),
        }
    }
}

/// A call of `function`; the next token is `(`.
#[verifier::opaque]
pub open spec fn p_call(toks: Seq<SpecToken>, st: PState, function: SpecExpr) -> (
    Option<SpecExpr>,
    PState,
)
    decreases toks.len() - st.k, 4int,
{
    let st1 = adv(toks, st);
    if st1.k <= st.k {
        (None, st1)
    } else {
        let t = cur(toks, st1);
        let (args, st2) = p_call_arguments(toks, st1);
        match args {
            Some(a) => (
                Some(SpecExpr::Call { token: t, function: Box::new(function), arguments: a }),
                st2,
            ),
            None => (None, st2),
        }
    }
}

/// The arguments of a call; the current token is `(`.
#[verifier::opaque]
pub open spec fn p_call_arguments(toks: Seq<SpecToken>, st: PState) -> (
    Option<Seq<SpecExpr>>,
    PState,
)
    decreases toks.len() - st.k, 12int,
{
    if peek(toks, st).kind == TokenKind::RParen {
        (Some(Seq::empty()), adv(toks, st))
    } else {
        let (e, st1) = p_expression(toks, adv(toks, st), PrecedenceLevel::Lowest);
        if e is None || !(st.k <= st1.k < toks.len()) {
            (None, st1)
        } else {
            p_arguments_rest(toks, st1, seq![e->0])
        }
    }
}

#[verifier::opaque]
pub open spec fn p_arguments_rest(toks: Seq<SpecToken>, st: PState, acc: Seq<SpecExpr>) -> (
    Option<Seq<SpecExpr>>,
    PState,
)
    decreases toks.len() - st.k, 2int,
{
    if peek(toks, st).kind == TokenKind::Comma {
        let (e, st1) = p_expression(
            toks,
            adv(toks, adv(toks, st)),
            PrecedenceLevel::Lowest,
        );
        if e is None || !(st.k < st1.k < toks.len()) {
            (None, st1)
        } else {
            p_arguments_rest(toks, st1, acc.push(e->0))
        }
    } else {
        let (ok, st1) = p_expect_peek(toks, st, TokenKind::RParen);
        if ok {
            (Some(acc), st1)
        } else {
            (None, st1)
        }
    }
}

} // verus!
