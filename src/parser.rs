use vstd::prelude::*;
use vstd::string::StrSliceExecFns;
use vstd::string::StringExecFns;
use crate::ast::{
    block_view, expr_view, exprs_view, idents_view, lemma_exprs_view_step,
    lemma_stmts_view_step, opt_expr_view, program_view, stmt_view, stmts_view, BlockStatement,
    Boolean, CallExpression, ExpressionNode, ExpressionStatement, FunctionLiteral, Identifier,
    IfExpression, InfixExpression, IntegerLiteral, LetStatement, PrefixExpression, Program,
    ReturnStatement, SpecExpr, SpecStmt, StatementNode,
};
use crate::grammar::{
    adv, all_digits, cur, decimal_value, ident_of, infix_rule, literal_value,
    no_prefix_text, p_arguments_rest, p_block, p_block_items, p_call, p_call_arguments,
    p_expect_peek, p_expression, p_expression_statement, p_function, p_if, p_infix, p_infix_loop, p_let,
    p_parameters, p_parameters_rest, p_prefix, p_program, p_program_items, p_return,
    p_statement, peek_error_text, precedence_map, prefix_rule, spec_infix_rule,
    spec_precedence, spec_prefix_rule, tok, with_error, InfixRule, PState, PrecedenceLevel,
    PrefixRule,
};
use crate::lexer::{end_token, lemma_lex_at, lex_at, tokens_from, Lexer};
use crate::token::{SpecToken, Token, TokenKind};

verus! {

/// The texts of a list of diagnostics.
pub open spec fn err_texts(v: Seq<String>) -> Seq<Seq<char>> {
    Seq::new(v.len(), |i: int| v[i]@)
}

/// The tokens from index `j` on; past the end, the end marker alone.
pub open spec fn rest(toks: Seq<SpecToken>, j: int) -> Seq<SpecToken> {
    if j < toks.len() {
        toks.subrange(j, toks.len() as int)
    } else {
        seq![end_token()]
    }
}

pub open spec fn opt_stmt_view(s: &Option<StatementNode>) -> Option<SpecStmt> {
    match s {
        Some(x) => Some(stmt_view(x)),
        None => None,
    }
}

/// The token stream from any position ends with the end marker, and holds it
/// nowhere else.
pub proof fn lemma_tokens_from(s: Seq<char>, p: int)
    requires
        0 <= p <= s.len(),
    ensures
        tokens_from(s, p).len() >= 1,
        tokens_from(s, p).last() == end_token(),
        forall|j: int| 0 <= j < tokens_from(s, p).len() - 1 ==> #[trigger] tokens_from(s, p)[j].kind
            != TokenKind::EOF,
        tokens_from(s, p)[0] == lex_at(s, p).0,
        lex_at(s, p).0.kind != TokenKind::EOF ==> tokens_from(s, p).drop_first() == tokens_from(
            s,
            lex_at(s, p).1,
        ),
        lex_at(s, p).0.kind == TokenKind::EOF ==> tokens_from(s, p).len() == 1,
    decreases s.len() - p,
{
    reveal(tokens_from);
    lemma_lex_at(s, p);
    let (t, e) = lex_at(s, p);
    if t.kind != TokenKind::EOF {
        lemma_tokens_from(s, e);
        let rest = tokens_from(s, e);
        assert(tokens_from(s, p) == seq![t] + rest);
        assert((seq![t] + rest).drop_first() =~= rest);
        assert forall|j: int| 0 <= j < tokens_from(s, p).len() - 1 implies #[trigger] tokens_from(
            s,
            p,
        )[j].kind != TokenKind::EOF by {
            if j > 0 {
                assert(tokens_from(s, p)[j] == rest[j - 1]);
            }
        }
    } else {
        assert(t == end_token());
    }
}

/// A Pratt parser over the tokens of a lexer, with its diagnostics.
pub struct Parser {
    lexer: Lexer,
    pub cur_token: Token,
    pub peek_token: Token,
    errors: Vec<String>,
    toks: Ghost<Seq<SpecToken>>,
    idx: Ghost<int>,
}

impl Parser {
    /// The tokens this parser reads, ending with the end marker.
    pub closed spec fn tokens(&self) -> Seq<SpecToken> {
        self.toks@
    }

    /// The index of the current token and the diagnostics so far.
    pub closed spec fn state(&self) -> PState {
        PState { k: self.idx@, errs: err_texts(self.errors@) }
    }

    /// The current token (the view of `cur_token`).
    pub closed spec fn current(&self) -> SpecToken {
        self.cur_token@
    }

    /// The token after the current one (the view of `peek_token`).
    pub closed spec fn lookahead(&self) -> SpecToken {
        self.peek_token@
    }

    /// The lexer stands just past the next token, and the stream ends with
    /// the end marker and holds it nowhere else.
    #[verifier::opaque]
    pub closed spec fn in_step(&self) -> bool {
        &&& self.toks@.last() == end_token()
        &&& forall|j: int|
            0 <= j < self.toks@.len() - 1 ==> #[trigger] self.toks@[j].kind != TokenKind::EOF
        &&& tokens_from(self.lexer.source(), self.lexer.pos()) == rest(self.toks@, self.idx@ + 2)
    }

    pub closed spec fn wf(&self) -> bool {
        &&& self.lexer.wf()
        &&& self.toks@.len() >= 1
        &&& 0 <= self.idx@ < self.toks@.len()
        &&& self.cur_token@ == tok(self.toks@, self.idx@)
        &&& self.peek_token@ == tok(self.toks@, self.idx@ + 1)
        &&& self.in_step()
    }

    /// A parser over the tokens that `lexer` yields from its cursor on, with
    /// no diagnostics yet.
    #[verifier::spinoff_prover]
    pub fn new(lexer: Lexer) -> (parser: Parser)
        requires
            lexer.wf(),
        ensures
            parser.wf(),
            parser.tokens() == tokens_from(lexer.source(), lexer.pos()),
            parser.state() == (PState { k: 0, errs: Seq::empty() }),
            parser.current() == tok(parser.tokens(), 0),
            parser.lookahead() == tok(parser.tokens(), 1),
    {
        let mut lexer = lexer;
        let ghost s = lexer.source();
        let ghost p0 = lexer.pos();
        proof {
            lemma_lex_at(s, p0);
            lemma_tokens_from(s, p0);
        }
        let ghost toks = tokens_from(s, p0);
        let first = lexer.next_token();
        let ghost p1 = lexer.pos();
        proof {
            lemma_lex_at(s, p1);
            lemma_tokens_from(s, p1);
        }
        let second = lexer.next_token();
        let ghost p2 = lexer.pos();
        proof {
            lemma_lex_at(s, p2);
            lemma_tokens_from(s, p2);
            if first@.kind != TokenKind::EOF {
                assert(toks.drop_first() == tokens_from(s, p1));
                if second@.kind != TokenKind::EOF {
                    assert(tokens_from(s, p1).drop_first() == tokens_from(s, p2));
                    assert(toks.subrange(2, toks.len() as int) =~= tokens_from(s, p2));
                    assert(toks[1] == second@);
                } else {
                    assert(toks.len() == 2);
                    assert(tokens_from(s, p2) =~= seq![end_token()]);
                }
            } else {
                assert(toks.len() == 1);
                assert(tokens_from(s, p2) =~= seq![end_token()]);
            }
        }
        let parser = Parser {
            lexer,
            cur_token: first,
            peek_token: second,
            errors: Vec::new(),
            toks: Ghost(toks),
            idx: Ghost(0),
        };
        assert(err_texts(parser.errors@) =~= Seq::empty());
        assert(parser.in_step()) by {
            reveal(Parser::in_step);
        }
        parser
    }

    /// Moves one token on.
    #[verifier::spinoff_prover]
    fn next_token(&mut self)
        requires
            old(self).wf(),
        ensures
            final(self).wf(),
            final(self).tokens() == old(self).tokens(),
            final(self).state() == adv(old(self).tokens(), old(self).state()),
    {
        let ghost toks = self.toks@;
        let ghost i = self.idx@;
        let ghost s = self.lexer.source();
        let ghost p = self.lexer.pos();
        proof {
            reveal(Parser::in_step);
            lemma_lex_at(s, p);
            lemma_tokens_from(s, p);
        }
        let t = self.lexer.next_token();
        let ghost p1 = self.lexer.pos();
        proof {
            lemma_lex_at(s, p1);
            lemma_tokens_from(s, p1);
            lemma_lex_at(s, s.len() as int);
        }
        std::mem::swap(&mut self.cur_token, &mut self.peek_token);
        self.peek_token = t;
        let ghost i1: int = if i + 1 < toks.len() {
            i + 1
        } else {
            i
        };
        self.idx = Ghost(i1);
        proof {
            if i + 2 < toks.len() {
                assert(rest(toks, i + 2)[0] == toks[i + 2]);
            }
            if t@.kind != TokenKind::EOF {
                assert(i + 2 < toks.len() - 1);
                assert(rest(toks, i + 2).drop_first() =~= rest(toks, i + 3));
            } else {
                assert(i + 2 >= toks.len() - 1);
                assert(tokens_from(s, p1) =~= seq![end_token()]);
            }
            assert(self.in_step());
        }
    }

    #[verifier::spinoff_prover]
    fn cur_token_is(&self, kind: TokenKind) -> (r: bool)
        ensures
            r == (self.cur_token.kind == kind),
    {
        self.cur_token.kind == kind
    }

    #[verifier::spinoff_prover]
    fn peek_token_is(&self, kind: TokenKind) -> (r: bool)
        ensures
            r == (self.peek_token.kind == kind),
    {
        self.peek_token.kind == kind
    }

    #[verifier::spinoff_prover]
    fn push_error(&mut self, msg: String)
        requires
            old(self).wf(),
        ensures
            final(self).wf(),
            final(self).tokens() == old(self).tokens(),
            final(self).state() == with_error(old(self).state(), msg@),
            final(self).lexer == old(self).lexer,
            final(self).cur_token == old(self).cur_token,
            final(self).peek_token == old(self).peek_token,
            final(self).toks == old(self).toks,
            final(self).idx == old(self).idx,
            err_texts(final(self).errors@) == err_texts(old(self).errors@).push(msg@),
    {
        proof {
            reveal(Parser::in_step);
        }
        self.errors.push(msg);
        assert(err_texts(self.errors@) =~= err_texts(old(self).errors@).push(msg@));
    }

    /// Records that a token of kind `got` stands where one of kind `expected`
    /// belongs.
    #[verifier::spinoff_prover]
    fn expected_error(&mut self, expected: TokenKind, got: TokenKind)
        requires
            old(self).wf(),
        ensures
            final(self).wf(),
            final(self).tokens() == old(self).tokens(),
            final(self).state() == with_error(old(self).state(), peek_error_text(expected, got)),
    {
        let mut msg = String::from_str("expected next token to be ");
        let expected_name = expected.name();
        msg.append(expected_name.as_str());
        msg.append(", got ");
        let got_name = got.name();
        msg.append(got_name.as_str());
        msg.append(" instead");
        self.push_error(msg);
    }

    /// Records that the next token is not the one expected.
    #[verifier::spinoff_prover]
    fn peek_error(&mut self, kind: TokenKind)
        requires
            old(self).wf(),
        ensures
            final(self).wf(),
            final(self).tokens() == old(self).tokens(),
            final(self).state() == with_error(
                old(self).state(),
                peek_error_text(kind, old(self).peek_token.kind),
            ),
    {
        self.expected_error(kind, self.peek_token.kind);
    }

    /// Moves on if the next token is of the given kind; records an error if not.
    #[verifier::spinoff_prover]
    fn expect_peek(&mut self, kind: TokenKind) -> (ok: bool)
        requires
            old(self).wf(),
        ensures
            final(self).wf(),
            final(self).tokens() == old(self).tokens(),
            (ok, final(self).state()) == p_expect_peek(old(self).tokens(), old(self).state(), kind),
    {
        if self.peek_token_is(kind) {
            self.next_token();
            true
        } else {
            self.peek_error(kind);
            false
        }
    }

    /// The diagnostics recorded so far, in order.
    #[verifier::spinoff_prover]
    pub fn errors(&self) -> (r: &Vec<String>)
        ensures
            err_texts(r@) == self.state().errs,
    {
        &self.errors
    }

    #[verifier::spinoff_prover]
    fn no_prefix_parse_fn_error(&mut self, kind: TokenKind)
        requires
            old(self).wf(),
        ensures
            final(self).wf(),
            final(self).tokens() == old(self).tokens(),
            final(self).state() == with_error(old(self).state(), no_prefix_text(kind)),
    {
        let mut msg = String::from_str("no prefix parse function for '");
        let text = kind.text();
        msg.append(text.as_str());
        msg.append("' found");
        self.push_error(msg);
    }

    #[verifier::spinoff_prover]
    fn peek_precedence(&self) -> (level: PrecedenceLevel)
        ensures
            level == spec_precedence(self.peek_token.kind),
    {
        precedence_map(self.peek_token.kind)
    }

    #[verifier::spinoff_prover]
    fn cur_precedence(&self) -> (level: PrecedenceLevel)
        ensures
            level == spec_precedence(self.cur_token.kind),
    {
        precedence_map(self.cur_token.kind)
    }

    /// Parses the whole input: the statements in order, each malformed one
    /// dropped with its diagnostics recorded.
    #[verifier::spinoff_prover]
    pub fn parse_program(&mut self) -> (r: Option<Program>)
        requires
            old(self).wf(),
        ensures
            final(self).wf(),
            final(self).tokens() == old(self).tokens(),
            r is Some,
            final(self).current().kind == TokenKind::EOF,
            (program_view(&r->0), final(self).state()) == p_program(
                old(self).tokens(),
                old(self).state(),
            ),
    {
        proof {
            reveal(p_program_items);
        }
        let ghost toks = self.toks@;
        let ghost st0 = self.state();
        let mut statements: Vec<StatementNode> = Vec::new();
        while !self.cur_token_is(TokenKind::EOF)
            invariant
                self.wf(),
                self.toks@ == toks,
                toks == old(self).tokens(),
                old(self).state().k <= self.state().k,
                p_program(toks, st0) == p_program_items(
                    toks,
                    self.state(),
                    stmts_view(statements@),
                ),
            decreases toks.len() - self.idx@,
        {
            proof {
                reveal(p_program_items);
            }
            let ghost st = self.state();
            let ghost acc = stmts_view(statements@);
            let stmt = self.parse_statement();
            let ghost st1 = self.state();
            match stmt {
                Some(x) => {
                    proof {
                        lemma_stmts_view_step(statements@.push(x), statements@.len() as int);
                        assert(statements@.push(x).subrange(0, statements@.len() as int)
                            =~= statements@);
                        assert(statements@.push(x).subrange(0, statements@.len() as int + 1)
                            =~= statements@.push(x));
                    }
                    statements.push(x);
                },
                None => {},
            }
            self.next_token();
        }
        Some(Program { statements })
    }

    #[verifier::spinoff_prover]
    fn parse_statement(&mut self) -> (r: Option<StatementNode>)
        requires
            old(self).wf(),
        ensures
            final(self).wf(),
            final(self).tokens() == old(self).tokens(),
            old(self).state().k <= final(self).state().k,
            (opt_stmt_view(&r), final(self).state()) == p_statement(
                old(self).tokens(),
                old(self).state(),
            ),
        decreases old(self).tokens().len() - old(self).state().k, 13int,
    {
        proof {
            reveal(p_statement);
        }
        match self.cur_token.kind {
            TokenKind::Let => self.parse_let_statement(),
            TokenKind::Return => self.parse_return_statement(),
            _ => self.parse_expression_statement(),
        }
    }

    #[verifier::spinoff_prover]
    fn parse_let_statement(&mut self) -> (r: Option<StatementNode>)
        requires
            old(self).wf(),
        ensures
            final(self).wf(),
            final(self).tokens() == old(self).tokens(),
            old(self).state().k <= final(self).state().k,
            (opt_stmt_view(&r), final(self).state()) == p_let(
                old(self).tokens(),
                old(self).state(),
            ),
        decreases old(self).tokens().len() - old(self).state().k, 12int,
    {
        proof {
            reveal(p_let);
        }
        let token = self.cur_token.duplicate();
        if !self.expect_peek(TokenKind::Ident) {
            return None;
        }
        let name = Identifier {
            token: self.cur_token.duplicate(),
            value: self.cur_token.literal.clone(),
        };
        if !self.expect_peek(TokenKind::Assign) {
            return None;
        }
        self.next_token();
        let value = self.parse_expression(PrecedenceLevel::Lowest);
        if self.peek_token_is(TokenKind::Semicolon) {
            self.next_token();
        }
        Some(StatementNode::Let(LetStatement { token, name, value }))
    }

    #[verifier::spinoff_prover]
    fn parse_return_statement(&mut self) -> (r: Option<StatementNode>)
        requires
            old(self).wf(),
        ensures
            final(self).wf(),
            final(self).tokens() == old(self).tokens(),
            old(self).state().k <= final(self).state().k,
            (opt_stmt_view(&r), final(self).state()) == p_return(
                old(self).tokens(),
                old(self).state(),
            ),
        decreases old(self).tokens().len() - old(self).state().k, 12int,
    {
        proof {
            reveal(p_return);
        }
        let token = self.cur_token.duplicate();
        if self.peek_token_is(TokenKind::Semicolon) || self.peek_token_is(TokenKind::EOF) {
            if self.peek_token_is(TokenKind::Semicolon) {
                self.next_token();
            }
            return Some(StatementNode::Return(ReturnStatement { token, return_value: None }));
        }
        self.next_token();
        let return_value = self.parse_expression(PrecedenceLevel::Lowest);
        if self.peek_token_is(TokenKind::Semicolon) {
            self.next_token();
        }
        Some(StatementNode::Return(ReturnStatement { token, return_value }))
    }

    #[verifier::spinoff_prover]
    fn parse_expression_statement(&mut self) -> (r: Option<StatementNode>)
        requires
            old(self).wf(),
        ensures
            final(self).wf(),
            final(self).tokens() == old(self).tokens(),
            old(self).state().k <= final(self).state().k,
            (opt_stmt_view(&r), final(self).state()) == p_expression_statement(
                old(self).tokens(),
                old(self).state(),
            ),
        decreases old(self).tokens().len() - old(self).state().k, 12int,
    {
        proof {
            reveal(p_expression_statement);
        }
        let token = self.cur_token.duplicate();
        let expression = self.parse_expression(PrecedenceLevel::Lowest);
        if self.peek_token_is(TokenKind::Semicolon) {
            self.next_token();
        }
        Some(StatementNode::Expression(ExpressionStatement { token, expression }))
    }

    #[verifier::spinoff_prover]
    fn parse_expression(&mut self, precedence: PrecedenceLevel) -> (r: Option<ExpressionNode>)
        requires
            old(self).wf(),
        ensures
            final(self).wf(),
            final(self).tokens() == old(self).tokens(),
            old(self).state().k <= final(self).state().k,
            (opt_expr_view(&r), final(self).state()) == p_expression(
                old(self).tokens(),
                old(self).state(),
                precedence,
            ),
        decreases old(self).tokens().len() - old(self).state().k, 11int,
    {
        proof {
            reveal(p_infix_loop);
            reveal(p_expression);
        }
        let ghost toks = self.toks@;
        let ghost st0 = self.state();
        let rule = prefix_rule(self.cur_token.kind);
        let first = match rule {
            None => {
                self.no_prefix_parse_fn_error(self.cur_token.kind);
                return None;
            },
            Some(PrefixRule::Identifier) => self.parse_identifier(),
            Some(PrefixRule::Integer) => self.parse_integer_literal(),
            Some(PrefixRule::Operator) => self.parse_prefix_expression(),
            Some(PrefixRule::Boolean) => self.parse_boolean(),
            Some(PrefixRule::Grouped) => self.parse_grouped_expression(),
            Some(PrefixRule::If) => self.parse_if_expression(),
            Some(PrefixRule::Function) => self.parse_function_literal(),
        };
        let mut left = match first {
            None => return None,
            Some(e) => e,
        };
        loop
            invariant
                self.wf(),
                self.toks@ == toks,
                toks == old(self).tokens(),
                old(self).state().k <= self.state().k,
                st0 == old(self).state(),
                st0.k <= self.state().k,
                p_expression(toks, st0, precedence) == p_infix_loop(
                    toks,
                    self.state(),
                    precedence,
                    expr_view(&left),
                ),
            decreases toks.len() - self.idx@,
        {
            proof {
                reveal(p_infix_loop);
            }
            if self.peek_token_is(TokenKind::Semicolon) || precedence.rank()
                >= self.peek_precedence().rank() {
                return Some(left);
            }
            let next = match infix_rule(self.peek_token.kind) {
                None => {
                    return Some(left);
                },
                Some(InfixRule::Operator) => self.parse_infix_expression(left),
                Some(InfixRule::Call) => self.parse_call_expression(left),
            };
            match next {
                None => return None,
                Some(e) => {
                    left = e;
                },
            }
        }
    }

    #[verifier::spinoff_prover]
    fn parse_identifier(&mut self) -> (r: Option<ExpressionNode>)
        requires
            old(self).wf(),
            spec_prefix_rule(old(self).cur_token.kind) == Some(PrefixRule::Identifier),
        ensures
            final(self).wf(),
            final(self).tokens() == old(self).tokens(),
            old(self).state().k <= final(self).state().k,
            (opt_expr_view(&r), final(self).state()) == p_prefix(
                old(self).tokens(),
                old(self).state(),
            ),
    {
        proof {
            reveal(p_prefix);
        }
        Some(
            ExpressionNode::IdentifierNode(
                Identifier {
                    token: self.cur_token.duplicate(),
                    value: self.cur_token.literal.clone(),
                },
            ),
        )
    }

    #[verifier::spinoff_prover]
    fn parse_integer_literal(&mut self) -> (r: Option<ExpressionNode>)
        requires
            old(self).wf(),
            spec_prefix_rule(old(self).cur_token.kind) == Some(PrefixRule::Integer),
        ensures
            final(self).wf(),
            final(self).tokens() == old(self).tokens(),
            old(self).state().k <= final(self).state().k,
            (opt_expr_view(&r), final(self).state()) == p_prefix(
                old(self).tokens(),
                old(self).state(),
            ),
    {
        proof {
            reveal(p_prefix);
        }
        match literal_to_i64(&self.cur_token.literal) {
            Some(value) => Some(
                ExpressionNode::Integer(IntegerLiteral { token: self.cur_token.duplicate(), value }),
            ),
            None => {
                let mut msg = String::from_str("could not parse '");
                msg.append(self.cur_token.literal.as_str());
                msg.append("' as integer");
                self.push_error(msg);
                None
            },
        }
    }

    #[verifier::spinoff_prover]
    fn parse_prefix_expression(&mut self) -> (r: Option<ExpressionNode>)
        requires
            old(self).wf(),
            spec_prefix_rule(old(self).cur_token.kind) == Some(PrefixRule::Operator),
        ensures
            final(self).wf(),
            final(self).tokens() == old(self).tokens(),
            old(self).state().k <= final(self).state().k,
            (opt_expr_view(&r), final(self).state()) == p_prefix(
                old(self).tokens(),
                old(self).state(),
            ),
        decreases old(self).tokens().len() - old(self).state().k, 10int,
    {
        proof {
            reveal(p_prefix);
        }
        let token = self.cur_token.duplicate();
        let operator = self.cur_token.literal.clone();
        self.next_token();
        match self.parse_expression(PrecedenceLevel::Prefix) {
            Some(right) => Some(
                ExpressionNode::Prefix(PrefixExpression { token, operator, right: Box::new(right) }),
            ),
            None => None,
        }
    }

    #[verifier::spinoff_prover]
    fn parse_boolean(&mut self) -> (r: Option<ExpressionNode>)
        requires
            old(self).wf(),
            spec_prefix_rule(old(self).cur_token.kind) == Some(PrefixRule::Boolean),
        ensures
            final(self).wf(),
            final(self).tokens() == old(self).tokens(),
            old(self).state().k <= final(self).state().k,
            (opt_expr_view(&r), final(self).state()) == p_prefix(
                old(self).tokens(),
                old(self).state(),
            ),
    {
        proof {
            reveal(p_prefix);
        }
        Some(
            ExpressionNode::BooleanNode(
                Boolean {
                    token: self.cur_token.duplicate(),
                    value: self.cur_token_is(TokenKind::True),
                },
            ),
        )
    }

    #[verifier::spinoff_prover]
    fn parse_grouped_expression(&mut self) -> (r: Option<ExpressionNode>)
        requires
            old(self).wf(),
            spec_prefix_rule(old(self).cur_token.kind) == Some(PrefixRule::Grouped),
        ensures
            final(self).wf(),
            final(self).tokens() == old(self).tokens(),
            old(self).state().k <= final(self).state().k,
            (opt_expr_view(&r), final(self).state()) == p_prefix(
                old(self).tokens(),
                old(self).state(),
            ),
        decreases old(self).tokens().len() - old(self).state().k, 10int,
    {
        proof {
            reveal(p_prefix);
        }
        self.next_token();
        let exp = self.parse_expression(PrecedenceLevel::Lowest);
        if !self.expect_peek(TokenKind::RParen) {
            return None;
        }
        exp
    }

    #[verifier::spinoff_prover]
    fn parse_if_expression(&mut self) -> (r: Option<ExpressionNode>)
        requires
            old(self).wf(),
            spec_prefix_rule(old(self).cur_token.kind) == Some(PrefixRule::If),
        ensures
            final(self).wf(),
            final(self).tokens() == old(self).tokens(),
            old(self).state().k <= final(self).state().k,
            (opt_expr_view(&r), final(self).state()) == p_prefix(
                old(self).tokens(),
                old(self).state(),
            ),
        decreases old(self).tokens().len() - old(self).state().k, 9int,
    {
        proof {
            reveal(p_prefix);
            reveal(p_if);
        }
        let ghost toks = self.toks@;
        let ghost st0 = self.state();
        let token = self.cur_token.duplicate();
        if !self.expect_peek(TokenKind::LParen) {
            return None;
        }
        self.next_token();
        let condition = match self.parse_expression(PrecedenceLevel::Lowest) {
            Some(c) => c,
            None => return None,
        };
        if !self.expect_peek(TokenKind::RParen) {
            return None;
        }
        if !self.expect_peek(TokenKind::LBrace) {
            return None;
        }
        let consequence = self.parse_block_statement();
        if !self.cur_token_is(TokenKind::RBrace) {
            return None;
        }
        let mut alternative = None;
        if self.peek_token_is(TokenKind::Else) {
            self.next_token();
            if !self.expect_peek(TokenKind::LBrace) {
                return None;
            }
            let block = self.parse_block_statement();
            if !self.cur_token_is(TokenKind::RBrace) {
                return None;
            }
            alternative = Some(block);
        }
        Some(
            ExpressionNode::IfExpressionNode(
                IfExpression { token, condition: Box::new(condition), consequence, alternative },
            ),
        )
    }

    #[verifier::spinoff_prover]
    fn parse_block_statement(&mut self) -> (b: BlockStatement)
        requires
            old(self).wf(),
        ensures
            final(self).wf(),
            final(self).tokens() == old(self).tokens(),
            old(self).state().k <= final(self).state().k,
            (block_view(&b), final(self).state()) == p_block(old(self).tokens(), old(self).state()),
        decreases old(self).tokens().len() - old(self).state().k, 15int,
    {
        proof {
            reveal(p_block_items);
            reveal(p_block);
        }
        let ghost toks = self.toks@;
        let ghost st0 = self.state();
        let token = self.cur_token.duplicate();
        self.next_token();
        let mut statements: Vec<StatementNode> = Vec::new();
        while !self.cur_token_is(TokenKind::RBrace) && !self.cur_token_is(TokenKind::EOF)
            invariant
                self.wf(),
                self.toks@ == toks,
                toks == old(self).tokens(),
                old(self).state().k <= self.state().k,
                st0.k <= self.state().k,
                p_block_items(toks, adv(toks, st0), Seq::empty()) == p_block_items(
                    toks,
                    self.state(),
                    stmts_view(statements@),
                ),
            decreases toks.len() - self.idx@,
        {
            proof {
                reveal(p_block_items);
            }
            let stmt = self.parse_statement();
            match stmt {
                Some(x) => {
                    proof {
                        lemma_stmts_view_step(statements@.push(x), statements@.len() as int);
                        assert(statements@.push(x).subrange(0, statements@.len() as int)
                            =~= statements@);
                        assert(statements@.push(x).subrange(0, statements@.len() as int + 1)
                            =~= statements@.push(x));
                    }
                    statements.push(x);
                },
                None => {},
            }
            self.next_token();
        }
        if self.cur_token_is(TokenKind::EOF) {
            self.expected_error(TokenKind::RBrace, TokenKind::EOF);
        }
        BlockStatement { token, statements }
    }

    #[verifier::spinoff_prover]
    fn parse_function_literal(&mut self) -> (r: Option<ExpressionNode>)
        requires
            old(self).wf(),
            spec_prefix_rule(old(self).cur_token.kind) == Some(PrefixRule::Function),
        ensures
            final(self).wf(),
            final(self).tokens() == old(self).tokens(),
            old(self).state().k <= final(self).state().k,
            (opt_expr_view(&r), final(self).state()) == p_prefix(
                old(self).tokens(),
                old(self).state(),
            ),
        decreases old(self).tokens().len() - old(self).state().k, 9int,
    {
        proof {
            reveal(p_prefix);
            reveal(p_function);
        }
        let token = self.cur_token.duplicate();
        if !self.expect_peek(TokenKind::LParen) {
            return None;
        }
        let parameters = match self.parse_function_parameters() {
            Some(p) => p,
            None => return None,
        };
        if !self.expect_peek(TokenKind::LBrace) {
            return None;
        }
        let body = self.parse_block_statement();
        if !self.cur_token_is(TokenKind::RBrace) {
            return None;
        }
        Some(ExpressionNode::Function(FunctionLiteral { token, parameters, body }))
    }

    #[verifier::spinoff_prover]
    fn parse_function_parameters(&mut self) -> (r: Option<Vec<Identifier>>)
        requires
            old(self).wf(),
        ensures
            final(self).wf(),
            final(self).tokens() == old(self).tokens(),
            old(self).state().k <= final(self).state().k,
            p_parameters(old(self).tokens(), old(self).state()) == (
                match r {
                    Some(v) => Some(idents_view(v@)),
                    None => None::<Seq<crate::ast::SpecIdent>>,
                },
                final(self).state(),
            ),
    {
        proof {
            reveal(p_parameters_rest);
        }
        let ghost toks = self.toks@;
        let mut identifiers: Vec<Identifier> = Vec::new();
        if self.peek_token_is(TokenKind::RParen) {
            self.next_token();
            assert(idents_view(identifiers@) =~= Seq::empty());
            return Some(identifiers);
        }
        if !self.expect_peek(TokenKind::Ident) {
            return None;
        }
        let ident = Identifier {
            token: self.cur_token.duplicate(),
            value: self.cur_token.literal.clone(),
        };
        identifiers.push(ident);
        let ghost st1 = self.state();
        assert(idents_view(identifiers@) =~= seq![ident_of(cur(toks, st1))]);
        while self.peek_token_is(TokenKind::Comma)
            invariant
                self.wf(),
                self.toks@ == toks,
                toks == old(self).tokens(),
                old(self).state().k <= self.state().k,
                st1.k <= self.state().k,
                p_parameters(toks, old(self).state()) == p_parameters_rest(
                    toks,
                    st1,
                    seq![ident_of(cur(toks, st1))],
                ),
                p_parameters_rest(toks, st1, seq![ident_of(cur(toks, st1))]) == p_parameters_rest(
                    toks,
                    self.state(),
                    idents_view(identifiers@),
                ),
            decreases toks.len() - self.idx@,
        {
            proof {
                reveal(p_parameters_rest);
            }
            self.next_token();
            if !self.expect_peek(TokenKind::Ident) {
                return None;
            }
            let ident = Identifier {
                token: self.cur_token.duplicate(),
                value: self.cur_token.literal.clone(),
            };
            let ghost before = idents_view(identifiers@);
            identifiers.push(ident);
            assert(idents_view(identifiers@) =~= before.push(ident_of(cur(toks, self.state()))));
        }
        if !self.expect_peek(TokenKind::RParen) {
            return None;
        }
        Some(identifiers)
    }

    #[verifier::spinoff_prover]
    fn parse_infix_expression(&mut self, left: ExpressionNode) -> (r: Option<ExpressionNode>)
        requires
            old(self).wf(),
            spec_infix_rule(old(self).peek_token.kind) == Some(InfixRule::Operator),
        ensures
            final(self).wf(),
            final(self).tokens() == old(self).tokens(),
            old(self).state().k < final(self).state().k,
            (opt_expr_view(&r), final(self).state()) == p_infix(
                old(self).tokens(),
                old(self).state(),
                expr_view(&left),
            ),
        decreases old(self).tokens().len() - old(self).state().k, 4int,
    {
        proof {
            reveal(p_infix);
        }
        self.next_token();
        let token = self.cur_token.duplicate();
        let operator = self.cur_token.literal.clone();
        let precedence = self.cur_precedence();
        self.next_token();
        match self.parse_expression(precedence) {
            Some(right) => Some(
                ExpressionNode::Infix(
                    InfixExpression {
                        token,
                        left: Box::new(left),
                        operator,
                        right: Box::new(right),
                    },
                ),
            ),
            None => None,
        }
    }

    #[verifier::spinoff_prover]
    fn parse_call_expression(&mut self, function: ExpressionNode) -> (r: Option<ExpressionNode>)
        requires
            old(self).wf(),
            spec_infix_rule(old(self).peek_token.kind) == Some(InfixRule::Call),
        ensures
            final(self).wf(),
            final(self).tokens() == old(self).tokens(),
            old(self).state().k < final(self).state().k,
            (opt_expr_view(&r), final(self).state()) == p_call(
                old(self).tokens(),
                old(self).state(),
                expr_view(&function),
            ),
        decreases old(self).tokens().len() - old(self).state().k, 4int,
    {
        proof {
            reveal(p_call);
        }
        self.next_token();
        let token = self.cur_token.duplicate();
        match self.parse_call_arguments() {
            Some(arguments) => Some(
                ExpressionNode::Call(
                    CallExpression { token, function: Box::new(function), arguments },
                ),
            ),
            None => None,
        }
    }

    #[verifier::spinoff_prover]
    fn parse_call_arguments(&mut self) -> (r: Option<Vec<ExpressionNode>>)
        requires
            old(self).wf(),
        ensures
            final(self).wf(),
            final(self).tokens() == old(self).tokens(),
            old(self).state().k <= final(self).state().k,
            p_call_arguments(old(self).tokens(), old(self).state()) == (
                match r {
                    Some(v) => Some(exprs_view(v@)),
                    None => None::<Seq<SpecExpr>>,
                },
                final(self).state(),
            ),
        decreases old(self).tokens().len() - old(self).state().k, 12int,
    {
        proof {
            reveal(p_arguments_rest);
            reveal(p_call_arguments);
        }
        let ghost toks = self.toks@;
        let ghost st0 = self.state();
        let mut args: Vec<ExpressionNode> = Vec::new();
        if self.peek_token_is(TokenKind::RParen) {
            self.next_token();
            assert(exprs_view(args@) =~= Seq::empty());
            return Some(args);
        }
        self.next_token();
        let first = match self.parse_expression(PrecedenceLevel::Lowest) {
            Some(e) => e,
            None => return None,
        };
        let ghost st1 = self.state();
        let ghost first_view = expr_view(&first);
        args.push(first);
        proof {
            lemma_exprs_view_step(args@, 0);
            assert(args@.subrange(0, 0) =~= Seq::<ExpressionNode>::empty());
            assert(args@.subrange(0, 1) =~= args@);
            assert(exprs_view(Seq::<ExpressionNode>::empty()) =~= Seq::empty());
            assert(exprs_view(args@) =~= seq![first_view]);
        }
        while self.peek_token_is(TokenKind::Comma)
            invariant
                self.wf(),
                self.toks@ == toks,
                toks == old(self).tokens(),
                old(self).state().k <= self.state().k,
                st0.k <= st1.k <= self.state().k,
                p_call_arguments(toks, old(self).state()) == p_arguments_rest(
                    toks,
                    st1,
                    seq![first_view],
                ),
                p_arguments_rest(toks, st1, seq![first_view]) == p_arguments_rest(
                    toks,
                    self.state(),
                    exprs_view(args@),
                ),
            decreases toks.len() - self.idx@,
        {
            proof {
                reveal(p_arguments_rest);
            }
            self.next_token();
            self.next_token();
            match self.parse_expression(PrecedenceLevel::Lowest) {
                Some(e) => {
                    proof {
                        lemma_exprs_view_step(args@.push(e), args@.len() as int);
                        assert(args@.push(e).subrange(0, args@.len() as int) =~= args@);
                        assert(args@.push(e).subrange(0, args@.len() as int + 1) =~= args@.push(e));
                    }
                    args.push(e);
                },
                None => return None,
            }
        }
        if !self.expect_peek(TokenKind::RParen) {
            return None;
        }
        Some(args)
    }
}

// ---------------------------------------------------------------------------
// Integer literals.

pub proof fn lemma_decimal_prefix(s: Seq<char>, j: int)
    requires
        all_digits(s),
        0 <= j <= s.len(),
    ensures
        0 <= decimal_value(s.subrange(0, j)) <= decimal_value(s),
    decreases s.len() - j,
{
    if j < s.len() {
        lemma_decimal_prefix(s, j + 1);
        assert(s.subrange(0, j + 1).drop_last() =~= s.subrange(0, j));
        lemma_decimal_nonneg(s.subrange(0, j));
    } else {
        assert(s.subrange(0, j) =~= s);
        lemma_decimal_nonneg(s);
    }
}

pub proof fn lemma_decimal_nonneg(s: Seq<char>)
    requires
        all_digits(s),
    ensures
        decimal_value(s) >= 0,
    decreases s.len(),
{
    if s.len() > 0 {
        assert(all_digits(s.drop_last()));
        lemma_decimal_nonneg(s.drop_last());
    }
}

/// The value of a decimal literal, or `None` where it is not a run of digits
/// or does not fit in an `i64`.
pub fn literal_to_i64(literal: &String) -> (r: Option<i64>)
    ensures
        r == literal_value(literal@),
{
    let s = literal.as_str();
    let n = s.unicode_len();
    if n == 0 {
        return None;
    }
    let mut value: i64 = 0;
    let mut i: usize = 0;
    while i < n
        invariant
            n == s@.len(),
            s@ == literal@,
            i <= n,
            all_digits(s@.subrange(0, i as int)),
            value as int == decimal_value(s@.subrange(0, i as int)),
        decreases n - i,
    {
        let c = s.get_char(i);
        if !('0' <= c && c <= '9') {
            return None;
        }
        proof {
            assert(s@.subrange(0, i + 1).drop_last() =~= s@.subrange(0, i as int));
            assert(all_digits(s@.subrange(0, i + 1)));
        }
        let d = (c as u32 - '0' as u32) as i64;
        let next = match value.checked_mul(10) {
            Some(v) => v.checked_add(d),
            None => None,
        };
        match next {
            Some(v) => {
                value = v;
            },
            None => {
                proof {
                    lemma_decimal_nonneg(s@.subrange(0, i as int));
                    if all_digits(s@) {
                        lemma_decimal_prefix(s@, i + 1);
                    }
                }
                return None;
            },
        }
        i = i + 1;
    }
    assert(s@.subrange(0, n as int) =~= s@);
    Some(value)
}

} // verus!
