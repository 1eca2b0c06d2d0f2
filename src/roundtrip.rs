//! Reading back the canonical text of a program.
use vstd::prelude::*;
use crate::ast::{print_expr, print_stmt, print_stmts, SpecExpr, SpecStmt};
use crate::grammar::{
    ident_of, literal_value, p_expression, p_expression_statement, p_infix, p_infix_loop, p_let,
    p_prefix, p_program, p_program_items, p_return, p_statement, skip_semicolon, PState,
};
use crate::lexer::{
    digits_end, end_token, lemma_end_repeats, lemma_keyword_kinds, lemma_lex_at, letters_end,
    lex_at, single_char_kind, single_token, skip_spaces, spec_is_digit, spec_is_letter,
    spec_is_space, tokens_from, tokens_of,
};
use crate::token::{keyword_kind, SpecToken, TokenKind};

verus! {

pub open spec fn is_binary_operator(c: char) -> bool {
    c == '+' || c == '-' || c == '*' || c == '/' || c == '<' || c == '>'
}

/// An expression built from identifiers, integer and boolean literals and the
/// prefix and infix operators, each node holding the token the parser gives it.
pub open spec fn operator_expr(e: SpecExpr) -> bool
    decreases e,
{
    match e {
        SpecExpr::Ident(i) => {
            &&& i.token == (SpecToken { kind: TokenKind::Ident, literal: i.value })
            &&& i.value.len() > 0
            &&& forall|j: int| 0 <= j < i.value.len() ==> spec_is_letter(#[trigger] i.value[j])
            &&& keyword_kind(i.value) == TokenKind::Ident
        },
        SpecExpr::Int { token, value } => {
            &&& token.kind == TokenKind::Int
            &&& token.literal.len() > 0
            &&& forall|j: int|
                0 <= j < token.literal.len() ==> spec_is_digit(#[trigger] token.literal[j])
            &&& literal_value(token.literal) == Some(value)
        },
        SpecExpr::Bool { token, value } => token == (if value {
            SpecToken { kind: TokenKind::True, literal: "true"@ }
        } else {
            SpecToken { kind: TokenKind::False, literal: "false"@ }
        }),
        SpecExpr::Prefix { token, operator, right } => {
            &&& operator.len() == 1
            &&& (operator[0] == '!' || operator[0] == '-')
            &&& token == single_token(operator[0])
            &&& operator_expr(*right)
        },
        SpecExpr::Infix { token, left, operator, right } => {
            &&& operator.len() == 1
            &&& is_binary_operator(operator[0])
            &&& token == single_token(operator[0])
            &&& operator_expr(*left)
            &&& operator_expr(*right)
        },
        _ => false,
    }
}

/// The tokens of the canonical text of such an expression.
pub open spec fn expr_tokens(e: SpecExpr) -> Seq<SpecToken>
    decreases e,
{
    match e {
        SpecExpr::Ident(i) => seq![i.token],
        SpecExpr::Int { token, .. } => seq![token],
        SpecExpr::Bool { token, .. } => seq![token],
        SpecExpr::Prefix { token, right, .. } => seq![single_token('('), token] + expr_tokens(
            *right,
        ) + seq![single_token(')')],
        SpecExpr::Infix { token, left, right, .. } => seq![single_token('(')] + expr_tokens(*left)
            + seq![token] + expr_tokens(*right) + seq![single_token(')')],
        _ => Seq::empty(),
    }
}

proof fn lemma_space_step(s: Seq<char>, q: int)
    requires
        0 <= q < s.len(),
        spec_is_space(s[q]),
    ensures
        tokens_from(s, q) == tokens_from(s, q + 1),
{
    reveal(tokens_from);
    reveal(lex_at);
    assert(skip_spaces(s, q) == skip_spaces(s, q + 1));
    assert(lex_at(s, q) == lex_at(s, q + 1));
    lemma_lex_at(s, q + 1);
}

proof fn lemma_char_step(s: Seq<char>, q: int)
    requires
        0 <= q < s.len(),
        single_char_kind(s[q]) is Some,
    ensures
        tokens_from(s, q) == seq![single_token(s[q])] + tokens_from(s, q + 1),
{
    reveal(tokens_from);
    reveal(lex_at);
    assert(skip_spaces(s, q) == q);
}

proof fn lemma_word_step(s: Seq<char>, q: int, w: Seq<char>)
    requires
        0 <= q,
        q + w.len() <= s.len(),
        w.len() > 0,
        s.subrange(q, q + w.len()) == w,
        forall|j: int| 0 <= j < w.len() ==> spec_is_letter(#[trigger] w[j]),
        q + w.len() < s.len() ==> !spec_is_letter(s[q + w.len()]),
    ensures
        tokens_from(s, q) == seq![SpecToken { kind: keyword_kind(w), literal: w }] + tokens_from(
            s,
            q + w.len(),
        ),
{
    reveal(tokens_from);
    reveal(lex_at);
    assert(s[q] == w[0]);
    assert(skip_spaces(s, q) == q);
    assert forall|j: int| q <= j < q + w.len() implies spec_is_letter(#[trigger] s[j]) by {
        assert(s[j] == s.subrange(q, q + w.len())[j - q]);
        assert(spec_is_letter(w[j - q]));
    }
    lemma_letters_span(s, q, q + w.len());
}

proof fn lemma_digit_step(s: Seq<char>, q: int, w: Seq<char>)
    requires
        0 <= q,
        q + w.len() <= s.len(),
        w.len() > 0,
        s.subrange(q, q + w.len()) == w,
        forall|j: int| 0 <= j < w.len() ==> spec_is_digit(#[trigger] w[j]),
        q + w.len() < s.len() ==> !spec_is_digit(s[q + w.len()]),
    ensures
        tokens_from(s, q) == seq![SpecToken { kind: TokenKind::Int, literal: w }] + tokens_from(
            s,
            q + w.len(),
        ),
{
    reveal(tokens_from);
    reveal(lex_at);
    assert(s[q] == w[0]);
    assert(skip_spaces(s, q) == q);
    assert forall|j: int| q <= j < q + w.len() implies spec_is_digit(#[trigger] s[j]) by {
        assert(s[j] == s.subrange(q, q + w.len())[j - q]);
        assert(spec_is_digit(w[j - q]));
    }
    lemma_digits_span(s, q, q + w.len());
}

proof fn lemma_digits_span(s: Seq<char>, p: int, e: int)
    requires
        0 <= p <= e <= s.len(),
        forall|j: int| p <= j < e ==> spec_is_digit(#[trigger] s[j]),
        e < s.len() ==> !spec_is_digit(s[e]),
    ensures
        digits_end(s, p) == e,
    decreases e - p,
{
    if p < e {
        lemma_digits_span(s, p + 1, e);
    }
}

proof fn lemma_letters_span(s: Seq<char>, p: int, e: int)
    requires
        0 <= p <= e <= s.len(),
        forall|j: int| p <= j < e ==> spec_is_letter(#[trigger] s[j]),
        e < s.len() ==> !spec_is_letter(s[e]),
    ensures
        letters_end(s, p) == e,
    decreases e - p,
{
    if p < e {
        lemma_letters_span(s, p + 1, e);
    }
}

/// The canonical text of such an expression, wherever it stands in a text and
/// when neither a letter nor a digit follows it, lexes to its tokens.
pub proof fn lemma_lex_expr(s: Seq<char>, p: int, e: SpecExpr)
    requires
        operator_expr(e),
        0 <= p,
        p + print_expr(e).len() <= s.len(),
        s.subrange(p, p + print_expr(e).len()) == print_expr(e),
        p + print_expr(e).len() < s.len() ==> !spec_is_letter(s[p + print_expr(e).len()])
            && !spec_is_digit(s[p + print_expr(e).len()]),
    ensures
        tokens_from(s, p) == expr_tokens(e) + tokens_from(s, p + print_expr(e).len()),
    decreases e,
{
    reveal_strlit("(");
    reveal_strlit(")");
    reveal_strlit(" ");
    reveal_strlit("true");
    reveal_strlit("false");
    let n: int = print_expr(e).len() as int;
    let x = print_expr(e);
    assert forall|i: int| 0 <= i < n implies s[p + i] == #[trigger] x[i] by {
        assert(s[p + i] == s.subrange(p, p + n)[i]);
    }
    match e {
        SpecExpr::Ident(i) => {
            lemma_word_step(s, p, i.value);
            assert(expr_tokens(e) == seq![i.token]);
        },
        SpecExpr::Int { token, .. } => {
            lemma_digit_step(s, p, token.literal);
        },
        SpecExpr::Bool { token, .. } => {
            lemma_keyword_kinds(token.literal);
            lemma_word_step(s, p, token.literal);
        },
        SpecExpr::Prefix { token, operator, right } => {
            let r = print_expr(*right);
            assert(x == "("@ + operator + r + ")"@);
            assert(x[0] == '(');
            assert(x[1] == operator[0]);
            assert(x[2 + r.len() as int] == ')');
            assert(s.subrange(p + 2, p + 2 + r.len()) =~= r) by {
                assert forall|j: int| 0 <= j < r.len() implies s.subrange(p + 2, p + 2 + r.len())[j]
                    == r[j] by {
                    assert(x[2 + j] == r[j]);
                }
            }
            lemma_char_step(s, p);
            lemma_char_step(s, p + 1);
            lemma_lex_expr(s, p + 2, *right);
            lemma_char_step(s, p + 2 + r.len());
            assert(single_token(s[p + 1]) == token);
            assert(tokens_from(s, p) =~= expr_tokens(e) + tokens_from(s, p + n));
        },
        SpecExpr::Infix { token, left, operator, right } => {
            let l = print_expr(*left);
            let r = print_expr(*right);
            let a: int = 1 + l.len() as int;
            let b: int = a + 3 + r.len() as int;
            assert(x == "("@ + l + " "@ + operator + " "@ + r + ")"@);
            assert(x[0] == '(');
            assert(x[a] == ' ');
            assert(x[a + 1] == operator[0]);
            assert(x[a + 2] == ' ');
            assert(x[b] == ')');
            assert(s.subrange(p + 1, p + 1 + l.len()) =~= l) by {
                assert forall|j: int| 0 <= j < l.len() implies s.subrange(p + 1, p + 1 + l.len())[j]
                    == l[j] by {
                    assert(x[1 + j] == l[j]);
                }
            }
            assert(s.subrange(p + a + 3, p + a + 3 + r.len()) =~= r) by {
                assert forall|j: int| 0 <= j < r.len() implies s.subrange(
                    p + a + 3,
                    p + a + 3 + r.len(),
                )[j] == r[j] by {
                    assert(x[a + 3 + j] == r[j]);
                }
            }
            lemma_char_step(s, p);
            lemma_lex_expr(s, p + 1, *left);
            lemma_space_step(s, p + a);
            lemma_char_step(s, p + a + 1);
            lemma_space_step(s, p + a + 2);
            lemma_lex_expr(s, p + a + 3, *right);
            lemma_char_step(s, p + b);
            assert(single_token(s[p + a + 1]) == token);
            assert(tokens_from(s, p) =~= expr_tokens(e) + tokens_from(s, p + n));
        },
        _ => {},
    }
}

proof fn lemma_first_token(e: SpecExpr)
    requires
        operator_expr(e),
    ensures
        expr_tokens(e).len() >= 1,
        expr_tokens(e)[0].kind == TokenKind::Ident || expr_tokens(e)[0].kind == TokenKind::Int
            || expr_tokens(e)[0].kind == TokenKind::True || expr_tokens(e)[0].kind
            == TokenKind::False || expr_tokens(e)[0] == single_token('('),
    decreases e,
{
    match e {
        SpecExpr::Prefix { right, .. } => {
            lemma_first_token(*right);
        },
        SpecExpr::Infix { left, right, .. } => {
            lemma_first_token(*left);
            lemma_first_token(*right);
        },
        _ => {},
    }
}

/// Where the tokens of such an expression stand at index `k` of a stream, with
/// at least one token after them, the prefix rule of its first token reads
/// exactly that expression and stops on its last token.
pub proof fn lemma_parse_expr(toks: Seq<SpecToken>, k: int, errs: Seq<Seq<char>>, e: SpecExpr)
    requires
        operator_expr(e),
        0 <= k,
        k + expr_tokens(e).len() < toks.len(),
        toks.subrange(k, k + expr_tokens(e).len()) == expr_tokens(e),
    ensures
        p_prefix(toks, PState { k, errs }) == (
            Some(e),
            PState { k: k + expr_tokens(e).len() - 1, errs },
        ),
    decreases e,
{
    reveal(p_prefix);
    reveal(p_expression);
    reveal(p_infix_loop);
    reveal(p_infix);
    lemma_first_token(e);
    let m = expr_tokens(e).len() as int;
    let x = expr_tokens(e);
    assert forall|i: int| 0 <= i < m implies toks[k + i] == #[trigger] x[i] by {
        assert(toks[k + i] == toks.subrange(k, k + m)[i]);
    }
    match e {
        SpecExpr::Ident(i) => {
            assert(toks[k] == i.token);
            assert(ident_of(i.token) == i);
        },
        SpecExpr::Int { token, .. } => {
            assert(toks[k] == token);
        },
        SpecExpr::Bool { token, value } => {
            assert(toks[k] == token);
        },
        SpecExpr::Prefix { token, operator, right } => {
            let r = expr_tokens(*right);
            let mr = r.len() as int;
            lemma_first_token(*right);
            assert(x == seq![single_token('('), token] + r + seq![single_token(')')]);
            assert(x[1] == token);
            assert(x[2 + mr] == single_token(')'));
            assert(toks[k] == single_token('('));
            assert(toks[k + 1] == token);
            assert(toks[k + 2 + mr] == single_token(')'));
            assert(toks.subrange(k + 2, k + 2 + mr) =~= r) by {
                assert forall|j: int| 0 <= j < mr implies toks.subrange(k + 2, k + 2 + mr)[j]
                    == r[j] by {
                    assert(x[2 + j] == r[j]);
                }
            }
            lemma_parse_expr(toks, k + 2, errs, *right);
            let inner = SpecExpr::Prefix { token, operator: token.literal, right };
            assert(token.literal =~= operator);
            let st_r = PState { k: k + 1 + mr, errs };
            assert(p_infix_loop(toks, st_r, crate::grammar::PrecedenceLevel::Prefix, *right) == (
                Some(*right),
                st_r,
            ));
            assert(p_expression(
                toks,
                PState { k: k + 2, errs },
                crate::grammar::PrecedenceLevel::Prefix,
            ) == (Some(*right), st_r));
            assert(p_prefix(toks, PState { k: k + 1, errs }) == (Some(e), st_r));
            assert(p_infix_loop(toks, st_r, crate::grammar::PrecedenceLevel::Lowest, e) == (
                Some(e),
                st_r,
            ));
            assert(p_expression(
                toks,
                PState { k: k + 1, errs },
                crate::grammar::PrecedenceLevel::Lowest,
            ) == (Some(e), st_r));
        },
        SpecExpr::Infix { token, left, operator, right } => {
            let l = expr_tokens(*left);
            let r = expr_tokens(*right);
            let ml = l.len() as int;
            let mr = r.len() as int;
            lemma_first_token(*left);
            lemma_first_token(*right);
            assert(x == seq![single_token('(')] + l + seq![token] + r + seq![single_token(')')]);
            assert(x[1 + ml] == token);
            assert(x[2 + ml + mr] == single_token(')'));
            assert(toks[k] == single_token('('));
            assert(toks[k + 1 + ml] == token);
            assert(toks[k + 2 + ml + mr] == single_token(')'));
            assert(toks.subrange(k + 1, k + 1 + ml) =~= l) by {
                assert forall|j: int| 0 <= j < ml implies toks.subrange(k + 1, k + 1 + ml)[j]
                    == l[j] by {
                    assert(x[1 + j] == l[j]);
                }
            }
            assert(toks.subrange(k + 2 + ml, k + 2 + ml + mr) =~= r) by {
                assert forall|j: int| 0 <= j < mr implies toks.subrange(
                    k + 2 + ml,
                    k + 2 + ml + mr,
                )[j] == r[j] by {
                    assert(x[2 + ml + j] == r[j]);
                }
            }
            lemma_parse_expr(toks, k + 1, errs, *left);
            lemma_parse_expr(toks, k + 2 + ml, errs, *right);
            assert(token.literal =~= operator);
            let st_l = PState { k: k + ml, errs };
            let st_r = PState { k: k + 1 + ml + mr, errs };
            let prec = crate::grammar::spec_precedence(token.kind);
            assert(p_infix_loop(toks, st_r, prec, *right) == (Some(*right), st_r));
            assert(p_expression(toks, PState { k: k + 2 + ml, errs }, prec) == (
                Some(*right),
                st_r,
            ));
            assert(p_infix(toks, st_l, *left) == (Some(e), st_r));
            assert(p_infix_loop(toks, st_r, crate::grammar::PrecedenceLevel::Lowest, e) == (
                Some(e),
                st_r,
            ));
            assert(p_infix_loop(toks, st_l, crate::grammar::PrecedenceLevel::Lowest, *left) == (
                Some(e),
                st_r,
            ));
            assert(p_expression(
                toks,
                PState { k: k + 1, errs },
                crate::grammar::PrecedenceLevel::Lowest,
            ) == (Some(e), st_r));
        },
        _ => {},
    }
}

/// A `let` or `return` statement whose expression is of the class above, with
/// the tokens the parser gives it.
pub open spec fn simple_stmt(s: SpecStmt) -> bool {
    match s {
        SpecStmt::Let { token, name, value } => {
            &&& token == (SpecToken { kind: TokenKind::Let, literal: "let"@ })
            &&& name.token == (SpecToken { kind: TokenKind::Ident, literal: name.value })
            &&& name.value.len() > 0
            &&& forall|j: int| 0 <= j < name.value.len() ==> spec_is_letter(#[trigger] name.value[j])
            &&& keyword_kind(name.value) == TokenKind::Ident
            &&& value is Some
            &&& operator_expr(value->0)
        },
        SpecStmt::Return { token, value } => {
            &&& token == (SpecToken { kind: TokenKind::Return, literal: "return"@ })
            &&& value is Some
            &&& operator_expr(value->0)
        },
        _ => false,
    }
}

pub open spec fn stmt_tokens(s: SpecStmt) -> Seq<SpecToken> {
    match s {
        SpecStmt::Let { token, name, value } => seq![token, name.token, single_token('=')]
            + expr_tokens(value->0) + seq![single_token(';')],
        SpecStmt::Return { token, value } => seq![token] + expr_tokens(value->0) + seq![
            single_token(';'),
        ],
        _ => Seq::empty(),
    }
}

pub open spec fn stmts_tokens(v: Seq<SpecStmt>) -> Seq<SpecToken>
    decreases v.len(),
{
    if v.len() == 0 {
        Seq::empty()
    } else {
        stmt_tokens(v[0]) + stmts_tokens(v.drop_first())
    }
}

proof fn lemma_print_stmts_first(v: Seq<SpecStmt>)
    requires
        v.len() > 0,
    ensures
        print_stmts(v) == print_stmt(v[0]) + print_stmts(v.drop_first()),
    decreases v.len(),
{
    if v.len() == 1 {
        assert(v.drop_first() =~= Seq::<SpecStmt>::empty());
        assert(v.drop_last() =~= Seq::<SpecStmt>::empty());
        assert(print_stmts(v.drop_last()) =~= Seq::<char>::empty());
    } else {
        lemma_print_stmts_first(v.drop_last());
        assert(v.drop_last().drop_first() =~= v.drop_first().drop_last());
        assert(v.drop_first().last() == v.last());
        assert(v.drop_last()[0] == v[0]);
    }
}

proof fn lemma_lex_stmt(s: Seq<char>, p: int, st: SpecStmt)
    requires
        simple_stmt(st),
        0 <= p,
        p + print_stmt(st).len() <= s.len(),
        s.subrange(p, p + print_stmt(st).len()) == print_stmt(st),
    ensures
        tokens_from(s, p) == stmt_tokens(st) + tokens_from(s, p + print_stmt(st).len()),
{
    reveal_strlit("let");
    reveal_strlit("return");
    reveal_strlit(" ");
    reveal_strlit(" = ");
    reveal_strlit(";");
    let x = print_stmt(st);
    let n: int = x.len() as int;
    assert forall|i: int| 0 <= i < n implies s[p + i] == #[trigger] x[i] by {
        assert(s[p + i] == s.subrange(p, p + n)[i]);
    }
    lemma_keyword_kinds(Seq::empty());
    match st {
        SpecStmt::Let { token, name, value } => {
            let w = name.value;
            let ex = print_expr(value->0);
            let a: int = 4 + w.len() as int;
            assert(x == "let"@ + " "@ + w + " = "@ + ex + ";"@);
            assert(s.subrange(p, p + 3) =~= "let"@) by {
                assert forall|j: int| 0 <= j < 3 implies s.subrange(p, p + 3)[j] == "let"@[j] by {
                    assert(x[j] == "let"@[j]);
                }
            }
            assert(x[3] == ' ');
            assert(s.subrange(p + 4, p + 4 + w.len()) =~= w) by {
                assert forall|j: int| 0 <= j < w.len() implies s.subrange(p + 4, p + 4 + w.len())[j]
                    == w[j] by {
                    assert(x[4 + j] == w[j]);
                }
            }
            assert(x[a] == ' ');
            assert(x[a + 1] == '=');
            assert(x[a + 2] == ' ');
            assert(s.subrange(p + a + 3, p + a + 3 + ex.len()) =~= ex) by {
                assert forall|j: int| 0 <= j < ex.len() implies s.subrange(
                    p + a + 3,
                    p + a + 3 + ex.len(),
                )[j] == ex[j] by {
                    assert(x[a + 3 + j] == ex[j]);
                }
            }
            assert(x[a + 3 + ex.len() as int] == ';');
            lemma_word_step(s, p, "let"@);
            lemma_space_step(s, p + 3);
            lemma_word_step(s, p + 4, w);
            lemma_space_step(s, p + a);
            lemma_char_step(s, p + a + 1);
            lemma_space_step(s, p + a + 2);
            lemma_lex_expr(s, p + a + 3, value->0);
            lemma_char_step(s, p + a + 3 + ex.len());
            assert(tokens_from(s, p) =~= stmt_tokens(st) + tokens_from(s, p + n));
        },
        SpecStmt::Return { token, value } => {
            let ex = print_expr(value->0);
            assert(x == "return"@ + " "@ + ex + ";"@);
            assert(s.subrange(p, p + 6) =~= "return"@) by {
                assert forall|j: int| 0 <= j < 6 implies s.subrange(p, p + 6)[j] == "return"@[j] by {
                    assert(x[j] == "return"@[j]);
                }
            }
            assert(x[6] == ' ');
            assert(s.subrange(p + 7, p + 7 + ex.len()) =~= ex) by {
                assert forall|j: int| 0 <= j < ex.len() implies s.subrange(p + 7, p + 7 + ex.len())[j]
                    == ex[j] by {
                    assert(x[7 + j] == ex[j]);
                }
            }
            assert(x[7 + ex.len() as int] == ';');
            lemma_word_step(s, p, "return"@);
            lemma_space_step(s, p + 6);
            lemma_lex_expr(s, p + 7, value->0);
            lemma_char_step(s, p + 7 + ex.len());
            assert(tokens_from(s, p) =~= stmt_tokens(st) + tokens_from(s, p + n));
        },
        _ => {},
    }
}

proof fn lemma_lex_stmts(s: Seq<char>, p: int, v: Seq<SpecStmt>)
    requires
        forall|i: int| 0 <= i < v.len() ==> simple_stmt(#[trigger] v[i]),
        0 <= p,
        p + print_stmts(v).len() <= s.len(),
        s.subrange(p, p + print_stmts(v).len()) == print_stmts(v),
    ensures
        tokens_from(s, p) == stmts_tokens(v) + tokens_from(s, p + print_stmts(v).len()),
    decreases v.len(),
{
    if v.len() == 0 {
        assert(stmts_tokens(v) =~= Seq::<SpecToken>::empty());
        assert(print_stmts(v) =~= Seq::<char>::empty());
    } else {
        lemma_print_stmts_first(v);
        let a = print_stmt(v[0]);
        let b = print_stmts(v.drop_first());
        let x = print_stmts(v);
        assert(x == a + b);
        assert forall|i: int| 0 <= i < x.len() implies s[p + i] == #[trigger] x[i] by {
            assert(s[p + i] == s.subrange(p, p + x.len())[i]);
        }
        assert(s.subrange(p, p + a.len()) =~= a) by {
            assert forall|j: int| 0 <= j < a.len() implies s.subrange(p, p + a.len())[j] == a[j] by {
                assert(x[j] == a[j]);
            }
        }
        assert(s.subrange(p + a.len(), p + a.len() + b.len()) =~= b) by {
            assert forall|j: int| 0 <= j < b.len() implies s.subrange(
                p + a.len(),
                p + a.len() + b.len(),
            )[j] == b[j] by {
                assert(x[a.len() + j] == b[j]);
            }
        }
        assert(simple_stmt(v[0]));
        lemma_lex_stmt(s, p, v[0]);
        assert forall|i: int| 0 <= i < v.drop_first().len() implies simple_stmt(
            #[trigger] v.drop_first()[i],
        ) by {
            assert(v.drop_first()[i] == v[i + 1]);
        }
        lemma_lex_stmts(s, p + a.len(), v.drop_first());
        assert(tokens_from(s, p) =~= stmts_tokens(v) + tokens_from(s, p + x.len()));
    }
}

/// Where the tokens of such a statement stand at index `k`, with at least one
/// token after them, the statement rule reads exactly that statement and
/// stops on its last token.
proof fn lemma_parse_stmt(toks: Seq<SpecToken>, k: int, errs: Seq<Seq<char>>, st: SpecStmt)
    requires
        simple_stmt(st),
        0 <= k,
        k + stmt_tokens(st).len() < toks.len(),
        toks.subrange(k, k + stmt_tokens(st).len()) == stmt_tokens(st),
    ensures
        p_statement(toks, PState { k, errs }) == (
            Some(st),
            PState { k: k + stmt_tokens(st).len() - 1, errs },
        ),
{
    reveal(p_statement);
    reveal(p_let);
    reveal(p_return);
    reveal(p_expression);
    reveal(p_prefix);
    reveal(p_infix_loop);
    let x = stmt_tokens(st);
    let m = x.len() as int;
    assert forall|i: int| 0 <= i < m implies toks[k + i] == #[trigger] x[i] by {
        assert(toks[k + i] == toks.subrange(k, k + m)[i]);
    }
    match st {
        SpecStmt::Let { token, name, value } => {
            let e = value->0;
            let r = expr_tokens(e);
            let mr = r.len() as int;
            lemma_first_token(e);
            assert(x == seq![token, name.token, single_token('=')] + r + seq![single_token(';')]);
            assert(x[0] == token);
            assert(x[1] == name.token);
            assert(x[2] == single_token('='));
            assert(x[3 + mr] == single_token(';'));
            assert(toks.subrange(k + 3, k + 3 + mr) =~= r) by {
                assert forall|j: int| 0 <= j < mr implies toks.subrange(k + 3, k + 3 + mr)[j]
                    == r[j] by {
                    assert(x[3 + j] == r[j]);
                }
            }
            lemma_parse_expr(toks, k + 3, errs, e);
            assert(ident_of(name.token) == name);
            let st_e = PState { k: k + 2 + mr, errs };
            assert(p_infix_loop(toks, st_e, crate::grammar::PrecedenceLevel::Lowest, e) == (
                Some(e),
                st_e,
            ));
            assert(p_expression(
                toks,
                PState { k: k + 3, errs },
                crate::grammar::PrecedenceLevel::Lowest,
            ) == (Some(e), st_e));
            assert(skip_semicolon(toks, st_e) == PState { k: k + 3 + mr, errs });
            assert(p_let(toks, PState { k, errs }) == (
                Some(st),
                PState { k: k + 3 + mr, errs },
            ));
        },
        SpecStmt::Return { token, value } => {
            let e = value->0;
            let r = expr_tokens(e);
            let mr = r.len() as int;
            lemma_first_token(e);
            assert(x == seq![token] + r + seq![single_token(';')]);
            assert(x[0] == token);
            assert(x[1 + mr] == single_token(';'));
            assert(toks.subrange(k + 1, k + 1 + mr) =~= r) by {
                assert forall|j: int| 0 <= j < mr implies toks.subrange(k + 1, k + 1 + mr)[j]
                    == r[j] by {
                    assert(x[1 + j] == r[j]);
                }
            }
            lemma_parse_expr(toks, k + 1, errs, e);
            let st_e = PState { k: k + mr, errs };
            assert(p_infix_loop(toks, st_e, crate::grammar::PrecedenceLevel::Lowest, e) == (
                Some(e),
                st_e,
            ));
            assert(p_expression(
                toks,
                PState { k: k + 1, errs },
                crate::grammar::PrecedenceLevel::Lowest,
            ) == (Some(e), st_e));
            assert(p_return(toks, PState { k, errs }) == (
                Some(st),
                PState { k: k + 1 + mr, errs },
            ));
        },
        _ => {},
    }
}

proof fn lemma_parse_stmts(
    toks: Seq<SpecToken>,
    k: int,
    errs: Seq<Seq<char>>,
    v: Seq<SpecStmt>,
    acc: Seq<SpecStmt>,
)
    requires
        forall|i: int| 0 <= i < v.len() ==> simple_stmt(#[trigger] v[i]),
        0 <= k,
        k + stmts_tokens(v).len() < toks.len(),
        toks.subrange(k, k + stmts_tokens(v).len()) == stmts_tokens(v),
    ensures
        p_program_items(toks, PState { k, errs }, acc) == p_program_items(
            toks,
            PState { k: k + stmts_tokens(v).len(), errs },
            acc + v,
        ),
    decreases v.len(),
{
    reveal(p_program_items);
    if v.len() == 0 {
        assert(acc + v =~= acc);
    } else {
        let t0 = stmt_tokens(v[0]);
        let rest = stmts_tokens(v.drop_first());
        let x = stmts_tokens(v);
        let m0 = t0.len() as int;
        assert(x == t0 + rest);
        assert(simple_stmt(v[0]));
        lemma_first_token(match v[0] {
            SpecStmt::Let { value, .. } => value->0,
            SpecStmt::Return { value, .. } => value->0,
            _ => SpecExpr::Empty,
        });
        assert(m0 >= 3);
        assert forall|i: int| 0 <= i < x.len() implies toks[k + i] == #[trigger] x[i] by {
            assert(toks[k + i] == toks.subrange(k, k + x.len())[i]);
        }
        assert(toks.subrange(k, k + m0) =~= t0) by {
            assert forall|j: int| 0 <= j < m0 implies toks.subrange(k, k + m0)[j] == t0[j] by {
                assert(x[j] == t0[j]);
            }
        }
        assert(toks.subrange(k + m0, k + m0 + rest.len()) =~= rest) by {
            assert forall|j: int| 0 <= j < rest.len() implies toks.subrange(
                k + m0,
                k + m0 + rest.len(),
            )[j] == rest[j] by {
                assert(x[m0 + j] == rest[j]);
            }
        }
        lemma_parse_stmt(toks, k, errs, v[0]);
        assert(toks[k] == t0[0]);
        assert(crate::grammar::cur(toks, PState { k, errs }).kind != TokenKind::EOF);
        assert forall|i: int| 0 <= i < v.drop_first().len() implies simple_stmt(
            #[trigger] v.drop_first()[i],
        ) by {
            assert(v.drop_first()[i] == v[i + 1]);
        }
        lemma_parse_stmts(toks, k + m0, errs, v.drop_first(), acc.push(v[0]));
        assert(acc.push(v[0]) + v.drop_first() =~= acc + v);
    }
}

/// The statement that may close a program of the class below: one of those
/// statements, or an expression statement over an expression of the class
/// above.
pub open spec fn closing_stmt(s: SpecStmt) -> bool {
    match s {
        SpecStmt::Expr { expression, .. } => match expression {
            Some(e) => operator_expr(e),
            None => false,
        },
        _ => simple_stmt(s),
    }
}

/// `let` and `return` statements over expressions of the class above,
/// optionally closed by an expression statement.
pub open spec fn simple_program(prog: Seq<SpecStmt>) -> bool {
    &&& forall|i: int| 0 <= i < prog.len() - 1 ==> simple_stmt(#[trigger] prog[i])
    &&& prog.len() > 0 ==> closing_stmt(prog.last())
}

proof fn lemma_text_end(s: Seq<char>)
    ensures
        tokens_from(s, s.len() as int) == seq![end_token()],
{
    lemma_end_repeats(s);
    reveal(tokens_from);
}

proof fn lemma_reparse_statements(prog: Seq<SpecStmt>)
    requires
        forall|i: int| 0 <= i < prog.len() ==> simple_stmt(#[trigger] prog[i]),
    ensures
        p_program(tokens_of(print_stmts(prog)), PState { k: 0, errs: Seq::empty() }) == (
            prog,
            PState { k: stmts_tokens(prog).len() as int, errs: Seq::empty() },
        ),
{
    reveal(p_program_items);
    let s = print_stmts(prog);
    let errs = Seq::<Seq<char>>::empty();
    lemma_text_end(s);
    assert(s.subrange(0, s.len() as int) =~= s);
    lemma_lex_stmts(s, 0, prog);
    let toks = stmts_tokens(prog) + seq![end_token()];
    assert(tokens_of(s) == toks);
    let m = stmts_tokens(prog).len() as int;
    assert(toks.subrange(0, m) =~= stmts_tokens(prog));
    lemma_parse_stmts(toks, 0, errs, prog, Seq::empty());
    assert(Seq::<SpecStmt>::empty() + prog =~= prog);
}

proof fn lemma_reparse_closed(v: Seq<SpecStmt>, token: SpecToken, e: SpecExpr)
    requires
        forall|i: int| 0 <= i < v.len() ==> simple_stmt(#[trigger] v[i]),
        operator_expr(e),
    ensures
        ({
            let prog = v.push(SpecStmt::Expr { token, expression: Some(e) });
            let (stmts, st) = p_program(
                tokens_of(print_stmts(prog)),
                PState { k: 0, errs: Seq::empty() },
            );
            st.errs.len() == 0 && print_stmts(stmts) == print_stmts(prog)
        }),
{
    reveal(p_program_items);
    reveal(p_statement);
    reveal(p_expression_statement);
    reveal(p_expression);
    reveal(p_prefix);
    reveal(p_infix_loop);
    let prog = v.push(SpecStmt::Expr { token, expression: Some(e) });
    let s = print_stmts(prog);
    let n = s.len() as int;
    let errs = Seq::<Seq<char>>::empty();
    lemma_text_end(s);
    let pv = print_stmts(v);
    let pe = print_expr(e);
    assert(prog.drop_last() =~= v);
    assert(prog.last() == SpecStmt::Expr { token, expression: Some(e) });
    assert(print_stmt(prog.last()) == pe);
    assert(s == print_stmts(prog.drop_last()) + print_stmt(prog.last()));
    assert(s == pv + pe);
    assert(s.subrange(0, pv.len() as int) =~= pv);
    assert(s.subrange(pv.len() as int, n) =~= pe);
    lemma_lex_stmts(s, 0, v);
    lemma_lex_expr(s, pv.len() as int, e);
    let toks = stmts_tokens(v) + expr_tokens(e) + seq![end_token()];
    assert(tokens_of(s) =~= toks);
    let tv = stmts_tokens(v).len() as int;
    let m = expr_tokens(e).len() as int;
    lemma_first_token(e);
    assert(toks.subrange(0, tv) =~= stmts_tokens(v));
    assert(toks.subrange(tv, tv + m) =~= expr_tokens(e));
    lemma_parse_stmts(toks, 0, errs, v, Seq::empty());
    assert(Seq::<SpecStmt>::empty() + v =~= v);
    lemma_parse_expr(toks, tv, errs, e);
    let st0 = PState { k: tv, errs };
    let st1 = PState { k: tv + m - 1, errs };
    assert(toks[tv] == expr_tokens(e)[0]);
    assert(crate::grammar::cur(toks, st0) == toks[tv]);
    assert(p_infix_loop(toks, st1, crate::grammar::PrecedenceLevel::Lowest, e) == (Some(e), st1));
    assert(p_expression(toks, st0, crate::grammar::PrecedenceLevel::Lowest) == (Some(e), st1));
    let stmt = SpecStmt::Expr { token: toks[tv], expression: Some(e) };
    assert(p_statement(toks, st0) == (Some(stmt), st1));
    let st2 = PState { k: tv + m, errs };
    assert(p_program_items(toks, st2, v.push(stmt)) == (v.push(stmt), st2));
    assert(p_program_items(toks, st0, v) == (v.push(stmt), st2));
    assert(v.push(stmt).drop_last() =~= v);
    assert(print_stmts(v.push(stmt)) == pv + print_stmt(stmt));
}

/// Reading back the canonical text of such a program records no diagnostic
/// and gives a program whose canonical text is that same text.
pub proof fn lemma_reparse_program(prog: Seq<SpecStmt>)
    requires
        simple_program(prog),
    ensures
        ({
            let (stmts, st) = p_program(
                tokens_of(print_stmts(prog)),
                PState { k: 0, errs: Seq::empty() },
            );
            st.errs.len() == 0 && print_stmts(stmts) == print_stmts(prog)
        }),
{
    if prog.len() > 0 && !simple_stmt(prog.last()) {
        let v = prog.drop_last();
        let last = prog.last();
        assert forall|i: int| 0 <= i < v.len() implies simple_stmt(#[trigger] v[i]) by {
            assert(v[i] == prog[i]);
        }
        match last {
            SpecStmt::Expr { token, expression } => {
                let e = expression->0;
                assert(prog =~= v.push(SpecStmt::Expr { token, expression: Some(e) }));
                lemma_reparse_closed(v, token, e);
            },
            _ => {},
        }
    } else {
        assert forall|i: int| 0 <= i < prog.len() implies simple_stmt(#[trigger] prog[i]) by {
            if i < prog.len() - 1 {
            }
        }
        lemma_reparse_statements(prog);
    }
}

} // verus!
