use vstd::prelude::*;
use vstd::string::StringExecFns;
use crate::token::{SpecToken, Token};

verus! {

// ---------------------------------------------------------------------------
// The mathematical model of a tree.

pub struct SpecIdent {
    pub token: SpecToken,
    pub value: Seq<char>,
}

pub struct SpecBlock {
    pub token: SpecToken,
    pub statements: Seq<SpecStmt>,
}

pub enum SpecExpr {
    Empty,
    Ident(SpecIdent),
    Int { token: SpecToken, value: i64 },
    Prefix { token: SpecToken, operator: Seq<char>, right: Box<SpecExpr> },
    Infix { token: SpecToken, left: Box<SpecExpr>, operator: Seq<char>, right: Box<SpecExpr> },
    Bool { token: SpecToken, value: bool },
    If {
        token: SpecToken,
        condition: Box<SpecExpr>,
        consequence: SpecBlock,
        alternative: Option<SpecBlock>,
    },
    Func { token: SpecToken, parameters: Seq<SpecIdent>, body: SpecBlock },
    Call { token: SpecToken, function: Box<SpecExpr>, arguments: Seq<SpecExpr> },
}

pub enum SpecStmt {
    Let { token: SpecToken, name: SpecIdent, value: Option<SpecExpr> },
    Return { token: SpecToken, value: Option<SpecExpr> },
    Expr { token: SpecToken, expression: Option<SpecExpr> },
    Block(SpecBlock),
}

// ---------------------------------------------------------------------------
// The tree.

#[derive(Debug)]
pub enum StatementNode {
    Let(LetStatement),
    Return(ReturnStatement),
    Expression(ExpressionStatement),
    Block(BlockStatement),
}

#[derive(Debug)]
pub enum ExpressionNode {
    Empty,
    IdentifierNode(Identifier),
    Integer(IntegerLiteral),
    Prefix(PrefixExpression),
    Infix(InfixExpression),
    BooleanNode(Boolean),
    IfExpressionNode(IfExpression),
    Function(FunctionLiteral),
    Call(CallExpression),
}

/// A whole program: its statements in order.
pub struct Program {
    pub statements: Vec<StatementNode>,
}

#[derive(Debug)]
pub struct LetStatement {
    pub token: Token,
    pub name: Identifier,
    pub value: Option<ExpressionNode>,
}

#[derive(Debug)]
pub struct Identifier {
    pub token: Token,
    pub value: String,
}

#[derive(Debug)]
pub struct ReturnStatement {
    pub token: Token,
    pub return_value: Option<ExpressionNode>,
}

#[derive(Debug)]
pub struct ExpressionStatement {
    pub token: Token,
    pub expression: Option<ExpressionNode>,
}

#[derive(Debug)]
pub struct IntegerLiteral {
    pub token: Token,
    pub value: i64,
}

#[derive(Debug)]
pub struct PrefixExpression {
    pub token: Token,
    pub operator: String,
    pub right: Box<ExpressionNode>,
}

#[derive(Debug)]
pub struct InfixExpression {
    pub token: Token,
    pub left: Box<ExpressionNode>,
    pub operator: String,
    pub right: Box<ExpressionNode>,
}

#[derive(Debug)]
pub struct Boolean {
    pub token: Token,
    pub value: bool,
}

#[derive(Debug)]
pub struct IfExpression {
    pub token: Token,
    pub condition: Box<ExpressionNode>,
    pub consequence: BlockStatement,
    pub alternative: Option<BlockStatement>,
}

#[derive(Debug)]
pub struct BlockStatement {
    pub token: Token,
    pub statements: Vec<StatementNode>,
}

#[derive(Debug)]
pub struct FunctionLiteral {
    pub token: Token,
    pub parameters: Vec<Identifier>,
    pub body: BlockStatement,
}

#[derive(Debug)]
pub struct CallExpression {
    pub token: Token,
    pub function: Box<ExpressionNode>,
    pub arguments: Vec<ExpressionNode>,
}

// ---------------------------------------------------------------------------
// From the tree to its model.

pub open spec fn ident_view(i: &Identifier) -> SpecIdent {
    SpecIdent { token: i.token@, value: i.value@ }
}

pub open spec fn idents_view(v: Seq<Identifier>) -> Seq<SpecIdent> {
    Seq::new(v.len(), |k: int| ident_view(&v[k]))
}

pub open spec fn expr_view(e: &ExpressionNode) -> SpecExpr
    decreases e,
{
    match e {
        ExpressionNode::Empty => SpecExpr::Empty,
        ExpressionNode::IdentifierNode(i) => SpecExpr::Ident(ident_view(i)),
        ExpressionNode::Integer(i) => SpecExpr::Int { token: i.token@, value: i.value },
        ExpressionNode::Prefix(p) => SpecExpr::Prefix {
            token: p.token@,
            operator: p.operator@,
            right: Box::new(expr_view(&p.right)),
        },
        ExpressionNode::Infix(p) => SpecExpr::Infix {
            token: p.token@,
            left: Box::new(expr_view(&p.left)),
            operator: p.operator@,
            right: Box::new(expr_view(&p.right)),
        },
        ExpressionNode::BooleanNode(b) => SpecExpr::Bool { token: b.token@, value: b.value },
        ExpressionNode::IfExpressionNode(x) => SpecExpr::If {
            token: x.token@,
            condition: Box::new(expr_view(&x.condition)),
            consequence: block_view(&x.consequence),
            alternative: match &x.alternative {
                Some(b) => Some(block_view(b)),
                None => None,
            },
        },
        ExpressionNode::Function(f) => SpecExpr::Func {
            token: f.token@,
            parameters: idents_view(f.parameters@),
            body: block_view(&f.body),
        },
        ExpressionNode::Call(c) => SpecExpr::Call {
            token: c.token@,
            function: Box::new(expr_view(&c.function)),
            arguments: exprs_view(c.arguments@),
        },
    }
}

pub open spec fn exprs_view(v: Seq<ExpressionNode>) -> Seq<SpecExpr>
    decreases v,
{
    if v.len() == 0 {
        Seq::empty()
    } else {
        exprs_view(v.drop_last()).push(expr_view(&v.last()))
    }
}

pub open spec fn opt_expr_view(e: &Option<ExpressionNode>) -> Option<SpecExpr> {
    match e {
        Some(x) => Some(expr_view(x)),
        None => None,
    }
}

pub open spec fn stmt_view(s: &StatementNode) -> SpecStmt
    decreases s,
{
    match s {
        StatementNode::Let(l) => SpecStmt::Let {
            token: l.token@,
            name: ident_view(&l.name),
            value: match &l.value {
                Some(x) => Some(expr_view(x)),
                None => None,
            },
        },
        StatementNode::Return(r) => SpecStmt::Return {
            token: r.token@,
            value: match &r.return_value {
                Some(x) => Some(expr_view(x)),
                None => None,
            },
        },
        StatementNode::Expression(x) => SpecStmt::Expr {
            token: x.token@,
            expression: match &x.expression {
                Some(e) => Some(expr_view(e)),
                None => None,
            },
        },
        StatementNode::Block(b) => SpecStmt::Block(block_view(b)),
    }
}

pub open spec fn stmts_view(v: Seq<StatementNode>) -> Seq<SpecStmt>
    decreases v,
{
    if v.len() == 0 {
        Seq::empty()
    } else {
        stmts_view(v.drop_last()).push(stmt_view(&v.last()))
    }
}

pub open spec fn block_view(b: &BlockStatement) -> SpecBlock
    decreases b,
{
    SpecBlock { token: b.token@, statements: stmts_view(b.statements@) }
}

pub open spec fn program_view(p: &Program) -> Seq<SpecStmt> {
    stmts_view(p.statements@)
}

pub proof fn lemma_exprs_view_step(v: Seq<ExpressionNode>, i: int)
    requires
        0 <= i < v.len(),
    ensures
        exprs_view(v.subrange(0, i + 1)) == exprs_view(v.subrange(0, i)).push(expr_view(&v[i])),
{
    assert(v.subrange(0, i + 1).drop_last() =~= v.subrange(0, i));
}

pub proof fn lemma_stmts_view_step(v: Seq<StatementNode>, i: int)
    requires
        0 <= i < v.len(),
    ensures
        stmts_view(v.subrange(0, i + 1)) == stmts_view(v.subrange(0, i)).push(stmt_view(&v[i])),
{
    assert(v.subrange(0, i + 1).drop_last() =~= v.subrange(0, i));
}

// ---------------------------------------------------------------------------
// The canonical, fully parenthesized text of a tree.

pub open spec fn print_expr(e: SpecExpr) -> Seq<char>
    decreases e,
{
    match e {
        SpecExpr::Empty => Seq::empty(),
        SpecExpr::Ident(i) => i.value,
        SpecExpr::Int { token, .. } => token.literal,
        SpecExpr::Prefix { operator, right, .. } => "("@ + operator + print_expr(*right) + ")"@,
        SpecExpr::Infix { left, operator, right, .. } => "("@ + print_expr(*left) + " "@
            + operator + " "@ + print_expr(*right) + ")"@,
        SpecExpr::Bool { token, .. } => token.literal,
        SpecExpr::If { condition, consequence, alternative, .. } => "if"@ + print_expr(
            *condition,
        ) + " "@ + print_block(consequence) + match alternative {
            Some(b) => "else "@ + print_block(b),
            None => Seq::empty(),
        },
        SpecExpr::Func { token, parameters, body } => token.literal + "("@ + print_idents(
            parameters,
        ) + ") "@ + print_block(body),
        SpecExpr::Call { function, arguments, .. } => print_expr(*function) + "("@ + print_exprs(
            arguments,
        ) + ")"@,
    }
}

/// The texts of `v`, separated by `", "`.
pub open spec fn print_exprs(v: Seq<SpecExpr>) -> Seq<char>
    decreases v,
{
    if v.len() == 0 {
        Seq::empty()
    } else if v.len() == 1 {
        print_expr(v[0])
    } else {
        print_exprs(v.drop_last()) + ", "@ + print_expr(v.last())
    }
}

/// The names of `v`, separated by `", "`.
pub open spec fn print_idents(v: Seq<SpecIdent>) -> Seq<char>
    decreases v.len(),
{
    if v.len() == 0 {
        Seq::empty()
    } else if v.len() == 1 {
        v[0].value
    } else {
        print_idents(v.drop_last()) + ", "@ + v.last().value
    }
}

pub open spec fn print_opt(e: Option<SpecExpr>) -> Seq<char> {
    match e {
        Some(x) => print_expr(x),
        None => Seq::empty(),
    }
}

pub open spec fn print_stmt(s: SpecStmt) -> Seq<char>
    decreases s,
{
    match s {
        SpecStmt::Let { token, name, value } => token.literal + " "@ + name.value + " = "@
            + match value {
            Some(x) => print_expr(x),
            None => Seq::empty(),
        } + ";"@,
        SpecStmt::Return { token, value } => token.literal + " "@ + match value {
            Some(x) => print_expr(x),
            None => Seq::empty(),
        } + ";"@,
        SpecStmt::Expr { expression, .. } => match expression {
            Some(x) => print_expr(x),
            None => Seq::empty(),
        },
        SpecStmt::Block(b) => print_block(b),
    }
}

/// The texts of the statements, one after the other.
pub open spec fn print_stmts(v: Seq<SpecStmt>) -> Seq<char>
    decreases v,
{
    if v.len() == 0 {
        Seq::empty()
    } else {
        print_stmts(v.drop_last()) + print_stmt(v.last())
    }
}

pub open spec fn print_block(b: SpecBlock) -> Seq<char>
    decreases b,
{
    print_stmts(b.statements)
}

// ---------------------------------------------------------------------------
// Printing, executable.

fn print_expression(e: &ExpressionNode) -> (r: String)
    ensures
        r@ == print_expr(expr_view(e)),
    decreases e,
{
    match e {
        ExpressionNode::Empty => String::new(),
        ExpressionNode::IdentifierNode(i) => i.value.clone(),
        ExpressionNode::Integer(i) => i.token.literal.clone(),
        ExpressionNode::Prefix(p) => print_prefix(p),
        ExpressionNode::Infix(p) => print_infix(p),
        ExpressionNode::BooleanNode(b) => b.token.literal.clone(),
        ExpressionNode::IfExpressionNode(x) => print_if(x),
        ExpressionNode::Function(f) => print_function(f),
        ExpressionNode::Call(c) => print_call(c),
    }
}

fn print_prefix(p: &PrefixExpression) -> (r: String)
    ensures
        r@ == print_expr(expr_view(&ExpressionNode::Prefix(*p))),
    decreases p,
{
    let mut out = String::new();
    out.append("(");
    out.append(p.operator.as_str());
    let right = print_expression(&p.right);
    out.append(right.as_str());
    out.append(")");
    out
}

fn print_infix(p: &InfixExpression) -> (r: String)
    ensures
        r@ == print_expr(expr_view(&ExpressionNode::Infix(*p))),
    decreases p,
{
    let mut out = String::new();
    out.append("(");
    let left = print_expression(&p.left);
    out.append(left.as_str());
    out.append(" ");
    out.append(p.operator.as_str());
    out.append(" ");
    let right = print_expression(&p.right);
    out.append(right.as_str());
    out.append(")");
    out
}

fn print_if(x: &IfExpression) -> (r: String)
    ensures
        r@ == print_expr(expr_view(&ExpressionNode::IfExpressionNode(*x))),
    decreases x,
{
    let mut out = String::new();
    out.append("if");
    let condition = print_expression(&x.condition);
    out.append(condition.as_str());
    out.append(" ");
    let consequence = print_statements(&x.consequence.statements);
    assert(consequence@ == print_block(block_view(&x.consequence)));
    out.append(consequence.as_str());
    match &x.alternative {
        Some(b) => {
            out.append("else ");
            let alternative = print_statements(&b.statements);
            assert(alternative@ == print_block(block_view(b)));
            out.append(alternative.as_str());
        },
        None => {},
    }
    out
}

fn print_function(f: &FunctionLiteral) -> (r: String)
    ensures
        r@ == print_expr(expr_view(&ExpressionNode::Function(*f))),
    decreases f,
{
    let mut out = String::new();
    out.append(f.token.literal.as_str());
    out.append("(");
    let mut i: usize = 0;
    while i < f.parameters.len()
        invariant
            i <= f.parameters.len(),
            out@ == f.token.literal@ + "("@ + print_idents(
                idents_view(f.parameters@.subrange(0, i as int)),
            ),
        decreases f.parameters.len() - i,
    {
        let ghost before = idents_view(f.parameters@.subrange(0, i as int));
        let ghost after = idents_view(f.parameters@.subrange(0, i + 1));
        assert(after.drop_last() =~= before);
        if i > 0 {
            out.append(", ");
        }
        out.append(f.parameters[i].value.as_str());
        i = i + 1;
    }
    assert(f.parameters@.subrange(0, f.parameters.len() as int) =~= f.parameters@);
    out.append(") ");
    let body = print_statements(&f.body.statements);
    assert(body@ == print_block(block_view(&f.body)));
    out.append(body.as_str());
    out
}

fn print_call(c: &CallExpression) -> (r: String)
    ensures
        r@ == print_expr(expr_view(&ExpressionNode::Call(*c))),
    decreases c,
{
    let mut out = print_expression(&c.function);
    out.append("(");
    let ghost head = out@;
    let mut i: usize = 0;
    while i < c.arguments.len()
        invariant
            i <= c.arguments.len(),
            out@ == head + print_exprs(exprs_view(c.arguments@.subrange(0, i as int))),
        decreases c.arguments.len() - i,
    {
        proof {
            lemma_exprs_view_step(c.arguments@, i as int);
            let prev = exprs_view(c.arguments@.subrange(0, i as int));
            let next = prev.push(expr_view(&c.arguments@[i as int]));
            assert(next.drop_last() =~= prev);
        }
        if i > 0 {
            out.append(", ");
        }
        let arg = print_expression(&c.arguments[i]);
        out.append(arg.as_str());
        i = i + 1;
    }
    assert(c.arguments@.subrange(0, c.arguments.len() as int) =~= c.arguments@);
    out.append(")");
    out
}

fn print_statement(s: &StatementNode) -> (r: String)
    ensures
        r@ == print_stmt(stmt_view(s)),
    decreases s,
{
    match s {
        StatementNode::Let(l) => print_let(l),
        StatementNode::Return(r) => print_return(r),
        StatementNode::Expression(x) => print_expression_statement(x),
        StatementNode::Block(b) => print_statements(&b.statements),
    }
}

fn print_let(l: &LetStatement) -> (r: String)
    ensures
        r@ == print_stmt(stmt_view(&StatementNode::Let(*l))),
    decreases l,
{
    let mut out = l.token.literal.clone();
    out.append(" ");
    out.append(l.name.value.as_str());
    out.append(" = ");
    match &l.value {
        Some(x) => {
            let value = print_expression(x);
            out.append(value.as_str());
        },
        None => {},
    }
    out.append(";");
    out
}

fn print_return(r: &ReturnStatement) -> (s: String)
    ensures
        s@ == print_stmt(stmt_view(&StatementNode::Return(*r))),
    decreases r,
{
    let mut out = r.token.literal.clone();
    out.append(" ");
    match &r.return_value {
        Some(x) => {
            let value = print_expression(x);
            out.append(value.as_str());
        },
        None => {},
    }
    out.append(";");
    out
}

fn print_expression_statement(x: &ExpressionStatement) -> (r: String)
    ensures
        r@ == print_stmt(stmt_view(&StatementNode::Expression(*x))),
    decreases x,
{
    match &x.expression {
        Some(e) => print_expression(e),
        None => String::new(),
    }
}

fn print_statements(v: &Vec<StatementNode>) -> (r: String)
    ensures
        r@ == print_stmts(stmts_view(v@)),
    decreases v,
{
    let mut out = String::new();
    let mut i: usize = 0;
    while i < v.len()
        invariant
            i <= v.len(),
            out@ == print_stmts(stmts_view(v@.subrange(0, i as int))),
        decreases v.len() - i,
    {
        proof {
            lemma_stmts_view_step(v@, i as int);
            let prev = stmts_view(v@.subrange(0, i as int));
            let next = prev.push(stmt_view(&v@[i as int]));
            assert(next.drop_last() =~= prev);
        }
        let s = print_statement(&v[i]);
        out.append(s.as_str());
        i = i + 1;
    }
    assert(v@.subrange(0, v.len() as int) =~= v@);
    out
}


// ---------------------------------------------------------------------------
// The common behaviour of every node: the text of the token it starts with,
// and its canonical text.

pub open spec fn expr_literal(e: SpecExpr) -> Seq<char> {
    match e {
        SpecExpr::Empty => Seq::empty(),
        SpecExpr::Ident(i) => i.token.literal,
        SpecExpr::Int { token, .. } => token.literal,
        SpecExpr::Prefix { token, .. } => token.literal,
        SpecExpr::Infix { token, .. } => token.literal,
        SpecExpr::Bool { token, .. } => token.literal,
        SpecExpr::If { token, .. } => token.literal,
        SpecExpr::Func { token, .. } => token.literal,
        SpecExpr::Call { token, .. } => token.literal,
    }
}

pub open spec fn stmt_literal(s: SpecStmt) -> Seq<char> {
    match s {
        SpecStmt::Let { token, .. } => token.literal,
        SpecStmt::Return { token, .. } => token.literal,
        SpecStmt::Expr { token, .. } => token.literal,
        SpecStmt::Block(b) => b.token.literal,
    }
}

pub trait Node {
    spec fn spec_token_literal(&self) -> Seq<char>;

    spec fn spec_print_string(&self) -> Seq<char>;

    /// The text of the token this node starts with.
    fn token_literal(&self) -> (r: String)
        ensures
            r@ == self.spec_token_literal(),
    ;

    /// The canonical, fully parenthesized text of this node.
    fn print_string(&self) -> (r: String)
        ensures
            r@ == self.spec_print_string(),
    ;
}

impl Node for StatementNode {
    open spec fn spec_token_literal(&self) -> Seq<char> {
        stmt_literal(stmt_view(self))
    }

    open spec fn spec_print_string(&self) -> Seq<char> {
        print_stmt(stmt_view(self))
    }

    fn token_literal(&self) -> (r: String) {
        match self {
            StatementNode::Let(s) => s.token.literal.clone(),
            StatementNode::Return(s) => s.token.literal.clone(),
            StatementNode::Expression(s) => s.token.literal.clone(),
            StatementNode::Block(s) => s.token.literal.clone(),
        }
    }

    fn print_string(&self) -> (r: String) {
        print_statement(self)
    }
}

impl Node for ExpressionNode {
    open spec fn spec_token_literal(&self) -> Seq<char> {
        expr_literal(expr_view(self))
    }

    open spec fn spec_print_string(&self) -> Seq<char> {
        print_expr(expr_view(self))
    }

    fn token_literal(&self) -> (r: String) {
        match self {
            ExpressionNode::Empty => String::new(),
            ExpressionNode::IdentifierNode(x) => x.token.literal.clone(),
            ExpressionNode::Integer(x) => x.token.literal.clone(),
            ExpressionNode::Prefix(x) => x.token.literal.clone(),
            ExpressionNode::Infix(x) => x.token.literal.clone(),
            ExpressionNode::BooleanNode(x) => x.token.literal.clone(),
            ExpressionNode::IfExpressionNode(x) => x.token.literal.clone(),
            ExpressionNode::Function(x) => x.token.literal.clone(),
            ExpressionNode::Call(x) => x.token.literal.clone(),
        }
    }

    fn print_string(&self) -> (r: String) {
        print_expression(self)
    }
}

impl Node for Program {
    open spec fn spec_token_literal(&self) -> Seq<char> {
        if self.statements@.len() > 0 {
            stmt_literal(stmt_view(&self.statements@[0]))
        } else {
            Seq::empty()
        }
    }

    open spec fn spec_print_string(&self) -> Seq<char> {
        print_stmts(program_view(self))
    }

    fn token_literal(&self) -> (r: String) {
        if self.statements.len() > 0 {
            self.statements[0].token_literal()
        } else {
            String::new()
        }
    }

    fn print_string(&self) -> (r: String) {
        print_statements(&self.statements)
    }
}

impl Node for Identifier {
    open spec fn spec_token_literal(&self) -> Seq<char> {
        self.token.literal@
    }

    open spec fn spec_print_string(&self) -> Seq<char> {
        self.value@
    }

    fn token_literal(&self) -> (r: String) {
        self.token.literal.clone()
    }

    fn print_string(&self) -> (r: String) {
        self.value.clone()
    }
}

impl Node for BlockStatement {
    open spec fn spec_token_literal(&self) -> Seq<char> {
        self.token.literal@
    }

    open spec fn spec_print_string(&self) -> Seq<char> {
        print_block(block_view(self))
    }

    fn token_literal(&self) -> (r: String) {
        self.token.literal.clone()
    }

    fn print_string(&self) -> (r: String) {
        print_statements(&self.statements)
    }
}

impl Node for LetStatement {
    open spec fn spec_token_literal(&self) -> Seq<char> {
        self.token.literal@
    }

    open spec fn spec_print_string(&self) -> Seq<char> {
        print_stmt(stmt_view(&StatementNode::Let(*self)))
    }

    fn token_literal(&self) -> (r: String) {
        self.token.literal.clone()
    }

    fn print_string(&self) -> (r: String) {
        print_let(self)
    }
}

impl Node for ReturnStatement {
    open spec fn spec_token_literal(&self) -> Seq<char> {
        self.token.literal@
    }

    open spec fn spec_print_string(&self) -> Seq<char> {
        print_stmt(stmt_view(&StatementNode::Return(*self)))
    }

    fn token_literal(&self) -> (r: String) {
        self.token.literal.clone()
    }

    fn print_string(&self) -> (r: String) {
        print_return(self)
    }
}

impl Node for ExpressionStatement {
    open spec fn spec_token_literal(&self) -> Seq<char> {
        self.token.literal@
    }

    open spec fn spec_print_string(&self) -> Seq<char> {
        print_stmt(stmt_view(&StatementNode::Expression(*self)))
    }

    fn token_literal(&self) -> (r: String) {
        self.token.literal.clone()
    }

    fn print_string(&self) -> (r: String) {
        print_expression_statement(self)
    }
}

impl Node for IntegerLiteral {
    open spec fn spec_token_literal(&self) -> Seq<char> {
        self.token.literal@
    }

    open spec fn spec_print_string(&self) -> Seq<char> {
        print_expr(expr_view(&ExpressionNode::Integer(*self)))
    }

    fn token_literal(&self) -> (r: String) {
        self.token.literal.clone()
    }

    fn print_string(&self) -> (r: String) {
        self.token.literal.clone()
    }
}

impl Node for PrefixExpression {
    open spec fn spec_token_literal(&self) -> Seq<char> {
        self.token.literal@
    }

    open spec fn spec_print_string(&self) -> Seq<char> {
        print_expr(expr_view(&ExpressionNode::Prefix(*self)))
    }

    fn token_literal(&self) -> (r: String) {
        self.token.literal.clone()
    }

    fn print_string(&self) -> (r: String) {
        print_prefix(self)
    }
}

impl Node for InfixExpression {
    open spec fn spec_token_literal(&self) -> Seq<char> {
        self.token.literal@
    }

    open spec fn spec_print_string(&self) -> Seq<char> {
        print_expr(expr_view(&ExpressionNode::Infix(*self)))
    }

    fn token_literal(&self) -> (r: String) {
        self.token.literal.clone()
    }

    fn print_string(&self) -> (r: String) {
        print_infix(self)
    }
}

impl Node for Boolean {
    open spec fn spec_token_literal(&self) -> Seq<char> {
        self.token.literal@
    }

    open spec fn spec_print_string(&self) -> Seq<char> {
        print_expr(expr_view(&ExpressionNode::BooleanNode(*self)))
    }

    fn token_literal(&self) -> (r: String) {
        self.token.literal.clone()
    }

    fn print_string(&self) -> (r: String) {
        self.token.literal.clone()
    }
}

impl Node for IfExpression {
    open spec fn spec_token_literal(&self) -> Seq<char> {
        self.token.literal@
    }

    open spec fn spec_print_string(&self) -> Seq<char> {
        print_expr(expr_view(&ExpressionNode::IfExpressionNode(*self)))
    }

    fn token_literal(&self) -> (r: String) {
        self.token.literal.clone()
    }

    fn print_string(&self) -> (r: String) {
        print_if(self)
    }
}

impl Node for FunctionLiteral {
    open spec fn spec_token_literal(&self) -> Seq<char> {
        self.token.literal@
    }

    open spec fn spec_print_string(&self) -> Seq<char> {
        print_expr(expr_view(&ExpressionNode::Function(*self)))
    }

    fn token_literal(&self) -> (r: String) {
        self.token.literal.clone()
    }

    fn print_string(&self) -> (r: String) {
        print_function(self)
    }
}

impl Node for CallExpression {
    open spec fn spec_token_literal(&self) -> Seq<char> {
        self.token.literal@
    }

    open spec fn spec_print_string(&self) -> Seq<char> {
        print_expr(expr_view(&ExpressionNode::Call(*self)))
    }

    fn token_literal(&self) -> (r: String) {
        self.token.literal.clone()
    }

    fn print_string(&self) -> (r: String) {
        print_call(self)
    }
}

} // verus!
