use vstd::prelude::*;
use crate::ast::{
    expr_view, program_view, stmt_view, stmts_view, lemma_stmts_view_step, ExpressionNode,
    Program, SpecExpr, SpecStmt, StatementNode,
};
use crate::object::Object;
use crate::token::same_text;

verus! {

/// `!`: true and false swap, null counts as false, anything else as true.
pub open spec fn eval_bang(v: Object) -> Object {
    match v {
        Object::Boolean(b) => Object::Boolean(!b),
        Object::Null => Object::Boolean(true),
        _ => Object::Boolean(false),
    }
}

/// `-`: an integer is negated; anything else, or a negation that does not
/// fit, gives null.
pub open spec fn eval_minus(v: Object) -> Object {
    match v {
        Object::Integer(n) => match 0i64.checked_sub(n) {
            Some(m) => Object::Integer(m),
            None => Object::Null,
        },
        _ => Object::Null,
    }
}

pub open spec fn eval_prefix(operator: Seq<char>, v: Object) -> Object {
    if operator == "!"@ {
        eval_bang(v)
    } else if operator == "-"@ {
        eval_minus(v)
    } else {
        Object::Null
    }
}

pub open spec fn int_or_null(r: Option<i64>) -> Object {
    match r {
        Some(n) => Object::Integer(n),
        None => Object::Null,
    }
}

/// Two integers combine under `+ - * /` (division truncates); a result that
/// does not fit, a division by zero, any other operator or any other pair of
/// values gives null.
pub open spec fn eval_infix(operator: Seq<char>, l: Object, r: Object) -> Object {
    match (l, r) {
        (Object::Integer(a), Object::Integer(b)) => if operator == "+"@ {
            int_or_null(a.checked_add(b))
        } else if operator == "-"@ {
            int_or_null(a.checked_sub(b))
        } else if operator == "*"@ {
            int_or_null(a.checked_mul(b))
        } else if operator == "/"@ {
            int_or_null(a.checked_div(b))
        } else {
            Object::Null
        },
        _ => Object::Null,
    }
}

/// The value of an expression.
pub open spec fn eval_expr(e: SpecExpr) -> Object
    decreases e,
{
    match e {
        SpecExpr::Int { value, .. } => Object::Integer(value),
        SpecExpr::Bool { value, .. } => Object::Boolean(value),
        SpecExpr::Prefix { operator, right, .. } => eval_prefix(operator, eval_expr(*right)),
        SpecExpr::Infix { left, operator, right, .. } => eval_infix(
            operator,
            eval_expr(*left),
            eval_expr(*right),
        ),
        _ => Object::Null,
    }
}

/// The value of a statement: that of its expression, of its last statement
/// for a block, null otherwise.
pub open spec fn eval_stmt(s: SpecStmt) -> Object
    decreases s,
{
    match s {
        SpecStmt::Expr { expression, .. } => match expression {
            Some(e) => eval_expr(e),
            None => Object::Null,
        },
        SpecStmt::Block(b) => eval_stmts(b.statements),
        _ => Object::Null,
    }
}

/// The value of a statement sequence: that of the last statement, null when
/// there is none.
pub open spec fn eval_stmts(v: Seq<SpecStmt>) -> Object
    decreases v,
{
    if v.len() == 0 {
        Object::Null
    } else {
        eval_stmt(v.last())
    }
}

fn eval_expression(e: &ExpressionNode) -> (r: Object)
    ensures
        r == eval_expr(expr_view(e)),
    decreases e,
{
    match e {
        ExpressionNode::Integer(i) => Object::Integer(i.value),
        ExpressionNode::BooleanNode(b) => Object::Boolean(b.value),
        ExpressionNode::Prefix(p) => {
            let right = eval_expression(&p.right);
            eval_prefix_expression(&p.operator, right)
        },
        ExpressionNode::Infix(p) => {
            let left = eval_expression(&p.left);
            let right = eval_expression(&p.right);
            eval_infix_expression(&p.operator, left, right)
        },
        _ => Object::Null,
    }
}

fn eval_prefix_expression(operator: &String, right: Object) -> (r: Object)
    ensures
        r == eval_prefix(operator@, right),
{
    if same_text(operator.as_str(), "!") {
        match right {
            Object::Boolean(b) => Object::Boolean(!b),
            Object::Null => Object::Boolean(true),
            _ => Object::Boolean(false),
        }
    } else if same_text(operator.as_str(), "-") {
        match right {
            Object::Integer(n) => match 0i64.checked_sub(n) {
                Some(m) => Object::Integer(m),
                None => Object::Null,
            },
            _ => Object::Null,
        }
    } else {
        Object::Null
    }
}

fn eval_infix_expression(operator: &String, left: Object, right: Object) -> (r: Object)
    ensures
        r == eval_infix(operator@, left, right),
{
    match (left, right) {
        (Object::Integer(a), Object::Integer(b)) => {
            let op = operator.as_str();
            let result = if same_text(op, "+") {
                a.checked_add(b)
            } else if same_text(op, "-") {
                a.checked_sub(b)
            } else if same_text(op, "*") {
                a.checked_mul(b)
            } else if same_text(op, "/") {
                a.checked_div(b)
            } else {
                return Object::Null;
            };
            match result {
                Some(n) => Object::Integer(n),
                None => Object::Null,
            }
        },
        _ => Object::Null,
    }
}

fn eval_statement(s: &StatementNode) -> (r: Object)
    ensures
        r == eval_stmt(stmt_view(s)),
    decreases s,
{
    match s {
        StatementNode::Expression(x) => match &x.expression {
            Some(e) => eval_expression(e),
            None => Object::Null,
        },
        StatementNode::Block(b) => eval_statements(&b.statements),
        _ => Object::Null,
    }
}

fn eval_statements(v: &Vec<StatementNode>) -> (r: Object)
    ensures
        r == eval_stmts(stmts_view(v@)),
    decreases v,
{
    let mut result = Object::Null;
    let mut i: usize = 0;
    while i < v.len()
        invariant
            i <= v.len(),
            result == eval_stmts(stmts_view(v@.subrange(0, i as int))),
        decreases v.len() - i,
    {
        proof {
            lemma_stmts_view_step(v@, i as int);
        }
        result = eval_statement(&v[i]);
        i = i + 1;
    }
    assert(v@.subrange(0, v.len() as int) =~= v@);
    result
}

/// Evaluates a program: its statements in order, the value of the last one
/// kept.
pub fn eval_program(program: Program) -> (r: Object)
    ensures
        r == eval_stmts(program_view(&program)),
{
    eval_statements(&program.statements)
}

} // verus!
