use vstd::prelude::*;
use vstd::string::StringExecFns;
use crate::ast::{print_stmts, Node};
use crate::grammar::{p_program, PState};
use crate::lexer::{tokens_of, Lexer};
use crate::parser::{err_texts, Parser};

verus! {

/// The lines shown for one line of input: the diagnostics under a heading
/// when the parse recorded any, else the canonical text of the program.
pub open spec fn response_lines(line: Seq<char>) -> Seq<Seq<char>> {
    let (stmts, st) = p_program(tokens_of(line), PState { k: 0, errs: Seq::empty() });
    if st.errs.len() > 0 {
        seq!["Oops! We ran into parser errors"@] + st.errs
    } else {
        seq![print_stmts(stmts)]
    }
}

/// Parses one line of input and gives the lines to show for it.
pub fn respond(line: &str) -> (out: Vec<String>)
    ensures
        err_texts(out@) == response_lines(line@),
{
    let lexer = Lexer::new(line);
    let mut parser = Parser::new(lexer);
    let program = match parser.parse_program() {
        Some(p) => p,
        None => return Vec::new(),
    };
    let errors = parser.errors();
    if errors.len() > 0 {
        print_parse_errors(errors)
    } else {
        let mut out: Vec<String> = Vec::new();
        out.push(program.print_string());
        assert(err_texts(out@) =~= seq![print_stmts(crate::ast::program_view(&program))]);
        out
    }
}

/// The heading and then each diagnostic, in order.
fn print_parse_errors(errors: &Vec<String>) -> (out: Vec<String>)
    ensures
        err_texts(out@) == seq!["Oops! We ran into parser errors"@] + err_texts(errors@),
{
    let mut out: Vec<String> = Vec::new();
    out.push(String::from_str("Oops! We ran into parser errors"));
    let mut i: usize = 0;
    while i < errors.len()
        invariant
            i <= errors.len(),
            err_texts(out@) == seq!["Oops! We ran into parser errors"@] + err_texts(
                errors@.subrange(0, i as int),
            ),
        decreases errors.len() - i,
    {
        let ghost before = err_texts(out@);
        out.push(errors[i].clone());
        assert(err_texts(out@) =~= before.push(errors@[i as int]@));
        assert(err_texts(errors@.subrange(0, i + 1)) =~= err_texts(
            errors@.subrange(0, i as int),
        ).push(errors@[i as int]@));
        i = i + 1;
    }
    assert(errors@.subrange(0, errors.len() as int) =~= errors@);
    out
}

} // verus!
