//! The whole pipeline: source text in, a value and the written output out.

use vstd::prelude::*;
use crate::evaluation::object::Object;
use crate::evaluation::operators::option_model;
use crate::evaluation::semantics::{eval_program, Machine};
use crate::evaluation::store::{ScopeV, Store};
use crate::evaluation::{modules_model, Eval, DEFAULT_DEPTH};
use crate::parser::grammar::parse_source;
use crate::parser::{parse, texts};

verus! {

/// What running a source text comes to.
#[derive(Debug, PartialEq)]
pub enum Outcome {
    /// The text has syntax errors, which are listed, and was not evaluated.
    Rejected(Vec<String>),
    /// The text was evaluated: what it yielded, and the lines it wrote.
    Ran(Option<Object>, Vec<String>),
}

/// The machine in which a program starts: one empty scope, no output.
pub open spec fn start(modules: Seq<(Seq<char>, Seq<char>)>) -> Machine {
    Machine {
        scopes: seq![ScopeV { bindings: Seq::empty(), outer: None }],
        scope: 0,
        output: Seq::empty(),
        modules,
    }
}

/// Runs `source` with no modules but those of the standard library, and with
/// the default depth of calls.
pub fn interpret(source: &str) -> (r: Outcome)
    ensures
        match r {
            Outcome::Rejected(errors) => errors.len() > 0 && texts(errors@) == parse_source(
                source@,
            ).1,
            Outcome::Ran(value, output) => parse_source(source@).1.len() == 0 && ({
                let (v, m) = eval_program(
                    parse_source(source@).0,
                    0,
                    None,
                    start(Seq::empty()),
                    DEFAULT_DEPTH as nat,
                );
                option_model(value) == v && texts(output@) == m.output
            }),
        },
{
    let none: Vec<(String, String)> = Vec::new();
    assert(modules_model(none@) =~= Seq::empty());
    interpret_with(source, none, DEFAULT_DEPTH)
}

/// Runs `source`: parses it and, where it has no syntax error, evaluates the
/// program in a new machine. `modules` holds the modules that the program
/// may bring in, each as a name and a source text, and `depth` says how deep
/// calls may nest. Every source text is either rejected or run to its end:
/// the evaluation yields a value, an error value, or nothing.
pub fn interpret_with(source: &str, modules: Vec<(String, String)>, depth: usize) -> (r: Outcome)
    ensures
        match r {
            Outcome::Rejected(errors) => errors.len() > 0 && texts(errors@) == parse_source(
                source@,
            ).1,
            Outcome::Ran(value, output) => parse_source(source@).1.len() == 0 && ({
                let (v, m) = eval_program(
                    parse_source(source@).0,
                    0,
                    None,
                    start(modules_model(modules@)),
                    depth as nat,
                );
                option_model(value) == v && texts(output@) == m.output
            }),
        },
{
    let (program, errors) = parse(source);
    assert(texts(errors@).len() == errors.len());
    if errors.len() > 0 {
        return Outcome::Rejected(errors);
    }
    let mut eval = Eval::new(Store::new()).with_modules(modules).with_depth(depth);
    let value = eval.eval(program);
    proof {
        reveal(Eval::machine);
    }
    Outcome::Ran(value, eval.output)
}

} // verus!
