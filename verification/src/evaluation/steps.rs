//! The meaning of each construct of the language, one equation for each: what
//! its evaluation yields in terms of what its parts yield.

use vstd::prelude::*;
use crate::ast::{ExprV, Infix, LiteralV, Prefix, StatementV};
use crate::evaluation::object::Value;
use crate::evaluation::operators::{
    assoc_set, index_result, infix_result, is_error, is_key, is_truthy, unwrap_return,
};
use crate::evaluation::semantics::{
    apply, arity_mismatch_text, back_to, bind_all_exports, binding_outcome, call_builtin,
    depth_text, enter, eval_block, eval_expr, eval_list, eval_pairs, eval_program,
    eval_statement, find_module, ident_value, include_outcome, is_std_name, literal_key_text,
    load, no_scope_text, not_function_text, or_null, prefix_outcome, return_outcome,
    run_module, zip, Machine,
};
use crate::parser::grammar::parse_source;
use crate::std_library::std_lib;

verus! {

/// A program evaluates its statements in order. An error ends it and is its
/// result; so does a return, whose value is the result.
pub proof fn lemma_program(
    stmts: Seq<StatementV>,
    i: int,
    last: Option<Value>,
    m: Machine,
    depth: nat,
)
    ensures
        eval_program(stmts, i, last, m, depth) == if 0 <= i < stmts.len() {
            let (r, m1) = eval_statement(stmts[i], m, depth);
            match r {
                Some(Value::Error(_)) => (r, m1),
                Some(Value::Return(inner)) => (Some(*inner), m1),
                _ => eval_program(stmts, i + 1, r, m1, depth),
            }
        } else {
            (last, m)
        },
{
    reveal_with_fuel(eval_program, 1);
    reveal_with_fuel(eval_statement, 1);
}

/// A block evaluates its statements in order. An error or a return ends it
/// and is its result.
pub proof fn lemma_block(
    stmts: Seq<StatementV>,
    i: int,
    last: Option<Value>,
    m: Machine,
    depth: nat,
)
    ensures
        eval_block(stmts, i, last, m, depth) == if 0 <= i < stmts.len() {
            let (r, m1) = eval_statement(stmts[i], m, depth);
            match r {
                Some(Value::Error(_)) => (r, m1),
                Some(Value::Return(_)) => (r, m1),
                _ => eval_block(stmts, i + 1, r, m1, depth),
            }
        } else {
            (last, m)
        },
{
    reveal_with_fuel(eval_block, 1);
    reveal_with_fuel(eval_statement, 1);
}

/// An expression in the place of a statement yields what the expression
/// yields.
pub proof fn lemma_expression_statement(e: ExprV, m: Machine, depth: nat)
    ensures
        eval_statement(StatementV::Expression(e), m, depth) == eval_expr(e, m, depth),
{
    reveal_with_fuel(eval_statement, 1);
    reveal_with_fuel(eval_expr, 1);
}

/// A return with an expression wraps what the expression yields in a return
/// marker.
pub proof fn lemma_return_statement(e: ExprV, m: Machine, depth: nat)
    ensures
        eval_statement(StatementV::Return(Some(e)), m, depth) == (
            return_outcome(eval_expr(e, m, depth).0),
            eval_expr(e, m, depth).1,
        ),
{
    reveal_with_fuel(eval_statement, 1);
    reveal_with_fuel(eval_expr, 1);
}

/// A return without an expression yields a return marker around `null`.
pub proof fn lemma_bare_return_statement(m: Machine, depth: nat)
    ensures
        eval_statement(StatementV::Return(None), m, depth) == (
            Some(Value::Return(Box::new(Value::Null))),
            m,
        ),
{
    reveal_with_fuel(eval_statement, 1);
}

/// A declaration evaluates its expression and binds the name in the active
/// scope.
pub proof fn lemma_let_statement(name: Seq<char>, e: ExprV, m: Machine, depth: nat)
    ensures
        eval_statement(StatementV::Let(name, e), m, depth) == binding_outcome(
            true,
            name,
            eval_expr(e, m, depth).0,
            eval_expr(e, m, depth).1,
        ),
{
    reveal_with_fuel(eval_statement, 1);
    reveal_with_fuel(eval_expr, 1);
}

/// A reassignment evaluates its expression and gives the value to the
/// nearest binding of the name.
pub proof fn lemma_reassign_statement(name: Seq<char>, e: ExprV, m: Machine, depth: nat)
    ensures
        eval_statement(StatementV::Reassign(name, e), m, depth) == binding_outcome(
            false,
            name,
            eval_expr(e, m, depth).0,
            eval_expr(e, m, depth).1,
        ),
{
    reveal_with_fuel(eval_statement, 1);
    reveal_with_fuel(eval_expr, 1);
}

/// An inclusion loads the module and puts its bindings into a new active
/// scope.
pub proof fn lemma_include_statement(name: Seq<char>, m: Machine, depth: nat)
    ensures
        eval_statement(StatementV::Include(name), m, depth) == include_outcome(
            name,
            load(name, m, depth).0,
            load(name, m, depth).1,
        ),
{
    reveal_with_fuel(eval_statement, 1);
    reveal_with_fuel(load, 1);
}

/// A name, a number, a string, a boolean and a function literal change
/// nothing. A function literal yields a function that remembers the active
/// scope.
pub proof fn lemma_simple_exprs(m: Machine, depth: nat)
    ensures
        forall|name: Seq<char>| #[trigger]
            eval_expr(ExprV::Ident(name), m, depth) == (Some(ident_value(m, name)), m),
        forall|i: i32| #[trigger]
            eval_expr(ExprV::Literal(LiteralV::Int(i)), m, depth) == (Some(Value::Int(i)), m),
        forall|s: Seq<char>| #[trigger]
            eval_expr(ExprV::Literal(LiteralV::String(s)), m, depth) == (
                Some(Value::String(s)),
                m,
            ),
        forall|b: bool| #[trigger]
            eval_expr(ExprV::Literal(LiteralV::Boolean(b)), m, depth) == (
                Some(Value::Bool(b)),
                m,
            ),
        forall|params: Seq<Seq<char>>, body: Seq<StatementV>| #[trigger]
            eval_expr(ExprV::Fun(params, body), m, depth) == (
                Some(Value::Function(params, body, m.scope)),
                m,
            ),
{
    reveal_with_fuel(eval_expr, 1);
}

/// An array literal yields the array of the values of its elements.
pub proof fn lemma_array_expr(items: Seq<ExprV>, m: Machine, depth: nat)
    ensures
        eval_expr(ExprV::Literal(LiteralV::Array(items)), m, depth) == (
            Some(Value::Array(eval_list(items, 0, Seq::empty(), m, depth).0)),
            eval_list(items, 0, Seq::empty(), m, depth).1,
        ),
{
    reveal_with_fuel(eval_expr, 1);
    reveal_with_fuel(eval_list, 1);
}

/// An object literal yields the mapping that its pairs make.
pub proof fn lemma_object_expr(pairs: Seq<(ExprV, ExprV)>, m: Machine, depth: nat)
    ensures
        eval_expr(ExprV::Literal(LiteralV::Object(pairs)), m, depth) == (
            Some(eval_pairs(pairs, 0, Seq::empty(), m, depth).0),
            eval_pairs(pairs, 0, Seq::empty(), m, depth).1,
        ),
{
    reveal_with_fuel(eval_expr, 1);
    reveal_with_fuel(eval_pairs, 1);
}

/// A prefix operation evaluates its operand and applies the operator.
pub proof fn lemma_prefix_expr(p: Prefix, right: ExprV, m: Machine, depth: nat)
    ensures
        eval_expr(ExprV::Prefix(p, Box::new(right)), m, depth) == (
            prefix_outcome(p, eval_expr(right, m, depth).0),
            eval_expr(right, m, depth).1,
        ),
{
    reveal_with_fuel(eval_expr, 1);
}

/// An infix operation evaluates its left operand, then its right operand,
/// and applies the operator.
pub proof fn lemma_infix_expr(op: Infix, left: ExprV, right: ExprV, m: Machine, depth: nat)
    ensures
        eval_expr(ExprV::Infix(op, Box::new(left), Box::new(right)), m, depth) == ({
            let (l, m1) = eval_expr(left, m, depth);
            let (r, m2) = eval_expr(right, m1, depth);
            (infix_result(op, l, r), m2)
        }),
{
    reveal_with_fuel(eval_expr, 1);
}

/// An index operation evaluates the container, then the index, and looks
/// the index up.
pub proof fn lemma_index_expr(array: ExprV, index: ExprV, m: Machine, depth: nat)
    ensures
        eval_expr(ExprV::Index(Box::new(array), Box::new(index)), m, depth) == ({
            let (a, m1) = eval_expr(array, m, depth);
            let (i, m2) = eval_expr(index, m1, depth);
            (index_result(a, i), m2)
        }),
{
    reveal_with_fuel(eval_expr, 1);
}

/// A conditional evaluates its condition and then the block that the
/// condition selects.
pub proof fn lemma_if_expr(
    cond: ExprV,
    consequence: Seq<StatementV>,
    alternative: Option<Seq<StatementV>>,
    m: Machine,
    depth: nat,
)
    ensures
        eval_expr(ExprV::If(Box::new(cond), consequence, alternative), m, depth) == ({
            let (c, m1) = eval_expr(cond, m, depth);
            match c {
                None => (None, m1),
                Some(v) => if is_truthy(v) {
                    eval_block(consequence, 0, None, m1, depth)
                } else {
                    match alternative {
                        Some(block) => eval_block(block, 0, None, m1, depth),
                        None => (None, m1),
                    }
                },
            }
        }),
{
    reveal_with_fuel(eval_expr, 1);
    reveal_with_fuel(eval_block, 1);
}

/// A call evaluates its arguments in order, then the function, and applies
/// the function to the arguments.
pub proof fn lemma_call_expr(function: ExprV, args: Seq<ExprV>, m: Machine, depth: nat)
    ensures
        eval_expr(ExprV::Call(Box::new(function), args), m, depth) == ({
            let (values, m1) = eval_list(args, 0, Seq::empty(), m, depth);
            let (f, m2) = eval_expr(function, m1, depth);
            let (v, m3) = apply(f, values, m2, depth);
            (Some(v), m3)
        }),
{
    reveal_with_fuel(eval_expr, 1);
    reveal_with_fuel(eval_list, 1);
    reveal_with_fuel(apply, 1);
}

/// A list of expressions is evaluated in order, and nothing counts as
/// `null`.
pub proof fn lemma_list(items: Seq<ExprV>, i: int, acc: Seq<Value>, m: Machine, depth: nat)
    ensures
        eval_list(items, i, acc, m, depth) == if 0 <= i < items.len() {
            let (r, m1) = eval_expr(items[i], m, depth);
            eval_list(items, i + 1, acc.push(or_null(r)), m1, depth)
        } else {
            (acc, m)
        },
{
    reveal_with_fuel(eval_list, 1);
    reveal_with_fuel(eval_expr, 1);
}

/// The pairs of an object literal are evaluated in order, key before value.
pub proof fn lemma_pairs(
    pairs: Seq<(ExprV, ExprV)>,
    i: int,
    acc: Seq<(Value, Value)>,
    m: Machine,
    depth: nat,
)
    ensures
        eval_pairs(pairs, i, acc, m, depth) == if 0 <= i < pairs.len() {
            let (k, m1) = eval_expr(pairs[i].0, m, depth);
            let key = or_null(k);
            if is_error(key) {
                (key, m1)
            } else {
                let (v, m2) = eval_expr(pairs[i].1, m1, depth);
                let value = or_null(v);
                if is_error(value) {
                    (value, m2)
                } else if !is_key(key) {
                    (Value::Error(literal_key_text(key)), m2)
                } else {
                    eval_pairs(pairs, i + 1, assoc_set(acc, key, value), m2, depth)
                }
            }
        } else {
            (Value::Object(acc), m)
        },
{
    reveal_with_fuel(eval_pairs, 1);
    reveal_with_fuel(eval_expr, 1);
}

/// The application of a function of the language, of a native function, and
/// of what is no function.
pub proof fn lemma_apply(f: Option<Value>, args: Seq<Value>, m: Machine, depth: nat)
    ensures
        apply(f, args, m, depth) == match f {
            Some(Value::Function(params, body, scope)) => if params.len() != args.len() {
                (Value::Error(arity_mismatch_text(params.len(), args.len())), m)
            } else if depth == 0 {
                (Value::Error(depth_text()), m)
            } else if scope >= m.scopes.len() {
                (Value::Error(no_scope_text()), m)
            } else {
                let (r, m1) = eval_block(
                    body,
                    0,
                    None,
                    enter(m, zip(params, args), Some(scope)),
                    (depth - 1) as nat,
                );
                (unwrap_return(r), back_to(m1, m.scope))
            },
            Some(Value::Builtin(b)) => call_builtin(b, args, m),
            Some(other) => (Value::Error(not_function_text(other)), m),
            None => (Value::Null, m),
        },
{
    reveal_with_fuel(apply, 1);
    reveal_with_fuel(eval_block, 1);
}

/// The evaluation of the source text of a module.
pub proof fn lemma_run_module(
    source: Seq<char>,
    globals: Seq<(Seq<char>, Value)>,
    m: Machine,
    depth: nat,
)
    ensures
        run_module(source, globals, m, depth) == ({
            let (stmts, errors) = parse_source(source);
            if errors.len() > 0 || depth == 0 {
                (None, m)
            } else {
                let (r, m1) = eval_program(
                    stmts,
                    0,
                    None,
                    enter(m, globals, None),
                    (depth - 1) as nat,
                );
                (Some(bind_all_exports(globals, m1)), back_to(m1, m.scope))
            }
        }),
{
    reveal_with_fuel(run_module, 1);
    reveal_with_fuel(eval_program, 1);
}

/// The loading of a module by its name.
pub proof fn lemma_load(name: Seq<char>, m: Machine, depth: nat)
    ensures
        load(name, m, depth) == if is_std_name(name) {
            match std_lib(name) {
                Some(res) => match res.raw {
                    Some(source) => run_module(source, res.globals, m, depth),
                    None => (Some(res.globals), m),
                },
                None => (None, m),
            }
        } else {
            match find_module(m.modules, name, 0) {
                Some(source) => run_module(source, Seq::empty(), m, depth),
                None => (None, m),
            }
        },
{
    reveal_with_fuel(load, 1);
    reveal_with_fuel(run_module, 1);
}

} // verus!
