//! The meaning of programs: what the evaluation of a statement or an
//! expression yields, and how it changes the machine. The evaluator is proved
//! to compute exactly the functions defined here.
//!
//! A call of a function of the language and the loading of a module written
//! in the language each take one unit of `depth`; where none is left, the
//! result is an error. So every evaluation ends.

use vstd::prelude::*;
use crate::ast::{ExprV, LiteralV, StatementV};
use crate::evaluation::object::{value_text, Builtin, Value};
use crate::evaluation::operators::{
    assoc_set, index_result, infix_result, is_error, is_key, is_truthy, prefix_value,
    unwrap_return, bad_key_text,
};
use crate::evaluation::store::{assign, bind_all, declare, find_name, lookup, ScopeV};
use crate::parser::grammar::parse_source;
use crate::std_library::{builtin_value, std_lib};
use crate::text::decimal;

verus! {

/// The state in which a program runs.
pub struct Machine {
    /// The scopes made so far.
    pub scopes: Seq<ScopeV>,
    /// The index of the active scope.
    pub scope: nat,
    /// The lines written by `log`.
    pub output: Seq<Seq<char>>,
    /// The modules that `include` can bring in, each as a name and a source
    /// text.
    pub modules: Seq<(Seq<char>, Seq<char>)>,
}

/// What an evaluation yields: a value or nothing, and the machine after it.
pub type Outcome = (Option<Value>, Machine);

/// The names that are bound in every scope, before any binding of the program.
pub open spec fn globals_model() -> Seq<(Seq<char>, Value)> {
    seq![("log"@, Value::Builtin(Builtin::Log))]
}

/// The text of the error for a name that no scope binds.
pub open spec fn not_found_text(name: Seq<char>) -> Seq<char> {
    "identifier not found: "@ + name
}

/// The text of the error for a call of a value that is no function.
pub open spec fn not_function_text(v: Value) -> Seq<char> {
    "function not found: "@ + value_text(v)
}

/// The text of the error for a call with `given` arguments of a function
/// with `wanted` parameters.
pub open spec fn arity_mismatch_text(wanted: nat, given: nat) -> Seq<char> {
    "wrong number of arguments: expected "@ + decimal(wanted) + ", given "@ + decimal(given)
}

/// The text of the error for a call where no depth is left.
pub open spec fn depth_text() -> Seq<char> {
    "maximum call depth exceeded"@
}

/// The text of the error for a function whose scope the machine does not
/// hold.
pub open spec fn no_scope_text() -> Seq<char> {
    "function scope not found"@
}

/// The text of the error for a module that could not be loaded.
pub open spec fn not_loaded_text(name: Seq<char>) -> Seq<char> {
    "could not load lib: "@ + name
}

/// The text of the error for `log` without arguments.
pub open spec fn log_arity_text() -> Seq<char> {
    "Wrong number of arguments"@
}

/// The value of the name `name`: that of a global where there is one of that
/// name, else that of the nearest binding from the active scope outward, and
/// an error where there is none.
pub open spec fn ident_value(m: Machine, name: Seq<char>) -> Value {
    match find_name(globals_model(), name, 0) {
        Some(i) => globals_model()[i].1,
        None => match lookup(m.scopes, m.scope, name) {
            Some(v) => v,
            None => Value::Error(not_found_text(name)),
        },
    }
}

/// The line that `log` writes for `args[from..]`: each argument, followed by
/// a space.
pub open spec fn log_line(args: Seq<Value>, from: int) -> Seq<char>
    decreases args.len() - from,
{
    if 0 <= from < args.len() {
        value_text(args[from]) + " "@ + log_line(args, from + 1)
    } else {
        Seq::empty()
    }
}

/// What the call of the native function `b` with `args` yields.
pub open spec fn call_builtin(b: Builtin, args: Seq<Value>, m: Machine) -> (Value, Machine) {
    if b == Builtin::Log {
        if args.len() < 1 {
            (Value::Error(log_arity_text()), m)
        } else {
            (Value::Null, Machine { output: m.output.push(log_line(args, 0)), ..m })
        }
    } else {
        (builtin_value(b, args), m)
    }
}

/// Parameters and arguments, pair by pair.
pub open spec fn zip(names: Seq<Seq<char>>, values: Seq<Value>) -> Seq<(Seq<char>, Value)> {
    Seq::new(names.len(), |i: int| (names[i], values[i]))
}

/// The machine with one more scope, which holds `bindings`, is enclosed by
/// `outer` and is the active scope.
pub open spec fn enter(m: Machine, bindings: Seq<(Seq<char>, Value)>, outer: Option<nat>) -> Machine {
    Machine {
        scopes: m.scopes.push(ScopeV { bindings: bind_all(Seq::empty(), bindings, 0), outer }),
        scope: m.scopes.len(),
        ..m
    }
}

/// The machine `m` with `scope` as the active scope.
pub open spec fn back_to(m: Machine, scope: nat) -> Machine {
    Machine { scope, ..m }
}

/// The bindings of `scope` itself.
pub open spec fn own_bindings(scopes: Seq<ScopeV>, scope: nat) -> Seq<(Seq<char>, Value)> {
    if scope < scopes.len() {
        scopes[scope as int].bindings
    } else {
        Seq::empty()
    }
}

/// The source text of the module named `name`, the first of that name.
pub open spec fn find_module(modules: Seq<(Seq<char>, Seq<char>)>, name: Seq<char>, from: int) -> Option<
    Seq<char>,
>
    decreases modules.len() - from,
{
    if 0 <= from < modules.len() {
        if modules[from].0 == name {
            Some(modules[from].1)
        } else {
            find_module(modules, name, from + 1)
        }
    } else {
        None
    }
}

/// Whether `name` names a module of the standard library: whether it starts
/// with `std:`.
pub open spec fn is_std_name(name: Seq<char>) -> bool {
    name.len() >= 4 && name[0] == 's' && name[1] == 't' && name[2] == 'd' && name[3] == ':'
}

/// What the statements `stmts[i..]` of a program yield, where the ones before
/// gave `last`. An error ends the program and is its result; so does a
/// return, whose value is the result.
#[verifier::opaque]
pub open spec fn eval_program(
    stmts: Seq<StatementV>,
    i: int,
    last: Option<Value>,
    m: Machine,
    depth: nat,
) -> Outcome
    decreases 3 * depth + 2, stmts, stmts.len() - i,
{
    if 0 <= i < stmts.len() {
        let (r, m1) = eval_statement(stmts[i], m, depth);
        match r {
            Some(Value::Error(_)) => (r, m1),
            Some(Value::Return(inner)) => (Some(*inner), m1),
            _ => eval_program(stmts, i + 1, r, m1, depth),
        }
    } else {
        (last, m)
    }
}

/// What the statements `stmts[i..]` of a block yield, where the ones before
/// gave `last`. An error or a return ends the block and is its result.
#[verifier::opaque]
pub open spec fn eval_block(
    stmts: Seq<StatementV>,
    i: int,
    last: Option<Value>,
    m: Machine,
    depth: nat,
) -> Outcome
    decreases 3 * depth + 2, stmts, stmts.len() - i,
{
    if 0 <= i < stmts.len() {
        let (r, m1) = eval_statement(stmts[i], m, depth);
        match r {
            Some(Value::Error(_)) => (r, m1),
            Some(Value::Return(_)) => (r, m1),
            _ => eval_block(stmts, i + 1, r, m1, depth),
        }
    } else {
        (last, m)
    }
}

/// What a declaration or a reassignment of `name` yields, where its
/// expression gave `r`.
pub open spec fn binding_outcome(fresh: bool, name: Seq<char>, r: Option<Value>, m: Machine) -> Outcome {
    match r {
        None => (None, m),
        Some(v) => if is_error(v) {
            (Some(v), m)
        } else if fresh {
            (None, Machine { scopes: declare(m.scopes, m.scope, name, v), ..m })
        } else {
            match assign(m.scopes, m.scope, name, v) {
                Some(scopes) => (None, Machine { scopes, ..m }),
                None => (Some(Value::Error(not_found_text(name))), m),
            }
        },
    }
}

/// What a return statement yields, where its expression gave `r`.
pub open spec fn return_outcome(r: Option<Value>) -> Option<Value> {
    match r {
        Some(v) => Some(Value::Return(Box::new(v))),
        None => None,
    }
}

/// What `include name` yields, where loading the module gave `exports`.
pub open spec fn include_outcome(
    name: Seq<char>,
    exports: Option<Seq<(Seq<char>, Value)>>,
    m: Machine,
) -> Outcome {
    match exports {
        Some(bindings) => (None, enter(m, bindings, Some(m.scope))),
        None => (Some(Value::Error(not_loaded_text(name))), m),
    }
}

/// What a statement yields.
#[verifier::opaque]
pub open spec fn eval_statement(s: StatementV, m: Machine, depth: nat) -> Outcome
    decreases 3 * depth + 2, s, 0int,
{
    match s {
        StatementV::Expression(e) => eval_expr(e, m, depth),
        StatementV::Return(Some(e)) => {
            let (r, m1) = eval_expr(e, m, depth);
            (return_outcome(r), m1)
        },
        StatementV::Return(None) => (Some(Value::Return(Box::new(Value::Null))), m),
        StatementV::Let(name, e) => {
            let (r, m1) = eval_expr(e, m, depth);
            binding_outcome(true, name, r, m1)
        },
        StatementV::Reassign(name, e) => {
            let (r, m1) = eval_expr(e, m, depth);
            binding_outcome(false, name, r, m1)
        },
        StatementV::Include(name) => {
            let (exports, m1) = load(name, m, depth);
            include_outcome(name, exports, m1)
        },
    }
}

/// What a prefix operation yields, where its operand gave `r`.
pub open spec fn prefix_outcome(p: crate::ast::Prefix, r: Option<Value>) -> Option<Value> {
    match r {
        Some(v) => Some(prefix_value(p, v)),
        None => None,
    }
}

/// What an expression yields.
#[verifier::opaque]
pub open spec fn eval_expr(e: ExprV, m: Machine, depth: nat) -> Outcome
    decreases 3 * depth + 2, e, 0int,
{
    match e {
        ExprV::Ident(name) => (Some(ident_value(m, name)), m),
        ExprV::Literal(LiteralV::Int(i)) => (Some(Value::Int(i)), m),
        ExprV::Literal(LiteralV::String(s)) => (Some(Value::String(s)), m),
        ExprV::Literal(LiteralV::Boolean(b)) => (Some(Value::Bool(b)), m),
        ExprV::Literal(LiteralV::Array(items)) => {
            let (values, m1) = eval_list(items, 0, Seq::empty(), m, depth);
            (Some(Value::Array(values)), m1)
        },
        ExprV::Literal(LiteralV::Object(pairs)) => {
            let (v, m1) = eval_pairs(pairs, 0, Seq::empty(), m, depth);
            (Some(v), m1)
        },
        ExprV::Prefix(p, right) => {
            let (r, m1) = eval_expr(*right, m, depth);
            (prefix_outcome(p, r), m1)
        },
        ExprV::Infix(op, left, right) => {
            let (l, m1) = eval_expr(*left, m, depth);
            let (r, m2) = eval_expr(*right, m1, depth);
            (infix_result(op, l, r), m2)
        },
        ExprV::If(cond, consequence, alternative) => {
            let (c, m1) = eval_expr(*cond, m, depth);
            match c {
                None => (None, m1),
                Some(v) => if is_truthy(v) {
                    eval_block(consequence, 0, None, m1, depth)
                } else {
                    match alternative {
                        Some(block) => eval_block(block, 0, None, m1, depth),
                        None => (None, m1),
                    }
                },
            }
        },
        ExprV::Fun(params, body) => (Some(Value::Function(params, body, m.scope)), m),
        ExprV::Call(function, args) => {
            let (values, m1) = eval_list(args, 0, Seq::empty(), m, depth);
            let (f, m2) = eval_expr(*function, m1, depth);
            let (v, m3) = apply(f, values, m2, depth);
            (Some(v), m3)
        },
        ExprV::Index(array, index) => {
            let (a, m1) = eval_expr(*array, m, depth);
            let (i, m2) = eval_expr(*index, m1, depth);
            (index_result(a, i), m2)
        },
    }
}

/// The value for what an expression yields: `null` for nothing.
pub open spec fn or_null(r: Option<Value>) -> Value {
    match r {
        Some(v) => v,
        None => Value::Null,
    }
}

/// The values of the expressions `items[i..]`, in order, after `acc`. An
/// expression that yields nothing counts as `null`.
#[verifier::opaque]
pub open spec fn eval_list(items: Seq<ExprV>, i: int, acc: Seq<Value>, m: Machine, depth: nat) -> (
    Seq<Value>,
    Machine,
)
    decreases 3 * depth + 2, items, items.len() - i,
{
    if 0 <= i < items.len() {
        let (r, m1) = eval_expr(items[i], m, depth);
        eval_list(items, i + 1, acc.push(or_null(r)), m1, depth)
    } else {
        (acc, m)
    }
}

/// The text of the error for a key of an object literal that cannot be a key.
pub open spec fn literal_key_text(key: Value) -> Seq<char> {
    bad_key_text(key)
}

/// The mapping that the pairs `pairs[i..]` of an object literal make, added
/// to the entries `acc`. Key and value are evaluated in this order, pair by
/// pair; the first of them that is an error is the result, and so is the
/// error for a key that is neither integer, boolean nor string. A later pair
/// overwrites an earlier one with the same key.
#[verifier::opaque]
pub open spec fn eval_pairs(
    pairs: Seq<(ExprV, ExprV)>,
    i: int,
    acc: Seq<(Value, Value)>,
    m: Machine,
    depth: nat,
) -> (Value, Machine)
    decreases 3 * depth + 2, pairs, pairs.len() - i,
{
    if 0 <= i < pairs.len() {
        let (k, m1) = eval_expr(pairs[i].0, m, depth);
        let key = or_null(k);
        if is_error(key) {
            (key, m1)
        } else {
            let (v, m2) = eval_expr(pairs[i].1, m1, depth);
            let value = or_null(v);
            if is_error(value) {
                (value, m2)
            } else if !is_key(key) {
                (Value::Error(literal_key_text(key)), m2)
            } else {
                eval_pairs(pairs, i + 1, assoc_set(acc, key, value), m2, depth)
            }
        }
    } else {
        (Value::Object(acc), m)
    }
}

/// What the call of `f` with `args` yields. A function of the language runs
/// its body in a new scope that binds the parameters and is enclosed by the
/// scope in which the function was made; afterwards the scope of the caller
/// is active again.
#[verifier::opaque]
pub open spec fn apply(f: Option<Value>, args: Seq<Value>, m: Machine, depth: nat) -> (
    Value,
    Machine,
)
    decreases 3 * depth, args, 0int,
{
    match f {
        Some(Value::Function(params, body, scope)) => if params.len() != args.len() {
            (Value::Error(arity_mismatch_text(params.len(), args.len())), m)
        } else if depth == 0 {
            (Value::Error(depth_text()), m)
        } else if scope >= m.scopes.len() {
            (Value::Error(no_scope_text()), m)
        } else {
            let (r, m1) = eval_block(
                body,
                0,
                None,
                enter(m, zip(params, args), Some(scope)),
                (depth - 1) as nat,
            );
            (unwrap_return(r), back_to(m1, m.scope))
        },
        Some(Value::Builtin(b)) => call_builtin(b, args, m),
        Some(other) => (Value::Error(not_function_text(other)), m),
        None => (Value::Null, m),
    }
}

/// What a module exports when its source text has left the machine `m`: the
/// bindings `globals` and, over them, those of the active scope.
pub open spec fn bind_all_exports(globals: Seq<(Seq<char>, Value)>, m: Machine) -> Seq<
    (Seq<char>, Value),
> {
    bind_all(bind_all(Seq::empty(), globals, 0), own_bindings(m.scopes, m.scope), 0)
}

/// What the evaluation of the source text `source` of a module exports: the
/// bindings `globals` and, over them, those of the scope that is active when
/// the text has run in a new scope of its own that holds `globals`. Nothing
/// is exported where the text does not parse or no depth is left.
#[verifier::opaque]
pub open spec fn run_module(
    source: Seq<char>,
    globals: Seq<(Seq<char>, Value)>,
    m: Machine,
    depth: nat,
) -> (Option<Seq<(Seq<char>, Value)>>, Machine)
    decreases 3 * depth, source, 0int,
{
    let (stmts, errors) = parse_source(source);
    if errors.len() > 0 || depth == 0 {
        (None, m)
    } else {
        let (r, m1) = eval_program(stmts, 0, None, enter(m, globals, None), (depth - 1) as nat);
        (Some(bind_all_exports(globals, m1)), back_to(m1, m.scope))
    }
}

/// What the module named `name` exports: for a module of the standard
/// library its native bindings, together with what its source text exports
/// where it has one; for another module what its source text exports. The
/// names that start with `std:` are those of the standard library.
#[verifier::opaque]
pub open spec fn load(name: Seq<char>, m: Machine, depth: nat) -> (
    Option<Seq<(Seq<char>, Value)>>,
    Machine,
)
    decreases 3 * depth + 1, name, 0int,
{
    if is_std_name(name) {
        match std_lib(name) {
            Some(res) => match res.raw {
                Some(source) => run_module(source, res.globals, m, depth),
                None => (Some(res.globals), m),
            },
            None => (None, m),
        }
    } else {
        match find_module(m.modules, name, 0) {
            Some(source) => run_module(source, Seq::empty(), m, depth),
            None => (None, m),
        }
    }
}

} // verus!
