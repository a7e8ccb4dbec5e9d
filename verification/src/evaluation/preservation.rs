//! Evaluation keeps a sound machine sound, and what it yields is within the
//! scopes of the machine. The proof follows the evaluation, construct by
//! construct.

use vstd::prelude::*;
use crate::ast::{ExprV, LiteralV, StatementV};
use crate::evaluation::object::Value;
use crate::evaluation::operators::{is_error, is_key, is_truthy};
use crate::evaluation::semantics::{
    apply, enter, eval_block, eval_expr, eval_list, eval_pairs, eval_program, eval_statement,
    find_module, ident_value, is_std_name, load, or_null, run_module, zip, Machine,
};
use crate::evaluation::soundness::{
    all_within, bindings_within, entries_within, follows, lemma_all_within_more,
    lemma_assoc_set_within, lemma_back_to_sound, lemma_binding_outcome_sound, lemma_builtin_sound,
    lemma_enter_sound, lemma_entries_within_more, lemma_exports_within, lemma_ident_within,
    lemma_include_outcome_sound, lemma_index_within, lemma_operators_within,
    lemma_option_within_more, lemma_std_lib_within, lemma_within_more, lemma_zip_within,
    option_within, sound, within,
};
use crate::evaluation::steps::{
    lemma_apply, lemma_array_expr, lemma_bare_return_statement, lemma_block, lemma_call_expr,
    lemma_expression_statement, lemma_if_expr, lemma_include_statement, lemma_index_expr,
    lemma_infix_expr, lemma_let_statement, lemma_list, lemma_load, lemma_object_expr, lemma_pairs,
    lemma_prefix_expr, lemma_program, lemma_reassign_statement, lemma_return_statement,
    lemma_run_module, lemma_simple_exprs,
};
use crate::parser::grammar::parse_source;
use crate::std_library::std_lib;

verus! {

/// A program keeps a sound machine sound.
pub proof fn lemma_program_sound(
    stmts: Seq<StatementV>,
    i: int,
    last: Option<Value>,
    m: Machine,
    depth: nat,
)
    requires
        sound(m),
        option_within(last, m.scopes.len()),
        0 <= i,
    ensures
        follows(m, eval_program(stmts, i, last, m, depth).1),
        option_within(
            eval_program(stmts, i, last, m, depth).0,
            eval_program(stmts, i, last, m, depth).1.scopes.len(),
        ),
    decreases 3 * depth + 2, stmts, stmts.len() - i,
{
    lemma_program(stmts, i, last, m, depth);
    if i < stmts.len() {
        lemma_statement_sound(stmts[i], m, depth);
        let (r, m1) = eval_statement(stmts[i], m, depth);
        match r {
            Some(Value::Error(_)) => {},
            Some(Value::Return(inner)) => {},
            _ => {
                lemma_program_sound(stmts, i + 1, r, m1, depth);
            },
        }
    }
}

/// A block keeps a sound machine sound.
pub proof fn lemma_block_sound(
    stmts: Seq<StatementV>,
    i: int,
    last: Option<Value>,
    m: Machine,
    depth: nat,
)
    requires
        sound(m),
        option_within(last, m.scopes.len()),
        0 <= i,
    ensures
        follows(m, eval_block(stmts, i, last, m, depth).1),
        option_within(
            eval_block(stmts, i, last, m, depth).0,
            eval_block(stmts, i, last, m, depth).1.scopes.len(),
        ),
    decreases 3 * depth + 2, stmts, stmts.len() - i,
{
    lemma_block(stmts, i, last, m, depth);
    if i < stmts.len() {
        lemma_statement_sound(stmts[i], m, depth);
        let (r, m1) = eval_statement(stmts[i], m, depth);
        match r {
            Some(Value::Error(_)) => {},
            Some(Value::Return(_)) => {},
            _ => {
                lemma_block_sound(stmts, i + 1, r, m1, depth);
            },
        }
    }
}

/// A statement keeps a sound machine sound.
pub proof fn lemma_statement_sound(s: StatementV, m: Machine, depth: nat)
    requires
        sound(m),
    ensures
        follows(m, eval_statement(s, m, depth).1),
        option_within(
            eval_statement(s, m, depth).0,
            eval_statement(s, m, depth).1.scopes.len(),
        ),
    decreases 3 * depth + 2, s, 0int,
{
    match s {
        StatementV::Expression(e) => {
            lemma_expression_statement(e, m, depth);
            lemma_expr_sound(e, m, depth);
        },
        StatementV::Return(Some(e)) => {
            lemma_return_statement(e, m, depth);
            lemma_expr_sound(e, m, depth);
            lemma_operators_within(eval_expr(e, m, depth).1.scopes.len());
        },
        StatementV::Return(None) => {
            lemma_bare_return_statement(m, depth);
            assert(within(Value::Null, m.scopes.len()));
        },
        StatementV::Let(name, e) => {
            lemma_let_statement(name, e, m, depth);
            lemma_expr_sound(e, m, depth);
            let (r, m1) = eval_expr(e, m, depth);
            lemma_binding_outcome_sound(true, name, r, m1);
        },
        StatementV::Reassign(name, e) => {
            lemma_reassign_statement(name, e, m, depth);
            lemma_expr_sound(e, m, depth);
            let (r, m1) = eval_expr(e, m, depth);
            lemma_binding_outcome_sound(false, name, r, m1);
        },
        StatementV::Include(name) => {
            lemma_include_statement(name, m, depth);
            lemma_load_sound(name, m, depth);
            let (exports, m1) = load(name, m, depth);
            lemma_include_outcome_sound(name, exports, m1);
        },
    }
}

/// An expression keeps a sound machine sound.
pub proof fn lemma_expr_sound(e: ExprV, m: Machine, depth: nat)
    requires
        sound(m),
    ensures
        follows(m, eval_expr(e, m, depth).1),
        option_within(eval_expr(e, m, depth).0, eval_expr(e, m, depth).1.scopes.len()),
    decreases 3 * depth + 2, e, 0int,
{
    lemma_simple_exprs(m, depth);
    match e {
        ExprV::Ident(name) => {
            lemma_ident_within(m, name);
            assert(eval_expr(e, m, depth) == (Some(ident_value(m, name)), m));
        },
        ExprV::Literal(LiteralV::Int(i)) => {
            assert(eval_expr(e, m, depth) == (Some(Value::Int(i)), m));
        },
        ExprV::Literal(LiteralV::String(s)) => {
            assert(eval_expr(e, m, depth) == (Some(Value::String(s)), m));
        },
        ExprV::Literal(LiteralV::Boolean(b)) => {
            assert(eval_expr(e, m, depth) == (Some(Value::Bool(b)), m));
        },
        ExprV::Literal(LiteralV::Array(items)) => {
            lemma_array_expr(items, m, depth);
            lemma_list_sound(items, 0, Seq::empty(), m, depth);
        },
        ExprV::Literal(LiteralV::Object(pairs)) => {
            lemma_object_expr(pairs, m, depth);
            lemma_pairs_sound(pairs, 0, Seq::empty(), m, depth);
        },
        ExprV::Prefix(p, right) => {
            lemma_prefix_expr(p, *right, m, depth);
            lemma_expr_sound(*right, m, depth);
            lemma_operators_within(eval_expr(*right, m, depth).1.scopes.len());
        },
        ExprV::Infix(op, left, right) => {
            lemma_infix_expr(op, *left, *right, m, depth);
            lemma_expr_sound(*left, m, depth);
            let (l, m1) = eval_expr(*left, m, depth);
            lemma_expr_sound(*right, m1, depth);
            let (r, m2) = eval_expr(*right, m1, depth);
            lemma_option_within_more(l, m1.scopes.len(), m2.scopes.len());
            lemma_operators_within(m2.scopes.len());
        },
        ExprV::If(cond, consequence, alternative) => {
            lemma_if_expr(*cond, consequence, alternative, m, depth);
            lemma_expr_sound(*cond, m, depth);
            let (c, m1) = eval_expr(*cond, m, depth);
            match c {
                None => {},
                Some(v) => {
                    if is_truthy(v) {
                        lemma_block_sound(consequence, 0, None, m1, depth);
                    } else {
                        match alternative {
                            Some(block) => {
                                lemma_block_sound(block, 0, None, m1, depth);
                            },
                            None => {},
                        }
                    }
                },
            }
        },
        ExprV::Fun(params, body) => {
            assert(eval_expr(e, m, depth) == (Some(Value::Function(params, body, m.scope)), m));
        },
        ExprV::Call(function, args) => {
            lemma_call_expr(*function, args, m, depth);
            lemma_list_sound(args, 0, Seq::empty(), m, depth);
            let (values, m1) = eval_list(args, 0, Seq::empty(), m, depth);
            lemma_expr_sound(*function, m1, depth);
            let (f, m2) = eval_expr(*function, m1, depth);
            lemma_all_within_more(values, m1.scopes.len(), m2.scopes.len());
            lemma_apply_sound(f, values, m2, depth);
        },
        ExprV::Index(array, index) => {
            lemma_index_expr(*array, *index, m, depth);
            lemma_expr_sound(*array, m, depth);
            let (a, m1) = eval_expr(*array, m, depth);
            lemma_expr_sound(*index, m1, depth);
            let (i, m2) = eval_expr(*index, m1, depth);
            lemma_option_within_more(a, m1.scopes.len(), m2.scopes.len());
            lemma_index_within(a, i, m2.scopes.len());
        },
    }
}

/// A list of expressions keeps a sound machine sound.
pub proof fn lemma_list_sound(items: Seq<ExprV>, i: int, acc: Seq<Value>, m: Machine, depth: nat)
    requires
        sound(m),
        all_within(acc, m.scopes.len()),
        0 <= i,
    ensures
        follows(m, eval_list(items, i, acc, m, depth).1),
        all_within(
            eval_list(items, i, acc, m, depth).0,
            eval_list(items, i, acc, m, depth).1.scopes.len(),
        ),
    decreases 3 * depth + 2, items, items.len() - i,
{
    lemma_list(items, i, acc, m, depth);
    if i < items.len() {
        lemma_expr_sound(items[i], m, depth);
        let (r, m1) = eval_expr(items[i], m, depth);
        lemma_all_within_more(acc, m.scopes.len(), m1.scopes.len());
        let more = acc.push(or_null(r));
        assert forall|k: int| 0 <= k < more.len() implies within(
            #[trigger] more[k],
            m1.scopes.len(),
        ) by {
            if k < acc.len() {
                assert(more[k] == acc[k]);
            }
        }
        lemma_list_sound(items, i + 1, more, m1, depth);
    }
}

/// The pairs of an object literal keep a sound machine sound.
pub proof fn lemma_pairs_sound(
    pairs: Seq<(ExprV, ExprV)>,
    i: int,
    acc: Seq<(Value, Value)>,
    m: Machine,
    depth: nat,
)
    requires
        sound(m),
        entries_within(acc, m.scopes.len()),
        0 <= i,
    ensures
        follows(m, eval_pairs(pairs, i, acc, m, depth).1),
        within(
            eval_pairs(pairs, i, acc, m, depth).0,
            eval_pairs(pairs, i, acc, m, depth).1.scopes.len(),
        ),
    decreases 3 * depth + 2, pairs, pairs.len() - i,
{
    lemma_pairs(pairs, i, acc, m, depth);
    if i < pairs.len() {
        lemma_expr_sound(pairs[i].0, m, depth);
        let (k, m1) = eval_expr(pairs[i].0, m, depth);
        let key = or_null(k);
        if !is_error(key) {
            lemma_expr_sound(pairs[i].1, m1, depth);
            let (v, m2) = eval_expr(pairs[i].1, m1, depth);
            let value = or_null(v);
            if !is_error(value) && is_key(key) {
                lemma_entries_within_more(acc, m.scopes.len(), m2.scopes.len());
                lemma_within_more(key, m1.scopes.len(), m2.scopes.len());
                lemma_assoc_set_within(acc, key, value, m2.scopes.len());
                lemma_pairs_sound(
                    pairs,
                    i + 1,
                    crate::evaluation::operators::assoc_set(acc, key, value),
                    m2,
                    depth,
                );
            }
        }
    }
}

/// A call keeps a sound machine sound, and leaves the active scope as it
/// was.
pub proof fn lemma_apply_sound(f: Option<Value>, args: Seq<Value>, m: Machine, depth: nat)
    requires
        sound(m),
        option_within(f, m.scopes.len()),
        all_within(args, m.scopes.len()),
    ensures
        follows(m, apply(f, args, m, depth).1),
        within(apply(f, args, m, depth).0, apply(f, args, m, depth).1.scopes.len()),
    decreases 3 * depth, args, 0int,
{
    lemma_apply(f, args, m, depth);
    match f {
        Some(Value::Function(params, body, scope)) => {
            if params.len() == args.len() && depth > 0 && scope < m.scopes.len() {
                lemma_zip_within(params, args, m.scopes.len());
                lemma_enter_sound(m, zip(params, args), Some(scope));
                let inner = enter(m, zip(params, args), Some(scope));
                lemma_block_sound(body, 0, None, inner, (depth - 1) as nat);
                let (r, m1) = eval_block(body, 0, None, inner, (depth - 1) as nat);
                lemma_back_to_sound(m1, m.scope);
                lemma_operators_within(m1.scopes.len());
            }
        },
        Some(Value::Builtin(b)) => {
            lemma_builtin_sound(b, args, m);
        },
        _ => {},
    }
}

/// The evaluation of the source text of a module keeps a sound machine
/// sound, and what it exports is within the scopes.
pub proof fn lemma_run_module_sound(
    source: Seq<char>,
    globals: Seq<(Seq<char>, Value)>,
    m: Machine,
    depth: nat,
)
    requires
        sound(m),
        bindings_within(globals, m.scopes.len()),
    ensures
        follows(m, run_module(source, globals, m, depth).1),
        run_module(source, globals, m, depth).0 matches Some(exports) ==> bindings_within(
            exports,
            run_module(source, globals, m, depth).1.scopes.len(),
        ),
    decreases 3 * depth, source, 0int,
{
    lemma_run_module(source, globals, m, depth);
    let (stmts, errors) = parse_source(source);
    if errors.len() == 0 && depth > 0 {
        lemma_enter_sound(m, globals, None);
        let inner = enter(m, globals, None);
        lemma_program_sound(stmts, 0, None, inner, (depth - 1) as nat);
        let (r, m1) = eval_program(stmts, 0, None, inner, (depth - 1) as nat);
        crate::evaluation::soundness::lemma_bindings_within_more(
            globals,
            m.scopes.len(),
            m1.scopes.len(),
        );
        lemma_exports_within(globals, m1);
        lemma_back_to_sound(m1, m.scope);
    }
}

/// The loading of a module keeps a sound machine sound, and what the module
/// exports is within the scopes.
pub proof fn lemma_load_sound(name: Seq<char>, m: Machine, depth: nat)
    requires
        sound(m),
    ensures
        follows(m, load(name, m, depth).1),
        load(name, m, depth).0 matches Some(exports) ==> bindings_within(
            exports,
            load(name, m, depth).1.scopes.len(),
        ),
    decreases 3 * depth + 1, name, 0int,
{
    lemma_load(name, m, depth);
    lemma_std_lib_within(name, m.scopes.len());
    if is_std_name(name) {
        match std_lib(name) {
            Some(res) => match res.raw {
                Some(source) => {
                    lemma_run_module_sound(source, res.globals, m, depth);
                },
                None => {},
            },
            None => {},
        }
    } else {
        match find_module(m.modules, name, 0) {
            Some(source) => {
                assert(bindings_within(Seq::<(Seq<char>, Value)>::empty(), m.scopes.len()));
                lemma_run_module_sound(source, Seq::empty(), m, depth);
            },
            None => {},
        }
    }
}

} // verus!
