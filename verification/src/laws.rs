//! Laws of the language, proved from its meaning.

use vstd::prelude::*;
use crate::ast::{ExprV, StatementV};
use crate::evaluation::object::Value;
use crate::evaluation::operators::{array_index, is_error, is_truthy, unwrap_return};
use crate::evaluation::preservation::lemma_program_sound;
use crate::evaluation::semantics::{
    apply, arity_mismatch_text, back_to, enter, eval_block, eval_expr, eval_program,
    eval_statement, not_found_text, zip, Machine,
};
use crate::evaluation::soundness::{
    follows, lemma_find_name_bounds, lemma_owner_bounds, option_within, scopes_sound, sound,
    within,
};
use crate::evaluation::steps::lemma_apply;
use crate::evaluation::store::{
    assign, bind, declare, enclose, find_name, lookup, owner, ScopeV,
};
use crate::interpreter::start;
use crate::lexer::{lemma_scan_advances, scan};
use crate::parser::grammar::tokens_of;

verus! {

/// A reassignment of a name that no scope of the chain binds changes no
/// binding and yields the error that the identifier was not found, whenever
/// its expression yields a value that is no error.
pub proof fn law_reassign_undeclared(name: Seq<char>, e: ExprV, m: Machine, depth: nat)
    requires
        eval_expr(e, m, depth).0 is Some,
        !is_error(eval_expr(e, m, depth).0->0),
        owner(eval_expr(e, m, depth).1.scopes, eval_expr(e, m, depth).1.scope, name) is None,
    ensures
        eval_statement(StatementV::Reassign(name, e), m, depth) == (
            Some(Value::Error(not_found_text(name))),
            eval_expr(e, m, depth).1,
        ),
{
    crate::evaluation::steps::lemma_reassign_statement(name, e, m, depth);
}

/// A call of a function of the language with a number of arguments other
/// than the number of its parameters changes nothing and yields an error
/// that names both numbers.
pub proof fn law_arity_mismatch(
    params: Seq<Seq<char>>,
    body: Seq<StatementV>,
    scope: nat,
    args: Seq<Value>,
    m: Machine,
    depth: nat,
)
    requires
        params.len() != args.len(),
    ensures
        apply(Some(Value::Function(params, body, scope)), args, m, depth) == (
            Value::Error(arity_mismatch_text(params.len(), args.len())),
            m,
        ),
{
    reveal_with_fuel(apply, 1);
}

/// Only `false` and `null` are falsy: a value is truthy exactly when it is
/// neither.
pub proof fn law_truthiness(v: Value)
    ensures
        is_truthy(v) <==> !(v is Null || v == Value::Bool(false)),
        is_truthy(Value::Int(0)),
        is_truthy(Value::String(Seq::empty())),
        is_truthy(Value::Array(Seq::empty())),
        !is_truthy(Value::Bool(false)),
        !is_truthy(Value::Null),
{
}

/// A conditional whose condition yields a truthy value yields what its
/// first block yields; one whose condition yields a falsy value yields what
/// its second block yields, and nothing where it has none.
pub proof fn law_conditional(
    cond: ExprV,
    consequence: Seq<StatementV>,
    alternative: Option<Seq<StatementV>>,
    m: Machine,
    depth: nat,
)
    requires
        eval_expr(cond, m, depth).0 is Some,
    ensures
        ({
            let (c, m1) = eval_expr(cond, m, depth);
            let whole = eval_expr(ExprV::If(Box::new(cond), consequence, alternative), m, depth);
            if is_truthy(c->0) {
                whole == eval_block(consequence, 0, None, m1, depth)
            } else {
                match alternative {
                    Some(block) => whole == eval_block(block, 0, None, m1, depth),
                    None => whole == (None::<Value>, m1),
                }
            }
        }),
{
    reveal_with_fuel(eval_expr, 1);
    reveal_with_fuel(eval_block, 1);
}

/// An index into an array never fails: inside the array it gives the
/// element, counted from the end where it is negative, and outside the array
/// it gives `null`.
pub proof fn law_array_index(items: Seq<Value>, i: i32)
    ensures
        0 <= i < items.len() ==> array_index(items, i) == items[i as int],
        -items.len() <= i < 0 ==> array_index(items, i) == items[items.len() + i],
        i >= items.len() || i < -items.len() ==> array_index(items, i) == Value::Null,
{
}

/// The tokens of a text end with `Eof`, and hold no other `Eof` and no
/// comment.
pub proof fn law_token_stream(input: Seq<char>, pos: int)
    requires
        0 <= pos <= input.len(),
    ensures
        tokens_of(input, pos).len() >= 1,
        tokens_of(input, pos).last() is Eof,
        forall|i: int|
            0 <= i < tokens_of(input, pos).len() - 1 ==> !(#[trigger] tokens_of(input, pos)[i]
                is Eof) && !(tokens_of(input, pos)[i] is Comment),
    decreases input.len() - pos,
{
    let (token, next) = scan(input, pos);
    lemma_scan_advances(input, pos);
    if !(token is Eof || next <= pos || next > input.len()) {
        law_token_stream(input, next);
        if !(token is Comment) {
            let rest = tokens_of(input, next);
            let all = tokens_of(input, pos);
            assert(all == seq![token] + rest);
            assert forall|i: int| 0 <= i < all.len() - 1 implies !(#[trigger] all[i] is Eof) && !(
            all[i] is Comment) by {
                if i > 0 {
                    assert(all[i] == rest[i - 1]);
                }
            }
            assert(all.last() == rest.last());
        }
    }
}

/// The machine in which a program starts is sound.
pub proof fn law_start_is_sound(modules: Seq<(Seq<char>, Seq<char>)>)
    ensures
        sound(start(modules)),
{
}

/// A program keeps a sound machine sound: afterwards every scope is still
/// enclosed by an older scope or by none, so that every chain of enclosing
/// scopes is finite and without cycles; no scope is lost; and every function
/// in a binding or in the result was made in a scope of the machine, so that
/// no call fails for want of the scope of its function.
pub proof fn law_evaluation_keeps_machine_sound(stmts: Seq<StatementV>, m: Machine, depth: nat)
    requires
        sound(m),
    ensures
        follows(m, eval_program(stmts, 0, None, m, depth).1),
        option_within(
            eval_program(stmts, 0, None, m, depth).0,
            eval_program(stmts, 0, None, m, depth).1.scopes.len(),
        ),
{
    lemma_program_sound(stmts, 0, None, m, depth);
}

/// In sound scopes the search for a name follows every link to an enclosing
/// scope, and visits no scope that is younger than the one it starts from.
pub proof fn law_lookup_follows_the_chain(scopes: Seq<ScopeV>, scope: nat, name: Seq<char>)
    requires
        scopes_sound(scopes),
        scope < scopes.len(),
        find_name(scopes[scope as int].bindings, name, 0) is None,
    ensures
        owner(scopes, scope, name) == match scopes[scope as int].outer {
            Some(parent) => owner(scopes, parent, name),
            None => None,
        },
        owner(scopes, scope, name) matches Some(o) ==> o < scope,
{
    lemma_owner_bounds(scopes, scope, name);
    if let Some(parent) = scopes[scope as int].outer {
        lemma_owner_bounds(scopes, parent, name);
    }
}

/// A name has in a scope the value that was last declared for it there.
pub proof fn law_get_after_set(scopes: Seq<ScopeV>, scope: nat, name: Seq<char>, value: Value)
    requires
        scope < scopes.len(),
    ensures
        lookup(declare(scopes, scope, name, value), scope, name) == Some(value),
        declare(scopes, scope, name, value).len() == scopes.len(),
{
    lemma_bind_finds(scopes[scope as int].bindings, name, value);
}

/// After a binding of `name`, the name is found, with the value bound.
proof fn lemma_bind_finds(bindings: Seq<(Seq<char>, Value)>, name: Seq<char>, value: Value)
    ensures
        find_name(bind(bindings, name, value), name, 0) matches Some(i) && 0 <= i < bind(
            bindings,
            name,
            value,
        ).len() && bind(bindings, name, value)[i].1 == value,
{
    lemma_find_name_bounds(bindings, name, 0);
    lemma_find_first(bindings, name, 0);
    let after = bind(bindings, name, value);
    match find_name(bindings, name, 0) {
        Some(k) => {
            lemma_find_stays(bindings, after, name, 0, k);
        },
        None => {
            lemma_find_stays(bindings, after, name, 0, bindings.len() as int);
        },
    }
}

/// Where two lists of bindings have the same names before `k`, none of them
/// `name`, and the second has `name` at `k`, the name is found at `k`.
proof fn lemma_find_stays(
    before: Seq<(Seq<char>, Value)>,
    after: Seq<(Seq<char>, Value)>,
    name: Seq<char>,
    from: int,
    k: int,
)
    requires
        0 <= from <= k < after.len(),
        k <= before.len(),
        after[k].0 == name,
        forall|j: int| from <= j < k ==> (#[trigger] after[j]).0 == before[j].0,
        forall|j: int| from <= j < k ==> (#[trigger] before[j]).0 != name,
    ensures
        find_name(after, name, from) == Some(k),
    decreases k - from,
{
    if from < k {
        assert(after[from].0 == before[from].0);
        assert(before[from].0 != name);
        lemma_find_stays(before, after, name, from + 1, k);
    }
}

/// The search for a name finds nothing before the place where it finds the
/// name.
proof fn lemma_find_first(bindings: Seq<(Seq<char>, Value)>, name: Seq<char>, from: int)
    requires
        0 <= from,
    ensures
        forall|j: int|
            from <= j < (match find_name(bindings, name, from) {
                Some(i) => i,
                None => bindings.len() as int,
            }) ==> (#[trigger] bindings[j]).0 != name,
    decreases bindings.len() - from,
{
    if from < bindings.len() && bindings[from].0 != name {
        lemma_find_first(bindings, name, from + 1);
    }
}

/// A declaration of one name changes the value of no other name, in any
/// scope.
pub proof fn law_set_keeps_other_names(
    scopes: Seq<ScopeV>,
    scope: nat,
    name: Seq<char>,
    value: Value,
    from: nat,
    other: Seq<char>,
)
    requires
        other != name,
    ensures
        lookup(declare(scopes, scope, name, value), from, other) == lookup(scopes, from, other),
    decreases from,
{
    let after = declare(scopes, scope, name, value);
    if scope < scopes.len() {
        lemma_bind_keeps_others(scopes[scope as int].bindings, name, value, other, 0);
        if from < scopes.len() {
            if from != scope {
                assert(after[from as int] == scopes[from as int]);
            }
            if find_name(scopes[from as int].bindings, other, 0) is None {
                if let Some(parent) = scopes[from as int].outer {
                    if parent < from {
                        law_set_keeps_other_names(scopes, scope, name, value, parent, other);
                    }
                }
            }
        }
    }
}

/// A binding of one name leaves every other name where it was, with the
/// value it had.
proof fn lemma_bind_keeps_others(
    bindings: Seq<(Seq<char>, Value)>,
    name: Seq<char>,
    value: Value,
    other: Seq<char>,
    from: int,
)
    requires
        other != name,
        0 <= from,
    ensures
        find_name(bind(bindings, name, value), other, from) == find_name(bindings, other, from),
        find_name(bindings, other, from) matches Some(i) ==> bind(bindings, name, value)[i].1
            == bindings[i].1,
    decreases bindings.len() - from,
{
    lemma_find_name_bounds(bindings, name, 0);
    let after = bind(bindings, name, value);
    if from < bindings.len() {
        assert(after[from].0 == other <==> bindings[from].0 == other);
        if bindings[from].0 != other {
            lemma_bind_keeps_others(bindings, name, value, other, from + 1);
        }
    } else if from < after.len() {
        assert(after[from].0 == name);
    }
}

/// A declaration in a scope is not seen from an older scope.
pub proof fn law_younger_scopes_are_hidden(
    scopes: Seq<ScopeV>,
    scope: nat,
    name: Seq<char>,
    value: Value,
    from: nat,
    asked: Seq<char>,
)
    requires
        from < scope,
    ensures
        lookup(declare(scopes, scope, name, value), from, asked) == lookup(scopes, from, asked),
    decreases from,
{
    let after = declare(scopes, scope, name, value);
    if scope < scopes.len() {
        assert(after[from as int] == scopes[from as int]);
        if find_name(scopes[from as int].bindings, asked, 0) is None {
            if let Some(parent) = scopes[from as int].outer {
                if parent < from {
                    law_younger_scopes_are_hidden(scopes, scope, name, value, parent, asked);
                }
            }
        }
    }
}

/// After a reassignment the name has the new value, seen from the scope of
/// the reassignment; and a reassignment succeeds exactly where the name has
/// a value.
pub proof fn law_get_after_update(scopes: Seq<ScopeV>, scope: nat, name: Seq<char>, value: Value)
    ensures
        assign(scopes, scope, name, value) is Some <==> lookup(scopes, scope, name) is Some,
        assign(scopes, scope, name, value) matches Some(after) ==> lookup(after, scope, name)
            == Some(value) && after.len() == scopes.len(),
    decreases scope,
{
    lemma_owner_bounds(scopes, scope, name);
    if let Some(o) = owner(scopes, scope, name) {
        let after = declare(scopes, o, name, value);
        lemma_bind_finds(scopes[o as int].bindings, name, value);
        lemma_owner_after_declare(scopes, scope, o, name, value);
    }
}

/// After a declaration of a name in the scope that owns it, the same scope
/// owns it.
proof fn lemma_owner_after_declare(
    scopes: Seq<ScopeV>,
    from: nat,
    o: nat,
    name: Seq<char>,
    value: Value,
)
    requires
        owner(scopes, from, name) == Some(o),
    ensures
        owner(declare(scopes, o, name, value), from, name) == Some(o),
    decreases from,
{
    lemma_owner_bounds(scopes, from, name);
    let after = declare(scopes, o, name, value);
    lemma_bind_finds(scopes[o as int].bindings, name, value);
    if from != o {
        assert(after[from as int] == scopes[from as int]);
        if let Some(parent) = scopes[from as int].outer {
            if parent < from {
                lemma_owner_after_declare(scopes, parent, o, name, value);
            }
        }
    }
}

/// A new scope sees what the scope that encloses it sees, and changes the
/// value of no name in the scopes that were there.
pub proof fn law_enclosed_scope_sees_outward(scopes: Seq<ScopeV>, parent: nat, name: Seq<char>)
    requires
        parent < scopes.len(),
    ensures
        lookup(enclose(scopes, parent), scopes.len(), name) == lookup(scopes, parent, name),
        enclose(scopes, parent).len() == scopes.len() + 1,
{
    lemma_older_scopes_unchanged(scopes, parent, parent, name);
    lemma_owner_bounds(scopes, parent, name);
    let after = enclose(scopes, parent);
    assert(after[scopes.len() as int].bindings.len() == 0);
    assert(find_name(after[scopes.len() as int].bindings, name, 0) is None);
    if let Some(o) = owner(scopes, parent, name) {
        assert(after[o as int] == scopes[o as int]);
    }
}

/// A new scope changes nothing for the scopes that were there.
proof fn lemma_older_scopes_unchanged(
    scopes: Seq<ScopeV>,
    parent: nat,
    from: nat,
    name: Seq<char>,
)
    requires
        from < scopes.len(),
    ensures
        owner(enclose(scopes, parent), from, name) == owner(scopes, from, name),
    decreases from,
{
    let after = enclose(scopes, parent);
    assert(after[from as int] == scopes[from as int]);
    if find_name(scopes[from as int].bindings, name, 0) is None {
        if let Some(p) = scopes[from as int].outer {
            if p < from {
                lemma_older_scopes_unchanged(scopes, parent, p, name);
            }
        }
    }
}

/// In a sound machine a call of a function within the machine, with as many
/// arguments as the function has parameters and with depth left, never fails
/// for want of the scope in which the function was made: it runs the body in
/// a new scope enclosed by that scope, and afterwards the scope of the
/// caller is the active scope again.
pub proof fn law_functions_find_their_scope(
    params: Seq<Seq<char>>,
    body: Seq<StatementV>,
    scope: nat,
    args: Seq<Value>,
    m: Machine,
    depth: nat,
)
    requires
        sound(m),
        within(Value::Function(params, body, scope), m.scopes.len()),
        params.len() == args.len(),
        depth > 0,
    ensures
        apply(Some(Value::Function(params, body, scope)), args, m, depth) == ({
            let (r, m1) = eval_block(
                body,
                0,
                None,
                enter(m, zip(params, args), Some(scope)),
                (depth - 1) as nat,
            );
            (unwrap_return(r), back_to(m1, m.scope))
        }),
        apply(Some(Value::Function(params, body, scope)), args, m, depth).1.scope == m.scope,
{
    lemma_apply(Some(Value::Function(params, body, scope)), args, m, depth);
}

} // verus!
