//! When a machine is sound: every scope is enclosed by an older scope, so
//! that the chain of enclosing scopes is finite and without cycles, and every
//! function that a binding holds was made in a scope of the machine. The
//! operations on values and scopes keep a sound machine sound.

use vstd::prelude::*;
use crate::ast::{Infix, Prefix};
use crate::evaluation::object::{Builtin, Value};
use crate::evaluation::operators::{
    assoc_set, entry_index, index_result, infix_result, prefix_value, unwrap_return,
};
use crate::evaluation::semantics::{
    back_to, bind_all_exports, binding_outcome, call_builtin, enter, globals_model, ident_value,
    include_outcome, own_bindings, return_outcome, zip, Machine,
};
use crate::evaluation::store::{assign, bind, bind_all, declare, find_name, lookup, owner, ScopeV};
use crate::std_library::{array_model, hash_model, std_lib, string_model, util_model};

verus! {

/// Whether every function in `v` was made in one of the first `n` scopes.
pub open spec fn within(v: Value, n: nat) -> bool
    decreases v,
{
    match v {
        Value::Function(params, body, scope) => scope < n,
        Value::Array(items) => forall|i: int|
            0 <= i < items.len() ==> within(#[trigger] items[i], n),
        Value::Object(entries) => forall|i: int|
            0 <= i < entries.len() ==> within((#[trigger] entries[i]).0, n) && within(
                entries[i].1,
                n,
            ),
        Value::Return(inner) => within(*inner, n),
        _ => true,
    }
}

/// Whether every value of `items` is within the first `n` scopes.
pub open spec fn all_within(items: Seq<Value>, n: nat) -> bool {
    forall|i: int| 0 <= i < items.len() ==> within(#[trigger] items[i], n)
}

/// Whether every key and value of `entries` is within the first `n` scopes.
pub open spec fn entries_within(entries: Seq<(Value, Value)>, n: nat) -> bool {
    forall|i: int|
        0 <= i < entries.len() ==> within((#[trigger] entries[i]).0, n) && within(
            entries[i].1,
            n,
        )
}

/// Whether every value bound in `bindings` is within the first `n` scopes.
pub open spec fn bindings_within(bindings: Seq<(Seq<char>, Value)>, n: nat) -> bool {
    forall|i: int| 0 <= i < bindings.len() ==> within((#[trigger] bindings[i]).1, n)
}

/// Whether an optional value is within the first `n` scopes.
pub open spec fn option_within(r: Option<Value>, n: nat) -> bool {
    match r {
        Some(v) => within(v, n),
        None => true,
    }
}

/// Whether every scope is enclosed by an older scope or by none, and holds
/// only values that are within the scopes.
pub open spec fn scopes_sound(scopes: Seq<ScopeV>) -> bool {
    forall|s: int|
        0 <= s < scopes.len() ==> (match (#[trigger] scopes[s]).outer {
            Some(p) => p < s,
            None => true,
        }) && bindings_within(scopes[s].bindings, scopes.len())
}

/// Whether the machine is sound: its scopes are, and its active scope is one
/// of them.
pub open spec fn sound(m: Machine) -> bool {
    m.scope < m.scopes.len() && scopes_sound(m.scopes)
}

/// Whether `after` is a sound machine that has all the scopes of `before`,
/// and the same modules.
pub open spec fn follows(before: Machine, after: Machine) -> bool {
    sound(after) && before.scopes.len() <= after.scopes.len() && after.modules == before.modules
}

/// A value that is within some scopes is within more scopes.
pub proof fn lemma_within_more(v: Value, n: nat, k: nat)
    requires
        within(v, n),
        n <= k,
    ensures
        within(v, k),
    decreases v,
{
    match v {
        Value::Array(items) => {
            assert forall|i: int| 0 <= i < items.len() implies within(#[trigger] items[i], k) by {
                lemma_within_more(items[i], n, k);
            }
        },
        Value::Object(entries) => {
            assert forall|i: int| 0 <= i < entries.len() implies within(
                (#[trigger] entries[i]).0,
                k,
            ) && within(entries[i].1, k) by {
                lemma_within_more(entries[i].0, n, k);
                lemma_within_more(entries[i].1, n, k);
            }
        },
        Value::Return(inner) => {
            lemma_within_more(*inner, n, k);
        },
        _ => {},
    }
}

/// Values that are within some scopes are within more scopes.
pub proof fn lemma_all_within_more(items: Seq<Value>, n: nat, k: nat)
    requires
        all_within(items, n),
        n <= k,
    ensures
        all_within(items, k),
{
    assert forall|i: int| 0 <= i < items.len() implies within(#[trigger] items[i], k) by {
        lemma_within_more(items[i], n, k);
    }
}

/// Entries that are within some scopes are within more scopes.
pub proof fn lemma_entries_within_more(entries: Seq<(Value, Value)>, n: nat, k: nat)
    requires
        entries_within(entries, n),
        n <= k,
    ensures
        entries_within(entries, k),
{
    assert forall|i: int| 0 <= i < entries.len() implies within((#[trigger] entries[i]).0, k)
        && within(entries[i].1, k) by {
        lemma_within_more(entries[i].0, n, k);
        lemma_within_more(entries[i].1, n, k);
    }
}

/// Bindings that are within some scopes are within more scopes.
pub proof fn lemma_bindings_within_more(bindings: Seq<(Seq<char>, Value)>, n: nat, k: nat)
    requires
        bindings_within(bindings, n),
        n <= k,
    ensures
        bindings_within(bindings, k),
{
    assert forall|i: int| 0 <= i < bindings.len() implies within((#[trigger] bindings[i]).1, k) by {
        lemma_within_more(bindings[i].1, n, k);
    }
}

/// An optional value that is within some scopes is within more scopes.
pub proof fn lemma_option_within_more(r: Option<Value>, n: nat, k: nat)
    requires
        option_within(r, n),
        n <= k,
    ensures
        option_within(r, k),
{
    if let Some(v) = r {
        lemma_within_more(v, n, k);
    }
}

/// Where a name is found, it is found at an index of the bindings.
pub proof fn lemma_find_name_bounds(bindings: Seq<(Seq<char>, Value)>, name: Seq<char>, from: int)
    requires
        0 <= from,
    ensures
        find_name(bindings, name, from) matches Some(i) ==> from <= i < bindings.len()
            && bindings[i].0 == name,
    decreases bindings.len() - from,
{
    if from < bindings.len() && bindings[from].0 != name {
        lemma_find_name_bounds(bindings, name, from + 1);
    }
}

/// Where an entry is found, it is found at an index of the entries.
pub proof fn lemma_entry_index_bounds(entries: Seq<(Value, Value)>, key: Value, from: int)
    requires
        0 <= from,
    ensures
        entry_index(entries, key, from) matches Some(i) ==> from <= i < entries.len()
            && entries[i].0 == key,
    decreases entries.len() - from,
{
    if from < entries.len() && entries[from].0 != key {
        lemma_entry_index_bounds(entries, key, from + 1);
    }
}

/// The scope that owns a name is a scope of the store, no younger than the
/// scope from which the search went out, and binds the name.
pub proof fn lemma_owner_bounds(scopes: Seq<ScopeV>, scope: nat, name: Seq<char>)
    ensures
        owner(scopes, scope, name) matches Some(o) ==> o <= scope && o < scopes.len()
            && find_name(scopes[o as int].bindings, name, 0) is Some,
    decreases scope,
{
    if scope < scopes.len() && find_name(scopes[scope as int].bindings, name, 0) is None {
        if let Some(parent) = scopes[scope as int].outer {
            if parent < scope {
                lemma_owner_bounds(scopes, parent, name);
            }
        }
    }
}

/// Binding a value that is within the scopes keeps the bindings within them.
pub proof fn lemma_bind_within(
    bindings: Seq<(Seq<char>, Value)>,
    name: Seq<char>,
    value: Value,
    n: nat,
)
    requires
        bindings_within(bindings, n),
        within(value, n),
    ensures
        bindings_within(bind(bindings, name, value), n),
{
    lemma_find_name_bounds(bindings, name, 0);
    let after = bind(bindings, name, value);
    assert forall|i: int| 0 <= i < after.len() implies within((#[trigger] after[i]).1, n) by {
        match find_name(bindings, name, 0) {
            Some(k) => {
                if i != k {
                    assert(after[i] == bindings[i]);
                }
            },
            None => {
                if i < bindings.len() {
                    assert(after[i] == bindings[i]);
                }
            },
        }
    }
}

/// Binding values that are within the scopes, one after the other, keeps the
/// bindings within them.
pub proof fn lemma_bind_all_within(
    bindings: Seq<(Seq<char>, Value)>,
    more: Seq<(Seq<char>, Value)>,
    from: int,
    n: nat,
)
    requires
        0 <= from,
        bindings_within(bindings, n),
        bindings_within(more, n),
    ensures
        bindings_within(bind_all(bindings, more, from), n),
    decreases more.len() - from,
{
    if from < more.len() {
        lemma_bind_within(bindings, more[from].0, more[from].1, n);
        lemma_bind_all_within(bind(bindings, more[from].0, more[from].1), more, from + 1, n);
    }
}

/// A declaration of a value that is within the scopes keeps the scopes sound.
pub proof fn lemma_declare_sound(scopes: Seq<ScopeV>, scope: nat, name: Seq<char>, value: Value)
    requires
        scopes_sound(scopes),
        within(value, scopes.len()),
    ensures
        scopes_sound(declare(scopes, scope, name, value)),
        declare(scopes, scope, name, value).len() == scopes.len(),
{
    if scope < scopes.len() {
        lemma_bind_within(scopes[scope as int].bindings, name, value, scopes.len());
        let after = declare(scopes, scope, name, value);
        assert forall|s: int| 0 <= s < after.len() implies (match (#[trigger] after[s]).outer {
            Some(p) => p < s,
            None => true,
        }) && bindings_within(after[s].bindings, after.len()) by {
            if s != scope {
                assert(after[s] == scopes[s]);
            }
        }
    }
}

/// A reassignment with a value that is within the scopes keeps the scopes
/// sound.
pub proof fn lemma_assign_sound(scopes: Seq<ScopeV>, scope: nat, name: Seq<char>, value: Value)
    requires
        scopes_sound(scopes),
        within(value, scopes.len()),
    ensures
        assign(scopes, scope, name, value) matches Some(after) ==> scopes_sound(after)
            && after.len() == scopes.len(),
{
    if let Some(o) = owner(scopes, scope, name) {
        lemma_declare_sound(scopes, o, name, value);
    }
}

/// What a sound store holds under a name is within its scopes.
pub proof fn lemma_lookup_within(scopes: Seq<ScopeV>, scope: nat, name: Seq<char>)
    requires
        scopes_sound(scopes),
    ensures
        option_within(lookup(scopes, scope, name), scopes.len()),
{
    lemma_owner_bounds(scopes, scope, name);
    if let Some(o) = owner(scopes, scope, name) {
        lemma_find_name_bounds(scopes[o as int].bindings, name, 0);
    }
}

/// The value of a name in a sound machine is within its scopes.
pub proof fn lemma_ident_within(m: Machine, name: Seq<char>)
    requires
        sound(m),
    ensures
        within(ident_value(m, name), m.scopes.len()),
{
    lemma_find_name_bounds(globals_model(), name, 0);
    lemma_lookup_within(m.scopes, m.scope, name);
}

/// A new scope that holds values within the scopes, enclosed by one of the
/// scopes or by none, keeps the machine sound.
pub proof fn lemma_enter_sound(m: Machine, bindings: Seq<(Seq<char>, Value)>, outer: Option<nat>)
    requires
        sound(m),
        bindings_within(bindings, m.scopes.len()),
        outer matches Some(p) ==> p < m.scopes.len(),
    ensures
        follows(m, enter(m, bindings, outer)),
        enter(m, bindings, outer).scopes.len() == m.scopes.len() + 1,
{
    let n = m.scopes.len();
    let after = enter(m, bindings, outer);
    lemma_bindings_within_more(bindings, n, n + 1);
    assert(bindings_within(Seq::<(Seq<char>, Value)>::empty(), n + 1));
    lemma_bind_all_within(Seq::empty(), bindings, 0, n + 1);
    assert forall|s: int| 0 <= s < after.scopes.len() implies (match (
    #[trigger] after.scopes[s]).outer {
        Some(p) => p < s,
        None => true,
    }) && bindings_within(after.scopes[s].bindings, after.scopes.len()) by {
        if s < n {
            assert(after.scopes[s] == m.scopes[s]);
            lemma_bindings_within_more(m.scopes[s].bindings, n, n + 1);
        }
    }
}

/// Going back to a scope of a sound machine leaves the machine sound.
pub proof fn lemma_back_to_sound(m: Machine, scope: nat)
    requires
        sound(m),
        scope < m.scopes.len(),
    ensures
        follows(m, back_to(m, scope)),
{
}

/// The bindings of the active scope of a sound machine are within its scopes.
pub proof fn lemma_exports_within(globals: Seq<(Seq<char>, Value)>, m: Machine)
    requires
        sound(m),
        bindings_within(globals, m.scopes.len()),
    ensures
        bindings_within(bind_all_exports(globals, m), m.scopes.len()),
{
    let n = m.scopes.len();
    assert(bindings_within(Seq::<(Seq<char>, Value)>::empty(), n));
    lemma_bind_all_within(Seq::empty(), globals, 0, n);
    lemma_bind_all_within(
        bind_all(Seq::empty(), globals, 0),
        own_bindings(m.scopes, m.scope),
        0,
        n,
    );
}

/// Parameters bound to arguments that are within the scopes are bindings
/// within the scopes.
pub proof fn lemma_zip_within(names: Seq<Seq<char>>, values: Seq<Value>, n: nat)
    requires
        names.len() == values.len(),
        all_within(values, n),
    ensures
        bindings_within(zip(names, values), n),
{
    assert forall|i: int| 0 <= i < zip(names, values).len() implies within(
        (#[trigger] zip(names, values)[i]).1,
        n,
    ) by {
        assert(zip(names, values)[i].1 == values[i]);
    }
}

/// What a declaration or a reassignment yields in a sound machine.
pub proof fn lemma_binding_outcome_sound(fresh: bool, name: Seq<char>, r: Option<Value>, m: Machine)
    requires
        sound(m),
        option_within(r, m.scopes.len()),
    ensures
        follows(m, binding_outcome(fresh, name, r, m).1),
        option_within(
            binding_outcome(fresh, name, r, m).0,
            binding_outcome(fresh, name, r, m).1.scopes.len(),
        ),
{
    if let Some(v) = r {
        lemma_declare_sound(m.scopes, m.scope, name, v);
        lemma_assign_sound(m.scopes, m.scope, name, v);
    }
}

/// What an inclusion yields in a sound machine.
pub proof fn lemma_include_outcome_sound(
    name: Seq<char>,
    exports: Option<Seq<(Seq<char>, Value)>>,
    m: Machine,
)
    requires
        sound(m),
        exports matches Some(bindings) ==> bindings_within(bindings, m.scopes.len()),
    ensures
        follows(m, include_outcome(name, exports, m).1),
        option_within(
            include_outcome(name, exports, m).0,
            include_outcome(name, exports, m).1.scopes.len(),
        ),
{
    if let Some(bindings) = exports {
        lemma_enter_sound(m, bindings, Some(m.scope));
    }
}

/// The operators yield values within the scopes from operands within the
/// scopes.
pub proof fn lemma_operators_within(n: nat)
    ensures
        forall|p: Prefix, v: Value| within(v, n) ==> within(#[trigger] prefix_value(p, v), n),
        forall|op: Infix, l: Option<Value>, r: Option<Value>|
            option_within(l, n) && option_within(r, n) ==> option_within(
                #[trigger] infix_result(op, l, r),
                n,
            ),
        forall|r: Option<Value>| option_within(r, n) ==> within(#[trigger] unwrap_return(r), n),
        forall|r: Option<Value>| option_within(r, n) ==> option_within(
            #[trigger] return_outcome(r),
            n,
        ),
{
}

/// An index into a value within the scopes yields a value within the scopes.
pub proof fn lemma_index_within(left: Option<Value>, index: Option<Value>, n: nat)
    requires
        option_within(left, n),
        option_within(index, n),
    ensures
        option_within(index_result(left, index), n),
{
    if let (Some(l), Some(i)) = (left, index) {
        match l {
            Value::Array(items) => {},
            Value::Object(entries) => {
                lemma_entry_index_bounds(entries, i, 0);
            },
            _ => {},
        }
    }
}

/// Putting a key and a value that are within the scopes into entries that
/// are within the scopes keeps them within the scopes.
pub proof fn lemma_assoc_set_within(
    entries: Seq<(Value, Value)>,
    key: Value,
    value: Value,
    n: nat,
)
    requires
        entries_within(entries, n),
        within(key, n),
        within(value, n),
    ensures
        entries_within(assoc_set(entries, key, value), n),
{
    lemma_entry_index_bounds(entries, key, 0);
    let after = assoc_set(entries, key, value);
    assert forall|i: int| 0 <= i < after.len() implies within((#[trigger] after[i]).0, n)
        && within(after[i].1, n) by {
        match entry_index(entries, key, 0) {
            Some(k) => {
                if i != k {
                    assert(after[i] == entries[i]);
                }
            },
            None => {
                if i < entries.len() {
                    assert(after[i] == entries[i]);
                }
            },
        }
    }
}

/// The native functions yield values within the scopes from arguments
/// within the scopes, and change nothing of the machine but its output.
pub proof fn lemma_builtin_sound(b: Builtin, args: Seq<Value>, m: Machine)
    requires
        sound(m),
        all_within(args, m.scopes.len()),
    ensures
        follows(m, call_builtin(b, args, m).1),
        within(call_builtin(b, args, m).0, call_builtin(b, args, m).1.scopes.len()),
{
    reveal(crate::std_library::hash::digest_value);
    let n = m.scopes.len();
    match b {
        Builtin::Push => {
            if args.len() == 2 {
                if let Value::Array(items) = args[0] {
                    let after = items.push(args[1]);
                    assert forall|i: int| 0 <= i < after.len() implies within(
                        #[trigger] after[i],
                        n,
                    ) by {
                        if i < items.len() {
                            assert(after[i] == items[i]);
                        }
                    }
                }
            }
        },
        Builtin::Pop | Builtin::Head => {
            if args.len() == 1 {
                if let Value::Array(items) = args[0] {
                    if items.len() > 0 {
                        let after = items.drop_last();
                        assert forall|i: int| 0 <= i < after.len() implies within(
                            #[trigger] after[i],
                            n,
                        ) by {
                            assert(after[i] == items[i]);
                        }
                    }
                }
            }
        },
        Builtin::Tail => {
            if args.len() == 1 {
                if let Value::Array(items) = args[0] {
                    if items.len() > 0 {
                        let after = items.drop_first();
                        assert forall|i: int| 0 <= i < after.len() implies within(
                            #[trigger] after[i],
                            n,
                        ) by {
                            assert(after[i] == items[i + 1]);
                        }
                    }
                }
            }
        },
        _ => {},
    }
}

/// The modules of the standard library bind native functions only.
pub proof fn lemma_std_lib_within(name: Seq<char>, n: nat)
    ensures
        std_lib(name) matches Some(res) ==> bindings_within(res.globals, n),
{
    reveal(std_lib);
    reveal(util_model);
    reveal(array_model);
    reveal(string_model);
    reveal(hash_model);
}

} // verus!
