//! The `std:array` module.

use vstd::prelude::*;
use crate::evaluation::object::{
    copy_objects, objects_model, value_text, Builtin, Object, Value,
};
use crate::std_library::{arity_error, arity_text, Res};
use crate::text::push_text;

verus! {

/// What the array functions answer where their first argument is no array.
pub open spec fn not_array_text(v: Value) -> Seq<char> {
    "First argument must be an array. Got "@ + value_text(v)
}

/// What `push` answers: the array with one more element at its end.
pub open spec fn push_value(args: Seq<Value>) -> Value {
    if args.len() != 2 {
        Value::Error(arity_text(args.len(), "2."@))
    } else {
        match args[0] {
            Value::Array(items) => Value::Array(items.push(args[1])),
            other => Value::Error(not_array_text(other)),
        }
    }
}

/// What `pop` answers: the array without its last element.
pub open spec fn pop_value(args: Seq<Value>) -> Value {
    if args.len() != 1 {
        Value::Error(arity_text(args.len(), "1."@))
    } else {
        match args[0] {
            Value::Array(items) => if items.len() == 0 {
                Value::Array(items)
            } else {
                Value::Array(items.drop_last())
            },
            other => Value::Error(not_array_text(other)),
        }
    }
}

/// What `head` answers: as `pop`, the array without its last element.
pub open spec fn head_value(args: Seq<Value>) -> Value {
    pop_value(args)
}

/// What `tail` answers: the array without its first element; of an empty
/// array, an empty array.
pub open spec fn tail_value(args: Seq<Value>) -> Value {
    if args.len() != 1 {
        Value::Error(arity_text(args.len(), "1."@))
    } else {
        match args[0] {
            Value::Array(items) => if items.len() == 0 {
                Value::Array(items)
            } else {
                Value::Array(items.drop_first())
            },
            other => Value::Error(not_array_text(other)),
        }
    }
}

/// The error for a first argument that is no array.
fn not_array(o: &Object) -> (r: Object)
    ensures
        r@ == Value::Error(not_array_text(o@)),
{
    let mut m = String::new();
    push_text(&mut m, "First argument must be an array. Got ");
    o.write(&mut m);
    assert(m@ =~= not_array_text(o@));
    Object::Error(m)
}

/// The binding of a native function to its name.
fn named(name: &str, b: Builtin) -> (r: (String, Object))
    ensures
        r.0@ == name@,
        r.1@ == Value::Builtin(b),
{
    let mut s = String::new();
    push_text(&mut s, name);
    assert(s@ =~= name@);
    (s, Object::Builtin(b))
}

/// The bindings of `std:array`, and the source text of the functions that the
/// module defines in the language itself.
pub fn add_globals() -> (res: Res)
    ensures
        res@ == crate::std_library::array_model(),
{
    reveal(crate::std_library::array_model);
    let mut globals: Vec<(String, Object)> = Vec::new();
    globals.push(named("push", Builtin::Push));
    globals.push(named("pop", Builtin::Pop));
    globals.push(named("head", Builtin::Head));
    globals.push(named("tail", Builtin::Tail));
    let mut raw = String::new();
    push_text(&mut raw, crate::std_library::ARRAY_SOURCE);
    assert(raw@ =~= crate::std_library::ARRAY_SOURCE@);
    let res = Res { globals, raw: Some(raw) };
    assert(res@.globals =~= crate::std_library::array_model().globals);
    res
}

/// The array `args[0]` with `args[1]` added at its end.
pub fn push(args: Vec<Object>) -> (r: Object)
    ensures
        r@ == push_value(objects_model(args@)),
{
    if args.len() != 2 {
        return arity_error(args.len(), "2.");
    }
    match &args[0] {
        Object::Array(items) => {
            let mut array = copy_objects(items);
            let ghost before = array@;
            let last = args[1].copy();
            array.push(last);
            assert(objects_model(array@) =~= objects_model(before).push(last@));
            Object::Array(array)
        },
        other => not_array(other),
    }
}

/// The array `args[0]` without its last element.
pub fn pop(args: Vec<Object>) -> (r: Object)
    ensures
        r@ == pop_value(objects_model(args@)),
{
    if args.len() != 1 {
        return arity_error(args.len(), "1.");
    }
    match &args[0] {
        Object::Array(items) => {
            let mut array = copy_objects(items);
            let ghost before = array@;
            assert(objects_model(before).len() == before.len());
            array.pop();
            proof {
                if before.len() > 0 {
                    assert(objects_model(array@) =~= objects_model(before).drop_last());
                }
            }
            Object::Array(array)
        },
        other => not_array(other),
    }
}

/// As `pop`: the array `args[0]` without its last element.
pub fn head(args: Vec<Object>) -> (r: Object)
    ensures
        r@ == head_value(objects_model(args@)),
{
    pop(args)
}

/// The array `args[0]` without its first element.
pub fn tail(args: Vec<Object>) -> (r: Object)
    ensures
        r@ == tail_value(objects_model(args@)),
{
    if args.len() != 1 {
        return arity_error(args.len(), "1.");
    }
    match &args[0] {
        Object::Array(items) => {
            let mut array: Vec<Object> = Vec::new();
            let mut i: usize = 1;
            while i < items.len()
                invariant
                    1 <= i,
                    items.len() > 0 ==> i <= items.len(),
                    items.len() > 0 ==> array.len() == i - 1,
                    items.len() == 0 ==> array.len() == 0,
                    forall|j: int| 0 <= j < array.len() ==> array[j]@ == items[j + 1]@,
                decreases items.len() - i,
            {
                array.push(items[i].copy());
                i += 1;
            }
            proof {
                assert(objects_model(items@).len() == items.len());
                if items.len() == 0 {
                    assert(objects_model(array@) =~= objects_model(items@));
                } else {
                    assert(objects_model(array@) =~= objects_model(items@).drop_first());
                }
            }
            Object::Array(array)
        },
        other => not_array(other),
    }
}

} // verus!
