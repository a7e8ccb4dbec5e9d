//! The `std:util` module.

use vstd::prelude::*;
use vstd::utf8::encode_utf8;
use crate::evaluation::object::{objects_model, value_text, Builtin, Object, Value};
use crate::std_library::{arity_error, arity_text, Res};
use crate::text::push_text;

verus! {

/// What `length` answers where its argument is neither a string nor an array.
pub open spec fn length_kind_text(v: Value) -> Seq<char> {
    "Argument must be a string or array. Got "@ + value_text(v)
}

/// What `length` answers where the length does not fit an integer value.
pub open spec fn length_range_text() -> Seq<char> {
    "Length out of range"@
}

/// The length as a value.
pub open spec fn length_of(n: nat) -> Value {
    if n <= i32::MAX {
        Value::Int(n as i32)
    } else {
        Value::Error(length_range_text())
    }
}

/// What `length` answers: the number of bytes of a string in UTF-8, or the
/// number of elements of an array.
pub open spec fn length_value(args: Seq<Value>) -> Value {
    if args.len() != 1 {
        Value::Error(arity_text(args.len(), "1."@))
    } else {
        match args[0] {
            Value::String(s) => length_of(encode_utf8(s).len()),
            Value::Array(items) => length_of(items.len()),
            other => Value::Error(length_kind_text(other)),
        }
    }
}

/// The length as an object.
fn length_object(n: usize) -> (r: Object)
    ensures
        r@ == length_of(n as nat),
{
    if n <= 0x7fff_ffff {
        Object::Int(n as i32)
    } else {
        let mut m = String::new();
        push_text(&mut m, "Length out of range");
        assert(m@ =~= length_range_text());
        Object::Error(m)
    }
}

/// The bindings of `std:util`.
pub fn add_globals() -> (res: Res)
    ensures
        res@ == crate::std_library::util_model(),
{
    reveal(crate::std_library::util_model);
    let mut globals: Vec<(String, Object)> = Vec::new();
    let mut name = String::new();
    push_text(&mut name, "length");
    globals.push((name, Object::Builtin(Builtin::Length)));
    let res = Res { globals, raw: None };
    assert(res@.globals =~= crate::std_library::util_model().globals) by {
        assert(name@ =~= "length"@);
    }
    res
}

/// The length of a string or of an array.
pub fn length(args: Vec<Object>) -> (r: Object)
    ensures
        r@ == length_value(objects_model(args@)),
{
    if args.len() != 1 {
        return arity_error(args.len(), "1.");
    }
    assert(objects_model(args@)[0] == args[0]@);
    match &args[0] {
        Object::String(s) => {
            let n = s.as_str().as_bytes().len();
            assert(n == encode_utf8(s@).len());
            length_object(n)
        },
        Object::Array(items) => {
            assert(objects_model(items@).len() == items.len());
            length_object(items.len())
        },
        other => {
            let mut m = String::new();
            push_text(&mut m, "Argument must be a string or array. Got ");
            other.write(&mut m);
            assert(m@ =~= length_kind_text(other@));
            Object::Error(m)
        },
    }
}

} // verus!
