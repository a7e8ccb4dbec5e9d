//! The standard library: modules of native functions that a program brings
//! into scope by name.

use vstd::prelude::*;
use crate::evaluation::object::{objects_model, Builtin, Object, Value};
use crate::evaluation::store::bindings_model;
use crate::text::{decimal, push_decimal, push_text, same_text};

pub mod array;
pub mod hash;
pub mod http;
pub mod string;
pub mod util;

verus! {

/// The source text of the part of `std:array` that is written in the language
/// itself.
pub const ARRAY_SOURCE: &'static str =
    "include \"std:util\";\nset map = fun (arr, f) {\n    set res = [];\n    set iter = fun (array) {\n        if (length(array) == 0) {\n            return;\n        } else {\n            anew res = push(res, f(array[0]));\n            iter(tail(array));\n        }\n    };\n    iter(arr)\n    return res;\n};\n";

/// What a module of the standard library provides: native bindings, and
/// optionally source text in the language itself, to be evaluated when the
/// module is loaded.
pub struct Res {
    pub globals: Vec<(String, Object)>,
    pub raw: Option<String>,
}

/// The mathematical value of a [`Res`].
pub struct ResV {
    pub globals: Seq<(Seq<char>, Value)>,
    pub raw: Option<Seq<char>>,
}

impl View for Res {
    type V = ResV;

    open spec fn view(&self) -> ResV {
        ResV {
            globals: bindings_model(self.globals@),
            raw: match self.raw {
                Some(s) => Some(s@),
                None => None,
            },
        }
    }
}

/// The message of a native function that was called with `got` arguments
/// where it takes `want`.
pub open spec fn arity_text(got: nat, want: Seq<char>) -> Seq<char> {
    "Wrong number of arguments. Got "@ + decimal(got) + ". Expected "@ + want
}

/// The error of a native function that was called with `got` arguments where
/// it takes `want`.
pub fn arity_error(got: usize, want: &str) -> (r: Object)
    ensures
        r@ == Value::Error(arity_text(got as nat, want@)),
{
    let mut m = String::new();
    push_text(&mut m, "Wrong number of arguments. Got ");
    push_decimal(&mut m, got as u64);
    push_text(&mut m, ". Expected ");
    push_text(&mut m, want);
    assert(m@ =~= arity_text(got as nat, want@));
    Object::Error(m)
}

/// What `std:util` provides.
#[verifier::opaque]
pub open spec fn util_model() -> ResV {
    ResV { globals: seq![("length"@, Value::Builtin(Builtin::Length))], raw: None }
}

/// What `std:array` provides.
#[verifier::opaque]
pub open spec fn array_model() -> ResV {
    ResV {
        globals: seq![
            ("push"@, Value::Builtin(Builtin::Push)),
            ("pop"@, Value::Builtin(Builtin::Pop)),
            ("head"@, Value::Builtin(Builtin::Head)),
            ("tail"@, Value::Builtin(Builtin::Tail)),
        ],
        raw: Some(ARRAY_SOURCE@),
    }
}

/// What `std:string` provides.
#[verifier::opaque]
pub open spec fn string_model() -> ResV {
    ResV { globals: seq![("replace"@, Value::Builtin(Builtin::Replace))], raw: None }
}

/// What `std:hash` provides.
#[verifier::opaque]
pub open spec fn hash_model() -> ResV {
    ResV { globals: seq![("hasher"@, Value::Builtin(Builtin::Hasher))], raw: None }
}

/// What the module of the standard library named `name` provides, if there is
/// such a module.
#[verifier::opaque]
pub open spec fn std_lib(name: Seq<char>) -> Option<ResV> {
    if name == "std:util"@ {
        Some(util_model())
    } else if name == "std:array"@ {
        Some(array_model())
    } else if name == "std:string"@ {
        Some(string_model())
    } else if name == "std:hash"@ {
        Some(hash_model())
    } else {
        None
    }
}

/// The module of the standard library named `lib`, if there is one.
pub fn get_std_lib(lib: String) -> (res: Option<Res>)
    ensures
        match res {
            Some(r) => std_lib(lib@) == Some(r@),
            None => std_lib(lib@) is None,
        },
{
    reveal(std_lib);
    if same_text(lib.as_str(), "std:util") {
        Some(util::add_globals())
    } else if same_text(lib.as_str(), "std:array") {
        Some(array::add_globals())
    } else if same_text(lib.as_str(), "std:string") {
        Some(string::add_globals())
    } else if same_text(lib.as_str(), "std:hash") {
        Some(hash::add_globals())
    } else {
        None
    }
}

/// What the native function `b` answers to `args`, for every native function
/// but `log`, which writes to the output.
pub open spec fn builtin_value(b: Builtin, args: Seq<Value>) -> Value {
    match b {
        Builtin::Length => util::length_value(args),
        Builtin::Push => array::push_value(args),
        Builtin::Pop => array::pop_value(args),
        Builtin::Head => array::head_value(args),
        Builtin::Tail => array::tail_value(args),
        Builtin::Replace => string::replace_value(args),
        Builtin::Hasher => hash::hasher_value(args),
        Builtin::Log => Value::Null,
    }
}

/// Calls the native function `b` with `args`.
pub fn call(b: Builtin, args: Vec<Object>) -> (r: Object)
    ensures
        r@ == builtin_value(b, objects_model(args@)),
{
    match b {
        Builtin::Length => util::length(args),
        Builtin::Push => array::push(args),
        Builtin::Pop => array::pop(args),
        Builtin::Head => array::head(args),
        Builtin::Tail => array::tail(args),
        Builtin::Replace => string::replace(args),
        Builtin::Hasher => hash::hasher(args),
        Builtin::Log => Object::Null,
    }
}

} // verus!
