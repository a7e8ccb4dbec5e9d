//! Runtime values.

use vstd::prelude::*;
use crate::ast::{
    block_model, copy_block, copy_names, names_model, BlockStatement, Ident, StatementV,
};
use crate::text::{int_text, push_int, push_text};

verus! {

/// The native functions that a program can call.
#[derive(Clone, Copy, PartialEq, Eq, Debug, Structural)]
pub enum Builtin {
    Log,
    Length,
    Push,
    Pop,
    Head,
    Tail,
    Replace,
    Hasher,
}

/// A runtime value.
#[derive(PartialEq, Debug)]
pub enum Object {
    Int(i32),
    String(String),
    Bool(bool),
    Null,
    Array(Vec<Object>),
    /// A mapping, as its entries in the order in which their keys first came.
    Object(Vec<(Object, Object)>),
    /// A closure: parameters, body, and the scope in which the function
    /// literal was evaluated.
    Function(Vec<Ident>, BlockStatement, usize),
    Builtin(Builtin),
    /// The marker that carries a returned value out of a block.
    Return(Box<Object>),
    /// A failure, as a value.
    Error(String),
}

/// The mathematical value of an [`Object`].
pub enum Value {
    Int(i32),
    String(Seq<char>),
    Bool(bool),
    Null,
    Array(Seq<Value>),
    Object(Seq<(Value, Value)>),
    Function(Seq<Seq<char>>, Seq<StatementV>, nat),
    Builtin(Builtin),
    Return(Box<Value>),
    Error(Seq<char>),
}

/// The values of a sequence of objects.
pub open spec fn objects_model(items: Seq<Object>) -> Seq<Value>
    decreases items, 0int,
{
    Seq::new(
        items.len(),
        |i: int|
            if 0 <= i < items.len() {
                items[i].model()
            } else {
                arbitrary()
            },
    )
}

/// The values of the entries of a mapping.
pub open spec fn entries_model(entries: Seq<(Object, Object)>) -> Seq<(Value, Value)>
    decreases entries, 0int,
{
    Seq::new(
        entries.len(),
        |i: int|
            if 0 <= i < entries.len() {
                (entries[i].0.model(), entries[i].1.model())
            } else {
                arbitrary()
            },
    )
}

impl Object {
    /// The mathematical value of the object.
    pub open spec fn model(self) -> Value
        decreases self, 0int,
    {
        match self {
            Object::Int(i) => Value::Int(i),
            Object::String(s) => Value::String(s@),
            Object::Bool(b) => Value::Bool(b),
            Object::Null => Value::Null,
            Object::Array(items) => Value::Array(objects_model(items@)),
            Object::Object(entries) => Value::Object(entries_model(entries@)),
            Object::Function(params, body, scope) => Value::Function(
                names_model(params@),
                block_model(body@),
                scope as nat,
            ),
            Object::Builtin(b) => Value::Builtin(b),
            Object::Return(inner) => Value::Return(Box::new((*inner).model())),
            Object::Error(message) => Value::Error(message@),
        }
    }
}

impl View for Object {
    type V = Value;

    open spec fn view(&self) -> Value {
        self.model()
    }
}

/// A copy of a list of objects.
#[verifier::loop_isolation(false)]
pub fn copy_objects(items: &Vec<Object>) -> (r: Vec<Object>)
    ensures
        objects_model(r@) == objects_model(items@),
    decreases items,
{
    let mut r: Vec<Object> = Vec::new();
    let mut i: usize = 0;
    while i < items.len()
        invariant
            i <= items.len(),
            r.len() == i,
            forall|j: int| 0 <= j < i ==> r[j].model() == items[j].model(),
        decreases items.len() - i,
    {
        r.push(items[i].copy());
        i += 1;
    }
    assert(objects_model(r@) =~= objects_model(items@));
    r
}

/// A copy of the entries of a mapping.
#[verifier::loop_isolation(false)]
pub fn copy_entries(entries: &Vec<(Object, Object)>) -> (r: Vec<(Object, Object)>)
    ensures
        entries_model(r@) == entries_model(entries@),
    decreases entries,
{
    let mut r: Vec<(Object, Object)> = Vec::new();
    let mut i: usize = 0;
    while i < entries.len()
        invariant
            i <= entries.len(),
            r.len() == i,
            forall|j: int|
                0 <= j < i ==> r[j].0.model() == entries[j].0.model() && r[j].1.model()
                    == entries[j].1.model(),
        decreases entries.len() - i,
    {
        let key = entries[i].0.copy();
        let value = entries[i].1.copy();
        r.push((key, value));
        i += 1;
    }
    assert(entries_model(r@) =~= entries_model(entries@));
    r
}

impl Object {
    /// A copy of the object.
    pub fn copy(&self) -> (r: Object)
        ensures
            r@ == self@,
        decreases self,
    {
        match self {
            Object::Int(i) => Object::Int(*i),
            Object::String(s) => Object::String(s.clone()),
            Object::Bool(b) => Object::Bool(*b),
            Object::Null => Object::Null,
            Object::Array(items) => Object::Array(copy_objects(items)),
            Object::Object(entries) => Object::Object(copy_entries(entries)),
            Object::Function(params, body, scope) => Object::Function(
                copy_names(params),
                copy_block(body),
                *scope,
            ),
            Object::Builtin(b) => Object::Builtin(*b),
            Object::Return(inner) => Object::Return(Box::new(inner.copy())),
            Object::Error(message) => Object::Error(message.clone()),
        }
    }
}

impl Clone for Object {
    fn clone(&self) -> (r: Object)
        ensures
            r@ == self@,
    {
        self.copy()
    }
}

/// The texts of `items[from..]`, with `", "` between them.
pub open spec fn list_text(items: Seq<Value>, from: int) -> Seq<char>
    decreases items, items.len() - from,
{
    if 0 <= from < items.len() {
        if from + 1 < items.len() {
            value_text(items[from]) + ", "@ + list_text(items, from + 1)
        } else {
            value_text(items[from])
        }
    } else {
        Seq::empty()
    }
}

/// The texts of `entries[from..]`, each as `key: value`, with `", "` between
/// them.
pub open spec fn entries_text(entries: Seq<(Value, Value)>, from: int) -> Seq<char>
    decreases entries, entries.len() - from,
{
    if 0 <= from < entries.len() {
        let one = value_text(entries[from].0) + ": "@ + value_text(entries[from].1);
        if from + 1 < entries.len() {
            one + ", "@ + entries_text(entries, from + 1)
        } else {
            one
        }
    } else {
        Seq::empty()
    }
}

/// The names `names[from..]`, with `", "` between them.
pub open spec fn names_text(names: Seq<Seq<char>>, from: int) -> Seq<char>
    decreases names.len() - from,
{
    if 0 <= from < names.len() {
        if from + 1 < names.len() {
            names[from] + ", "@ + names_text(names, from + 1)
        } else {
            names[from]
        }
    } else {
        Seq::empty()
    }
}

/// How a value is written in messages and in output.
pub open spec fn value_text(v: Value) -> Seq<char>
    decreases v, 0int,
{
    match v {
        Value::Int(i) => int_text(i as int),
        Value::String(s) => s,
        Value::Bool(b) => if b {
            "true"@
        } else {
            "false"@
        },
        Value::Null => "null"@,
        Value::Array(items) => "["@ + list_text(items, 0) + "]"@,
        Value::Object(entries) => "{"@ + entries_text(entries, 0) + "}"@,
        Value::Function(params, body, scope) => "fun("@ + names_text(params, 0) + ") { ... }"@,
        Value::Builtin(b) => "[builtin function]"@,
        Value::Return(inner) => value_text(*inner),
        Value::Error(message) => message,
    }
}

/// Appends the names of `names[from..]` to `s`, with `", "` between them.
fn write_names(names: &Vec<Ident>, s: &mut String)
    ensures
        final(s)@ == old(s)@ + names_text(names_model(names@), 0),
{
    let ghost all = names_model(names@);
    let mut i: usize = 0;
    while i < names.len()
        invariant
            i <= names.len(),
            all == names_model(names@),
            s@ + names_text(all, i as int) == old(s)@ + names_text(all, 0),
        decreases names.len() - i,
    {
        let ghost before = s@;
        push_text(s, names[i].0.as_str());
        if i + 1 < names.len() {
            push_text(s, ", ");
        }
        i += 1;
        assert(s@ + names_text(all, i as int) =~= before + names_text(all, i - 1));
    }
    assert(s@ + names_text(all, i as int) =~= s@);
}

/// Appends the texts of the objects of `items` to `s`, with `", "` between
/// them.
#[verifier::loop_isolation(false)]
fn write_list(items: &Vec<Object>, s: &mut String)
    ensures
        final(s)@ == old(s)@ + list_text(objects_model(items@), 0),
    decreases items,
{
    let ghost all = objects_model(items@);
    let mut i: usize = 0;
    while i < items.len()
        invariant
            i <= items.len(),
            s@ + list_text(all, i as int) == old(s)@ + list_text(all, 0),
        decreases items.len() - i,
    {
        let ghost before = s@;
        items[i].write(s);
        if i + 1 < items.len() {
            push_text(s, ", ");
        }
        i += 1;
        assert(s@ + list_text(all, i as int) =~= before + list_text(all, i - 1));
    }
    assert(s@ + list_text(all, i as int) =~= s@);
}

/// Appends the entries of a mapping to `s`, each as `key: value`, with `", "`
/// between them.
#[verifier::loop_isolation(false)]
fn write_entries(entries: &Vec<(Object, Object)>, s: &mut String)
    ensures
        final(s)@ == old(s)@ + entries_text(entries_model(entries@), 0),
    decreases entries,
{
    let ghost all = entries_model(entries@);
    let mut i: usize = 0;
    while i < entries.len()
        invariant
            i <= entries.len(),
            s@ + entries_text(all, i as int) == old(s)@ + entries_text(all, 0),
        decreases entries.len() - i,
    {
        let ghost before = s@;
        entries[i].0.write(s);
        push_text(s, ": ");
        entries[i].1.write(s);
        if i + 1 < entries.len() {
            push_text(s, ", ");
        }
        i += 1;
        assert(s@ + entries_text(all, i as int) =~= before + entries_text(all, i - 1));
    }
    assert(s@ + entries_text(all, i as int) =~= s@);
}

impl Object {
    /// Appends the text of the object to `s`.
    pub fn write(&self, s: &mut String)
        ensures
            final(s)@ == old(s)@ + value_text(self@),
        decreases self,
    {
        match self {
            Object::Int(i) => push_int(s, *i),
            Object::String(t) => push_text(s, t.as_str()),
            Object::Bool(b) => {
                if *b {
                    push_text(s, "true");
                } else {
                    push_text(s, "false");
                }
            },
            Object::Null => push_text(s, "null"),
            Object::Array(items) => {
                push_text(s, "[");
                write_list(items, s);
                push_text(s, "]");
                assert(s@ =~= old(s)@ + value_text(self@));
            },
            Object::Object(entries) => {
                push_text(s, "{");
                write_entries(entries, s);
                push_text(s, "}");
                assert(s@ =~= old(s)@ + value_text(self@));
            },
            Object::Function(params, body, scope) => {
                push_text(s, "fun(");
                write_names(params, s);
                push_text(s, ") { ... }");
                assert(s@ =~= old(s)@ + value_text(self@));
            },
            Object::Builtin(b) => push_text(s, "[builtin function]"),
            Object::Return(inner) => inner.write(s),
            Object::Error(message) => push_text(s, message.as_str()),
        }
    }

    /// The text of the object, as it is written in messages and in output.
    pub fn to_text(&self) -> (s: String)
        ensures
            s@ == value_text(self@),
    {
        let mut s = String::new();
        self.write(&mut s);
        assert(s@ =~= value_text(self@));
        s
    }
}

} // verus!
