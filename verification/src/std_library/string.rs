//! The `std:string` module.

use vstd::prelude::*;
use crate::evaluation::object::{objects_model, value_text, Builtin, Object, Value};
use crate::std_library::{arity_error, arity_text, Res};
use crate::text::{chars_of, push_text};

verus! {

/// Whether `pattern` stands in `s` at `i`.
pub open spec fn occurs_at(s: Seq<char>, pattern: Seq<char>, i: int) -> bool {
    0 <= i && i + pattern.len() <= s.len() && s.subrange(i, i + pattern.len()) == pattern
}

/// The text `s[i..]` with every occurrence of `pattern` replaced by `to`,
/// found from left to right and never overlapping. An empty pattern occurs
/// before every character and at the end.
pub open spec fn replaced(s: Seq<char>, pattern: Seq<char>, to: Seq<char>, i: int) -> Seq<char>
    decreases s.len() - i,
{
    if 0 <= i < s.len() {
        if pattern.len() == 0 {
            to + seq![s[i]] + replaced(s, pattern, to, i + 1)
        } else if occurs_at(s, pattern, i) {
            to + replaced(s, pattern, to, i + pattern.len())
        } else {
            seq![s[i]] + replaced(s, pattern, to, i + 1)
        }
    } else if pattern.len() == 0 {
        to
    } else {
        Seq::empty()
    }
}

/// What `replace` answers where its first argument is no string.
pub open spec fn not_string_text(v: Value) -> Seq<char> {
    "First argument must be a string. Got "@ + value_text(v)
}

/// What `replace` answers: its first argument with every occurrence of the
/// text of its second replaced by the text of its third.
pub open spec fn replace_value(args: Seq<Value>) -> Value {
    if args.len() != 3 {
        Value::Error(arity_text(args.len(), "3."@))
    } else {
        match args[0] {
            Value::String(s) => Value::String(
                replaced(s, value_text(args[1]), value_text(args[2]), 0),
            ),
            other => Value::Error(not_string_text(other)),
        }
    }
}

/// The bindings of `std:string`.
pub fn add_globals() -> (res: Res)
    ensures
        res@ == crate::std_library::string_model(),
{
    reveal(crate::std_library::string_model);
    let mut globals: Vec<(String, Object)> = Vec::new();
    let mut name = String::new();
    push_text(&mut name, "replace");
    assert(name@ =~= "replace"@);
    globals.push((name, Object::Builtin(Builtin::Replace)));
    let res = Res { globals, raw: None };
    assert(res@.globals =~= crate::std_library::string_model().globals);
    res
}

/// Whether `pattern` stands in `s` at `i`.
fn matches_at(s: &Vec<char>, pattern: &Vec<char>, i: usize) -> (r: bool)
    requires
        i <= s.len(),
    ensures
        r == occurs_at(s@, pattern@, i as int),
{
    if pattern.len() > s.len() - i {
        return false;
    }
    let mut k: usize = 0;
    while k < pattern.len()
        invariant
            k <= pattern.len(),
            i + pattern.len() <= s.len(),
            forall|j: int| 0 <= j < k ==> s[i + j] == pattern[j],
        decreases pattern.len() - k,
    {
        if s[i + k] != pattern[k] {
            assert(s@.subrange(i as int, i + pattern.len())[k as int] == s[i + k]);
            return false;
        }
        k += 1;
    }
    assert(s@.subrange(i as int, i + pattern.len()) =~= pattern@);
    true
}

/// Appends the characters of `chars` to `out`.
fn push_chars(out: &mut String, chars: &Vec<char>)
    ensures
        final(out)@ == old(out)@ + chars@,
{
    let mut k: usize = 0;
    assert(out@ =~= old(out)@ + chars@.take(0));
    while k < chars.len()
        invariant
            k <= chars.len(),
            out@ == old(out)@ + chars@.take(k as int),
        decreases chars.len() - k,
    {
        out.push(chars[k]);
        assert(chars@.take(k + 1) =~= chars@.take(k as int).push(chars[k as int]));
        assert(out@ =~= old(out)@ + chars@.take(k + 1));
        k += 1;
    }
    assert(chars@.take(k as int) =~= chars@);
}

/// The text `s` with every occurrence of `pattern` replaced by `to`.
pub fn replace_all(s: &str, pattern: &str, to: &str) -> (r: String)
    ensures
        r@ == replaced(s@, pattern@, to@, 0),
{
    let text = chars_of(s);
    let from = chars_of(pattern);
    let with = chars_of(to);
    let mut out = String::new();
    let mut i: usize = 0;
    assert(out@ + replaced(text@, from@, with@, 0) =~= replaced(text@, from@, with@, 0));
    while i < text.len()
        invariant
            i <= text.len(),
            out@ + replaced(text@, from@, with@, i as int) == replaced(text@, from@, with@, 0),
        decreases text.len() - i,
    {
        let ghost before = out@;
        if from.len() == 0 {
            push_chars(&mut out, &with);
            out.push(text[i]);
            assert(out@ + replaced(text@, from@, with@, i + 1) =~= before + replaced(
                text@,
                from@,
                with@,
                i as int,
            ));
            i += 1;
        } else if matches_at(&text, &from, i) {
            push_chars(&mut out, &with);
            assert(out@ + replaced(text@, from@, with@, i + from.len()) =~= before + replaced(
                text@,
                from@,
                with@,
                i as int,
            ));
            i += from.len();
        } else {
            out.push(text[i]);
            assert(out@ + replaced(text@, from@, with@, i + 1) =~= before + replaced(
                text@,
                from@,
                with@,
                i as int,
            ));
            i += 1;
        }
    }
    if from.len() == 0 {
        let ghost before = out@;
        push_chars(&mut out, &with);
        assert(out@ =~= before + replaced(text@, from@, with@, i as int));
    } else {
        assert(out@ + replaced(text@, from@, with@, i as int) =~= out@);
    }
    out
}

/// The string `args[0]` with every occurrence of the text of `args[1]`
/// replaced by the text of `args[2]`.
pub fn replace(args: Vec<Object>) -> (r: Object)
    ensures
        r@ == replace_value(objects_model(args@)),
{
    if args.len() != 3 {
        return arity_error(args.len(), "3.");
    }
    assert(objects_model(args@)[0] == args[0]@);
    assert(objects_model(args@)[1] == args[1]@);
    assert(objects_model(args@)[2] == args[2]@);
    match &args[0] {
        Object::String(s) => {
            let pattern = args[1].to_text();
            let to = args[2].to_text();
            Object::String(replace_all(s.as_str(), pattern.as_str(), to.as_str()))
        },
        other => {
            let mut m = String::new();
            push_text(&mut m, "First argument must be a string. Got ");
            other.write(&mut m);
            assert(m@ =~= not_string_text(other@));
            Object::Error(m)
        },
    }
}

} // verus!
