//! What the operators of the language compute on values.

use vstd::prelude::*;
use crate::ast::{infix_text, Infix, Prefix};
use crate::evaluation::object::{
    entries_model, objects_model, value_text, Object, Value,
};
use crate::evaluation::Eval;
use crate::text::push_text;

verus! {

/// Whether a condition with the value `v` holds: every value but `false`
/// and `null` is truthy.
pub open spec fn is_truthy(v: Value) -> bool {
    !(v is Null) && v != Value::Bool(false)
}

/// Whether `v` is an error.
pub open spec fn is_error(v: Value) -> bool {
    v is Error
}

/// Whether `i` is the value of some `i32`.
pub open spec fn fits(i: int) -> bool {
    i32::MIN <= i <= i32::MAX
}

/// The quotient of `a` by `b`, rounded toward zero.
pub open spec fn quotient(a: int, b: int) -> int
    recommends
        b != 0,
{
    if a >= 0 {
        if b > 0 {
            a / b
        } else {
            -(a / (-b))
        }
    } else {
        if b > 0 {
            -((-a) / b)
        } else {
            (-a) / (-b)
        }
    }
}

/// The remainder of `a` by `b` that goes with `quotient`: it has the sign of
/// `a`.
pub open spec fn remainder(a: int, b: int) -> int
    recommends
        b != 0,
{
    a - b * quotient(a, b)
}

/// The text of a prefix operation that has no meaning.
pub open spec fn unknown_prefix_text(p: Prefix, v: Value) -> Seq<char> {
    "unknown operator: "@ + crate::ast::prefix_text(p) + value_text(v)
}

/// The text of the negation of the least integer, which is no integer value.
pub open spec fn negation_overflow_text(v: Value) -> Seq<char> {
    "integer overflow: -"@ + value_text(v)
}

/// Two operands and the operator between them, as they are written in
/// messages.
pub open spec fn operation_text(l: Seq<char>, op: Infix, r: Seq<char>) -> Seq<char> {
    l + " "@ + infix_text(op) + " "@ + r
}

/// The text of an infix operation on operands of different kinds.
pub open spec fn mismatch_text(l: Value, op: Infix, r: Value) -> Seq<char> {
    "type mismatch: "@ + operation_text(value_text(l), op, value_text(r))
}

/// The text of an infix operation that has no meaning on its operands.
pub open spec fn unknown_infix_text(l: Value, op: Infix, r: Value) -> Seq<char> {
    "unknown operator: "@ + operation_text(value_text(l), op, value_text(r))
}

/// The text of an operation whose result is no integer value.
pub open spec fn overflow_text(l: i32, op: Infix, r: i32) -> Seq<char> {
    "integer overflow: "@ + operation_text(
        value_text(Value::Int(l)),
        op,
        value_text(Value::Int(r)),
    )
}

/// The text of a division or a remainder by zero.
pub open spec fn zero_divisor_text(l: i32, op: Infix, r: i32) -> Seq<char> {
    "division by zero: "@ + operation_text(
        value_text(Value::Int(l)),
        op,
        value_text(Value::Int(r)),
    )
}

/// The text of an index that is no integer into an array.
pub open spec fn bad_index_text(left: Value) -> Seq<char> {
    "index operator not supported: "@ + value_text(left)
}

/// The text of an index into a mapping that cannot be a key.
pub open spec fn bad_key_text(index: Value) -> Seq<char> {
    "unusable as hash key: "@ + value_text(index)
}

/// The text of an index into a value that is neither an array nor a mapping.
pub open spec fn unknown_index_text(left: Value, index: Value) -> Seq<char> {
    "unknown operator: "@ + value_text(left) + " "@ + value_text(index)
}

/// `!v`: the negation of a boolean, `true` for `null`, `false` for
/// everything else.
pub open spec fn not_value(v: Value) -> Value {
    match v {
        Value::Bool(b) => Value::Bool(!b),
        Value::Null => Value::Bool(true),
        _ => Value::Bool(false),
    }
}

/// `-v`: the negated integer, and an error for what is no integer or has no
/// negation.
pub open spec fn minus_value(v: Value) -> Value {
    match v {
        Value::Int(i) => if i == i32::MIN {
            Value::Error(negation_overflow_text(v))
        } else {
            Value::Int((-i) as i32)
        },
        _ => Value::Error(unknown_prefix_text(Prefix::Minus, v)),
    }
}

/// `+v`: the integer itself, and an error for what is no integer.
pub open spec fn plus_value(v: Value) -> Value {
    match v {
        Value::Int(i) => v,
        _ => Value::Error(unknown_prefix_text(Prefix::Plus, v)),
    }
}

/// The value of a prefix operation. An error as operand is the result.
pub open spec fn prefix_value(p: Prefix, v: Value) -> Value {
    if is_error(v) {
        v
    } else {
        match p {
            Prefix::Not => not_value(v),
            Prefix::Minus => minus_value(v),
            Prefix::Plus => plus_value(v),
        }
    }
}

/// The integer `i` as the result of `l op r`, or an error where it is no
/// integer value.
pub open spec fn int_result(i: int, l: i32, op: Infix, r: i32) -> Value {
    if fits(i) {
        Value::Int(i as i32)
    } else {
        Value::Error(overflow_text(l, op, r))
    }
}

/// The value of an infix operation on two integers. Division rounds toward
/// zero and the remainder has the sign of the dividend; a result that is no
/// integer value, and a division or remainder by zero, are errors.
pub open spec fn int_infix(op: Infix, l: i32, r: i32) -> Value {
    match op {
        Infix::Plus => int_result(l + r, l, op, r),
        Infix::Minus => int_result(l - r, l, op, r),
        Infix::Times => int_result(l * r, l, op, r),
        Infix::Divide => if r == 0 {
            Value::Error(zero_divisor_text(l, op, r))
        } else {
            int_result(quotient(l as int, r as int), l, op, r)
        },
        Infix::Modulo => if r == 0 {
            Value::Error(zero_divisor_text(l, op, r))
        } else {
            int_result(remainder(l as int, r as int), l, op, r)
        },
        Infix::Less => Value::Bool(l < r),
        Infix::LessEq => Value::Bool(l <= r),
        Infix::Greater => Value::Bool(l > r),
        Infix::GreaterEq => Value::Bool(l >= r),
        Infix::Equals => Value::Bool(l == r),
        Infix::NotEquals => Value::Bool(l != r),
    }
}

/// The value of an infix operation on two strings: `+` joins them, and no
/// other operator has a meaning.
pub open spec fn string_infix(op: Infix, l: Seq<char>, r: Seq<char>) -> Value {
    match op {
        Infix::Plus => Value::String(l + r),
        _ => Value::Error(unknown_infix_text(Value::String(l), op, Value::String(r))),
    }
}

/// The value of an infix operation on two values that are no errors.
pub open spec fn infix_value(op: Infix, l: Value, r: Value) -> Value {
    match l {
        Value::Int(a) => match r {
            Value::Int(b) => int_infix(op, a, b),
            _ => Value::Error(mismatch_text(l, op, r)),
        },
        Value::String(a) => match r {
            Value::String(b) => string_infix(op, a, b),
            _ => Value::Error(mismatch_text(l, op, r)),
        },
        _ => Value::Error(unknown_infix_text(l, op, r)),
    }
}

/// The result of an infix operation whose operands evaluated to `l` and `r`:
/// nothing where an operand gave nothing, the first error where an operand is
/// an error, the left one first, and else the value of the operation.
pub open spec fn infix_result(op: Infix, l: Option<Value>, r: Option<Value>) -> Option<Value> {
    match l {
        None => None,
        Some(lv) => if is_error(lv) {
            Some(lv)
        } else {
            match r {
                None => None,
                Some(rv) => if is_error(rv) {
                    Some(rv)
                } else {
                    Some(infix_value(op, lv, rv))
                },
            }
        },
    }
}

/// The element of `items` at `i`. A negative index counts from the end, and
/// an index outside the array gives `null`.
pub open spec fn array_index(items: Seq<Value>, i: i32) -> Value {
    let k = if i < 0 {
        items.len() + i
    } else {
        i as int
    };
    if 0 <= k < items.len() {
        items[k]
    } else {
        Value::Null
    }
}

/// Whether `v` can be a key of a mapping: an integer, a boolean or a string.
pub open spec fn is_key(v: Value) -> bool {
    v is Int || v is Bool || v is String
}

/// The index of the first entry with the key `key` at or after `from`.
pub open spec fn entry_index(entries: Seq<(Value, Value)>, key: Value, from: int) -> Option<int>
    decreases entries.len() - from,
{
    if 0 <= from < entries.len() {
        if entries[from].0 == key {
            Some(from)
        } else {
            entry_index(entries, key, from + 1)
        }
    } else {
        None
    }
}

/// The value under `key`, and `null` where the mapping has no such key.
pub open spec fn assoc_get(entries: Seq<(Value, Value)>, key: Value) -> Value {
    match entry_index(entries, key, 0) {
        Some(i) => entries[i].1,
        None => Value::Null,
    }
}

/// The entries after `value` is put under `key`: over the value that the key
/// had, or as a new entry at the end.
pub open spec fn assoc_set(entries: Seq<(Value, Value)>, key: Value, value: Value) -> Seq<
    (Value, Value),
> {
    match entry_index(entries, key, 0) {
        Some(i) => entries.update(i, (key, value)),
        None => entries.push((key, value)),
    }
}

/// The value of `left[index]`.
pub open spec fn index_value(left: Value, index: Value) -> Value {
    match left {
        Value::Array(items) => match index {
            Value::Int(i) => array_index(items, i),
            _ => Value::Error(bad_index_text(left)),
        },
        Value::Object(entries) => if is_key(index) {
            assoc_get(entries, index)
        } else if is_error(index) {
            index
        } else {
            Value::Error(bad_key_text(index))
        },
        _ => Value::Error(unknown_index_text(left, index)),
    }
}

/// The result of an index operation whose operands evaluated to `left` and
/// `index`: nothing where either gave nothing.
pub open spec fn index_result(left: Option<Value>, index: Option<Value>) -> Option<Value> {
    match (left, index) {
        (Some(l), Some(i)) => Some(index_value(l, i)),
        _ => None,
    }
}

/// What a call answers when the body of the function gave `r`: the value
/// inside a return marker, the value itself, or `null` for nothing.
pub open spec fn unwrap_return(r: Option<Value>) -> Value {
    match r {
        Some(Value::Return(inner)) => *inner,
        Some(v) => v,
        None => Value::Null,
    }
}

/// The value of an optional object.
pub open spec fn option_model(o: Option<Object>) -> Option<Value> {
    match o {
        Some(x) => Some(x@),
        None => None,
    }
}

/// An error with the text `head`, the operands and the operator.
fn operation_error(head: &str, l: &Object, op: Infix, r: &Object) -> (e: Object)
    ensures
        e@ == Value::Error(head@ + operation_text(value_text(l@), op, value_text(r@))),
{
    let mut m = String::new();
    push_text(&mut m, head);
    l.write(&mut m);
    push_text(&mut m, " ");
    op.write(&mut m);
    push_text(&mut m, " ");
    r.write(&mut m);
    assert(m@ =~= head@ + operation_text(value_text(l@), op, value_text(r@)));
    Object::Error(m)
}

/// An error with the text `head` and a value.
fn value_error(head: &str, v: &Object) -> (e: Object)
    ensures
        e@ == Value::Error(head@ + value_text(v@)),
{
    let mut m = String::new();
    push_text(&mut m, head);
    v.write(&mut m);
    assert(m@ =~= head@ + value_text(v@));
    Object::Error(m)
}

/// Whether two objects are the same key of a mapping: integers, booleans or
/// strings that are equal.
pub fn same_key(a: &Object, b: &Object) -> (r: bool)
    ensures
        r == (is_key(a@) && a@ == b@),
{
    match (a, b) {
        (Object::Int(x), Object::Int(y)) => *x == *y,
        (Object::Bool(x), Object::Bool(y)) => *x == *y,
        (Object::String(x), Object::String(y)) => *x == *y,
        _ => false,
    }
}

/// The index of the first entry of `entries` with the key `key`.
pub(crate) fn find_entry(entries: &Vec<(Object, Object)>, key: &Object) -> (found: Option<usize>)
    requires
        is_key(key@),
    ensures
        match found {
            Some(i) => entry_index(entries_model(entries@), key@, 0) == Some(i as int) && i
                < entries.len(),
            None => entry_index(entries_model(entries@), key@, 0) is None,
        },
{
    let ghost all = entries_model(entries@);
    let mut i: usize = 0;
    while i < entries.len()
        invariant
            i <= entries.len(),
            is_key(key@),
            all == entries_model(entries@),
            entry_index(all, key@, 0) == entry_index(all, key@, i as int),
        decreases entries.len() - i,
    {
        if same_key(&entries[i].0, key) {
            return Some(i);
        }
        i += 1;
    }
    None
}

/// Puts `value` under `key` in `entries`.
pub(crate) fn put_entry(entries: &mut Vec<(Object, Object)>, key: Object, value: Object)
    requires
        is_key(key@),
    ensures
        entries_model(final(entries)@) == assoc_set(entries_model(old(entries)@), key@, value@),
{
    match find_entry(entries, &key) {
        Some(i) => {
            entries[i] = (key, value);
            assert(entries_model(entries@) =~= assoc_set(
                entries_model(old(entries)@),
                key@,
                value@,
            ));
        },
        None => {
            entries.push((key, value));
            assert(entries_model(entries@) =~= assoc_set(
                entries_model(old(entries)@),
                key@,
                value@,
            ));
        },
    }
}

/// The integer `wide` as the result of `l op r`.
fn int_object(wide: i64, l: i32, op: Infix, r: i32) -> (o: Object)
    ensures
        o@ == int_result(wide as int, l, op, r),
{
    if -0x8000_0000 <= wide && wide <= 0x7fff_ffff {
        Object::Int(wide as i32)
    } else {
        let e = operation_error("integer overflow: ", &Object::Int(l), op, &Object::Int(r));
        assert(e@ == Value::Error(overflow_text(l, op, r)));
        e
    }
}

/// The size of `i`.
fn magnitude(i: i32) -> (m: u64)
    ensures
        m == if i < 0 {
            -(i as int)
        } else {
            i as int
        },
{
    let wide: i64 = i as i64;
    if wide < 0 {
        (-wide) as u64
    } else {
        wide as u64
    }
}

/// The quotient of `l` by `r`, rounded toward zero.
fn divide(l: i32, r: i32) -> (q: i64)
    requires
        r != 0,
    ensures
        q == quotient(l as int, r as int),
{
    let size: u64 = magnitude(l) / magnitude(r);
    assert(size <= 0x8000_0000) by {
        assert(magnitude_of(l) / magnitude_of(r) <= magnitude_of(l)) by (nonlinear_arith)
            requires
                magnitude_of(l) >= 0,
                magnitude_of(r) > 0,
        ;
    }
    if (l < 0) == (r < 0) {
        size as i64
    } else {
        -(size as i64)
    }
}

/// The size of `i`, as an integer.
pub open spec fn magnitude_of(i: i32) -> int {
    if i < 0 {
        -(i as int)
    } else {
        i as int
    }
}

impl Eval {
    /// Whether a condition with the value `object` holds.
    pub fn is_truthy(object: &Object) -> (r: bool)
        ensures
            r == is_truthy(object@),
    {
        match object {
            Object::Null => false,
            Object::Bool(b) => *b,
            _ => true,
        }
    }

    /// Whether `object` is an error.
    pub fn is_error(object: &Object) -> (r: bool)
        ensures
            r == is_error(object@),
    {
        match object {
            Object::Error(_) => true,
            _ => false,
        }
    }

    /// `!expr`.
    pub fn eval_not_prefix_expr(expr: Object) -> (r: Object)
        ensures
            r@ == not_value(expr@),
    {
        match expr {
            Object::Bool(b) => Object::Bool(!b),
            Object::Null => Object::Bool(true),
            _ => Object::Bool(false),
        }
    }

    /// `-expr`.
    pub fn eval_minus_prefix_expr(expr: Object) -> (r: Object)
        ensures
            r@ == minus_value(expr@),
    {
        match expr {
            Object::Int(i) => {
                if i == -0x8000_0000 {
                    let e = value_error("integer overflow: -", &expr);
                    assert(e@ == Value::Error(negation_overflow_text(expr@)));
                    e
                } else {
                    Object::Int(-i)
                }
            },
            _ => {
                let mut m = String::new();
                push_text(&mut m, "unknown operator: ");
                Prefix::Minus.write(&mut m);
                expr.write(&mut m);
                assert(m@ =~= unknown_prefix_text(Prefix::Minus, expr@));
                Object::Error(m)
            },
        }
    }

    /// `+expr`.
    pub fn eval_plus_prefix_expr(expr: Object) -> (r: Object)
        ensures
            r@ == plus_value(expr@),
    {
        match expr {
            Object::Int(i) => Object::Int(i),
            _ => {
                let mut m = String::new();
                push_text(&mut m, "unknown operator: ");
                Prefix::Plus.write(&mut m);
                expr.write(&mut m);
                assert(m@ =~= unknown_prefix_text(Prefix::Plus, expr@));
                Object::Error(m)
            },
        }
    }

    /// The value of the prefix operation `prefix expr`.
    pub fn eval_prefix_expr(prefix: Prefix, expr: Object) -> (r: Object)
        ensures
            r@ == prefix_value(prefix, expr@),
    {
        if Eval::is_error(&expr) {
            return expr;
        }
        match prefix {
            Prefix::Not => Eval::eval_not_prefix_expr(expr),
            Prefix::Minus => Eval::eval_minus_prefix_expr(expr),
            Prefix::Plus => Eval::eval_plus_prefix_expr(expr),
        }
    }

    /// The value of an infix operation on two integers.
    pub fn eval_int_infix_expr(infix: Infix, left: i32, right: i32) -> (r: Object)
        ensures
            r@ == int_infix(infix, left, right),
    {
        let l: i64 = left as i64;
        let r: i64 = right as i64;
        match infix {
            Infix::Plus => int_object(l + r, left, infix, right),
            Infix::Minus => int_object(l - r, left, infix, right),
            Infix::Times => {
                assert(-0x4000_0000_0000_0000 <= l * r <= 0x4000_0000_0000_0000)
                    by (nonlinear_arith)
                    requires
                        -0x8000_0000 <= l <= 0x7fff_ffff,
                        -0x8000_0000 <= r <= 0x7fff_ffff,
                ;
                int_object(l * r, left, infix, right)
            },
            Infix::Divide => {
                if right == 0 {
                    let e = operation_error(
                        "division by zero: ",
                        &Object::Int(left),
                        infix,
                        &Object::Int(right),
                    );
                    assert(e@ == Value::Error(zero_divisor_text(left, infix, right)));
                    e
                } else {
                    int_object(divide(left, right), left, infix, right)
                }
            },
            Infix::Modulo => {
                if right == 0 {
                    let e = operation_error(
                        "division by zero: ",
                        &Object::Int(left),
                        infix,
                        &Object::Int(right),
                    );
                    assert(e@ == Value::Error(zero_divisor_text(left, infix, right)));
                    e
                } else {
                    let q = divide(left, right);
                    assert(-0x8000_0000 <= q <= 0x8000_0000) by {
                        assert(magnitude_of(left) / magnitude_of(right) <= magnitude_of(left))
                            by (nonlinear_arith)
                            requires
                                magnitude_of(left) >= 0,
                                magnitude_of(right) > 0,
                        ;
                    }
                    assert(-0x4000_0000_0000_0000 <= r * q <= 0x4000_0000_0000_0000)
                        by (nonlinear_arith)
                        requires
                            -0x8000_0000 <= r <= 0x7fff_ffff,
                            -0x8000_0000 <= q <= 0x8000_0000,
                    ;
                    int_object(l - r * q, left, infix, right)
                }
            },
            Infix::Less => Object::Bool(left < right),
            Infix::LessEq => Object::Bool(left <= right),
            Infix::Greater => Object::Bool(left > right),
            Infix::GreaterEq => Object::Bool(left >= right),
            Infix::Equals => Object::Bool(left == right),
            Infix::NotEquals => Object::Bool(left != right),
        }
    }

    /// The value of an infix operation on two strings.
    pub fn eval_string_infix_expr(infix: Infix, left: String, right: String) -> (r: Object)
        ensures
            r@ == string_infix(infix, left@, right@),
    {
        match infix {
            Infix::Plus => {
                let mut joined = left;
                push_text(&mut joined, right.as_str());
                Object::String(joined)
            },
            _ => {
                let l = Object::String(left);
                let r = Object::String(right);
                let e = operation_error("unknown operator: ", &l, infix, &r);
                assert(e@ == Value::Error(unknown_infix_text(l@, infix, r@)));
                e
            },
        }
    }

    /// The value of the infix operation `left infix right`.
    pub fn eval_infix_expr(infix: Infix, left: Object, right: Object) -> (r: Object)
        ensures
            r@ == infix_value(infix, left@, right@),
    {
        match left {
            Object::Int(l) => {
                match right {
                    Object::Int(r) => Eval::eval_int_infix_expr(infix, l, r),
                    _ => {
                        let e = operation_error("type mismatch: ", &left, infix, &right);
                        assert(e@ == Value::Error(mismatch_text(left@, infix, right@)));
                        e
                    },
                }
            },
            Object::String(l) => {
                match right {
                    Object::String(r) => Eval::eval_string_infix_expr(infix, l, r),
                    _ => {
                        let left = Object::String(l);
                        let e = operation_error("type mismatch: ", &left, infix, &right);
                        assert(e@ == Value::Error(mismatch_text(left@, infix, right@)));
                        e
                    },
                }
            },
            _ => {
                let e = operation_error("unknown operator: ", &left, infix, &right);
                assert(e@ == Value::Error(unknown_infix_text(left@, infix, right@)));
                e
            },
        }
    }

    /// The result of an infix operation whose operands evaluated to `left`
    /// and `right`.
    pub fn infix_outcome(infix: Infix, left: Option<Object>, right: Option<Object>) -> (r: Option<
        Object,
    >)
        ensures
            option_model(r) == infix_result(infix, option_model(left), option_model(right)),
    {
        match left {
            None => None,
            Some(l) => {
                if Eval::is_error(&l) {
                    Some(l)
                } else {
                    match right {
                        None => None,
                        Some(r) => {
                            if Eval::is_error(&r) {
                                Some(r)
                            } else {
                                Some(Eval::eval_infix_expr(infix, l, r))
                            }
                        },
                    }
                }
            },
        }
    }

    /// The result of an index operation whose operands evaluated to `left`
    /// and `index`.
    pub fn index_outcome(left: Option<Object>, index: Option<Object>) -> (r: Option<Object>)
        ensures
            option_model(r) == index_result(option_model(left), option_model(index)),
    {
        match left {
            Some(l) => match index {
                Some(i) => Some(Eval::eval_index_expr(l, i)),
                None => None,
            },
            None => None,
        }
    }

    /// The element of `array` at `index`.
    pub fn eval_array_index_expr(array: &Vec<Object>, index: i32) -> (r: Object)
        ensures
            r@ == array_index(objects_model(array@), index),
    {
        assert(objects_model(array@).len() == array.len());
        let n = array.len();
        if index < 0 {
            let back: u64 = magnitude(index);
            if back <= n as u64 {
                let k: usize = n - back as usize;
                if k < n {
                    return array[k].copy();
                }
            }
            Object::Null
        } else {
            let k: u64 = magnitude(index);
            if k < n as u64 {
                array[k as usize].copy()
            } else {
                Object::Null
            }
        }
    }

    /// The value of `left[index]`.
    pub fn eval_index_expr(left: Object, index: Object) -> (r: Object)
        ensures
            r@ == index_value(left@, index@),
    {
        match &left {
            Object::Array(items) => {
                match index {
                    Object::Int(i) => Eval::eval_array_index_expr(items, i),
                    _ => {
                        let e = value_error("index operator not supported: ", &left);
                        assert(e@ == Value::Error(bad_index_text(left@)));
                        e
                    },
                }
            },
            Object::Object(entries) => {
                let usable = match &index {
                    Object::Int(_) => true,
                    Object::Bool(_) => true,
                    Object::String(_) => true,
                    _ => false,
                };
                if usable {
                    match find_entry(entries, &index) {
                        Some(i) => entries[i].1.copy(),
                        None => Object::Null,
                    }
                } else if Eval::is_error(&index) {
                    index
                } else {
                    let e = value_error("unusable as hash key: ", &index);
                    assert(e@ == Value::Error(bad_key_text(index@)));
                    e
                }
            },
            _ => {
                let mut m = String::new();
                push_text(&mut m, "unknown operator: ");
                left.write(&mut m);
                push_text(&mut m, " ");
                index.write(&mut m);
                assert(m@ =~= unknown_index_text(left@, index@));
                Object::Error(m)
            },
        }
    }

    /// What a call answers when the body of the function gave `obj`.
    pub fn unwrap_return_value(obj: Option<Object>) -> (r: Object)
        ensures
            r@ == unwrap_return(option_model(obj)),
    {
        match obj {
            Some(Object::Return(inner)) => *inner,
            Some(o) => o,
            None => Object::Null,
        }
    }
}

} // verus!
