//! The evaluation of lists of expressions and of object literals.

use vstd::prelude::*;
use crate::ast::{exprs_model, pairs_model, Expr};
use crate::evaluation::object::{entries_model, objects_model, Object};
use crate::evaluation::operators::{bad_key_text, is_error, option_model, put_entry};
use crate::evaluation::semantics::{eval_expr, eval_list, eval_pairs, or_null};
use crate::evaluation::Eval;
use crate::text::push_text;

verus! {

/// The object for what an expression gave: `null` for nothing.
pub(crate) fn or_null_object(r: Option<Object>) -> (o: Object)
    ensures
        o@ == or_null(option_model(r)),
{
    match r {
        Some(v) => v,
        None => Object::Null,
    }
}

impl Eval {
    /// The values of the expressions `items`, in order.
    #[verifier::loop_isolation(false)]
    pub(crate) fn eval_list(&mut self, items: &Vec<Expr>, depth: usize) -> (r: Vec<Object>)
        ensures
            final(self).depth == old(self).depth,
            (objects_model(r@), final(self).machine()) == eval_list(
                exprs_model(items@),
                0,
                Seq::empty(),
                old(self).machine(),
                depth as nat,
            ),
        decreases 3 * depth + 2, items, 0int,
    {
        reveal_with_fuel(eval_list, 1);
        reveal_with_fuel(eval_expr, 1);
        let ghost all = exprs_model(items@);
        let ghost goal = eval_list(all, 0, Seq::empty(), self.machine(), depth as nat);
        let mut values: Vec<Object> = Vec::new();
        assert(objects_model(values@) =~= Seq::empty());
        let mut i: usize = 0;
        while i < items.len()
            invariant
                i <= items.len(),
                self.depth == old(self).depth,
                eval_list(all, i as int, objects_model(values@), self.machine(), depth as nat)
                    == goal,
            decreases items.len() - i,
        {
            let ghost before = values@;
            let r = self.eval_expr(&items[i], depth);
            let value = or_null_object(r);
            values.push(value);
            assert(objects_model(values@) =~= objects_model(before).push(value@));
            i += 1;
        }
        values
    }

    /// The mapping that the pairs of an object literal make.
    #[verifier::loop_isolation(false)]
    pub(crate) fn eval_object_literal(&mut self, pairs: &Vec<(Expr, Expr)>, depth: usize) -> (r:
        Object)
        ensures
            final(self).depth == old(self).depth,
            (r@, final(self).machine()) == eval_pairs(
                pairs_model(pairs@),
                0,
                Seq::empty(),
                old(self).machine(),
                depth as nat,
            ),
        decreases 3 * depth + 2, pairs, 0int,
    {
        reveal_with_fuel(eval_pairs, 1);
        reveal_with_fuel(eval_expr, 1);
        let ghost all = pairs_model(pairs@);
        let ghost goal = eval_pairs(all, 0, Seq::empty(), self.machine(), depth as nat);
        let mut entries: Vec<(Object, Object)> = Vec::new();
        assert(entries_model(entries@) =~= Seq::empty());
        let mut i: usize = 0;
        while i < pairs.len()
            invariant
                i <= pairs.len(),
                self.depth == old(self).depth,
                eval_pairs(all, i as int, entries_model(entries@), self.machine(), depth as nat)
                    == goal,
            decreases pairs.len() - i,
        {
            let k = self.eval_expr(&pairs[i].0, depth);
            let key = or_null_object(k);
            if Eval::is_error(&key) {
                return key;
            }
            let v = self.eval_expr(&pairs[i].1, depth);
            let value = or_null_object(v);
            if Eval::is_error(&value) {
                return value;
            }
            let usable = match &key {
                Object::Int(_) => true,
                Object::Bool(_) => true,
                Object::String(_) => true,
                _ => false,
            };
            if !usable {
                let mut m = String::new();
                push_text(&mut m, "unusable as hash key: ");
                key.write(&mut m);
                assert(m@ =~= bad_key_text(key@));
                return Object::Error(m);
            }
            put_entry(&mut entries, key, value);
            i += 1;
        }
        Object::Object(entries)
    }
}

} // verus!
