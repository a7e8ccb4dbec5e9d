//! Calls: of functions of the language and of native functions.

use vstd::prelude::*;
use crate::ast::{names_model, Expr, Ident};
use crate::evaluation::globals::log_text;
use crate::evaluation::object::{objects_model, Builtin, Object, Value};
use crate::evaluation::operators::option_model;
use crate::evaluation::semantics::{
    apply, arity_mismatch_text, call_builtin, depth_text, eval_block, eval_expr, eval_list,
    log_arity_text, no_scope_text, not_function_text, zip,
};
use crate::evaluation::store::bindings_model;
use crate::evaluation::Eval;
use crate::text::{push_decimal, push_text};

verus! {

/// An error with the text `text`.
fn error(text: &str) -> (e: Object)
    ensures
        e@ == Value::Error(text@),
{
    let mut m = String::new();
    push_text(&mut m, text);
    assert(m@ =~= text@);
    Object::Error(m)
}

impl Eval {
    /// What the call `call` yields: the arguments are evaluated in order,
    /// then the function, and then the function is applied.
    pub(crate) fn eval_call_expr(&mut self, call: &Expr, depth: usize) -> (r: Object)
        requires
            call is Call,
        ensures
            final(self).depth == old(self).depth,
            (Some(r@), final(self).machine()) == eval_expr(
                call@,
                old(self).machine(),
                depth as nat,
            ),
        decreases 3 * depth + 2, call, 0int,
    {
        reveal_with_fuel(eval_expr, 1);
        reveal_with_fuel(eval_list, 1);
        reveal_with_fuel(apply, 1);
        match call {
            Expr::Call { function, args } => {
                let values = self.eval_list(args, depth);
                let f = self.eval_expr(function, depth);
                self.apply_function(f, values, depth)
            },
            _ => Object::Null,
        }
    }

    /// The bindings of the parameters `params` to the arguments `args`.
    pub(crate) fn extended_function_store(params: &Vec<Ident>, args: &Vec<Object>) -> (r: Vec<
        (String, Object),
    >)
        requires
            params.len() == args.len(),
        ensures
            bindings_model(r@) == zip(names_model(params@), objects_model(args@)),
    {
        let ghost all = zip(names_model(params@), objects_model(args@));
        let mut r: Vec<(String, Object)> = Vec::new();
        let mut i: usize = 0;
        assert(bindings_model(r@) =~= all.take(0));
        while i < params.len()
            invariant
                i <= params.len(),
                params.len() == args.len(),
                all == zip(names_model(params@), objects_model(args@)),
                bindings_model(r@) == all.take(i as int),
            decreases params.len() - i,
        {
            let name = params[i].0.clone();
            let value = args[i].copy();
            let ghost before = r@;
            r.push((name, value));
            assert(bindings_model(r@) =~= bindings_model(before).push((name@, value@)));
            assert(all[i as int] == (name@, value@));
            assert(all.take(i + 1) =~= all.take(i as int).push(all[i as int]));
            i += 1;
        }
        assert(all.take(i as int) =~= all);
        r
    }

    /// What the call of the native function `b` with `args` yields.
    pub(crate) fn call_builtin(&mut self, b: Builtin, args: Vec<Object>) -> (r: Object)
        ensures
            final(self).depth == old(self).depth,
            (r@, final(self).machine()) == call_builtin(
                b,
                objects_model(args@),
                old(self).machine(),
            ),
    {
        match b {
            Builtin::Log => {
                assert(objects_model(args@).len() == args.len());
                if args.len() < 1 {
                    let e = error("Wrong number of arguments");
                    assert(e@ == Value::Error(log_arity_text()));
                    e
                } else {
                    let line = log_text(&args);
                    self.write_line(line);
                    Object::Null
                }
            },
            _ => crate::std_library::call(b, args),
        }
    }

    /// What the call of `f` with `args` yields.
    pub(crate) fn apply_function(&mut self, f: Option<Object>, args: Vec<Object>, depth: usize) -> (r:
        Object)
        ensures
            final(self).depth == old(self).depth,
            (r@, final(self).machine()) == apply(
                option_model(f),
                objects_model(args@),
                old(self).machine(),
                depth as nat,
            ),
        decreases 3 * depth, args, 0int,
    {
        reveal_with_fuel(apply, 1);
        reveal_with_fuel(eval_block, 1);
        match f {
            Some(Object::Function(params, body, scope)) => {
                assert(names_model(params@).len() == params.len());
                assert(objects_model(args@).len() == args.len());
                if params.len() != args.len() {
                    let mut m = String::new();
                    push_text(&mut m, "wrong number of arguments: expected ");
                    push_decimal(&mut m, params.len() as u64);
                    push_text(&mut m, ", given ");
                    push_decimal(&mut m, args.len() as u64);
                    assert(m@ =~= arity_mismatch_text(params.len() as nat, args.len() as nat));
                    return Object::Error(m);
                }
                if depth == 0 {
                    let e = error("maximum call depth exceeded");
                    assert(e@ == Value::Error(depth_text()));
                    return e;
                }
                let (current, count) = self.position();
                if scope >= count {
                    let e = error("function scope not found");
                    assert(e@ == Value::Error(no_scope_text()));
                    return e;
                }
                let bindings = Eval::extended_function_store(&params, &args);
                self.enter(bindings, Some(scope));
                let r = self.eval_block_statement(&body, depth - 1);
                self.back_to(current);
                Eval::unwrap_return_value(r)
            },
            Some(Object::Builtin(b)) => self.call_builtin(b, args),
            Some(other) => {
                let mut m = String::new();
                push_text(&mut m, "function not found: ");
                other.write(&mut m);
                assert(m@ =~= not_function_text(other@));
                Object::Error(m)
            },
            None => Object::Null,
        }
    }
}

} // verus!
