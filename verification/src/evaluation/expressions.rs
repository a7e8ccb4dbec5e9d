//! The evaluation of expressions.

use vstd::prelude::*;
use crate::ast::{copy_block, copy_names, Expr, ExprV, Literal};
use crate::evaluation::object::Object;
use crate::evaluation::operators::option_model;
use crate::evaluation::semantics::{eval_block, eval_expr, eval_list, eval_pairs};
use crate::evaluation::Eval;

verus! {

impl Eval {
    /// What the expression `expr` yields.
    pub(crate) fn eval_expr(&mut self, expr: &Expr, depth: usize) -> (r: Option<Object>)
        ensures
            final(self).depth == old(self).depth,
            (option_model(r), final(self).machine()) == eval_expr(
                expr@,
                old(self).machine(),
                depth as nat,
            ),
        decreases 3 * depth + 2, expr, 1int,
    {
        reveal_with_fuel(eval_expr, 1);
        reveal_with_fuel(eval_block, 1);
        match expr {
            Expr::Ident(name) => Some(self.eval_ident(name)),
            Expr::Literal(lit) => Some(self.eval_literal(lit, depth)),
            Expr::Prefix(p, right) => {
                let r = self.eval_expr(right, depth);
                match r {
                    Some(v) => Some(Eval::eval_prefix_expr(*p, v)),
                    None => None,
                }
            },
            Expr::Infix(op, left, right) => {
                let l = self.eval_expr(left, depth);
                let r = self.eval_expr(right, depth);
                Eval::infix_outcome(*op, l, r)
            },
            Expr::If { cond, then, else_ } => {
                let c = self.eval_expr(cond, depth);
                match c {
                    None => None,
                    Some(v) => {
                        if Eval::is_truthy(&v) {
                            self.eval_block_statement(then, depth)
                        } else {
                            match else_ {
                                Some(block) => self.eval_block_statement(block, depth),
                                None => None,
                            }
                        }
                    },
                }
            },
            Expr::Fun { params, body } => {
                let (scope, count) = self.position();
                Some(Object::Function(copy_names(params), copy_block(body), scope))
            },
            Expr::Call { function, args } => Some(self.eval_call_expr(expr, depth)),
            Expr::Index { array, index } => {
                let a = self.eval_expr(array, depth);
                let i = self.eval_expr(index, depth);
                Eval::index_outcome(a, i)
            },
        }
    }

    /// The value of the literal `lit`.
    pub(crate) fn eval_literal(&mut self, lit: &Literal, depth: usize) -> (r: Object)
        ensures
            final(self).depth == old(self).depth,
            (Some(r@), final(self).machine()) == eval_expr(
                ExprV::Literal(lit@),
                old(self).machine(),
                depth as nat,
            ),
        decreases 3 * depth + 2, lit, 0int,
    {
        reveal_with_fuel(eval_expr, 1);
        reveal_with_fuel(eval_list, 1);
        reveal_with_fuel(eval_pairs, 1);
        match lit {
            Literal::String(s) => Object::String(s.clone()),
            Literal::Int(i) => Object::Int(*i),
            Literal::Boolean(b) => Object::Bool(*b),
            Literal::Array(items) => Object::Array(self.eval_list(items, depth)),
            Literal::Object(pairs) => self.eval_object_literal(pairs, depth),
        }
    }
}

} // verus!
