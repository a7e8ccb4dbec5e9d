//! The evaluation of statements, blocks and programs.

use vstd::prelude::*;
use crate::ast::{block_model, Ident, Statement};
use crate::evaluation::object::{Object, Value};
use crate::evaluation::operators::option_model;
use crate::evaluation::semantics::{
    binding_outcome, eval_block, eval_expr, eval_program, eval_statement, not_found_text,
};
use crate::evaluation::steps::{
    lemma_bare_return_statement, lemma_expression_statement, lemma_include_statement,
    lemma_let_statement, lemma_reassign_statement, lemma_return_statement,
};
use crate::evaluation::Eval;
use crate::text::push_text;

verus! {

impl Eval {
    /// What a declaration or a reassignment of `name` yields, where its
    /// expression gave `r`.
    pub(crate) fn bind(&mut self, fresh: bool, name: &Ident, r: Option<Object>) -> (o: Option<
        Object,
    >)
        ensures
            final(self).depth == old(self).depth,
            (option_model(o), final(self).machine()) == binding_outcome(
                fresh,
                name@,
                option_model(r),
                old(self).machine(),
            ),
    {
        match r {
            None => None,
            Some(v) => {
                if Eval::is_error(&v) {
                    Some(v)
                } else if fresh {
                    self.declare(name.0.clone(), v);
                    None
                } else {
                    if self.reassign(name.0.clone(), v) {
                        None
                    } else {
                        let mut m = String::new();
                        push_text(&mut m, "identifier not found: ");
                        push_text(&mut m, name.0.as_str());
                        assert(m@ =~= not_found_text(name@));
                        Some(Object::Error(m))
                    }
                }
            },
        }
    }

    /// What the statement `statement` yields.
    pub(crate) fn eval_statement(&mut self, statement: &Statement, depth: usize) -> (r: Option<
        Object,
    >)
        ensures
            final(self).depth == old(self).depth,
            (option_model(r), final(self).machine()) == eval_statement(
                statement@,
                old(self).machine(),
                depth as nat,
            ),
        decreases 3 * depth + 2, statement, 0int,
    {
        let ghost m = self.machine();
        match statement {
            Statement::Expression(e) => {
                proof {
                    lemma_expression_statement(e@, m, depth as nat);
                }
                self.eval_expr(e, depth)
            },
            Statement::Return(Some(e)) => {
                proof {
                    lemma_return_statement(e@, m, depth as nat);
                }
                match self.eval_expr(e, depth) {
                    Some(v) => Some(Object::Return(Box::new(v))),
                    None => None,
                }
            },
            Statement::Return(None) => {
                proof {
                    lemma_bare_return_statement(m, depth as nat);
                }
                let null = Object::Null;
                assert(null@ == Value::Null);
                Some(Object::Return(Box::new(null)))
            },
            Statement::Let(name, e) => {
                proof {
                    lemma_let_statement(name@, e@, m, depth as nat);
                }
                let r = self.eval_expr(e, depth);
                self.bind(true, name, r)
            },
            Statement::Reassign(name, e) => {
                proof {
                    lemma_reassign_statement(name@, e@, m, depth as nat);
                }
                let r = self.eval_expr(e, depth);
                self.bind(false, name, r)
            },
            Statement::Include(name) => {
                proof {
                    lemma_include_statement(name@, m, depth as nat);
                }
                self.extend_global_store(&name.0, depth)
            },
        }
    }

    /// What the statements of a block yield.
    #[verifier::loop_isolation(false)]
    pub(crate) fn eval_block_statement(&mut self, statements: &Vec<Statement>, depth: usize) -> (r:
        Option<Object>)
        ensures
            final(self).depth == old(self).depth,
            (option_model(r), final(self).machine()) == eval_block(
                block_model(statements@),
                0,
                None,
                old(self).machine(),
                depth as nat,
            ),
        decreases 3 * depth + 2, statements, 0int,
    {
        reveal_with_fuel(eval_block, 1);
        reveal_with_fuel(eval_statement, 1);
        let ghost all = block_model(statements@);
        let ghost goal = eval_block(all, 0, None, self.machine(), depth as nat);
        let mut result: Option<Object> = None;
        let mut i: usize = 0;
        while i < statements.len()
            invariant
                i <= statements.len(),
                self.depth == old(self).depth,
                eval_block(all, i as int, option_model(result), self.machine(), depth as nat)
                    == goal,
            decreases statements.len() - i,
        {
            let r = self.eval_statement(&statements[i], depth);
            match r {
                Some(Object::Error(e)) => {
                    return Some(Object::Error(e));
                },
                Some(Object::Return(inner)) => {
                    return Some(Object::Return(inner));
                },
                other => {
                    result = other;
                },
            }
            i += 1;
        }
        result
    }

    /// What the statements of a program yield.
    #[verifier::loop_isolation(false)]
    pub(crate) fn eval_program(&mut self, statements: &Vec<Statement>, depth: usize) -> (r: Option<
        Object,
    >)
        ensures
            final(self).depth == old(self).depth,
            (option_model(r), final(self).machine()) == eval_program(
                block_model(statements@),
                0,
                None,
                old(self).machine(),
                depth as nat,
            ),
        decreases 3 * depth + 2, statements, 0int,
    {
        reveal_with_fuel(eval_program, 1);
        reveal_with_fuel(eval_statement, 1);
        let ghost all = block_model(statements@);
        let ghost goal = eval_program(all, 0, None, self.machine(), depth as nat);
        let mut result: Option<Object> = None;
        let mut i: usize = 0;
        while i < statements.len()
            invariant
                i <= statements.len(),
                self.depth == old(self).depth,
                eval_program(all, i as int, option_model(result), self.machine(), depth as nat)
                    == goal,
            decreases statements.len() - i,
        {
            let r = self.eval_statement(&statements[i], depth);
            match r {
                Some(Object::Error(e)) => {
                    return Some(Object::Error(e));
                },
                Some(Object::Return(inner)) => {
                    return Some(*inner);
                },
                other => {
                    result = other;
                },
            }
            i += 1;
        }
        result
    }
}

} // verus!
