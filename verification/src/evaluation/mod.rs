//! The evaluator and what it works on.

use vstd::prelude::*;
use crate::ast::{Ident, Program};
use crate::evaluation::globals::new_globals;
use crate::evaluation::object::Object;
use crate::evaluation::operators::option_model;
use crate::evaluation::semantics::{
    back_to, enter, eval_program, find_module, ident_value, not_found_text, own_bindings, Machine,
};
use crate::evaluation::store::{assign, bindings_model, declare, outer_model, position, Store};
use crate::parser::texts;
use crate::text::push_text;

mod calls;
mod expressions;
pub mod globals;
pub mod preservation;
mod library;
mod lists;
pub mod object;
pub mod operators;
pub mod semantics;
pub mod soundness;
mod statements;
pub mod steps;
pub mod store;

verus! {

/// How deep calls may nest where nothing else is asked for.
pub const DEFAULT_DEPTH: usize = 200;

/// The values of a sequence of modules, each a name and a source text.
pub open spec fn modules_model(modules: Seq<(String, String)>) -> Seq<(Seq<char>, Seq<char>)> {
    Seq::new(modules.len(), |i: int| (modules[i].0@, modules[i].1@))
}

/// The evaluator: the scopes of the program, the active scope, how deep
/// calls may nest, the lines that the program wrote, and the source texts of
/// the modules that it may bring in.
pub struct Eval {
    pub store: Store,
    pub scope: usize,
    pub depth: usize,
    pub output: Vec<String>,
    pub modules: Vec<(String, String)>,
}

impl Eval {
    /// The machine that the evaluator stands for.
    #[verifier::opaque]
    pub open spec fn machine(&self) -> Machine {
        Machine {
            scopes: self.store@,
            scope: self.scope as nat,
            output: texts(self.output@),
            modules: modules_model(self.modules@),
        }
    }

    /// An evaluator over `store`, with its first scope as the active one, the
    /// default depth, no output and no modules.
    pub fn new(store: Store) -> (eval: Eval)
        ensures
            eval.machine() == (Machine {
                scopes: store@,
                scope: 0,
                output: Seq::empty(),
                modules: Seq::empty(),
            }),
            eval.depth == DEFAULT_DEPTH,
    {
        reveal(Eval::machine);
        let eval = Eval {
            store,
            scope: 0,
            depth: DEFAULT_DEPTH,
            output: Vec::new(),
            modules: Vec::new(),
        };
        assert(texts(eval.output@) =~= Seq::empty());
        assert(modules_model(eval.modules@) =~= Seq::empty());
        eval
    }

    /// The evaluator with `modules` as the modules that programs may bring in.
    pub fn with_modules(self, modules: Vec<(String, String)>) -> (eval: Eval)
        ensures
            eval.machine() == (Machine { modules: modules_model(modules@), ..self.machine() }),
            eval.depth == self.depth,
    {
        reveal(Eval::machine);
        Eval {
            store: self.store,
            scope: self.scope,
            depth: self.depth,
            output: self.output,
            modules,
        }
    }

    /// The evaluator with `depth` as the depth to which calls may nest.
    pub fn with_depth(self, depth: usize) -> (eval: Eval)
        ensures
            eval.machine() == self.machine(),
            eval.depth == depth,
    {
        reveal(Eval::machine);
        Eval {
            store: self.store,
            scope: self.scope,
            depth,
            output: self.output,
            modules: self.modules,
        }
    }

    /// The value of the name `ident`.
    pub fn eval_ident(&self, ident: &Ident) -> (r: Object)
        ensures
            r@ == ident_value(self.machine(), ident@),
    {
        reveal(Eval::machine);
        let globals = new_globals();
        match position(&globals, &ident.0) {
            Some(i) => globals[i].1.copy(),
            None => {
                match self.store.get(self.scope, &ident.0) {
                    Some(value) => value,
                    None => {
                        let mut m = String::new();
                        push_text(&mut m, "identifier not found: ");
                        push_text(&mut m, ident.0.as_str());
                        assert(m@ =~= not_found_text(ident@));
                        Object::Error(m)
                    },
                }
            },
        }
    }

    /// Binds `name` to `value` in the active scope.
    pub(crate) fn declare(&mut self, name: String, value: Object)
        ensures
            final(self).depth == old(self).depth,
            final(self).machine() == (Machine {
                scopes: declare(
                    old(self).machine().scopes,
                    old(self).machine().scope,
                    name@,
                    value@,
                ),
                ..old(self).machine()
            }),
    {
        reveal(Eval::machine);
        self.store.set(self.scope, name, value);
    }

    /// Gives `name` the value `value` in the nearest scope that binds it.
    /// Returns whether there is such a scope.
    pub(crate) fn reassign(&mut self, name: String, value: Object) -> (done: bool)
        ensures
            final(self).depth == old(self).depth,
            match assign(old(self).machine().scopes, old(self).machine().scope, name@, value@) {
                Some(scopes) => done && final(self).machine() == (Machine {
                    scopes,
                    ..old(self).machine()
                }),
                None => !done && final(self).machine() == old(self).machine(),
            },
    {
        reveal(Eval::machine);
        self.store.update(self.scope, name, value)
    }

    /// Adds a scope that holds `bindings` and is enclosed by `outer`, and
    /// makes it the active scope.
    pub(crate) fn enter(&mut self, bindings: Vec<(String, Object)>, outer: Option<usize>)
        ensures
            final(self).depth == old(self).depth,
            final(self).machine() == enter(
                old(self).machine(),
                bindings_model(bindings@),
                outer_model(outer),
            ),
    {
        reveal(Eval::machine);
        let scope = self.store.new_scope(bindings, outer);
        self.scope = scope;
    }

    /// Makes `scope` the active scope.
    pub(crate) fn back_to(&mut self, scope: usize)
        ensures
            final(self).depth == old(self).depth,
            final(self).machine() == back_to(old(self).machine(), scope as nat),
    {
        reveal(Eval::machine);
        self.scope = scope;
    }

    /// The active scope, and how many scopes there are.
    pub(crate) fn position(&self) -> (r: (usize, usize))
        ensures
            r.0 == self.machine().scope,
            r.1 == self.machine().scopes.len(),
    {
        reveal(Eval::machine);
        (self.scope, self.store.len())
    }

    /// Copies of the bindings of the active scope itself.
    pub(crate) fn exports(&self) -> (copies: Vec<(String, Object)>)
        ensures
            bindings_model(copies@) == own_bindings(self.machine().scopes, self.machine().scope),
    {
        reveal(Eval::machine);
        self.store.bindings(self.scope)
    }

    /// The source text of the module named `name`, if the evaluator has one.
    #[verifier::loop_isolation(false)]
    pub(crate) fn find_source(&self, name: &String) -> (found: Option<String>)
        ensures
            match found {
                Some(source) => find_module(self.machine().modules, name@, 0) == Some(source@),
                None => find_module(self.machine().modules, name@, 0) is None,
            },
    {
        reveal(Eval::machine);
        let ghost all = modules_model(self.modules@);
        let mut i: usize = 0;
        while i < self.modules.len()
            invariant
                i <= self.modules.len(),
                all == modules_model(self.modules@),
                find_module(all, name@, 0) == find_module(all, name@, i as int),
            decreases self.modules.len() - i,
        {
            assert(all[i as int] == (self.modules[i as int].0@, self.modules[i as int].1@));
            if self.modules[i].0 == *name {
                let source = self.modules[i].1.clone();
                assert(source@ == self.modules[i as int].1@);
                return Some(source);
            }
            i += 1;
        }
        None
    }

    /// Evaluates `program`: its statements in order, in the active scope. An
    /// error ends the program and is its result; so does a return, whose
    /// value is the result. Otherwise the result is what the last statement
    /// gave.
    pub fn eval(&mut self, program: Program) -> (r: Option<Object>)
        ensures
            final(self).depth == old(self).depth,
            (option_model(r), final(self).machine()) == eval_program(
                program@,
                0,
                None,
                old(self).machine(),
                old(self).depth as nat,
            ),
    {
        let depth = self.depth;
        self.eval_program(&program.statements, depth)
    }

    /// Adds `line` to the output.
    pub(crate) fn write_line(&mut self, line: String)
        ensures
            final(self).depth == old(self).depth,
            final(self).machine() == (Machine {
                output: old(self).machine().output.push(line@),
                ..old(self).machine()
            }),
    {
        reveal(Eval::machine);
        self.output.push(line);
        assert(texts(self.output@) =~= texts(old(self).output@).push(line@));
    }
}

} // verus!
