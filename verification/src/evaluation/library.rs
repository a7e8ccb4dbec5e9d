//! The loading of modules.

use vstd::prelude::*;
use crate::evaluation::object::{Object, Value};
use crate::evaluation::operators::option_model;
use crate::evaluation::semantics::{
    eval_program, include_outcome, is_std_name, load, not_loaded_text, run_module,
};
use crate::evaluation::store::{bind_all, bind_in, bindings_model};
use crate::evaluation::Eval;
use crate::parser::parse;
use crate::std_library::get_std_lib;
use crate::text::{chars_of, push_text};

verus! {

/// The value of optional bindings.
pub open spec fn exports_model(exports: Option<Vec<(String, Object)>>) -> Option<
    Seq<(Seq<char>, Value)>,
> {
    match exports {
        Some(bindings) => Some(bindings_model(bindings@)),
        None => None,
    }
}

/// Whether `name` starts with `std:`.
fn is_std(name: &String) -> (r: bool)
    ensures
        r == is_std_name(name@),
{
    let chars = chars_of(name.as_str());
    chars.len() >= 4 && chars[0] == 's' && chars[1] == 't' && chars[2] == 'd' && chars[3] == ':'
}

/// The bindings `base` after each of `more` is bound in turn.
fn merge(base: Vec<(String, Object)>, more: &Vec<(String, Object)>) -> (r: Vec<(String, Object)>)
    ensures
        bindings_model(r@) == bind_all(bindings_model(base@), bindings_model(more@), 0),
{
    let ghost all = bindings_model(more@);
    let ghost goal = bind_all(bindings_model(base@), all, 0);
    let mut r = base;
    let mut i: usize = 0;
    while i < more.len()
        invariant
            i <= more.len(),
            all == bindings_model(more@),
            bind_all(bindings_model(r@), all, i as int) == goal,
        decreases more.len() - i,
    {
        bind_in(&mut r, more[i].0.clone(), more[i].1.copy());
        i += 1;
    }
    r
}

impl Eval {
    /// Brings the module named `lib` into scope: its bindings go into a new
    /// scope, enclosed by the active one, which becomes the active scope.
    /// Where the module cannot be loaded, the result is an error.
    pub(crate) fn extend_global_store(&mut self, lib: &String, depth: usize) -> (r: Option<Object>)
        ensures
            final(self).depth == old(self).depth,
            (option_model(r), final(self).machine()) == ({
                let (exports, m1) = load(lib@, old(self).machine(), depth as nat);
                include_outcome(lib@, exports, m1)
            }),
        decreases 3 * depth + 1, lib, 1int,
    {
        reveal_with_fuel(load, 1);
        match self.load_etrl(lib, depth) {
            Some(bindings) => {
                let (current, count) = self.position();
                self.enter(bindings, Some(current));
                None
            },
            None => {
                let mut m = String::new();
                push_text(&mut m, "could not load lib: ");
                push_text(&mut m, lib.as_str());
                assert(m@ =~= not_loaded_text(lib@));
                Some(Object::Error(m))
            },
        }
    }

    /// What the module named `lib` exports, if it can be loaded.
    pub(crate) fn load_etrl(&mut self, lib: &String, depth: usize) -> (r: Option<
        Vec<(String, Object)>,
    >)
        ensures
            final(self).depth == old(self).depth,
            (exports_model(r), final(self).machine()) == load(
                lib@,
                old(self).machine(),
                depth as nat,
            ),
        decreases 3 * depth + 1, lib, 0int,
    {
        reveal_with_fuel(load, 1);
        reveal_with_fuel(run_module, 1);
        if is_std(lib) {
            match get_std_lib(lib.clone()) {
                Some(res) => {
                    match res.raw {
                        Some(source) => self.run_module(&source, res.globals, depth),
                        None => Some(res.globals),
                    }
                },
                None => None,
            }
        } else {
            match self.find_source(lib) {
                Some(source) => {
                    let none: Vec<(String, Object)> = Vec::new();
                    assert(bindings_model(none@) =~= Seq::empty());
                    self.run_module(&source, none, depth)
                },
                None => None,
            }
        }
    }

    /// What the evaluation of the source text `source` of a module exports.
    pub(crate) fn run_module(
        &mut self,
        source: &String,
        globals: Vec<(String, Object)>,
        depth: usize,
    ) -> (r: Option<Vec<(String, Object)>>)
        ensures
            final(self).depth == old(self).depth,
            (exports_model(r), final(self).machine()) == run_module(
                source@,
                bindings_model(globals@),
                old(self).machine(),
                depth as nat,
            ),
        decreases 3 * depth, source, 0int,
    {
        reveal_with_fuel(run_module, 1);
        reveal_with_fuel(eval_program, 1);
        let (program, errors) = parse(source.as_str());
        assert(crate::parser::texts(errors@).len() == errors.len());
        if errors.len() > 0 || depth == 0 {
            return None;
        }
        let (current, count) = self.position();
        let none: Vec<(String, Object)> = Vec::new();
        assert(bindings_model(none@) =~= Seq::empty());
        let base = merge(none, &globals);
        self.enter(globals, None);
        let r = self.eval_program(&program.statements, depth - 1);
        let own = self.exports();
        self.back_to(current);
        Some(merge(base, &own))
    }
}

} // verus!
