//! The names that every scope knows, and the native function `log`.

use vstd::prelude::*;
use crate::evaluation::object::{objects_model, Builtin, Object};
use crate::evaluation::semantics::{globals_model, log_line};
use crate::evaluation::store::bindings_model;
use crate::text::push_text;

verus! {

/// The global bindings: `log`.
pub fn new_globals() -> (globals: Vec<(String, Object)>)
    ensures
        bindings_model(globals@) == globals_model(),
{
    let mut globals: Vec<(String, Object)> = Vec::new();
    let mut name = String::new();
    push_text(&mut name, "log");
    assert(name@ =~= "log"@);
    globals.push((name, Object::Builtin(Builtin::Log)));
    assert(bindings_model(globals@) =~= globals_model());
    globals
}

/// The line that `log` writes for `args`: each argument, followed by a space.
pub fn log_text(args: &Vec<Object>) -> (line: String)
    ensures
        line@ == log_line(objects_model(args@), 0),
{
    let ghost all = objects_model(args@);
    let mut line = String::new();
    let mut i: usize = 0;
    assert(line@ + log_line(all, 0) =~= log_line(all, 0));
    while i < args.len()
        invariant
            i <= args.len(),
            all == objects_model(args@),
            line@ + log_line(all, i as int) == log_line(all, 0),
        decreases args.len() - i,
    {
        let ghost before = line@;
        args[i].write(&mut line);
        push_text(&mut line, " ");
        assert(line@ + log_line(all, i + 1) =~= before + log_line(all, i as int));
        i += 1;
    }
    assert(line@ + log_line(all, i as int) =~= line@);
    line
}

} // verus!
