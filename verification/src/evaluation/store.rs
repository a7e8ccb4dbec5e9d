//! The environment: scopes that bind names to values, each with an optional
//! enclosing scope. The scopes of one evaluation live together in a [`Store`]
//! and are named by their index in it, so that closures and the evaluator can
//! share a scope and see each other's changes to it.

use vstd::prelude::*;
use crate::evaluation::object::{Object, Value};

verus! {

/// The mathematical value of one scope: its bindings, in the order in which
/// their names were declared, and the index of the enclosing scope.
pub struct ScopeV {
    pub bindings: Seq<(Seq<char>, Value)>,
    pub outer: Option<nat>,
}

/// The index of the first binding of `name` at or after `from`.
pub open spec fn find_name(bindings: Seq<(Seq<char>, Value)>, name: Seq<char>, from: int) -> Option<
    int,
>
    decreases bindings.len() - from,
{
    if 0 <= from < bindings.len() {
        if bindings[from].0 == name {
            Some(from)
        } else {
            find_name(bindings, name, from + 1)
        }
    } else {
        None
    }
}

/// The bindings after `name` is bound to `value`: the first binding of the
/// name is overwritten, and a new binding is added where there is none.
pub open spec fn bind(bindings: Seq<(Seq<char>, Value)>, name: Seq<char>, value: Value) -> Seq<
    (Seq<char>, Value),
> {
    match find_name(bindings, name, 0) {
        Some(i) => bindings.update(i, (name, value)),
        None => bindings.push((name, value)),
    }
}

/// The nearest scope that binds `name`, going from `scope` outward. A link
/// to an enclosing scope is followed only where it leads to an older scope,
/// so the walk ends.
pub open spec fn owner(scopes: Seq<ScopeV>, scope: nat, name: Seq<char>) -> Option<nat>
    decreases scope,
{
    if scope >= scopes.len() {
        None
    } else if find_name(scopes[scope as int].bindings, name, 0) is Some {
        Some(scope)
    } else {
        match scopes[scope as int].outer {
            Some(parent) => if parent < scope {
                owner(scopes, parent, name)
            } else {
                None
            },
            None => None,
        }
    }
}

/// The value that `name` has in `scope`: that of its binding in the nearest
/// scope that binds it.
pub open spec fn lookup(scopes: Seq<ScopeV>, scope: nat, name: Seq<char>) -> Option<Value> {
    match owner(scopes, scope, name) {
        Some(o) => {
            let bindings = scopes[o as int].bindings;
            Some(bindings[find_name(bindings, name, 0)->0].1)
        },
        None => None,
    }
}

/// The scopes after `name` is bound to `value` in `scope` itself.
pub open spec fn declare(scopes: Seq<ScopeV>, scope: nat, name: Seq<char>, value: Value) -> Seq<
    ScopeV,
> {
    if scope < scopes.len() {
        scopes.update(
            scope as int,
            ScopeV {
                bindings: bind(scopes[scope as int].bindings, name, value),
                outer: scopes[scope as int].outer,
            },
        )
    } else {
        scopes
    }
}

/// The scopes after `name` is given `value` in the nearest scope that binds
/// it, or `None` where no scope of the chain binds it.
pub open spec fn assign(scopes: Seq<ScopeV>, scope: nat, name: Seq<char>, value: Value) -> Option<
    Seq<ScopeV>,
> {
    match owner(scopes, scope, name) {
        Some(o) => Some(declare(scopes, o, name, value)),
        None => None,
    }
}

/// The scopes with one more, empty and enclosed by `parent`.
pub open spec fn enclose(scopes: Seq<ScopeV>, parent: nat) -> Seq<ScopeV> {
    scopes.push(ScopeV { bindings: Seq::empty(), outer: Some(parent) })
}

/// The bindings after each of `more[from..]` is bound in turn.
pub open spec fn bind_all(
    bindings: Seq<(Seq<char>, Value)>,
    more: Seq<(Seq<char>, Value)>,
    from: int,
) -> Seq<(Seq<char>, Value)>
    decreases more.len() - from,
{
    if 0 <= from < more.len() {
        bind_all(bind(bindings, more[from].0, more[from].1), more, from + 1)
    } else {
        bindings
    }
}

/// The values of a sequence of bindings.
pub open spec fn bindings_model(bindings: Seq<(String, Object)>) -> Seq<(Seq<char>, Value)> {
    Seq::new(bindings.len(), |i: int| (bindings[i].0@, bindings[i].1@))
}

/// The value of an optional index of a scope.
pub open spec fn outer_model(outer: Option<usize>) -> Option<nat> {
    match outer {
        Some(p) => Some(p as nat),
        None => None,
    }
}

/// One scope.
struct Scope {
    bindings: Vec<(String, Object)>,
    outer: Option<usize>,
}

impl Scope {
    /// The mathematical value of the scope.
    spec fn model(self) -> ScopeV {
        ScopeV {
            bindings: bindings_model(self.bindings@),
            outer: outer_model(self.outer),
        }
    }
}

/// The scopes of one evaluation. Scopes are only ever added, so an index
/// stays good for as long as the store lives.
pub struct Store {
    scopes: Vec<Scope>,
}

impl View for Store {
    type V = Seq<ScopeV>;

    closed spec fn view(&self) -> Seq<ScopeV> {
        Seq::new(self.scopes.len() as nat, |i: int| self.scopes[i].model())
    }
}

/// The index of the first binding of `name` in `bindings`.
pub fn position(bindings: &Vec<(String, Object)>, name: &String) -> (found: Option<usize>)
    ensures
        match found {
            Some(i) => find_name(bindings_model(bindings@), name@, 0) == Some(i as int) && i
                < bindings.len(),
            None => find_name(bindings_model(bindings@), name@, 0) is None,
        },
{
    let ghost all = bindings_model(bindings@);
    let mut i: usize = 0;
    while i < bindings.len()
        invariant
            i <= bindings.len(),
            all == bindings_model(bindings@),
            find_name(all, name@, 0) == find_name(all, name@, i as int),
        decreases bindings.len() - i,
    {
        if bindings[i].0 == *name {
            return Some(i);
        }
        i += 1;
    }
    None
}

/// Binds `name` to `value` in `bindings`.
pub fn bind_in(bindings: &mut Vec<(String, Object)>, name: String, value: Object)
    ensures
        bindings_model(final(bindings)@) == bind(bindings_model(old(bindings)@), name@, value@),
{
    match position(bindings, &name) {
        Some(i) => {
            bindings[i] = (name, value);
            assert(bindings_model(bindings@) =~= bind(
                bindings_model(old(bindings)@),
                name@,
                value@,
            ));
        },
        None => {
            bindings.push((name, value));
            assert(bindings_model(bindings@) =~= bind(
                bindings_model(old(bindings)@),
                name@,
                value@,
            ));
        },
    }
}

impl Store {
    /// A store with one scope, the root: empty, and enclosed by none.
    pub fn new() -> (store: Store)
        ensures
            store@ == seq![ScopeV { bindings: Seq::empty(), outer: None }],
    {
        let mut scopes: Vec<Scope> = Vec::new();
        scopes.push(Scope { bindings: Vec::new(), outer: None });
        let store = Store { scopes };
        assert(store@ =~= seq![ScopeV { bindings: Seq::empty(), outer: None }]) by {
            assert(bindings_model(store.scopes[0].bindings@) =~= Seq::empty());
        }
        store
    }

    /// The number of scopes.
    pub fn len(&self) -> (n: usize)
        ensures
            n == self@.len(),
    {
        self.scopes.len()
    }

    /// Adds an empty scope enclosed by `parent`, and returns its index.
    pub fn new_enclosed(&mut self, parent: usize) -> (scope: usize)
        ensures
            final(self)@ == enclose(old(self)@, parent as nat),
            scope == old(self)@.len(),
    {
        let scope = self.scopes.len();
        self.scopes.push(Scope { bindings: Vec::new(), outer: Some(parent) });
        assert(self@ =~= enclose(old(self)@, parent as nat)) by {
            assert(bindings_model(self.scopes[scope as int].bindings@) =~= Seq::empty());
        }
        scope
    }

    /// Adds a scope that holds each of `bindings`, bound in turn, and is
    /// enclosed by `outer`, and returns its index.
    pub fn new_scope(&mut self, bindings: Vec<(String, Object)>, outer: Option<usize>) -> (scope:
        usize)
        ensures
            final(self)@ == old(self)@.push(
                ScopeV {
                    bindings: bind_all(Seq::empty(), bindings_model(bindings@), 0),
                    outer: outer_model(outer),
                },
            ),
            scope == old(self)@.len(),
    {
        let ghost all = bindings_model(bindings@);
        let mut own: Vec<(String, Object)> = Vec::new();
        assert(bindings_model(own@) =~= Seq::empty());
        let mut i: usize = 0;
        while i < bindings.len()
            invariant
                i <= bindings.len(),
                all == bindings_model(bindings@),
                bind_all(bindings_model(own@), all, i as int) == bind_all(Seq::empty(), all, 0),
            decreases bindings.len() - i,
        {
            let name = bindings[i].0.clone();
            let value = bindings[i].1.copy();
            bind_in(&mut own, name, value);
            i += 1;
        }
        let scope = self.scopes.len();
        self.scopes.push(Scope { bindings: own, outer });
        assert(self@ =~= old(self)@.push(
            ScopeV {
                bindings: bind_all(Seq::empty(), bindings_model(bindings@), 0),
                outer: outer_model(outer),
            },
        ));
        scope
    }

    /// Binds `name` to `value` in `scope` itself, over any binding that the
    /// scope already has for the name. Where the store has no such scope,
    /// nothing changes.
    pub fn set(&mut self, scope: usize, name: String, value: Object)
        ensures
            final(self)@ == declare(old(self)@, scope as nat, name@, value@),
    {
        if scope < self.scopes.len() {
            bind_in(&mut self.scopes[scope].bindings, name, value);
            assert(self@ =~= declare(old(self)@, scope as nat, name@, value@));
        }
    }

    /// The nearest scope that binds `name`, going from `scope` outward.
    fn owner_of(&self, scope: usize, name: &String) -> (found: Option<(usize, usize)>)
        ensures
            match found {
                Some((o, i)) => owner(self@, scope as nat, name@) == Some(o as nat) && o
                    < self.scopes.len() && find_name(self@[o as int].bindings, name@, 0) == Some(
                    i as int,
                ) && i < self.scopes[o as int].bindings.len(),
                None => owner(self@, scope as nat, name@) is None,
            },
    {
        let mut at = scope;
        loop
            invariant
                owner(self@, at as nat, name@) == owner(self@, scope as nat, name@),
            decreases at,
        {
            if at >= self.scopes.len() {
                return None;
            }
            match position(&self.scopes[at].bindings, name) {
                Some(i) => {
                    return Some((at, i));
                },
                None => {
                    match self.scopes[at].outer {
                        Some(parent) => {
                            if parent < at {
                                at = parent;
                            } else {
                                return None;
                            }
                        },
                        None => {
                            return None;
                        },
                    }
                },
            }
        }
    }

    /// The value of `name` in `scope`: that of the nearest binding, going
    /// from `scope` outward through the enclosing scopes.
    pub fn get(&self, scope: usize, name: &String) -> (found: Option<Object>)
        ensures
            match found {
                Some(value) => lookup(self@, scope as nat, name@) == Some(value@),
                None => lookup(self@, scope as nat, name@) is None,
            },
    {
        match self.owner_of(scope, name) {
            Some((o, i)) => Some(self.scopes[o].bindings[i].1.copy()),
            None => None,
        }
    }

    /// Gives `name` the value `value` in the nearest scope that binds it,
    /// going from `scope` outward. Returns whether such a scope was found;
    /// where none was, nothing changes.
    pub fn update(&mut self, scope: usize, name: String, value: Object) -> (done: bool)
        ensures
            match assign(old(self)@, scope as nat, name@, value@) {
                Some(scopes) => done && final(self)@ == scopes,
                None => !done && final(self)@ == old(self)@,
            },
    {
        match self.owner_of(scope, &name) {
            Some((o, i)) => {
                self.set(o, name, value);
                true
            },
            None => false,
        }
    }

    /// Copies of the bindings of `scope` itself, in the order in which their
    /// names were declared; none where the store has no such scope.
    pub fn bindings(&self, scope: usize) -> (copies: Vec<(String, Object)>)
        ensures
            bindings_model(copies@) == if scope < self@.len() {
                self@[scope as int].bindings
            } else {
                Seq::empty()
            },
    {
        let mut copies: Vec<(String, Object)> = Vec::new();
        if scope < self.scopes.len() {
            let source = &self.scopes[scope].bindings;
            let mut i: usize = 0;
            while i < source.len()
                invariant
                    i <= source.len(),
                    copies.len() == i,
                    forall|j: int|
                        0 <= j < i ==> copies[j].0@ == source[j].0@ && copies[j].1@ == source[j].1@,
                decreases source.len() - i,
            {
                copies.push((source[i].0.clone(), source[i].1.copy()));
                i += 1;
            }
            assert(bindings_model(copies@) =~= self@[scope as int].bindings);
        } else {
            assert(bindings_model(copies@) =~= Seq::empty());
        }
        copies
    }
}

} // verus!
