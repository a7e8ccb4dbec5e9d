use ethereal::evaluation::object::Object;
use ethereal::evaluation::store::Store;

fn name(s: &str) -> String {
    s.to_string()
}

#[test]
fn a_new_store_has_one_empty_scope() {
    let store = Store::new();
    assert_eq!(store.len(), 1);
    assert_eq!(store.get(0, &name("x")), None);
    assert_eq!(store.bindings(0), vec![]);
}

#[test]
fn a_binding_is_found_in_its_scope() {
    let mut store = Store::new();
    store.set(0, name("x"), Object::Int(1));
    assert_eq!(store.get(0, &name("x")), Some(Object::Int(1)));
    assert_eq!(store.get(0, &name("y")), None);
}

#[test]
fn a_later_binding_overwrites() {
    let mut store = Store::new();
    store.set(0, name("x"), Object::Int(1));
    store.set(0, name("y"), Object::Int(2));
    store.set(0, name("x"), Object::Int(3));
    assert_eq!(
        store.bindings(0),
        vec![(name("x"), Object::Int(3)), (name("y"), Object::Int(2))]
    );
}

#[test]
fn a_lookup_goes_outward() {
    let mut store = Store::new();
    store.set(0, name("x"), Object::Int(1));
    let inner = store.new_enclosed(0);
    let innermost = store.new_enclosed(inner);
    assert_eq!(inner, 1);
    assert_eq!(innermost, 2);
    assert_eq!(store.get(innermost, &name("x")), Some(Object::Int(1)));
    store.set(inner, name("x"), Object::Int(2));
    assert_eq!(store.get(innermost, &name("x")), Some(Object::Int(2)));
    assert_eq!(store.get(inner, &name("x")), Some(Object::Int(2)));
    assert_eq!(store.get(0, &name("x")), Some(Object::Int(1)));
}

#[test]
fn a_declaration_writes_to_its_own_scope_only() {
    let mut store = Store::new();
    store.set(0, name("x"), Object::Int(1));
    let inner = store.new_enclosed(0);
    store.set(inner, name("x"), Object::Int(2));
    assert_eq!(store.bindings(0), vec![(name("x"), Object::Int(1))]);
    assert_eq!(store.bindings(inner), vec![(name("x"), Object::Int(2))]);
}

#[test]
fn an_update_changes_the_nearest_binding() {
    let mut store = Store::new();
    store.set(0, name("x"), Object::Int(1));
    store.set(0, name("y"), Object::Int(1));
    let inner = store.new_enclosed(0);
    store.set(inner, name("y"), Object::Int(2));
    assert!(store.update(inner, name("x"), Object::Int(10)));
    assert!(store.update(inner, name("y"), Object::Int(20)));
    assert_eq!(
        store.bindings(0),
        vec![(name("x"), Object::Int(10)), (name("y"), Object::Int(1))]
    );
    assert_eq!(store.bindings(inner), vec![(name("y"), Object::Int(20))]);
}

#[test]
fn an_update_of_an_unbound_name_fails_and_changes_nothing() {
    let mut store = Store::new();
    store.set(0, name("x"), Object::Int(1));
    let inner = store.new_enclosed(0);
    assert!(!store.update(inner, name("z"), Object::Int(10)));
    assert_eq!(store.bindings(0), vec![(name("x"), Object::Int(1))]);
    assert_eq!(store.bindings(inner), vec![]);
}

#[test]
fn sibling_scopes_do_not_see_each_other() {
    let mut store = Store::new();
    let a = store.new_enclosed(0);
    let b = store.new_enclosed(0);
    store.set(a, name("x"), Object::Int(1));
    assert_eq!(store.get(b, &name("x")), None);
    assert_eq!(store.get(0, &name("x")), None);
}

#[test]
fn a_scope_that_is_not_there_binds_nothing() {
    let mut store = Store::new();
    store.set(5, name("x"), Object::Int(1));
    assert_eq!(store.len(), 1);
    assert_eq!(store.get(5, &name("x")), None);
    assert_eq!(store.bindings(5), vec![]);
    assert!(!store.update(5, name("x"), Object::Int(1)));
}

#[test]
fn a_scope_can_start_with_bindings() {
    let mut store = Store::new();
    let scope = store.new_scope(
        vec![
            (name("a"), Object::Int(1)),
            (name("b"), Object::Int(2)),
            (name("a"), Object::Int(3)),
        ],
        Some(0),
    );
    assert_eq!(
        store.bindings(scope),
        vec![(name("a"), Object::Int(3)), (name("b"), Object::Int(2))]
    );
}
