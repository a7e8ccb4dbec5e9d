use ethereal::evaluation::object::{Builtin, Object};
use ethereal::evaluation::store::Store;
use ethereal::evaluation::Eval;
use ethereal::interpreter::{interpret, interpret_with, Outcome};
use ethereal::parser::parse;

fn run(source: &str) -> Option<Object> {
    match interpret(source) {
        Outcome::Ran(value, _) => value,
        Outcome::Rejected(errors) => panic!("syntax errors: {:?}", errors),
    }
}

fn integer(source: &str) -> i32 {
    match run(source) {
        Some(Object::Int(i)) => i,
        other => panic!("no integer: {:?}", other),
    }
}

fn error(source: &str) -> String {
    match run(source) {
        Some(Object::Error(message)) => message,
        other => panic!("no error: {:?}", other),
    }
}

#[test]
fn a_declared_name_has_its_value() {
    let (program, errors) = parse("set x = 5;");
    assert!(errors.is_empty());
    let mut eval = Eval::new(Store::new());
    assert_eq!(eval.eval(program), None);
    let (program, errors) = parse("x");
    assert!(errors.is_empty());
    assert_eq!(eval.eval(program), Some(Object::Int(5)));
}

#[test]
fn a_closure_sees_later_changes_of_its_scope() {
    assert_eq!(integer("set x = 1; set f = fun(){return x;}; anew x = 2; f();"), 2);
}

#[test]
fn a_closure_keeps_the_scope_of_its_making() {
    let source = "set make = fun(n) { return fun(k) { return n + k; }; };
                  set add = make(10);
                  set n = 1000;
                  add(5);";
    assert_eq!(integer(source), 15);
}

#[test]
fn a_counter_keeps_its_count() {
    let source = "set make = fun() { set c = 0; return fun() { anew c = c + 1; return c; }; };
                  set next = make();
                  next(); next();
                  next();";
    assert_eq!(integer(source), 3);
}

#[test]
fn reassigning_an_undeclared_name_is_an_error() {
    assert_eq!(error("anew y = 1;"), "identifier not found: y");
}

#[test]
fn a_reassignment_reaches_the_nearest_scope_that_binds_the_name() {
    assert_eq!(integer("set x = 1; set f = fun() { anew x = 7; }; f(); x;"), 7);
    assert_eq!(integer("set x = 1; set f = fun() { set x = 7; anew x = 8; }; f(); x;"), 1);
}

#[test]
fn a_declaration_shadows_the_outer_binding() {
    assert_eq!(integer("set x = 1; set f = fun() { set x = 7; return x; }; f();"), 7);
    assert_eq!(integer("set x = 1; set x = 2; x;"), 2);
}

#[test]
fn an_unknown_name_is_an_error() {
    assert_eq!(error("nothing;"), "identifier not found: nothing");
}

#[test]
fn array_indexes_count_from_both_ends() {
    assert_eq!(run("[1,2,3][0]"), Some(Object::Int(1)));
    assert_eq!(run("[1,2,3][2]"), Some(Object::Int(3)));
    assert_eq!(run("[1,2,3][-1]"), Some(Object::Int(3)));
    assert_eq!(run("[1,2,3][-3]"), Some(Object::Int(1)));
}

#[test]
fn array_indexes_outside_the_array_give_null() {
    assert_eq!(run("[1,2,3][3]"), Some(Object::Null));
    assert_eq!(run("[1,2,3][10]"), Some(Object::Null));
    assert_eq!(run("[1,2,3][-4]"), Some(Object::Null));
    assert_eq!(run("[][0]"), Some(Object::Null));
    assert_eq!(run("[1][2147483647]"), Some(Object::Null));
}

#[test]
fn an_array_index_must_be_an_integer() {
    assert_eq!(error("[1,2][true]"), "index operator not supported: [1, 2]");
}

#[test]
fn indexing_what_is_no_container_is_an_error() {
    assert_eq!(error("5[0]"), "unknown operator: 5 0");
}

#[test]
fn a_call_with_the_wrong_number_of_arguments_is_an_error() {
    let message = error("set f = fun(a, b) { return a; }; f(1);");
    assert!(message.contains("expected 2"));
    assert!(message.contains("given 1"));
    assert_eq!(message, "wrong number of arguments: expected 2, given 1");
    assert_eq!(
        error("set f = fun() { return 1; }; f(1, 2, 3);"),
        "wrong number of arguments: expected 0, given 3"
    );
}

#[test]
fn strings_join_and_do_nothing_else() {
    assert_eq!(run("\"a\" + \"b\""), Some(Object::String("ab".to_string())));
    assert_eq!(error("\"a\" - \"b\""), "unknown operator: a - b");
    assert_eq!(error("\"a\" == \"a\""), "unknown operator: a == a");
}

#[test]
fn operands_of_different_kinds_are_a_mismatch() {
    assert_eq!(error("1 + \"a\""), "type mismatch: 1 + a");
    assert_eq!(error("\"a\" + 1"), "type mismatch: a + 1");
    assert_eq!(error("1 < true"), "type mismatch: 1 < true");
    assert_eq!(error("true + 1"), "unknown operator: true + 1");
    assert_eq!(error("[1] + [2]"), "unknown operator: [1] + [2]");
}

#[test]
fn only_false_and_null_are_falsy() {
    assert_eq!(integer("if (0) { return 1; } else { return 2; }"), 1);
    assert_eq!(integer("if (\"\") { return 1; } else { return 2; }"), 1);
    assert_eq!(integer("if ([]) { return 1; } else { return 2; }"), 1);
    assert_eq!(integer("if (true) { return 1; } else { return 2; }"), 1);
    assert_eq!(integer("if (false) { return 1; } else { return 2; }"), 2);
    assert_eq!(integer("if ([][0]) { return 1; } else { return 2; }"), 2);
    assert_eq!(integer("set null = [][0]; if (null) { 1 } else { 2 }"), 2);
}

#[test]
fn a_conditional_without_a_branch_to_take_gives_nothing() {
    assert_eq!(run("if (false) { 1 }"), None);
    assert_eq!(run("if (true) { }"), None);
}

#[test]
fn syntax_errors_keep_a_program_from_running() {
    match interpret("log(1); set a = (1 + 2; set f = fun(x) x;") {
        Outcome::Rejected(errors) => assert_eq!(errors.len(), 2),
        other => panic!("ran: {:?}", other),
    }
}

#[test]
fn integers_add_subtract_and_multiply() {
    assert_eq!(integer("1 + 2 * 3 - 4"), 3);
    assert_eq!(integer("(1 + 2) * (3 - 4)"), -3);
    assert_eq!(integer("-5 + +5"), 0);
    assert_eq!(integer("2147483647 + -1"), 2147483646);
}

#[test]
fn division_rounds_toward_zero() {
    assert_eq!(integer("7 / 2"), 3);
    assert_eq!(integer("-7 / 2"), -3);
    assert_eq!(integer("7 / -2"), -3);
    assert_eq!(integer("-7 / -2"), 3);
    assert_eq!(integer("0 / 5"), 0);
}

#[test]
fn the_remainder_has_the_sign_of_the_dividend() {
    assert_eq!(integer("7 % 2"), 1);
    assert_eq!(integer("-7 % 2"), -1);
    assert_eq!(integer("7 % -2"), 1);
    assert_eq!(integer("-7 % -2"), -1);
    assert_eq!(integer("6 % 3"), 0);
}

#[test]
fn a_division_by_zero_is_an_error() {
    assert_eq!(error("1 / 0"), "division by zero: 1 / 0");
    assert_eq!(error("1 % 0"), "division by zero: 1 % 0");
}

#[test]
fn a_result_that_is_no_integer_value_is_an_error() {
    assert_eq!(error("2147483647 + 1"), "integer overflow: 2147483647 + 1");
    assert_eq!(error("-2147483647 - 2"), "integer overflow: -2147483647 - 2");
    assert_eq!(error("65536 * 65536"), "integer overflow: 65536 * 65536");
    assert_eq!(error("(-2147483647 - 1) / -1"), "integer overflow: -2147483648 / -1");
    assert_eq!(error("-(-2147483647 - 1)"), "integer overflow: --2147483648");
    assert_eq!(integer("(-2147483647 - 1) % -1"), 0);
    assert_eq!(integer("-2147483647 - 1"), -2147483648);
}

#[test]
fn integers_compare() {
    assert_eq!(run("1 < 2"), Some(Object::Bool(true)));
    assert_eq!(run("2 <= 2"), Some(Object::Bool(true)));
    assert_eq!(run("1 > 2"), Some(Object::Bool(false)));
    assert_eq!(run("1 >= 2"), Some(Object::Bool(false)));
    assert_eq!(run("1 == 1"), Some(Object::Bool(true)));
    assert_eq!(run("1 != 1"), Some(Object::Bool(false)));
}

#[test]
fn not_negates() {
    assert_eq!(run("!true"), Some(Object::Bool(false)));
    assert_eq!(run("!false"), Some(Object::Bool(true)));
    assert_eq!(run("![][0]"), Some(Object::Bool(true)));
    assert_eq!(run("!5"), Some(Object::Bool(false)));
    assert_eq!(run("!!\"\""), Some(Object::Bool(true)));
}

#[test]
fn minus_and_plus_want_an_integer() {
    assert_eq!(error("-true"), "unknown operator: -true");
    assert_eq!(error("+\"a\""), "unknown operator: +a");
}

#[test]
fn an_error_is_the_result_of_the_operation_around_it() {
    assert_eq!(error("-nothing"), "identifier not found: nothing");
    assert_eq!(error("1 + nothing"), "identifier not found: nothing");
    assert_eq!(error("nothing + other"), "identifier not found: nothing");
    assert_eq!(error("set x = nothing; 5"), "identifier not found: nothing");
    assert_eq!(error("{1: 2}[nothing]"), "identifier not found: nothing");
}

#[test]
fn an_error_ends_the_block() {
    assert_eq!(
        error("set f = fun() { nothing; return 1; }; f();"),
        "identifier not found: nothing"
    );
}

#[test]
fn a_return_ends_the_function_and_the_program() {
    assert_eq!(integer("set f = fun() { if (true) { return 1; } return 2; }; f();"), 1);
    assert_eq!(integer("return 5; 6;"), 5);
    assert_eq!(run("set f = fun() { return; }; f();"), Some(Object::Null));
    assert_eq!(run("set f = fun() { }; f();"), Some(Object::Null));
}

#[test]
fn a_program_yields_what_its_last_statement_yields() {
    assert_eq!(run("1; 2; 3"), Some(Object::Int(3)));
    assert_eq!(run("1; set x = 2;"), None);
    assert_eq!(run(""), None);
}

#[test]
fn functions_call_themselves() {
    let source = "set fact = fun(n) { if (n < 2) { return 1; } return n * fact(n - 1); };
                  fact(10);";
    assert_eq!(integer(source), 3628800);
}

#[test]
fn functions_are_values() {
    assert_eq!(integer("set twice = fun(f, x) { return f(f(x)); }; twice(fun(n) { n * 3 }, 2);"), 18);
    assert_eq!(integer("fun(a) { a + 1 }(1)"), 2);
}

#[test]
fn calls_nest_no_deeper_than_the_depth() {
    let source = "set down = fun(n) { if (n == 0) { return 0; } return down(n - 1); }; down(50);";
    match interpret_with(source, vec![], 51) {
        Outcome::Ran(value, _) => assert_eq!(value, Some(Object::Int(0))),
        other => panic!("{:?}", other),
    }
    match interpret_with(source, vec![], 50) {
        Outcome::Ran(value, _) => {
            assert_eq!(value, Some(Object::Error("maximum call depth exceeded".to_string())))
        },
        other => panic!("{:?}", other),
    }
}

#[test]
fn endless_recursion_ends_in_an_error() {
    assert_eq!(error("set f = fun() { return f(); }; f();"), "maximum call depth exceeded");
}

#[test]
fn calling_what_is_no_function_is_an_error() {
    assert_eq!(error("5()"), "function not found: 5");
    assert_eq!(error("nothing()"), "function not found: identifier not found: nothing");
}

#[test]
fn an_argument_that_yields_nothing_is_null() {
    assert_eq!(run("fun(a) { return a; }(if (false) { 1 })"), Some(Object::Null));
}

#[test]
fn an_array_element_that_yields_nothing_is_null() {
    assert_eq!(
        run("[1, if (false) { 2 }, 3]"),
        Some(Object::Array(vec![Object::Int(1), Object::Null, Object::Int(3)]))
    );
}

#[test]
fn an_object_maps_keys_to_values() {
    assert_eq!(integer("{\"a\": 1, \"b\": 2}[\"b\"]"), 2);
    assert_eq!(integer("{1: 10, true: 20}[true]"), 20);
    assert_eq!(integer("set k = \"x\"; {k + \"y\": 5}[\"xy\"]"), 5);
    assert_eq!(run("{\"a\": 1}[\"z\"]"), Some(Object::Null));
}

#[test]
fn a_later_pair_overwrites_an_earlier_one() {
    assert_eq!(
        run("{1: 10, 2: 20, 1: 30}"),
        Some(Object::Object(vec![
            (Object::Int(1), Object::Int(30)),
            (Object::Int(2), Object::Int(20)),
        ]))
    );
}

#[test]
fn an_object_key_must_be_an_integer_a_boolean_or_a_string() {
    assert_eq!(error("{[1]: 2}"), "unusable as hash key: [1]");
    assert_eq!(error("{1: 2}[[1]]"), "unusable as hash key: [1]");
    assert_eq!(error("{1: 2}[fun() { }]"), "unusable as hash key: fun() { ... }");
}

#[test]
fn an_error_in_an_object_literal_is_its_value() {
    assert_eq!(error("{nothing: 1}"), "identifier not found: nothing");
    assert_eq!(error("{1: nothing, other: 2}"), "identifier not found: nothing");
}

#[test]
fn log_writes_a_line_and_is_always_there() {
    match interpret("log(1, \"a\", [true, 2]); set f = fun() { log(\"in\"); }; f(); log();") {
        Outcome::Ran(value, output) => {
            assert_eq!(value, Some(Object::Error("Wrong number of arguments".to_string())));
            assert_eq!(output, vec!["1 a [true, 2] ".to_string(), "in ".to_string()]);
        },
        other => panic!("{:?}", other),
    }
}

#[test]
fn a_global_goes_before_a_binding_of_the_program() {
    assert_eq!(run("set log = 5; log"), Some(Object::Builtin(Builtin::Log)));
}

#[test]
fn the_standard_library_is_brought_in_by_name() {
    assert_eq!(error("length([1, 2])"), "function not found: identifier not found: length");
    assert_eq!(integer("include \"std:util\"; length([1, 2]);"), 2);
    assert_eq!(integer("include \"std:util\"; length(\"abc\");"), 3);
}

#[test]
fn an_inclusion_lasts_for_the_statements_after_it() {
    let source = "set f = fun() { return length(\"ab\"); }; include \"std:util\";
                  set g = fun() { return length(\"abc\"); }; g();";
    assert_eq!(integer(source), 3);
    let source = "set f = fun() { return length(\"ab\"); }; include \"std:util\"; f();";
    assert_eq!(error(source), "function not found: identifier not found: length");
}

#[test]
fn an_inclusion_keeps_the_bindings_made_before_it() {
    assert_eq!(integer("set x = 4; include \"std:util\"; x + length([1]);"), 5);
}

#[test]
fn the_array_module_defines_map_in_the_language() {
    assert_eq!(
        run("include \"std:array\"; map([1, 2, 3], fun(x) { return x * 10; });"),
        Some(Object::Array(vec![Object::Int(10), Object::Int(20), Object::Int(30)]))
    );
}

#[test]
fn the_array_module_has_its_native_functions() {
    assert_eq!(
        run("include \"std:array\"; push([1], 2);"),
        Some(Object::Array(vec![Object::Int(1), Object::Int(2)]))
    );
    assert_eq!(
        run("include \"std:array\"; tail([1, 2, 3]);"),
        Some(Object::Array(vec![Object::Int(2), Object::Int(3)]))
    );
    assert_eq!(
        run("include \"std:array\"; pop([1, 2, 3]);"),
        Some(Object::Array(vec![Object::Int(1), Object::Int(2)]))
    );
    assert_eq!(integer("include \"std:array\"; length(head([1, 2, 3]));"), 2);
}

#[test]
fn a_module_that_is_not_there_cannot_be_loaded() {
    assert_eq!(
        error("include \"std:nothing\";"),
        "could not load lib: std:nothing"
    );
    assert_eq!(error("include helpers;"), "could not load lib: helpers");
}

#[test]
fn a_module_exports_its_bindings() {
    let modules = vec![(
        "helpers".to_string(),
        "set double = fun(x) { return x * 2; }; set base = 20;".to_string(),
    )];
    match interpret_with("include helpers; double(base) + 2;", modules, 100) {
        Outcome::Ran(value, _) => assert_eq!(value, Some(Object::Int(42))),
        other => panic!("{:?}", other),
    }
}

#[test]
fn a_module_does_not_see_the_bindings_of_the_program() {
    let modules = vec![("helpers".to_string(), "set get = fun() { return x; };".to_string())];
    match interpret_with("set x = 1; include helpers; get();", modules, 100) {
        Outcome::Ran(value, _) => {
            assert_eq!(value, Some(Object::Error("identifier not found: x".to_string())))
        },
        other => panic!("{:?}", other),
    }
}

#[test]
fn a_module_with_syntax_errors_cannot_be_loaded() {
    let modules = vec![("broken".to_string(), "set = ;".to_string())];
    match interpret_with("include broken;", modules, 100) {
        Outcome::Ran(value, _) => {
            assert_eq!(value, Some(Object::Error("could not load lib: broken".to_string())))
        },
        other => panic!("{:?}", other),
    }
}

#[test]
fn modules_that_bring_in_each_other_end_in_an_error() {
    let modules = vec![
        ("a".to_string(), "include b;".to_string()),
        ("b".to_string(), "include a;".to_string()),
    ];
    match interpret_with("include a; 1", modules, 20) {
        Outcome::Ran(value, _) => assert_eq!(value, Some(Object::Int(1))),
        other => panic!("{:?}", other),
    }
}

#[test]
fn the_string_module_replaces() {
    assert_eq!(
        run("include \"std:string\"; replace(\"a-b-c\", \"-\", \"+\");"),
        Some(Object::String("a+b+c".to_string()))
    );
    assert_eq!(
        run("include \"std:string\"; replace(\"a1b1\", 1, true);"),
        Some(Object::String("atruebtrue".to_string()))
    );
}

#[test]
fn the_hash_module_digests() {
    assert_eq!(
        run("include \"std:hash\"; hasher(\"md5\", \"hello\");"),
        Some(Object::String("5d41402abc4b2a76b9719d911017c592".to_string()))
    );
    assert_eq!(
        run("include \"std:hash\"; hasher(\"sha1\", \"hello\");"),
        Some(Object::String("aaf4c61ddcc5e8a2dabede0f3b482cd9aea9434d".to_string()))
    );
    assert_eq!(
        run("include \"std:hash\"; hasher(\"sha256\", \"hello\");"),
        Some(Object::String(
            "2cf24dba5fb0a30e26e83b2ac5b9e29e1b161e5c1fa7425e73043362938b9824".to_string()
        ))
    );
    assert_eq!(
        run("include \"std:hash\"; hasher(\"crc\", \"hello\");"),
        Some(Object::Error("Algorithm not supported".to_string()))
    );
}

#[test]
fn values_are_written_as_text() {
    assert_eq!(Object::Int(-5).to_text(), "-5");
    assert_eq!(Object::String("a".to_string()).to_text(), "a");
    assert_eq!(Object::Bool(true).to_text(), "true");
    assert_eq!(Object::Null.to_text(), "null");
    assert_eq!(Object::Array(vec![]).to_text(), "[]");
    assert_eq!(
        Object::Array(vec![Object::Int(1), Object::Array(vec![Object::Null])]).to_text(),
        "[1, [null]]"
    );
    assert_eq!(
        Object::Object(vec![
            (Object::String("a".to_string()), Object::Int(1)),
            (Object::Int(2), Object::Bool(false)),
        ])
        .to_text(),
        "{a: 1, 2: false}"
    );
    assert_eq!(Object::Builtin(Builtin::Log).to_text(), "[builtin function]");
    assert_eq!(Object::Return(Box::new(Object::Int(1))).to_text(), "1");
    assert_eq!(Object::Error("bad".to_string()).to_text(), "bad");
    assert_eq!(
        run("fun(a, b) { }").map(|f| f.to_text()),
        Some("fun(a, b) { ... }".to_string())
    );
}

#[test]
fn a_copy_of_a_value_is_equal_to_it() {
    let value = run("[1, \"a\", {1: [true]}, fun(x) { return x; }]").unwrap();
    assert_eq!(value.copy(), value);
    assert_eq!(value.clone(), value);
}

#[test]
fn a_function_without_its_scope_cannot_be_called() {
    let mut store = Store::new();
    store.set(0, "f".to_string(), Object::Function(vec![], vec![], 7));
    let mut eval = Eval::new(store);
    let (program, errors) = parse("f()");
    assert!(errors.is_empty());
    assert_eq!(
        eval.eval(program),
        Some(Object::Error("function scope not found".to_string()))
    );
}

#[test]
fn an_evaluator_keeps_its_scope_between_programs() {
    let mut eval = Eval::new(Store::new()).with_depth(10);
    for source in ["set x = 1;", "set f = fun() { anew x = x + 1; };", "f(); f();"] {
        let (program, errors) = parse(source);
        assert!(errors.is_empty());
        eval.eval(program);
    }
    let (program, _) = parse("x");
    assert_eq!(eval.eval(program), Some(Object::Int(3)));
    assert_eq!(eval.depth, 10);
}

#[test]
fn every_call_makes_a_scope_and_none_is_lost() {
    let mut eval = Eval::new(Store::new());
    let (program, _) = parse("set f = fun(a) { return a; }; f(1); f(2); f(3);");
    assert_eq!(eval.eval(program), Some(Object::Int(3)));
    assert_eq!(eval.store.len(), 4);
    assert_eq!(eval.scope, 0);
}

#[test]
fn the_active_scope_comes_back_after_an_error_in_a_call() {
    let mut eval = Eval::new(Store::new());
    let (program, _) = parse("set f = fun() { nothing; }; f();");
    assert_eq!(
        eval.eval(program),
        Some(Object::Error("identifier not found: nothing".to_string()))
    );
    assert_eq!(eval.scope, 0);
}

#[test]
fn a_name_of_the_evaluator_is_looked_up_in_the_active_scope() {
    let mut store = Store::new();
    store.set(0, "x".to_string(), Object::Int(9));
    let eval = Eval::new(store);
    assert_eq!(eval.eval_ident(&ethereal::ast::Ident("x".to_string())), Object::Int(9));
    assert_eq!(
        eval.eval_ident(&ethereal::ast::Ident("y".to_string())),
        Object::Error("identifier not found: y".to_string())
    );
    assert_eq!(
        eval.eval_ident(&ethereal::ast::Ident("log".to_string())),
        Object::Builtin(Builtin::Log)
    );
}
