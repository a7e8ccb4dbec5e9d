use ethereal::evaluation::globals::{log_text, new_globals};
use ethereal::evaluation::object::{Builtin, Object};
use ethereal::evaluation::Eval;
use ethereal::ast::{Infix, Prefix};
use ethereal::std_library::array::{head, pop, push, tail};
use ethereal::std_library::hash::hasher;
use ethereal::std_library::http::{find_method, plan_request, response_object, Method, Request};
use ethereal::std_library::string::{replace, replace_all};
use ethereal::std_library::util::length;
use ethereal::std_library::{array, get_std_lib, hash, string, util};

fn text(s: &str) -> Object {
    Object::String(s.to_string())
}

fn error(s: &str) -> Object {
    Object::Error(s.to_string())
}

fn ints(values: &[i32]) -> Object {
    Object::Array(values.iter().map(|i| Object::Int(*i)).collect())
}

#[test]
fn the_globals_are_log() {
    assert_eq!(new_globals(), vec![("log".to_string(), Object::Builtin(Builtin::Log))]);
}

#[test]
fn log_text_puts_a_space_after_each_argument() {
    assert_eq!(log_text(&vec![]), "");
    assert_eq!(log_text(&vec![Object::Int(1)]), "1 ");
    assert_eq!(log_text(&vec![Object::Int(1), text("a")]), "1 a ");
}

#[test]
fn length_counts_elements_and_bytes() {
    assert_eq!(length(vec![ints(&[1, 2, 3])]), Object::Int(3));
    assert_eq!(length(vec![ints(&[])]), Object::Int(0));
    assert_eq!(length(vec![text("abc")]), Object::Int(3));
    assert_eq!(length(vec![text("é")]), Object::Int(2));
    assert_eq!(length(vec![text("")]), Object::Int(0));
}

#[test]
fn length_wants_one_string_or_array() {
    assert_eq!(length(vec![]), error("Wrong number of arguments. Got 0. Expected 1."));
    assert_eq!(
        length(vec![text("a"), text("b")]),
        error("Wrong number of arguments. Got 2. Expected 1.")
    );
    assert_eq!(
        length(vec![Object::Int(5)]),
        error("Argument must be a string or array. Got 5")
    );
}

#[test]
fn push_adds_at_the_end() {
    assert_eq!(push(vec![ints(&[1, 2]), Object::Int(3)]), ints(&[1, 2, 3]));
    assert_eq!(push(vec![ints(&[]), text("a")]), Object::Array(vec![text("a")]));
}

#[test]
fn push_wants_an_array_and_a_value() {
    assert_eq!(push(vec![ints(&[1])]), error("Wrong number of arguments. Got 1. Expected 2."));
    assert_eq!(
        push(vec![Object::Int(1), Object::Int(2)]),
        error("First argument must be an array. Got 1")
    );
}

#[test]
fn pop_and_head_drop_the_last_element() {
    assert_eq!(pop(vec![ints(&[1, 2, 3])]), ints(&[1, 2]));
    assert_eq!(pop(vec![ints(&[])]), ints(&[]));
    assert_eq!(head(vec![ints(&[1, 2, 3])]), ints(&[1, 2]));
    assert_eq!(head(vec![ints(&[])]), ints(&[]));
    assert_eq!(pop(vec![]), error("Wrong number of arguments. Got 0. Expected 1."));
    assert_eq!(head(vec![text("a")]), error("First argument must be an array. Got a"));
}

#[test]
fn tail_drops_the_first_element() {
    assert_eq!(tail(vec![ints(&[1, 2, 3])]), ints(&[2, 3]));
    assert_eq!(tail(vec![ints(&[1])]), ints(&[]));
    assert_eq!(tail(vec![ints(&[])]), ints(&[]));
    assert_eq!(tail(vec![]), error("Wrong number of arguments. Got 0. Expected 1."));
    assert_eq!(tail(vec![Object::Null]), error("First argument must be an array. Got null"));
}

#[test]
fn replace_all_replaces_from_left_to_right() {
    assert_eq!(replace_all("a-b-c", "-", "+"), "a+b+c");
    assert_eq!(replace_all("aaa", "aa", "b"), "ba");
    assert_eq!(replace_all("abc", "x", "y"), "abc");
    assert_eq!(replace_all("abc", "abc", ""), "");
    assert_eq!(replace_all("abc", "abcd", "x"), "abc");
    assert_eq!(replace_all("", "a", "b"), "");
    assert_eq!(replace_all("ab", "b", "bb"), "abb");
}

#[test]
fn an_empty_pattern_stands_between_all_characters() {
    assert_eq!(replace_all("abc", "", "-"), "-a-b-c-");
    assert_eq!(replace_all("", "", "-"), "-");
    assert_eq!("abc".replace("", "-"), replace_all("abc", "", "-"));
}

#[test]
fn replace_all_agrees_with_the_standard_library() {
    let cases = [
        ("hello world", "o", "0"),
        ("aaaa", "aa", "a"),
        ("abcabc", "bc", "x"),
        ("ééé", "é", "e"),
        ("abab", "aba", "c"),
    ];
    for (s, from, to) in cases {
        assert_eq!(replace_all(s, from, to), s.replace(from, to));
    }
}

#[test]
fn replace_takes_the_text_of_its_arguments() {
    assert_eq!(replace(vec![text("a1b"), Object::Int(1), text("-")]), text("a-b"));
    assert_eq!(
        replace(vec![text("a")]),
        error("Wrong number of arguments. Got 1. Expected 3.")
    );
    assert_eq!(
        replace(vec![Object::Int(1), text("a"), text("b")]),
        error("First argument must be a string. Got 1")
    );
}

#[test]
fn hasher_digests_by_every_algorithm() {
    let digest = |algorithm: &str, input: &str| hasher(vec![text(algorithm), text(input)]);
    assert_eq!(digest("md5", ""), text("d41d8cd98f00b204e9800998ecf8427e"));
    assert_eq!(digest("md5", "abc"), text("900150983cd24fb0d6963f7d28e17f72"));
    assert_eq!(digest("sha1", "abc"), text("a9993e364706816aba3e25717850c26c9cd0d89d"));
    assert_eq!(
        digest("sha256", "abc"),
        text("ba7816bf8f01cfea414140de5dae2223b00361a396177a9cb410ff61f20015ad")
    );
    assert_eq!(
        digest("sha512", "abc"),
        text(
            "ddaf35a193617abacc417349ae20413112e6fa4e89a97ea20a9eeee64b55d39a2192992a274fc1a836ba3c23a3feebbd454d4423643ce80e2a9ac94fa54ca49f"
        )
    );
    assert_eq!(
        digest("sha3_256", "abc"),
        text("3a985da74fe225b2045c172d6bd390bd855f086e3e9d525b46bfe24511431532")
    );
    assert_eq!(
        digest("sha3_512", "abc"),
        text(
            "b751850b1a57168a5693cd924b6b096e08f621827444f70d884f5d0240d2712e10e116e9192af3c91a7ec57647e3934057340b4cf408d5a56592f8274eec53f0"
        )
    );
    assert_eq!(
        digest("whirlpool", "abc"),
        text(
            "4e2448a4c6f486bb16b6562c73b4020bf3043e3a731bce721ae1b303d97e6d4c7181eebdb6c57e277d0e34957114cbd6c797fc9d95d8b582d225292076d4eef5"
        )
    );
}

#[test]
fn hasher_takes_the_text_of_its_second_argument() {
    assert_eq!(
        hasher(vec![text("md5"), Object::Int(123)]),
        text("202cb962ac59075b964b07152d234b70")
    );
}

#[test]
fn hasher_wants_an_algorithm_and_a_text() {
    assert_eq!(
        hasher(vec![text("md5")]),
        error("Wrong number of arguments. Got 1. Expected mode and string")
    );
    assert_eq!(hasher(vec![text("md4"), text("a")]), error("Algorithm not supported"));
    assert_eq!(
        hasher(vec![Object::Int(5), text("a")]),
        error("First argument must be a string. Got 5")
    );
}

#[test]
fn the_modules_of_the_standard_library() {
    let names = |lib: &str| -> Option<Vec<String>> {
        get_std_lib(lib.to_string()).map(|res| res.globals.into_iter().map(|b| b.0).collect())
    };
    assert_eq!(names("std:util"), Some(vec!["length".to_string()]));
    assert_eq!(
        names("std:array"),
        Some(vec![
            "push".to_string(),
            "pop".to_string(),
            "head".to_string(),
            "tail".to_string()
        ])
    );
    assert_eq!(names("std:string"), Some(vec!["replace".to_string()]));
    assert_eq!(names("std:hash"), Some(vec!["hasher".to_string()]));
    assert_eq!(names("std:none"), None);
    assert_eq!(names("util"), None);
}

#[test]
fn only_the_array_module_has_source_text() {
    assert!(array::add_globals().raw.is_some());
    assert!(util::add_globals().raw.is_none());
    assert!(string::add_globals().raw.is_none());
    assert!(hash::add_globals().raw.is_none());
}

#[test]
fn operators_work_on_values() {
    assert_eq!(Eval::eval_prefix_expr(Prefix::Minus, Object::Int(5)), Object::Int(-5));
    assert_eq!(Eval::eval_prefix_expr(Prefix::Not, Object::Null), Object::Bool(true));
    assert_eq!(Eval::eval_prefix_expr(Prefix::Plus, error("e")), error("e"));
    assert_eq!(Eval::eval_int_infix_expr(Infix::Times, 6, 7), Object::Int(42));
    assert_eq!(
        Eval::eval_string_infix_expr(Infix::Plus, "a".to_string(), "b".to_string()),
        text("ab")
    );
    assert_eq!(
        Eval::eval_infix_expr(Infix::Plus, Object::Int(1), text("a")),
        error("type mismatch: 1 + a")
    );
    assert_eq!(Eval::eval_array_index_expr(&vec![Object::Int(1), Object::Int(2)], -2), Object::Int(1));
    assert_eq!(Eval::eval_index_expr(ints(&[4, 5]), Object::Int(1)), Object::Int(5));
    assert_eq!(
        Eval::unwrap_return_value(Some(Object::Return(Box::new(Object::Int(1))))),
        Object::Int(1)
    );
    assert_eq!(Eval::unwrap_return_value(None), Object::Null);
    assert!(Eval::is_truthy(&Object::Int(0)));
    assert!(!Eval::is_truthy(&Object::Null));
    assert!(Eval::is_error(&error("e")));
    assert!(!Eval::is_error(&Object::Null));
}

#[test]
fn a_request_needs_a_method_and_a_url() {
    assert_eq!(
        plan_request(vec![text("GET"), text("http://example.org")]),
        Ok(Request { method: Method::Get, url: "http://example.org".to_string(), headers: vec![] })
    );
    assert_eq!(
        plan_request(vec![text("GET")]),
        Err(error("Wrong number of arguments. Got 1. Expected 2 or 3."))
    );
    assert_eq!(
        plan_request(vec![text("GET"), text("u"), Object::Object(vec![]), Object::Null]),
        Err(error("Wrong number of arguments. Got 4. Expected 2 or 3."))
    );
    assert_eq!(
        plan_request(vec![Object::Int(1), text("u")]),
        Err(error("First argument must be a string. Got 1"))
    );
    assert_eq!(
        plan_request(vec![text("GET"), Object::Int(2)]),
        Err(error("Second argument must be a string. Got 2"))
    );
    assert_eq!(
        plan_request(vec![text("PATCH"), text("u")]),
        Err(error("Unsupported HTTP method PATCH"))
    );
}

#[test]
fn a_request_may_have_headers() {
    let headers = Object::Object(vec![
        (text("accept"), text("text/plain")),
        (text("x-id"), text("7")),
    ]);
    assert_eq!(
        plan_request(vec![text("POST"), text("u"), headers]),
        Ok(Request {
            method: Method::Post,
            url: "u".to_string(),
            headers: vec![
                ("accept".to_string(), "text/plain".to_string()),
                ("x-id".to_string(), "7".to_string()),
            ],
        })
    );
    assert_eq!(
        plan_request(vec![text("GET"), text("u"), Object::Int(3)]),
        Err(error("Third argument must be an Object. Got 3"))
    );
    assert_eq!(
        plan_request(vec![text("GET"), text("u"), Object::Object(vec![(text("a"), Object::Int(1))])]),
        Err(error("Headers must be a map of strings. Got {a: 1}"))
    );
    assert_eq!(
        plan_request(vec![text("NOPE"), text("u"), Object::Int(3)]),
        Err(error("Third argument must be an Object. Got 3"))
    );
}

#[test]
fn the_methods_of_a_request() {
    assert_eq!(find_method("GET"), Some(Method::Get));
    assert_eq!(find_method("POST"), Some(Method::Post));
    assert_eq!(find_method("PUT"), Some(Method::Put));
    assert_eq!(find_method("DELETE"), Some(Method::Delete));
    assert_eq!(find_method("get"), None);
}

#[test]
fn a_response_is_a_mapping() {
    let response = response_object(
        404,
        "Not Found".to_string(),
        vec![
            ("a".to_string(), "1".to_string()),
            ("b".to_string(), "2".to_string()),
            ("a".to_string(), "3".to_string()),
        ],
        "gone".to_string(),
    );
    assert_eq!(
        response,
        Object::Object(vec![
            (text("status"), text("404 Not Found")),
            (
                text("headers"),
                Object::Object(vec![(text("a"), text("3")), (text("b"), text("2"))])
            ),
            (text("body"), text("gone")),
        ])
    );
    assert_eq!(
        Eval::eval_index_expr(response, text("status")),
        text("404 Not Found")
    );
}
