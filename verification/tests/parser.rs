use ethereal::ast::{Expr, Ident, Infix, Literal, Precedence, Prefix, Program, Statement};
use ethereal::lexer::Lexer;
use ethereal::parser::{included_modules, parse, Parser};

fn program(source: &str) -> Vec<Statement> {
    let (program, errors) = parse(source);
    assert_eq!(errors, Vec::<String>::new());
    program.statements
}

fn errors(source: &str) -> Vec<String> {
    parse(source).1
}

fn integer(i: i32) -> Expr {
    Expr::Literal(Literal::Int(i))
}

fn name(s: &str) -> Expr {
    Expr::Ident(Ident(s.to_string()))
}

fn infix(op: Infix, l: Expr, r: Expr) -> Expr {
    Expr::Infix(op, Box::new(l), Box::new(r))
}

#[test]
fn parses_a_declaration() {
    assert_eq!(
        program("set x = 5;"),
        vec![Statement::Let(Ident("x".to_string()), integer(5))]
    );
}

#[test]
fn parses_a_reassignment() {
    assert_eq!(
        program("anew x = 5"),
        vec![Statement::Reassign(Ident("x".to_string()), integer(5))]
    );
}

#[test]
fn the_semicolon_is_optional() {
    assert_eq!(program("set x = 5"), program("set x = 5;"));
    assert_eq!(program("1 2"), vec![Statement::Expression(integer(1)), Statement::Expression(integer(2))]);
}

#[test]
fn parses_returns_with_and_without_a_value() {
    assert_eq!(
        program("return 1; return; return"),
        vec![
            Statement::Return(Some(integer(1))),
            Statement::Return(None),
            Statement::Return(None),
        ]
    );
}

#[test]
fn parses_the_inclusion_of_a_module() {
    assert_eq!(
        program("include \"std:util\"; include helpers;"),
        vec![
            Statement::Include(Ident("std:util".to_string())),
            Statement::Include(Ident("helpers".to_string())),
        ]
    );
}

#[test]
fn a_product_binds_more_strongly_than_a_sum() {
    assert_eq!(
        program("1 + 2 * 3"),
        vec![Statement::Expression(infix(
            Infix::Plus,
            integer(1),
            infix(Infix::Times, integer(2), integer(3))
        ))]
    );
    assert_eq!(
        program("1 * 2 + 3"),
        vec![Statement::Expression(infix(
            Infix::Plus,
            infix(Infix::Times, integer(1), integer(2)),
            integer(3)
        ))]
    );
}

#[test]
fn operators_of_one_power_group_to_the_left() {
    assert_eq!(
        program("1 - 2 - 3"),
        vec![Statement::Expression(infix(
            Infix::Minus,
            infix(Infix::Minus, integer(1), integer(2)),
            integer(3)
        ))]
    );
}

#[test]
fn a_comparison_binds_more_weakly_than_arithmetic() {
    assert_eq!(
        program("1 + 2 < 3 * 4 == true"),
        vec![Statement::Expression(infix(
            Infix::Equals,
            infix(
                Infix::Less,
                infix(Infix::Plus, integer(1), integer(2)),
                infix(Infix::Times, integer(3), integer(4))
            ),
            Expr::Literal(Literal::Boolean(true))
        ))]
    );
}

#[test]
fn parses_every_infix_operator() {
    let cases = [
        ("+", Infix::Plus),
        ("-", Infix::Minus),
        ("*", Infix::Times),
        ("/", Infix::Divide),
        ("%", Infix::Modulo),
        ("==", Infix::Equals),
        ("!=", Infix::NotEquals),
        ("<", Infix::Less),
        (">", Infix::Greater),
        ("<=", Infix::LessEq),
        (">=", Infix::GreaterEq),
    ];
    for (text, op) in cases {
        assert_eq!(
            program(&format!("a {} b", text)),
            vec![Statement::Expression(infix(op, name("a"), name("b")))]
        );
    }
}

#[test]
fn a_prefix_operator_binds_more_strongly_than_an_infix_operator() {
    assert_eq!(
        program("-a * !b"),
        vec![Statement::Expression(infix(
            Infix::Times,
            Expr::Prefix(Prefix::Minus, Box::new(name("a"))),
            Expr::Prefix(Prefix::Not, Box::new(name("b")))
        ))]
    );
    assert_eq!(
        program("+1"),
        vec![Statement::Expression(Expr::Prefix(Prefix::Plus, Box::new(integer(1))))]
    );
}

#[test]
fn brackets_group() {
    assert_eq!(
        program("(1 + 2) * 3"),
        vec![Statement::Expression(infix(
            Infix::Times,
            infix(Infix::Plus, integer(1), integer(2)),
            integer(3)
        ))]
    );
}

#[test]
fn parses_a_conditional() {
    assert_eq!(
        program("if (x < 1) { return 1; } else { 2 }"),
        vec![Statement::Expression(Expr::If {
            cond: Box::new(infix(Infix::Less, name("x"), integer(1))),
            then: Box::new(vec![Statement::Return(Some(integer(1)))]),
            else_: Some(vec![Statement::Expression(integer(2))]),
        })]
    );
    assert_eq!(
        program("if (x) { }"),
        vec![Statement::Expression(Expr::If {
            cond: Box::new(name("x")),
            then: Box::new(vec![]),
            else_: None,
        })]
    );
}

#[test]
fn parses_a_function_literal() {
    assert_eq!(
        program("fun(a, b) { return a + b; }"),
        vec![Statement::Expression(Expr::Fun {
            params: vec![Ident("a".to_string()), Ident("b".to_string())],
            body: vec![Statement::Return(Some(infix(Infix::Plus, name("a"), name("b"))))],
        })]
    );
    assert_eq!(
        program("fun() { }"),
        vec![Statement::Expression(Expr::Fun { params: vec![], body: vec![] })]
    );
}

#[test]
fn parses_calls_and_indexes() {
    assert_eq!(
        program("f(1, x)[0]()"),
        vec![Statement::Expression(Expr::Call {
            function: Box::new(Expr::Index {
                array: Box::new(Expr::Call {
                    function: Box::new(name("f")),
                    args: vec![integer(1), name("x")],
                }),
                index: Box::new(integer(0)),
            }),
            args: vec![],
        })]
    );
}

#[test]
fn a_call_binds_more_strongly_than_a_product() {
    assert_eq!(
        program("a * f(b)"),
        vec![Statement::Expression(infix(
            Infix::Times,
            name("a"),
            Expr::Call { function: Box::new(name("f")), args: vec![name("b")] }
        ))]
    );
}

#[test]
fn parses_array_and_object_literals() {
    assert_eq!(
        program("[1, \"a\", [true]]"),
        vec![Statement::Expression(Expr::Literal(Literal::Array(vec![
            integer(1),
            Expr::Literal(Literal::String("a".to_string())),
            Expr::Literal(Literal::Array(vec![Expr::Literal(Literal::Boolean(true))])),
        ])))]
    );
    assert_eq!(
        program("{\"a\": 1, 2: x,}"),
        vec![Statement::Expression(Expr::Literal(Literal::Object(vec![
            (Expr::Literal(Literal::String("a".to_string())), integer(1)),
            (integer(2), name("x")),
        ])))]
    );
    assert_eq!(
        program("[] {}"),
        vec![
            Statement::Expression(Expr::Literal(Literal::Array(vec![]))),
            Statement::Expression(Expr::Literal(Literal::Object(vec![]))),
        ]
    );
}

#[test]
fn comments_are_left_out() {
    assert_eq!(program("1 // one\n// two\n2"), program("1 2"));
}

#[test]
fn a_missing_bracket_is_one_error() {
    assert_eq!(
        errors("set x = (1 + 2;"),
        vec!["expected next token to be RightParen, got Semicolon instead".to_string()]
    );
}

#[test]
fn a_token_that_starts_no_expression_is_one_error() {
    assert_eq!(
        errors("set x = ;"),
        vec!["no prefix parse function for Semicolon found".to_string()]
    );
    assert_eq!(errors("@"), vec!["no prefix parse function for Illegal found".to_string()]);
    assert_eq!(errors("1.5"), vec!["no prefix parse function for Illegal found".to_string()]);
}

#[test]
fn a_declaration_needs_a_name_and_an_assignment() {
    assert_eq!(
        errors("set 5 = 1;"),
        vec!["expected next token to be Ident, got Int(5) instead".to_string()]
    );
    assert_eq!(
        errors("set x 1;"),
        vec!["expected next token to be Assign, got Int(1) instead".to_string()]
    );
}

#[test]
fn an_unclosed_block_is_an_error() {
    assert_eq!(
        errors("fun() { 1"),
        vec!["expected next token to be RightBrace, got Eof instead".to_string()]
    );
}

#[test]
fn two_independent_mistakes_are_two_errors() {
    let (_, errors) = parse("set a = (1 + 2; set f = fun(x) x; set b = 3;");
    assert_eq!(
        errors,
        vec![
            "expected next token to be RightParen, got Semicolon instead".to_string(),
            "expected next token to be LeftBrace, got Ident(x) instead".to_string(),
        ]
    );
}

#[test]
fn statements_that_parse_are_kept_beside_those_that_do_not() {
    let (program, errors) = parse("set a = 1; set = 2; set b = 3;");
    assert_eq!(errors.len(), 1);
    assert_eq!(
        program.statements,
        vec![
            Statement::Let(Ident("a".to_string()), integer(1)),
            Statement::Let(Ident("b".to_string()), integer(3)),
        ]
    );
}

#[test]
fn an_error_inside_a_block_leaves_the_rest_of_the_block() {
    let (program, errors) = parse("fun() { set a = ; return 1; }");
    assert_eq!(errors, vec!["no prefix parse function for Semicolon found".to_string()]);
    assert_eq!(
        program.statements,
        vec![Statement::Expression(Expr::Fun {
            params: vec![],
            body: vec![Statement::Return(Some(integer(1)))],
        })]
    );
}

#[test]
fn the_parser_reads_from_a_lexer() {
    let mut parser = Parser::new(Lexer::new("1 +".to_string()));
    let program = parser.parse_program();
    assert_eq!(program, Program { statements: vec![] });
    assert_eq!(parser.errors, vec!["no prefix parse function for Eof found".to_string()]);
}

#[test]
fn precedences_are_ordered() {
    let scale = [
        Precedence::Lowest,
        Precedence::Equals,
        Precedence::LessGreater,
        Precedence::Sum,
        Precedence::Product,
        Precedence::Prefix,
        Precedence::Call,
        Precedence::Index,
    ];
    for i in 0..scale.len() {
        assert_eq!(scale[i].level() as usize, i);
    }
}

#[test]
fn copies_are_equal() {
    let (program, _) = parse("set f = fun(a) { if (a) { return [a, {1: a}]; } else { -a } };");
    assert_eq!(program.copy(), program);
    assert_eq!(program.clone(), program);
    assert_eq!(program.statements[0].clone(), program.statements[0]);
}

#[test]
fn precedences_compare() {
    assert!(Precedence::Lowest < Precedence::Equals);
    assert!(Precedence::Sum < Precedence::Product);
    assert!(Precedence::Call < Precedence::Index);
    assert!(Precedence::Prefix > Precedence::Product);
}

#[test]
fn lists_the_modules_that_a_text_brings_in() {
    assert_eq!(
        included_modules("include \"std:util\"; set x = 1; fun() { include helpers; }"),
        vec!["std:util".to_string(), "helpers".to_string()]
    );
    assert_eq!(included_modules("set x = 1;"), Vec::<String>::new());
}

#[test]
fn every_required_token_has_its_error() {
    assert_eq!(
        errors("if x { }"),
        vec!["expected next token to be LeftParen, got Ident(x) instead".to_string()]
    );
    assert_eq!(
        errors("if (x { }"),
        vec!["expected next token to be RightParen, got LeftBrace instead".to_string()]
    );
    assert_eq!(
        errors("if (x) 1;"),
        vec!["expected next token to be LeftBrace, got Int(1) instead".to_string()]
    );
    assert_eq!(
        errors("if (x) { } else 1;"),
        vec!["expected next token to be LeftBrace, got Int(1) instead".to_string()]
    );
    assert_eq!(
        errors("fun x { }"),
        vec!["expected next token to be LeftParen, got Ident(x) instead".to_string()]
    );
    assert_eq!(
        errors("fun(a b) { }"),
        vec!["expected next token to be RightParen, got Ident(b) instead".to_string()]
    );
    assert_eq!(
        errors("fun(a,) { }"),
        vec!["expected next token to be Ident, got RightParen instead".to_string()]
    );
    assert_eq!(
        errors("fun(1) { }"),
        vec!["expected next token to be Ident, got Int(1) instead".to_string()]
    );
    assert_eq!(
        errors("[1, 2;"),
        vec!["expected next token to be RightBracket, got Semicolon instead".to_string()]
    );
    assert_eq!(
        errors("f(1 2);"),
        vec!["expected next token to be RightParen, got Int(2) instead".to_string()]
    );
    assert_eq!(
        errors("a[1;"),
        vec!["expected next token to be RightBracket, got Semicolon instead".to_string()]
    );
    assert_eq!(
        errors("{1 2};"),
        vec!["expected next token to be Colon, got Int(2) instead".to_string()]
    );
    assert_eq!(
        errors("{1: 2 3};"),
        vec!["expected next token to be Comma, got Int(3) instead".to_string()]
    );
    assert_eq!(
        errors("include 5;"),
        vec!["expected next token to be Ident, got Int(5) instead".to_string()]
    );
}

#[test]
fn a_failed_statement_is_skipped_to_its_end() {
    let (program, errors) = parse("set a = 1 + ) { 2; 3 } set b = 5;");
    assert_eq!(errors, vec!["no prefix parse function for RightParen found".to_string()]);
    assert_eq!(program.statements, vec![Statement::Let(Ident("b".to_string()), integer(5))]);
}

#[test]
fn a_failed_statement_ends_with_the_braces_it_opened() {
    let (program, errors) = parse("if (x { set a = 1; } set b = 5;");
    assert_eq!(
        errors,
        vec!["expected next token to be RightParen, got LeftBrace instead".to_string()]
    );
    assert_eq!(program.statements, vec![Statement::Let(Ident("b".to_string()), integer(5))]);
}

#[test]
fn a_stray_closing_brace_is_an_error() {
    assert_eq!(
        errors("set a = 1; } set b = 2;"),
        vec!["no prefix parse function for RightBrace found".to_string()]
    );
}

#[test]
fn a_failed_statement_in_a_block_leaves_the_closing_brace_to_the_block() {
    let (program, errors) = parse("fun() { set a = (1 } set b = 5;");
    assert_eq!(
        errors,
        vec!["expected next token to be RightParen, got RightBrace instead".to_string()]
    );
    assert_eq!(
        program.statements,
        vec![
            Statement::Expression(Expr::Fun { params: vec![], body: vec![] }),
            Statement::Let(Ident("b".to_string()), integer(5)),
        ]
    );
}

#[test]
fn errors_come_in_the_order_of_the_text() {
    assert_eq!(
        errors("set = 1; fun() { @ } ; set b 2"),
        vec![
            "expected next token to be Ident, got Assign instead".to_string(),
            "no prefix parse function for Illegal found".to_string(),
            "expected next token to be Assign, got Int(2) instead".to_string(),
        ]
    );
}

#[test]
fn operators_are_written_as_in_the_text() {
    let mut text = String::new();
    Prefix::Not.write(&mut text);
    Prefix::Minus.write(&mut text);
    Prefix::Plus.write(&mut text);
    for op in [
        Infix::Plus,
        Infix::Minus,
        Infix::Times,
        Infix::Divide,
        Infix::Modulo,
        Infix::Equals,
        Infix::NotEquals,
        Infix::Less,
        Infix::Greater,
        Infix::LessEq,
        Infix::GreaterEq,
    ] {
        text.push(' ');
        op.write(&mut text);
    }
    assert_eq!(text, "!-+ + - * / % == != < > <= >=");
}
