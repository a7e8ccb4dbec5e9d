use ethereal::lexer::{find_indentifier, Lexer};
use ethereal::token::Token;

fn tokens(source: &str) -> Vec<Token> {
    let mut lexer = Lexer::new(source.to_string());
    let mut all = Vec::new();
    loop {
        let token = lexer.next_token();
        let last = token == Token::Eof;
        all.push(token);
        if last {
            return all;
        }
    }
}

#[test]
fn lexes_a_declaration() {
    assert_eq!(
        tokens("set x = 5;"),
        vec![
            Token::Let,
            Token::Ident("x".to_string()),
            Token::Assign,
            Token::Int(5),
            Token::Semicolon,
            Token::Eof,
        ]
    );
}

#[test]
fn lexes_every_operator_and_delimiter() {
    assert_eq!(
        tokens("= + - ! * / % < > <= >= == != , : ; ( ) { } [ ]"),
        vec![
            Token::Assign,
            Token::Plus,
            Token::Minus,
            Token::Bang,
            Token::Asterisk,
            Token::Slash,
            Token::Percent,
            Token::Less,
            Token::Greater,
            Token::LessEqual,
            Token::GreaterEqual,
            Token::Equals,
            Token::NotEquals,
            Token::Comma,
            Token::Colon,
            Token::Semicolon,
            Token::LeftParen,
            Token::RightParen,
            Token::LeftBrace,
            Token::RightBrace,
            Token::LeftBracket,
            Token::RightBracket,
            Token::Eof,
        ]
    );
}

#[test]
fn lexes_two_character_operators_without_blanks() {
    assert_eq!(
        tokens("a==b!=c<=d>=e"),
        vec![
            Token::Ident("a".to_string()),
            Token::Equals,
            Token::Ident("b".to_string()),
            Token::NotEquals,
            Token::Ident("c".to_string()),
            Token::LessEqual,
            Token::Ident("d".to_string()),
            Token::GreaterEqual,
            Token::Ident("e".to_string()),
            Token::Eof,
        ]
    );
}

#[test]
fn lexes_every_keyword() {
    assert_eq!(
        tokens("set anew fun if else return include true false"),
        vec![
            Token::Let,
            Token::Anew,
            Token::Func,
            Token::If,
            Token::Else,
            Token::Return,
            Token::Include,
            Token::Boolean(true),
            Token::Boolean(false),
            Token::Eof,
        ]
    );
}

#[test]
fn a_word_that_is_no_keyword_is_an_identifier() {
    assert_eq!(
        tokens("settle _x fun_ Return"),
        vec![
            Token::Ident("settle".to_string()),
            Token::Ident("_x".to_string()),
            Token::Ident("fun_".to_string()),
            Token::Ident("Return".to_string()),
            Token::Eof,
        ]
    );
}

#[test]
fn finds_keywords_by_their_text() {
    assert_eq!(find_indentifier("set"), Some(Token::Let));
    assert_eq!(find_indentifier("anew"), Some(Token::Anew));
    assert_eq!(find_indentifier("true"), Some(Token::Boolean(true)));
    assert_eq!(find_indentifier("typeof"), None);
    assert_eq!(find_indentifier("x"), None);
}

#[test]
fn skips_blanks_of_every_kind() {
    assert_eq!(
        tokens(" \t\r\n 1 \n\n\t 2 "),
        vec![Token::Int(1), Token::Int(2), Token::Eof]
    );
}

#[test]
fn lexes_a_string_without_escapes() {
    assert_eq!(
        tokens("\"a\\n b\" x"),
        vec![
            Token::String("a\\n b".to_string()),
            Token::Ident("x".to_string()),
            Token::Eof,
        ]
    );
}

#[test]
fn an_unterminated_string_runs_to_the_end() {
    assert_eq!(tokens("\"abc"), vec![Token::String("abc".to_string()), Token::Eof]);
}

#[test]
fn lexes_an_empty_string() {
    assert_eq!(tokens("\"\""), vec![Token::String(String::new()), Token::Eof]);
}

#[test]
fn a_comment_runs_to_the_end_of_the_line() {
    assert_eq!(
        tokens("1 // one\n2 // two"),
        vec![Token::Int(1), Token::Comment, Token::Int(2), Token::Comment, Token::Eof]
    );
}

#[test]
fn an_unknown_character_is_illegal() {
    assert_eq!(
        tokens("1 @ 2"),
        vec![Token::Int(1), Token::Illegal, Token::Int(2), Token::Eof]
    );
}

#[test]
fn the_greatest_integer_is_a_number() {
    assert_eq!(tokens("2147483647"), vec![Token::Int(2147483647), Token::Eof]);
}

#[test]
fn a_number_that_is_too_large_is_illegal() {
    assert_eq!(tokens("2147483648"), vec![Token::Illegal, Token::Eof]);
    assert_eq!(tokens("99999999999999999999999"), vec![Token::Illegal, Token::Eof]);
}

#[test]
fn a_number_with_a_point_is_illegal() {
    assert_eq!(
        tokens("1.5 + 2"),
        vec![Token::Illegal, Token::Plus, Token::Int(2), Token::Eof]
    );
}

#[test]
fn leading_zeros_do_not_matter() {
    assert_eq!(tokens("007"), vec![Token::Int(7), Token::Eof]);
}

#[test]
fn the_end_is_eof_for_ever() {
    let mut lexer = Lexer::new("x".to_string());
    assert_eq!(lexer.next_token(), Token::Ident("x".to_string()));
    assert_eq!(lexer.next_token(), Token::Eof);
    assert_eq!(lexer.next_token(), Token::Eof);
    assert_eq!(lexer.next_token(), Token::Eof);
}

#[test]
fn an_empty_text_is_eof_at_once() {
    let mut lexer = Lexer::new(String::new());
    assert_eq!(lexer.next_token(), Token::Eof);
    assert_eq!(lexer.next_token(), Token::Eof);
}

#[test]
fn read_char_moves_one_character_on() {
    let mut lexer = Lexer::new("ab".to_string());
    assert_eq!(lexer.position(), 0);
    lexer.read_char();
    assert_eq!(lexer.position(), 1);
    lexer.read_char();
    assert_eq!(lexer.position(), 2);
    lexer.read_char();
    assert_eq!(lexer.position(), 2);
}

#[test]
fn read_comment_returns_the_text_passed_over() {
    let mut lexer = Lexer::new("// note\nx".to_string());
    assert_eq!(lexer.read_comment(), "// note".to_string());
    assert_eq!(lexer.position(), 7);
    assert_eq!(lexer.next_token(), Token::Ident("x".to_string()));
}

#[test]
fn tokens_are_written_by_kind_and_content() {
    assert_eq!(Token::Eof.to_text(), "Eof");
    assert_eq!(Token::RightParen.to_text(), "RightParen");
    assert_eq!(Token::Ident("x".to_string()).to_text(), "Ident(x)");
    assert_eq!(Token::Int(-12).to_text(), "Int(-12)");
    assert_eq!(Token::Int(0).to_text(), "Int(0)");
    assert_eq!(Token::Int(i32::MIN).to_text(), "Int(-2147483648)");
    assert_eq!(Token::String("a b".to_string()).to_text(), "String(a b)");
    assert_eq!(Token::Boolean(true).to_text(), "Boolean(true)");
}
