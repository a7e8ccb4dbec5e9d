//! The parser: tokens in, a program and a list of error messages out.
//!
//! The grammar is stated in [`grammar`]; the executable parser is proved to
//! compute exactly the functions defined there.

use vstd::prelude::*;
use crate::ast::{
    block_model, exprs_model, names_model, pairs_model, Expr, ExprV, Ident, Infix, Precedence,
    Program, Statement, StatementV,
};
use crate::lexer::{lemma_scan_advances, Lexer};
use crate::parser::grammar::{
    closes, expected, infix_of, no_prefix, parse_source, parse_tokens, precedence_of, resync,
    sequence, skip_semicolon, tok, tokens_of, Closer,
};
use crate::text::push_text;
use crate::token::{Token, TokenV};

pub mod grammar;
mod blocks;
mod expressions;
mod forms;
mod operands;
mod prefixes;
pub mod progress;
mod statements;

verus! {

/// The values of a sequence of tokens.
pub open spec fn tokens_model(ts: Seq<Token>) -> Seq<TokenV> {
    Seq::new(ts.len(), |i: int| ts[i]@)
}

/// The texts of a sequence of strings.
pub open spec fn texts(lines: Seq<String>) -> Seq<Seq<char>> {
    Seq::new(lines.len(), |i: int| lines[i]@)
}

/// The value of a token that may be missing: `Eof` where it is.
pub open spec fn read(t: Option<&Token>) -> TokenV {
    match t {
        Some(x) => x@,
        None => TokenV::Eof,
    }
}

/// Whether an expression, if there is one, has the value `want`.
pub open spec fn same_expr(node: Option<Expr>, want: Option<ExprV>) -> bool {
    match node {
        Some(e) => want == Some(e@),
        None => want is None,
    }
}

/// Whether a statement, if there is one, has the value `want`.
pub open spec fn same_statement(node: Option<Statement>, want: Option<StatementV>) -> bool {
    match node {
        Some(s) => want == Some(s@),
        None => want is None,
    }
}

/// Whether a list of expressions, if there is one, has the value `want`.
pub open spec fn same_exprs(node: Option<Vec<Expr>>, want: Option<Seq<ExprV>>) -> bool {
    match node {
        Some(v) => want == Some(exprs_model(v@)),
        None => want is None,
    }
}

/// Whether a list of pairs, if there is one, has the value `want`.
pub open spec fn same_pairs(node: Option<Vec<(Expr, Expr)>>, want: Option<Seq<(ExprV, ExprV)>>) -> bool {
    match node {
        Some(v) => want == Some(pairs_model(v@)),
        None => want is None,
    }
}

/// Whether a list of statements, if there is one, has the value `want`.
pub open spec fn same_block(node: Option<Vec<Statement>>, want: Option<Seq<StatementV>>) -> bool {
    match node {
        Some(v) => want == Some(block_model(v@)),
        None => want is None,
    }
}

/// Whether a list of names, if there is one, has the value `want`.
pub open spec fn same_names(node: Option<Vec<Ident>>, want: Option<Seq<Seq<char>>>) -> bool {
    match node {
        Some(v) => want == Some(names_model(v@)),
        None => want is None,
    }
}

/// The values of a list of expressions with one more are the values of the
/// list with one more.
pub(crate) proof fn lemma_exprs_push(v: Seq<Expr>, e: Expr)
    ensures
        exprs_model(v.push(e)) == exprs_model(v).push(e@),
{
    assert(exprs_model(v.push(e)) =~= exprs_model(v).push(e@));
}

/// The values of a list of pairs with one more are the values of the list
/// with one more.
pub(crate) proof fn lemma_pairs_push(v: Seq<(Expr, Expr)>, k: Expr, x: Expr)
    ensures
        pairs_model(v.push((k, x))) == pairs_model(v).push((k@, x@)),
{
    assert(pairs_model(v.push((k, x))) =~= pairs_model(v).push((k@, x@)));
}

/// The values of a list of statements with one more are the values of the
/// list with one more.
pub(crate) proof fn lemma_block_push(v: Seq<Statement>, s: Statement)
    ensures
        block_model(v.push(s)) == block_model(v).push(s@),
{
    assert(block_model(v.push(s)) =~= block_model(v).push(s@));
}

/// The values of a list of names with one more are the values of the list
/// with one more.
pub(crate) proof fn lemma_names_push(v: Seq<Ident>, name: Ident)
    ensures
        names_model(v.push(name)) == names_model(v).push(name@),
{
    assert(names_model(v.push(name)) =~= names_model(v).push(name@));
}

/// Empty lists have empty values.
pub(crate) proof fn lemma_empty_models()
    ensures
        exprs_model(Seq::<Expr>::empty()) == Seq::<ExprV>::empty(),
        pairs_model(Seq::<(Expr, Expr)>::empty()) == Seq::<(ExprV, ExprV)>::empty(),
        block_model(Seq::<Statement>::empty()) == Seq::<StatementV>::empty(),
        names_model(Seq::<Ident>::empty()) == Seq::<Seq<char>>::empty(),
{
    assert(exprs_model(Seq::<Expr>::empty()) =~= Seq::<ExprV>::empty());
    assert(pairs_model(Seq::<(Expr, Expr)>::empty()) =~= Seq::<(ExprV, ExprV)>::empty());
    assert(block_model(Seq::<Statement>::empty()) =~= Seq::<StatementV>::empty());
    assert(names_model(Seq::<Ident>::empty()) =~= Seq::<Seq<char>>::empty());
}

/// The message for a token that is not the one the grammar requires.
pub(crate) fn expected_message(want: &str, got: Option<&Token>) -> (m: String)
    ensures
        m@ == expected(want@, read(got)),
{
    reveal(expected);
    let mut m = String::new();
    push_text(&mut m, "expected next token to be ");
    push_text(&mut m, want);
    push_text(&mut m, ", got ");
    match got {
        Some(t) => {
            let name = t.to_text();
            push_text(&mut m, name.as_str());
        },
        None => {
            let name = Token::Eof.to_text();
            push_text(&mut m, name.as_str());
        },
    }
    push_text(&mut m, " instead");
    assert(m@ =~= expected(want@, read(got)));
    m
}

/// The message for a token with which no expression can start.
pub(crate) fn no_prefix_message(got: Option<&Token>) -> (m: String)
    ensures
        m@ == no_prefix(read(got)),
{
    reveal(no_prefix);
    let mut m = String::new();
    push_text(&mut m, "no prefix parse function for ");
    match got {
        Some(t) => {
            let name = t.to_text();
            push_text(&mut m, name.as_str());
        },
        None => {
            let name = Token::Eof.to_text();
            push_text(&mut m, name.as_str());
        },
    }
    push_text(&mut m, " found");
    assert(m@ =~= no_prefix(read(got)));
    m
}

/// The binding power of a token that stands after an expression.
pub(crate) fn token_precedence(t: Option<&Token>) -> (r: Precedence)
    ensures
        r == precedence_of(read(t)),
{
    match t {
        Some(Token::Equals) | Some(Token::NotEquals) => Precedence::Equals,
        Some(Token::Less) | Some(Token::LessEqual) | Some(Token::Greater) | Some(
            Token::GreaterEqual,
        ) => Precedence::LessGreater,
        Some(Token::Plus) | Some(Token::Minus) => Precedence::Sum,
        Some(Token::Slash) | Some(Token::Asterisk) | Some(Token::Percent) => Precedence::Product,
        Some(Token::LeftParen) => Precedence::Call,
        Some(Token::LeftBracket) => Precedence::Index,
        _ => Precedence::Lowest,
    }
}

/// The infix operator that a token writes, if any.
pub(crate) fn token_infix(t: Option<&Token>) -> (r: Option<Infix>)
    ensures
        r == infix_of(read(t)),
{
    match t {
        Some(Token::Plus) => Some(Infix::Plus),
        Some(Token::Minus) => Some(Infix::Minus),
        Some(Token::Asterisk) => Some(Infix::Times),
        Some(Token::Slash) => Some(Infix::Divide),
        Some(Token::Percent) => Some(Infix::Modulo),
        Some(Token::Equals) => Some(Infix::Equals),
        Some(Token::NotEquals) => Some(Infix::NotEquals),
        Some(Token::Less) => Some(Infix::Less),
        Some(Token::Greater) => Some(Infix::Greater),
        Some(Token::LessEqual) => Some(Infix::LessEq),
        Some(Token::GreaterEqual) => Some(Infix::GreaterEq),
        _ => None,
    }
}

/// Whether `t` is the bracket `close`.
pub(crate) fn token_closes(t: Option<&Token>, close: Closer) -> (r: bool)
    ensures
        r == closes(read(t), close),
{
    match close {
        Closer::Paren => match t {
            Some(Token::RightParen) => true,
            _ => false,
        },
        Closer::Bracket => match t {
            Some(Token::RightBracket) => true,
            _ => false,
        },
    }
}

/// A parser over the tokens of one source text. `errors` holds the messages
/// of the errors met so far.
pub struct Parser {
    pub(crate) tokens: Vec<Token>,
    pub errors: Vec<String>,
}

impl Parser {
    /// The tokens that the parser reads.
    #[verifier::opaque]
    pub closed spec fn stream(&self) -> Seq<TokenV> {
        tokens_model(self.tokens@)
    }

    /// The messages of the errors met so far.
    #[verifier::opaque]
    pub closed spec fn messages(&self) -> Seq<Seq<char>> {
        texts(self.errors@)
    }

    /// A parser over the tokens that `lexer` has yet to give.
    #[verifier::loop_isolation(false)]
    pub fn new(lexer: Lexer) -> (parser: Parser)
        ensures
            parser.stream() == tokens_of(lexer.source(), lexer.cursor()),
            parser.messages() == Seq::<Seq<char>>::empty(),
    {
        reveal(Parser::stream);
        reveal(Parser::messages);
        let mut lexer = lexer;
        let ghost source = lexer.source();
        let ghost start = lexer.cursor();
        let mut tokens: Vec<Token> = Vec::new();
        let mut at = lexer.position();
        assert(tokens_model(tokens@) + tokens_of(source, start) =~= tokens_of(source, start));
        loop
            invariant
                lexer.source() == source,
                at == lexer.cursor(),
                0 <= lexer.cursor() <= source.len(),
                tokens_of(source, start) == tokens_model(tokens@) + tokens_of(
                    source,
                    lexer.cursor(),
                ),
            decreases source.len() - lexer.cursor(),
        {
            let ghost before = lexer.cursor();
            let ghost sofar = tokens_model(tokens@);
            let token = lexer.next_token();
            let after = lexer.position();
            proof {
                lemma_scan_advances(source, before);
            }
            let last = match token {
                Token::Eof => true,
                _ => after <= at,
            };
            if last {
                tokens.push(Token::Eof);
                assert(tokens_model(tokens@) =~= sofar + seq![TokenV::Eof]);
                assert(tokens_of(source, before) == seq![TokenV::Eof]);
                let parser = Parser { tokens, errors: Vec::new() };
                assert(parser.stream() == tokens_of(source, start));
                assert(parser.messages() =~= Seq::<Seq<char>>::empty());
                return parser;
            }
            match token {
                Token::Comment => {},
                other => {
                    let ghost value = other@;
                    tokens.push(other);
                    assert(tokens_model(tokens@) =~= sofar + seq![value]);
                    assert(sofar + (seq![value] + tokens_of(source, after as int)) =~= (sofar
                        + seq![value]) + tokens_of(source, after as int));
                },
            }
            at = after;
        }
    }

    /// The token at `i`, if there is one.
    pub(crate) fn at(&self, i: usize) -> (t: Option<&Token>)
        ensures
            read(t) == tok(self.stream(), i as int),
            t is Some ==> i < self.tokens.len(),
            (!(read(t) is Eof)) ==> i < self.tokens.len(),
    {
        reveal(Parser::stream);
        if i < self.tokens.len() {
            Some(&self.tokens[i])
        } else {
            None
        }
    }

    /// The token `k` places after `i`, if there is one.
    pub(crate) fn ahead(&self, i: usize, k: usize) -> (t: Option<&Token>)
        ensures
            read(t) == tok(self.stream(), i + k),
            (!(read(t) is Eof)) ==> i + k < self.tokens.len(),
    {
        reveal(Parser::stream);
        let n = self.tokens.len();
        assert(self.stream().len() == n);
        if k <= usize::MAX - i {
            self.at(i + k)
        } else {
            None
        }
    }

    /// Adds `message` to the errors.
    pub(crate) fn report(&mut self, message: String)
        ensures
            final(self).tokens == old(self).tokens,
            final(self).stream() == old(self).stream(),
            final(self).messages() == old(self).messages().push(message@),
    {
        reveal(Parser::stream);
        reveal(Parser::messages);
        self.errors.push(message);
        assert(self.messages() =~= old(self).messages().push(message@));
    }

    /// The position after an optional semicolon at `p`.
    pub(crate) fn skip_semicolon(&self, p: usize) -> (next: usize)
        requires
            p <= self.tokens.len(),
        ensures
            next == skip_semicolon(self.stream(), p as int),
            p <= next <= self.tokens.len(),
    {
        match self.at(p) {
            Some(Token::Semicolon) => p + 1,
            _ => p,
        }
    }

    /// Where parsing goes on after a statement that failed at `p`.
    #[verifier::loop_isolation(false)]
    pub(crate) fn resync(&self, p: usize, in_block: bool) -> (next: usize)
        requires
            p <= self.tokens.len(),
        ensures
            next == resync(self.stream(), p as int, 0, in_block),
            p <= next <= self.tokens.len(),
    {
        let ghost ts = self.stream();
        let mut q = p;
        let mut depth: usize = 0;
        loop
            invariant
                ts == self.stream(),
                p <= q <= self.tokens.len(),
                depth <= q - p,
                resync(ts, q as int, depth as nat, in_block) == resync(ts, p as int, 0, in_block),
            decreases self.tokens.len() - q,
        {
            match self.at(q) {
                None => {
                    return q;
                },
                Some(Token::Eof) => {
                    return q;
                },
                Some(Token::Semicolon) => {
                    if depth == 0 {
                        return q + 1;
                    }
                },
                Some(Token::LeftBrace) => {
                    depth = depth + 1;
                },
                Some(Token::RightBrace) => {
                    if depth == 0 {
                        if in_block {
                            return q;
                        }
                    } else if depth == 1 {
                        return q + 1;
                    } else {
                        depth = depth - 1;
                    }
                },
                _ => {},
            }
            q = q + 1;
        }
    }

    /// Parses the whole token stream. The program holds the statements that
    /// parsed; `errors` gains one message for each error met, in the order of
    /// the source text. Where `errors` is not empty afterwards, the program
    /// must not be evaluated.
    pub fn parse_program(&mut self) -> (program: Program)
        ensures
            final(self).stream() == old(self).stream(),
            program@ == parse_tokens(old(self).stream()).0,
            final(self).messages() == old(self).messages() + parse_tokens(old(self).stream()).1,
    {
        let (statements, end) = self.sequence(0, false);
        Program { statements }
    }
}

/// The names of the modules that the inclusions in `ts[i..]` ask for, in
/// order: the name after each inclusion keyword.
pub open spec fn include_names(ts: Seq<TokenV>, i: int) -> Seq<Seq<char>>
    decreases ts.len() - i,
{
    if 0 <= i < ts.len() {
        match (ts[i], tok(ts, i + 1)) {
            (TokenV::Include, TokenV::Ident(name)) => seq![name] + include_names(ts, i + 1),
            (TokenV::Include, TokenV::String(name)) => seq![name] + include_names(ts, i + 1),
            _ => include_names(ts, i + 1),
        }
    } else {
        Seq::empty()
    }
}

/// The names of the modules that `source` asks for, wherever in the text,
/// in order. Whoever runs the text needs their source texts at hand.
pub fn included_modules(source: &str) -> (names: Vec<String>)
    ensures
        texts(names@) == include_names(tokens_of(source@, 0), 0),
{
    reveal(Parser::stream);
    let parser = Parser::new(Lexer::new(source.to_owned()));
    let ghost ts = parser.stream();
    let mut names: Vec<String> = Vec::new();
    let mut i: usize = 0;
    assert(texts(names@) + include_names(ts, 0) =~= include_names(ts, 0));
    while i < parser.tokens.len()
        invariant
            ts == parser.stream(),
            ts == tokens_model(parser.tokens@),
            i <= parser.tokens.len(),
            texts(names@) + include_names(ts, i as int) == include_names(ts, 0),
        decreases parser.tokens.len() - i,
    {
        let ghost before = texts(names@);
        let found = match &parser.tokens[i] {
            Token::Include => match parser.ahead(i, 1) {
                Some(Token::Ident(name)) => Some(name.clone()),
                Some(Token::String(name)) => Some(name.clone()),
                _ => None,
            },
            _ => None,
        };
        match found {
            Some(name) => {
                names.push(name);
                assert(texts(names@) =~= before.push(name@));
                assert(texts(names@) + include_names(ts, i + 1) =~= before + include_names(
                    ts,
                    i as int,
                ));
            },
            None => {},
        }
        i += 1;
    }
    assert(texts(names@) + include_names(ts, i as int) =~= texts(names@));
    names
}

/// Parses `source`: the program it writes, and the messages of the errors in
/// it. The program is good to evaluate only where there is no message.
pub fn parse(source: &str) -> (r: (Program, Vec<String>))
    ensures
        r.0@ == parse_source(source@).0,
        texts(r.1@) == parse_source(source@).1,
{
    reveal(Parser::messages);
    let mut parser = Parser::new(Lexer::new(source.to_owned()));
    let program = parser.parse_program();
    assert(Seq::<Seq<char>>::empty() + parse_source(source@).1 =~= parse_source(source@).1);
    (program, parser.errors)
}

} // verus!
