//! Statements.

use vstd::prelude::*;
use crate::ast::{Ident, Precedence, Statement};
use crate::parser::grammar::{
    binding_statement, expression_statement, include_statement, parse_expr, parse_statement,
    remaining, return_statement, tok,
};
use crate::parser::{expected_message, same_statement, Parser};
use crate::token::Token;

verus! {

impl Parser {
    /// The declaration or reassignment whose keyword stands at `p`.
    pub(crate) fn binding_statement(&mut self, p: usize, fresh: bool) -> (r: (
        Option<Statement>,
        usize,
    ))
        requires
            p <= old(self).tokens.len(),
            p < old(self).tokens.len(),
            fresh == (tok(old(self).stream(), p as int) is Let),
        ensures
            final(self).tokens == old(self).tokens,
            final(self).stream() == old(self).stream(),
            same_statement(r.0, binding_statement(old(self).stream(), p as int).node),
            r.1 == binding_statement(old(self).stream(), p as int).next,
            p <= r.1 <= old(self).tokens.len(),
            final(self).messages() == old(self).messages() + binding_statement(
                old(self).stream(),
                p as int,
            ).errors,
        decreases remaining(old(self).stream(), p as int), 55int,
    {
        reveal_with_fuel(binding_statement, 1);
        reveal_with_fuel(parse_expr, 1);
        let ghost base = self.messages();
        let ghost none = Seq::<Seq<char>>::empty();
        let name = match self.ahead(p, 1) {
            Some(Token::Ident(name)) => Ident(name.clone()),
            other => {
                let m = expected_message("Ident", other);
                self.report(m);
                assert(base + none.push(m@) =~= base.push(m@));
                return (None, p + 1);
            },
        };
        match self.ahead(p, 2) {
            Some(Token::Assign) => {},
            other => {
                let m = expected_message("Assign", other);
                self.report(m);
                assert(base + none.push(m@) =~= base.push(m@));
                return (None, p + 2);
            },
        }
        let (value, n) = self.parse_expr(p + 3, Precedence::Lowest);
        match value {
            Some(e) => {
                let next = self.skip_semicolon(n);
                if fresh {
                    (Some(Statement::Let(name, e)), next)
                } else {
                    (Some(Statement::Reassign(name, e)), next)
                }
            },
            None => (None, n),
        }
    }

    /// The return statement whose keyword stands at `p`.
    pub(crate) fn return_statement(&mut self, p: usize) -> (r: (Option<Statement>, usize))
        requires
            p <= old(self).tokens.len(),
            p < old(self).tokens.len(),
        ensures
            final(self).tokens == old(self).tokens,
            final(self).stream() == old(self).stream(),
            same_statement(r.0, return_statement(old(self).stream(), p as int).node),
            r.1 == return_statement(old(self).stream(), p as int).next,
            p <= r.1 <= old(self).tokens.len(),
            final(self).messages() == old(self).messages() + return_statement(
                old(self).stream(),
                p as int,
            ).errors,
        decreases remaining(old(self).stream(), p as int), 55int,
    {
        reveal_with_fuel(return_statement, 1);
        reveal_with_fuel(parse_expr, 1);
        let ghost base = self.messages();
        assert(base + Seq::<Seq<char>>::empty() =~= base);
        let bare = match self.ahead(p, 1) {
            Some(Token::Semicolon) => Some(p + 2),
            Some(Token::RightBrace) => Some(p + 1),
            Some(Token::Eof) => Some(p + 1),
            None => Some(p + 1),
            _ => None,
        };
        if let Some(next) = bare {
            return (Some(Statement::Return(None)), next);
        }
        let (value, n) = self.parse_expr(p + 1, Precedence::Lowest);
        match value {
            Some(e) => {
                let next = self.skip_semicolon(n);
                (Some(Statement::Return(Some(e))), next)
            },
            None => (None, n),
        }
    }

    /// The inclusion of a module whose keyword stands at `p`.
    pub(crate) fn include_statement(&mut self, p: usize) -> (r: (Option<Statement>, usize))
        requires
            p < old(self).tokens.len(),
        ensures
            final(self).tokens == old(self).tokens,
            final(self).stream() == old(self).stream(),
            same_statement(r.0, include_statement(old(self).stream(), p as int).node),
            r.1 == include_statement(old(self).stream(), p as int).next,
            p <= r.1 <= old(self).tokens.len(),
            final(self).messages() == old(self).messages() + include_statement(
                old(self).stream(),
                p as int,
            ).errors,
    {
        let ghost base = self.messages();
        let ghost none = Seq::<Seq<char>>::empty();
        assert(base + none =~= base);
        let name = match self.ahead(p, 1) {
            Some(Token::Ident(name)) => Ident(name.clone()),
            Some(Token::String(name)) => Ident(name.clone()),
            other => {
                let m = expected_message("Ident", other);
                self.report(m);
                assert(base + none.push(m@) =~= base.push(m@));
                return (None, p + 1);
            },
        };
        let next = self.skip_semicolon(p + 2);
        (Some(Statement::Include(name)), next)
    }

    /// The expression that stands at `p` as a statement.
    pub(crate) fn expression_statement(&mut self, p: usize) -> (r: (Option<Statement>, usize))
        requires
            p <= old(self).tokens.len(),
        ensures
            final(self).tokens == old(self).tokens,
            final(self).stream() == old(self).stream(),
            same_statement(r.0, expression_statement(old(self).stream(), p as int).node),
            r.1 == expression_statement(old(self).stream(), p as int).next,
            p <= r.1 <= old(self).tokens.len(),
            final(self).messages() == old(self).messages() + expression_statement(
                old(self).stream(),
                p as int,
            ).errors,
        decreases remaining(old(self).stream(), p as int), 55int,
    {
        reveal_with_fuel(expression_statement, 1);
        reveal_with_fuel(parse_expr, 1);
        let (value, n) = self.parse_expr(p, Precedence::Lowest);
        match value {
            Some(e) => {
                let next = self.skip_semicolon(n);
                (Some(Statement::Expression(e)), next)
            },
            None => (None, n),
        }
    }

    /// The statement that starts at `p`.
    pub(crate) fn parse_statement(&mut self, p: usize) -> (r: (Option<Statement>, usize))
        requires
            p <= old(self).tokens.len(),
        ensures
            final(self).tokens == old(self).tokens,
            final(self).stream() == old(self).stream(),
            same_statement(r.0, parse_statement(old(self).stream(), p as int).node),
            r.1 == parse_statement(old(self).stream(), p as int).next,
            p <= r.1 <= old(self).tokens.len(),
            final(self).messages() == old(self).messages() + parse_statement(
                old(self).stream(),
                p as int,
            ).errors,
        decreases remaining(old(self).stream(), p as int), 60int,
    {
        reveal_with_fuel(parse_statement, 1);
        reveal_with_fuel(binding_statement, 1);
        reveal_with_fuel(return_statement, 1);
        reveal_with_fuel(expression_statement, 1);
        match self.at(p) {
            Some(Token::Let) => self.binding_statement(p, true),
            Some(Token::Anew) => self.binding_statement(p, false),
            Some(Token::Return) => self.return_statement(p),
            Some(Token::Include) => self.include_statement(p),
            _ => self.expression_statement(p),
        }
    }
}

} // verus!
