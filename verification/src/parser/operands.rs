//! Operands: an operator before its operand, an expression in round
//! brackets, and array and object literals.

use vstd::prelude::*;
use crate::ast::{exprs_model, pairs_model, Expr, Literal, LiteralV, Precedence, Prefix};
use crate::parser::grammar::{
    array_form, group_form, list_at, object_form, operator_form, pairs_at, parse_expr,
    prefix_of, remaining, tok, Closer,
};
use crate::parser::{expected_message, same_expr, Parser};
use crate::token::Token;

verus! {

impl Parser {
    /// The prefix operator `op` at `p` and its operand.
    pub(crate) fn operator_form(&mut self, p: usize, op: Prefix) -> (r: (Option<Expr>, usize))
        requires
            p < old(self).tokens.len(),
            prefix_of(tok(old(self).stream(), p as int)) == Some(op),
        ensures
            final(self).tokens == old(self).tokens,
            final(self).stream() == old(self).stream(),
            same_expr(r.0, operator_form(old(self).stream(), p as int).node),
            r.1 == operator_form(old(self).stream(), p as int).next,
            p <= r.1 <= old(self).tokens.len(),
            final(self).messages() == old(self).messages() + operator_form(
                old(self).stream(),
                p as int,
            ).errors,
        decreases remaining(old(self).stream(), p as int), 20int,
    {
        reveal_with_fuel(operator_form, 1);
        reveal_with_fuel(parse_expr, 1);
        let (operand, n) = self.parse_expr(p + 1, Precedence::Prefix);
        match operand {
            Some(e) => (Some(Expr::Prefix(op, Box::new(e))), n),
            None => (None, n),
        }
    }

    /// The expression in round brackets whose opening bracket stands at `p`.
    pub(crate) fn group_form(&mut self, p: usize) -> (r: (Option<Expr>, usize))
        requires
            p < old(self).tokens.len(),
            tok(old(self).stream(), p as int) is LeftParen,
        ensures
            final(self).tokens == old(self).tokens,
            final(self).stream() == old(self).stream(),
            same_expr(r.0, group_form(old(self).stream(), p as int).node),
            r.1 == group_form(old(self).stream(), p as int).next,
            p <= r.1 <= old(self).tokens.len(),
            final(self).messages() == old(self).messages() + group_form(
                old(self).stream(),
                p as int,
            ).errors,
        decreases remaining(old(self).stream(), p as int), 20int,
    {
        reveal_with_fuel(group_form, 1);
        reveal_with_fuel(parse_expr, 1);
        let ghost ts = self.stream();
        let ghost base = self.messages();
        let ghost r = parse_expr(ts, p + 1, Precedence::Lowest);
        let (inner, n) = self.parse_expr(p + 1, Precedence::Lowest);
        match inner {
            Some(e) => {
                match self.at(n) {
                    Some(Token::RightParen) => (Some(e), n + 1),
                    other => {
                        let m = expected_message("RightParen", other);
                        self.report(m);
                        assert(base + r.errors.push(m@) =~= (base + r.errors).push(m@));
                        (None, n)
                    },
                }
            },
            None => (None, n),
        }
    }

    /// The array literal whose opening bracket stands at `p`.
    pub(crate) fn array_form(&mut self, p: usize) -> (r: (Option<Expr>, usize))
        requires
            p < old(self).tokens.len(),
            tok(old(self).stream(), p as int) is LeftBracket,
        ensures
            final(self).tokens == old(self).tokens,
            final(self).stream() == old(self).stream(),
            same_expr(r.0, array_form(old(self).stream(), p as int).node),
            r.1 == array_form(old(self).stream(), p as int).next,
            p <= r.1 <= old(self).tokens.len(),
            final(self).messages() == old(self).messages() + array_form(
                old(self).stream(),
                p as int,
            ).errors,
        decreases remaining(old(self).stream(), p as int), 20int,
    {
        reveal_with_fuel(array_form, 1);
        reveal_with_fuel(list_at, 1);
        let (items, n) = self.list_at(p + 1, Closer::Bracket);
        match items {
            Some(v) => {
                assert(Literal::Array(v)@ == LiteralV::Array(exprs_model(v@)));
                (Some(Expr::Literal(Literal::Array(v))), n)
            },
            None => (None, n),
        }
    }

    /// The object literal whose opening brace stands at `p`.
    pub(crate) fn object_form(&mut self, p: usize) -> (r: (Option<Expr>, usize))
        requires
            p < old(self).tokens.len(),
            tok(old(self).stream(), p as int) is LeftBrace,
        ensures
            final(self).tokens == old(self).tokens,
            final(self).stream() == old(self).stream(),
            same_expr(r.0, object_form(old(self).stream(), p as int).node),
            r.1 == object_form(old(self).stream(), p as int).next,
            p <= r.1 <= old(self).tokens.len(),
            final(self).messages() == old(self).messages() + object_form(
                old(self).stream(),
                p as int,
            ).errors,
        decreases remaining(old(self).stream(), p as int), 20int,
    {
        reveal_with_fuel(object_form, 1);
        reveal_with_fuel(pairs_at, 1);
        let (pairs, n) = self.pairs_at(p + 1);
        match pairs {
            Some(v) => {
                assert(Literal::Object(v)@ == LiteralV::Object(pairs_model(v@)));
                (Some(Expr::Literal(Literal::Object(v))), n)
            },
            None => (None, n),
        }
    }
}

} // verus!
