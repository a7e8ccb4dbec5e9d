//! The forms with which an expression starts.

use vstd::prelude::*;
use crate::ast::{Expr, Ident, Literal, LiteralV, Prefix};
use crate::parser::grammar::{
    array_form, fun_form, group_form, if_form, object_form, operator_form, prefix_form,
    remaining,
};
use crate::parser::{no_prefix_message, same_expr, Parser};
use crate::token::Token;

verus! {

impl Parser {
    /// The expression without the infix, call and index forms that may
    /// follow it.
    pub(crate) fn prefix_form(&mut self, p: usize) -> (r: (Option<Expr>, usize))
        requires
            p <= old(self).tokens.len(),
        ensures
            final(self).tokens == old(self).tokens,
            final(self).stream() == old(self).stream(),
            same_expr(r.0, prefix_form(old(self).stream(), p as int).node),
            r.1 == prefix_form(old(self).stream(), p as int).next,
            p <= r.1 <= old(self).tokens.len(),
            final(self).messages() == old(self).messages() + prefix_form(
                old(self).stream(),
                p as int,
            ).errors,
        decreases remaining(old(self).stream(), p as int), 30int,
    {
        reveal_with_fuel(prefix_form, 1);
        reveal_with_fuel(operator_form, 1);
        reveal_with_fuel(group_form, 1);
        reveal_with_fuel(array_form, 1);
        reveal_with_fuel(object_form, 1);
        reveal_with_fuel(if_form, 1);
        reveal_with_fuel(fun_form, 1);
        let ghost base = self.messages();
        let ghost none = Seq::<Seq<char>>::empty();
        assert(base + none =~= base);
        match self.at(p) {
            Some(Token::Ident(name)) => (Some(Expr::Ident(Ident(name.clone()))), p + 1),
            Some(Token::Int(i)) => {
                let literal = Literal::Int(*i);
                assert(literal@ == LiteralV::Int(*i));
                (Some(Expr::Literal(literal)), p + 1)
            },
            Some(Token::String(s)) => {
                let literal = Literal::String(s.clone());
                assert(literal@ == LiteralV::String(s@));
                (Some(Expr::Literal(literal)), p + 1)
            },
            Some(Token::Boolean(b)) => {
                let literal = Literal::Boolean(*b);
                assert(literal@ == LiteralV::Boolean(*b));
                (Some(Expr::Literal(literal)), p + 1)
            },
            Some(Token::Bang) => self.operator_form(p, Prefix::Not),
            Some(Token::Minus) => self.operator_form(p, Prefix::Minus),
            Some(Token::Plus) => self.operator_form(p, Prefix::Plus),
            Some(Token::LeftParen) => self.group_form(p),
            Some(Token::LeftBracket) => self.array_form(p),
            Some(Token::LeftBrace) => self.object_form(p),
            Some(Token::If) => self.if_form(p),
            Some(Token::Func) => self.fun_form(p),
            other => {
                let m = no_prefix_message(other);
                self.report(m);
                assert(base + none.push(m@) =~= base.push(m@));
                (None, p)
            },
        }
    }
}

} // verus!
