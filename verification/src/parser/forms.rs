//! Conditionals and function literals.

use vstd::prelude::*;
use crate::ast::{Expr, Precedence};
use crate::parser::grammar::{
    block_at, fun_form, if_blocks, if_form, params_at, parse_expr, remaining, tok,
};
use crate::parser::{expected_message, same_expr, Parser};
use crate::token::Token;

verus! {

impl Parser {
    /// The conditional whose `if` stands at `p`.
    pub(crate) fn if_form(&mut self, p: usize) -> (r: (Option<Expr>, usize))
        requires
            p < old(self).tokens.len(),
            tok(old(self).stream(), p as int) is If,
        ensures
            final(self).tokens == old(self).tokens,
            final(self).stream() == old(self).stream(),
            same_expr(r.0, if_form(old(self).stream(), p as int).node),
            r.1 == if_form(old(self).stream(), p as int).next,
            p <= r.1 <= old(self).tokens.len(),
            final(self).messages() == old(self).messages() + if_form(
                old(self).stream(),
                p as int,
            ).errors,
        decreases remaining(old(self).stream(), p as int), 20int,
    {
        reveal_with_fuel(if_form, 1);
        reveal_with_fuel(parse_expr, 1);
        reveal_with_fuel(if_blocks, 1);
        let ghost ts = self.stream();
        let ghost base = self.messages();
        let ghost none = Seq::<Seq<char>>::empty();
        match self.ahead(p, 1) {
            Some(Token::LeftParen) => {},
            other => {
                let m = expected_message("LeftParen", other);
                self.report(m);
                assert(base + none.push(m@) =~= base.push(m@));
                return (None, p + 1);
            },
        }
        let ghost c = parse_expr(ts, p + 2, Precedence::Lowest);
        let (cond, q) = self.parse_expr(p + 2, Precedence::Lowest);
        let cond = match cond {
            Some(e) => e,
            None => {
                return (None, q);
            },
        };
        match self.at(q) {
            Some(Token::RightParen) => {},
            other => {
                let m = expected_message("RightParen", other);
                self.report(m);
                assert(base + c.errors.push(m@) =~= (base + c.errors).push(m@));
                return (None, q);
            },
        }
        match self.ahead(q, 1) {
            Some(Token::LeftBrace) => {},
            other => {
                let m = expected_message("LeftBrace", other);
                self.report(m);
                assert(base + c.errors.push(m@) =~= (base + c.errors).push(m@));
                return (None, q + 1);
            },
        }
        let ghost rest = if_blocks(ts, q + 2, cond@);
        let r = self.if_blocks(q + 2, cond);
        assert(base + (c.errors + rest.errors) =~= base + c.errors + rest.errors);
        r
    }

    /// The blocks of a conditional with the condition `cond`, from the
    /// token after the first opening brace on.
    pub(crate) fn if_blocks(&mut self, p: usize, cond: Expr) -> (r: (Option<Expr>, usize))
        requires
            p <= old(self).tokens.len(),
        ensures
            final(self).tokens == old(self).tokens,
            final(self).stream() == old(self).stream(),
            same_expr(r.0, if_blocks(old(self).stream(), p as int, cond@).node),
            r.1 == if_blocks(old(self).stream(), p as int, cond@).next,
            p <= r.1 <= old(self).tokens.len(),
            final(self).messages() == old(self).messages() + if_blocks(
                old(self).stream(),
                p as int,
                cond@,
            ).errors,
        decreases remaining(old(self).stream(), p as int), 90int,
    {
        reveal_with_fuel(if_blocks, 1);
        reveal_with_fuel(block_at, 1);
        let ghost ts = self.stream();
        let ghost base = self.messages();
        let ghost b = block_at(ts, p as int);
        let (consequence, r) = self.block_at(p);
        let consequence = match consequence {
            Some(v) => v,
            None => {
                return (None, r);
            },
        };
        match self.at(r) {
            Some(Token::Else) => {},
            _ => {
                return (
                    Some(
                        Expr::If {
                            cond: Box::new(cond),
                            then: Box::new(consequence),
                            else_: None,
                        },
                    ),
                    r,
                );
            },
        }
        match self.ahead(r, 1) {
            Some(Token::LeftBrace) => {},
            other => {
                let m = expected_message("LeftBrace", other);
                self.report(m);
                assert(base + b.errors.push(m@) =~= (base + b.errors).push(m@));
                return (None, r + 1);
            },
        }
        let ghost a = block_at(ts, r + 2);
        let (alternative, n) = self.block_at(r + 2);
        assert(base + (b.errors + a.errors) =~= base + b.errors + a.errors);
        match alternative {
            Some(v) => (
                Some(
                    Expr::If {
                        cond: Box::new(cond),
                        then: Box::new(consequence),
                        else_: Some(v),
                    },
                ),
                n,
            ),
            None => (None, n),
        }
    }

    /// The function literal whose `fun` stands at `p`.
    pub(crate) fn fun_form(&mut self, p: usize) -> (r: (Option<Expr>, usize))
        requires
            p < old(self).tokens.len(),
            tok(old(self).stream(), p as int) is Func,
        ensures
            final(self).tokens == old(self).tokens,
            final(self).stream() == old(self).stream(),
            same_expr(r.0, fun_form(old(self).stream(), p as int).node),
            r.1 == fun_form(old(self).stream(), p as int).next,
            p <= r.1 <= old(self).tokens.len(),
            final(self).messages() == old(self).messages() + fun_form(
                old(self).stream(),
                p as int,
            ).errors,
        decreases remaining(old(self).stream(), p as int), 20int,
    {
        reveal_with_fuel(fun_form, 1);
        reveal_with_fuel(block_at, 1);
        let ghost ts = self.stream();
        let ghost base = self.messages();
        let ghost none = Seq::<Seq<char>>::empty();
        match self.ahead(p, 1) {
            Some(Token::LeftParen) => {},
            other => {
                let m = expected_message("LeftParen", other);
                self.report(m);
                assert(base + none.push(m@) =~= base.push(m@));
                return (None, p + 1);
            },
        }
        let ghost ps = params_at(ts, p + 2);
        let (params, q) = self.params_at(p + 2);
        let params = match params {
            Some(v) => v,
            None => {
                return (None, q);
            },
        };
        match self.at(q) {
            Some(Token::LeftBrace) => {},
            other => {
                let m = expected_message("LeftBrace", other);
                self.report(m);
                assert(base + ps.errors.push(m@) =~= (base + ps.errors).push(m@));
                return (None, q);
            },
        }
        let ghost b = block_at(ts, q + 1);
        let (body, n) = self.block_at(q + 1);
        assert(base + (ps.errors + b.errors) =~= base + ps.errors + b.errors);
        match body {
            Some(v) => (Some(Expr::Fun { params, body: v }), n),
            None => (None, n),
        }
    }
}

} // verus!
