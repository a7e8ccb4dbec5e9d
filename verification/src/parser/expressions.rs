//! Expressions, and the lists and pairs made of them.

use vstd::prelude::*;
use crate::ast::{exprs_model, pairs_model, Expr, Precedence};
use crate::parser::grammar::{
    extend, list_at, list_rest, pairs_at, parse_expr, prefix_form, remaining, Closer,
};
use crate::parser::{
    expected_message, lemma_empty_models, lemma_exprs_push, lemma_pairs_push, same_expr,
    same_exprs, same_pairs, token_closes, token_infix, token_precedence, Parser,
};
use crate::token::Token;

verus! {

impl Parser {
    /// The expression that starts at `p`, as far as operators that bind more
    /// strongly than `prec` extend it.
    #[verifier::loop_isolation(false)]
    pub(crate) fn parse_expr(&mut self, p: usize, prec: Precedence) -> (r: (Option<Expr>, usize))
        requires
            p <= old(self).tokens.len(),
        ensures
            final(self).tokens == old(self).tokens,
            final(self).stream() == old(self).stream(),
            same_expr(r.0, parse_expr(old(self).stream(), p as int, prec).node),
            r.1 == parse_expr(old(self).stream(), p as int, prec).next,
            p <= r.1 <= old(self).tokens.len(),
            final(self).messages() == old(self).messages() + parse_expr(
                old(self).stream(),
                p as int,
                prec,
            ).errors,
        decreases remaining(old(self).stream(), p as int), 40int,
    {
        reveal_with_fuel(parse_expr, 1);
        reveal_with_fuel(extend, 1);
        reveal_with_fuel(prefix_form, 1);
        reveal_with_fuel(list_at, 1);
        let ghost ts = self.stream();
        let ghost base = self.messages();
        let ghost goal = parse_expr(ts, p as int, prec);
        let (first, start) = self.prefix_form(p);
        let mut left = match first {
            Some(e) => e,
            None => {
                return (None, start);
            },
        };
        let mut q = start;
        let ghost mut errs = prefix_form(ts, p as int).errors;
        loop
            invariant
                self.tokens == old(self).tokens,
                ts == self.stream(),
                p <= q <= self.tokens.len(),
                self.messages() == base + errs,
                extend(ts, left@, q as int, prec, errs) == goal,
            decreases remaining(ts, q as int),
        {
            let power = token_precedence(self.at(q));
            let ends = match self.at(q) {
                Some(Token::Semicolon) => true,
                _ => false,
            };
            if ends || prec.level() >= power.level() {
                return (Some(left), q);
            }
            let calls = match self.at(q) {
                Some(Token::LeftParen) => true,
                _ => false,
            };
            let indexes = match self.at(q) {
                Some(Token::LeftBracket) => true,
                _ => false,
            };
            if calls {
                let ghost r = list_at(ts, q + 1, Closer::Paren);
                let (args, n) = self.list_at(q + 1, Closer::Paren);
                assert(base + errs + r.errors =~= base + (errs + r.errors));
                proof {
                    errs = errs + r.errors;
                }
                match args {
                    Some(a) => {
                        left = Expr::Call { function: Box::new(left), args: a };
                        q = n;
                    },
                    None => {
                        return (None, n);
                    },
                }
            } else if indexes {
                let ghost r = parse_expr(ts, q + 1, Precedence::Lowest);
                let (index, n) = self.parse_expr(q + 1, Precedence::Lowest);
                assert(base + errs + r.errors =~= base + (errs + r.errors));
                proof {
                    errs = errs + r.errors;
                }
                match index {
                    Some(i) => {
                        match self.at(n) {
                            Some(Token::RightBracket) => {
                                left = Expr::Index { array: Box::new(left), index: Box::new(i) };
                                q = n + 1;
                            },
                            other => {
                                let m = expected_message("RightBracket", other);
                                self.report(m);
                                assert(base + errs.push(m@) =~= (base + errs).push(m@));
                                return (None, n);
                            },
                        }
                    },
                    None => {
                        return (None, n);
                    },
                }
            } else {
                match token_infix(self.at(q)) {
                    Some(op) => {
                        let ghost r = parse_expr(ts, q + 1, power);
                        let (right, n) = self.parse_expr(q + 1, power);
                        assert(base + errs + r.errors =~= base + (errs + r.errors));
                        proof {
                            errs = errs + r.errors;
                        }
                        match right {
                            Some(e) => {
                                left = Expr::Infix(op, Box::new(left), Box::new(e));
                                q = n;
                            },
                            None => {
                                return (None, n);
                            },
                        }
                    },
                    None => {
                        return (Some(left), q);
                    },
                }
            }
        }
    }

    /// A list of expressions with commas between them, from the token after
    /// the opening bracket on.
    #[verifier::loop_isolation(false)]
    pub(crate) fn list_at(&mut self, p: usize, close: Closer) -> (r: (Option<Vec<Expr>>, usize))
        requires
            p <= old(self).tokens.len(),
        ensures
            final(self).tokens == old(self).tokens,
            final(self).stream() == old(self).stream(),
            same_exprs(r.0, list_at(old(self).stream(), p as int, close).node),
            r.1 == list_at(old(self).stream(), p as int, close).next,
            p <= r.1 <= old(self).tokens.len(),
            final(self).messages() == old(self).messages() + list_at(
                old(self).stream(),
                p as int,
                close,
            ).errors,
        decreases remaining(old(self).stream(), p as int), 50int,
    {
        reveal_with_fuel(list_at, 1);
        reveal_with_fuel(list_rest, 1);
        reveal_with_fuel(parse_expr, 1);
        let ghost ts = self.stream();
        let ghost base = self.messages();
        let ghost goal = list_at(ts, p as int, close);
        proof {
            lemma_empty_models();
        }
        assert(base + Seq::<Seq<char>>::empty() =~= base);
        let mut items: Vec<Expr> = Vec::new();
        if token_closes(self.at(p), close) {
            return (Some(items), p + 1);
        }
        let ghost f = parse_expr(ts, p as int, Precedence::Lowest);
        let (first, start) = self.parse_expr(p, Precedence::Lowest);
        match first {
            Some(e) => {
                proof {
                    lemma_exprs_push(items@, e);
                }
                items.push(e);
            },
            None => {
                return (None, start);
            },
        }
        assert(exprs_model(items@) =~= seq![f.node->0]);
        let mut q = start;
        let ghost mut errs = f.errors;
        loop
            invariant
                self.tokens == old(self).tokens,
                ts == self.stream(),
                p <= q <= self.tokens.len(),
                self.messages() == base + errs,
                list_rest(ts, q as int, close, exprs_model(items@), errs) == goal,
            decreases remaining(ts, q as int),
        {
            let more = match self.at(q) {
                Some(Token::Comma) => true,
                _ => false,
            };
            if more {
                let ghost r = parse_expr(ts, q + 1, Precedence::Lowest);
                let (item, n) = self.parse_expr(q + 1, Precedence::Lowest);
                assert(base + errs + r.errors =~= base + (errs + r.errors));
                proof {
                    errs = errs + r.errors;
                }
                match item {
                    Some(e) => {
                        proof {
                            lemma_exprs_push(items@, e);
                        }
                        items.push(e);
                        q = n;
                    },
                    None => {
                        return (None, n);
                    },
                }
            } else if token_closes(self.at(q), close) {
                return (Some(items), q + 1);
            } else {
                let m = match close {
                    Closer::Paren => expected_message("RightParen", self.at(q)),
                    Closer::Bracket => expected_message("RightBracket", self.at(q)),
                };
                self.report(m);
                assert(base + errs.push(m@) =~= (base + errs).push(m@));
                return (None, q);
            }
        }
    }

    /// The pairs of an object literal, from the token after the opening
    /// brace on.
    #[verifier::loop_isolation(false)]
    pub(crate) fn pairs_at(&mut self, p: usize) -> (r: (Option<Vec<(Expr, Expr)>>, usize))
        requires
            p <= old(self).tokens.len(),
        ensures
            final(self).tokens == old(self).tokens,
            final(self).stream() == old(self).stream(),
            same_pairs(
                r.0,
                pairs_at(old(self).stream(), p as int, Seq::empty(), Seq::empty()).node,
            ),
            r.1 == pairs_at(old(self).stream(), p as int, Seq::empty(), Seq::empty()).next,
            p <= r.1 <= old(self).tokens.len(),
            final(self).messages() == old(self).messages() + pairs_at(
                old(self).stream(),
                p as int,
                Seq::empty(),
                Seq::empty(),
            ).errors,
        decreases remaining(old(self).stream(), p as int), 50int,
    {
        reveal_with_fuel(pairs_at, 1);
        reveal_with_fuel(parse_expr, 1);
        let ghost ts = self.stream();
        let ghost base = self.messages();
        let ghost goal = pairs_at(ts, p as int, Seq::empty(), Seq::empty());
        proof {
            lemma_empty_models();
        }
        let mut pairs: Vec<(Expr, Expr)> = Vec::new();
        let mut q = p;
        let ghost mut errs = Seq::<Seq<char>>::empty();
        assert(base + errs =~= base);
        loop
            invariant
                self.tokens == old(self).tokens,
                ts == self.stream(),
                p <= q <= self.tokens.len(),
                self.messages() == base + errs,
                pairs_at(ts, q as int, pairs_model(pairs@), errs) == goal,
            decreases remaining(ts, q as int),
        {
            let closed = match self.at(q) {
                Some(Token::RightBrace) => true,
                _ => false,
            };
            if closed {
                return (Some(pairs), q + 1);
            }
            let ghost k = parse_expr(ts, q as int, Precedence::Lowest);
            let (key, kq) = self.parse_expr(q, Precedence::Lowest);
            assert(base + errs + k.errors =~= base + (errs + k.errors));
            let key = match key {
                Some(e) => e,
                None => {
                    return (None, kq);
                },
            };
            match self.at(kq) {
                Some(Token::Colon) => {},
                other => {
                    let m = expected_message("Colon", other);
                    self.report(m);
                    assert(base + (errs + k.errors).push(m@) =~= (base + errs + k.errors).push(
                        m@,
                    ));
                    return (None, kq);
                },
            }
            let ghost v = parse_expr(ts, kq + 1, Precedence::Lowest);
            let (value, vq) = self.parse_expr(kq + 1, Precedence::Lowest);
            assert(base + errs + k.errors + v.errors =~= base + (errs + k.errors + v.errors));
            let value = match value {
                Some(e) => e,
                None => {
                    return (None, vq);
                },
            };
            proof {
                lemma_pairs_push(pairs@, key, value);
                errs = errs + k.errors + v.errors;
            }
            pairs.push((key, value));
            match self.at(vq) {
                Some(Token::RightBrace) => {
                    return (Some(pairs), vq + 1);
                },
                Some(Token::Comma) => {
                    q = vq + 1;
                },
                other => {
                    let m = expected_message("Comma", other);
                    self.report(m);
                    assert(base + errs.push(m@) =~= (base + errs).push(m@));
                    return (None, vq);
                },
            }
        }
    }
}

} // verus!
