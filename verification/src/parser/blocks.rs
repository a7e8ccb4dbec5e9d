//! Blocks, sequences of statements and parameter lists.

use vstd::prelude::*;
use crate::ast::{block_model, names_model, Ident, Statement};
use crate::parser::grammar::{
    block_at, params_at, params_rest, parse_statement, remaining, resync, sequence,
};
use crate::parser::{
    expected_message, lemma_block_push, lemma_empty_models, lemma_names_push, same_block,
    same_names, Parser,
};
use crate::token::Token;

verus! {

impl Parser {
    /// The parameters of a function literal, from the token after the opening
    /// bracket on.
    #[verifier::loop_isolation(false)]
    pub(crate) fn params_at(&mut self, p: usize) -> (r: (Option<Vec<Ident>>, usize))
        requires
            p <= old(self).tokens.len(),
        ensures
            final(self).tokens == old(self).tokens,
            final(self).stream() == old(self).stream(),
            same_names(r.0, params_at(old(self).stream(), p as int).node),
            r.1 == params_at(old(self).stream(), p as int).next,
            p <= r.1 <= old(self).tokens.len(),
            final(self).messages() == old(self).messages() + params_at(
                old(self).stream(),
                p as int,
            ).errors,
    {
        let ghost ts = self.stream();
        proof {
            lemma_empty_models();
        }
        let mut names: Vec<Ident> = Vec::new();
        match self.at(p) {
            Some(Token::RightParen) => {
                return (Some(names), p + 1);
            },
            Some(Token::Ident(name)) => {
                let first = Ident(name.clone());
                proof {
                    lemma_names_push(names@, first);
                }
                names.push(first);
            },
            other => {
                let m = expected_message("Ident", other);
                self.report(m);
                return (None, p);
            },
        }
        let mut q = p + 1;
        loop
            invariant
                self.tokens == old(self).tokens,
                ts == self.stream(),
                self.messages() == old(self).messages(),
                p < q <= self.tokens.len(),
                params_rest(ts, q as int, names_model(names@)) == params_at(ts, p as int),
            decreases self.tokens.len() - q,
        {
            match self.at(q) {
                Some(Token::Comma) => {
                    match self.ahead(q, 1) {
                        Some(Token::Ident(name)) => {
                            let one = Ident(name.clone());
                            proof {
                                lemma_names_push(names@, one);
                            }
                            names.push(one);
                            q = q + 2;
                        },
                        other => {
                            let m = expected_message("Ident", other);
                            self.report(m);
                            return (None, q + 1);
                        },
                    }
                },
                Some(Token::RightParen) => {
                    return (Some(names), q + 1);
                },
                other => {
                    let m = expected_message("RightParen", other);
                    self.report(m);
                    return (None, q);
                },
            }
        }
    }

    /// The block whose opening brace stands before `p`.
    #[verifier::loop_isolation(false)]
    pub(crate) fn block_at(&mut self, p: usize) -> (r: (Option<Vec<Statement>>, usize))
        requires
            p <= old(self).tokens.len(),
        ensures
            final(self).tokens == old(self).tokens,
            final(self).stream() == old(self).stream(),
            same_block(r.0, block_at(old(self).stream(), p as int).node),
            r.1 == block_at(old(self).stream(), p as int).next,
            p <= r.1 <= old(self).tokens.len(),
            final(self).messages() == old(self).messages() + block_at(
                old(self).stream(),
                p as int,
            ).errors,
        decreases remaining(old(self).stream(), p as int), 80int,
    {
        reveal_with_fuel(block_at, 1);
        reveal_with_fuel(sequence, 1);
        let (body, q) = self.sequence(p, true);
        match self.at(q) {
            Some(Token::RightBrace) => (Some(body), q + 1),
            other => {
                let m = expected_message("RightBrace", other);
                self.report(m);
                (None, q)
            },
        }
    }

    /// The statements from `p` on, to the end of the tokens or, inside a
    /// block, to the closing brace.
    #[verifier::loop_isolation(false)]
    pub(crate) fn sequence(&mut self, p: usize, in_block: bool) -> (r: (Vec<Statement>, usize))
        requires
            p <= old(self).tokens.len(),
        ensures
            final(self).tokens == old(self).tokens,
            final(self).stream() == old(self).stream(),
            sequence(old(self).stream(), p as int, in_block, Seq::empty(), Seq::empty()).node
                == Some(block_model(r.0@)),
            r.1 == sequence(
                old(self).stream(),
                p as int,
                in_block,
                Seq::empty(),
                Seq::empty(),
            ).next,
            p <= r.1 <= old(self).tokens.len(),
            final(self).messages() == old(self).messages() + sequence(
                old(self).stream(),
                p as int,
                in_block,
                Seq::empty(),
                Seq::empty(),
            ).errors,
        decreases remaining(old(self).stream(), p as int), 70int,
    {
        reveal_with_fuel(sequence, 1);
        reveal_with_fuel(parse_statement, 1);
        let ghost ts = self.stream();
        let ghost base = self.messages();
        let ghost goal = sequence(ts, p as int, in_block, Seq::empty(), Seq::empty());
        proof {
            lemma_empty_models();
        }
        let mut acc: Vec<Statement> = Vec::new();
        let mut q = p;
        let ghost mut errs: Seq<Seq<char>> = Seq::empty();
        assert(base + errs =~= base);
        loop
            invariant
                self.tokens == old(self).tokens,
                ts == self.stream(),
                p <= q <= self.tokens.len(),
                self.messages() == base + errs,
                sequence(ts, q as int, in_block, block_model(acc@), errs) == goal,
            decreases remaining(ts, q as int),
        {
            match self.at(q) {
                None => {
                    return (acc, q);
                },
                Some(Token::Eof) => {
                    return (acc, q);
                },
                Some(Token::RightBrace) => {
                    if in_block {
                        return (acc, q);
                    }
                },
                _ => {},
            }
            let ghost st = parse_statement(ts, q as int);
            let (statement, n) = self.parse_statement(q);
            assert(base + errs + st.errors =~= base + (errs + st.errors));
            proof {
                errs = errs + st.errors;
            }
            match statement {
                Some(s) => {
                    proof {
                        lemma_block_push(acc@, s);
                    }
                    acc.push(s);
                    q = if n < q + 1 {
                        q + 1
                    } else {
                        n
                    };
                },
                None => {
                    let r = self.resync(n, in_block);
                    q = if r < q + 1 {
                        q + 1
                    } else {
                        r
                    };
                },
            }
        }
    }
}

} // verus!
