//! Every rule of the grammar moves forward and stays inside the tokens: the
//! position it gives back is not before the position it started from, is
//! after it where the rule found a tree, and is not past the end.

use vstd::prelude::*;
use crate::ast::{ExprV, Precedence, StatementV};
use crate::parser::grammar::{
    array_form, binding_statement, block_at, expression_statement, extend, fun_form,
    group_form, if_blocks, if_form, include_statement, list_at, list_rest, object_form,
    operator_form, pairs_at, params_at, params_rest, parse_expr, parse_statement,
    prefix_form, remaining, resync, return_statement, sequence, skip_semicolon, tok, Closer,
    Step,
};
use crate::token::TokenV;

verus! {

/// Whether a rule that started at `p` moved forward and stayed inside the
/// tokens.
pub open spec fn progress<T>(ts: Seq<TokenV>, p: int, s: Step<T>) -> bool {
    &&& p <= s.next
    &&& s.node is Some ==> p < s.next
    &&& p <= ts.len() ==> s.next <= ts.len()
}

/// Whether a rule that started at `p` did not move backward and stayed
/// inside the tokens.
pub open spec fn steady<T>(ts: Seq<TokenV>, p: int, s: Step<T>) -> bool {
    &&& p <= s.next
    &&& p <= ts.len() ==> s.next <= ts.len()
}

/// Skipping a failed statement does not move backward.
pub proof fn lemma_resync_forward(ts: Seq<TokenV>, p: int, depth: nat, in_block: bool)
    requires
        0 <= p,
    ensures
        p <= resync(ts, p, depth, in_block),
        p <= ts.len() ==> resync(ts, p, depth, in_block) <= ts.len(),
    decreases remaining(ts, p),
{
    match tok(ts, p) {
        TokenV::Eof => {},
        TokenV::Semicolon => {
            if depth != 0 {
                lemma_resync_forward(ts, p + 1, depth, in_block);
            }
        },
        TokenV::LeftBrace => {
            lemma_resync_forward(ts, p + 1, depth + 1, in_block);
        },
        TokenV::RightBrace => {
            if depth == 0 {
                if !in_block {
                    lemma_resync_forward(ts, p + 1, 0, in_block);
                }
            } else if depth != 1 {
                lemma_resync_forward(ts, p + 1, (depth - 1) as nat, in_block);
            }
        },
        _ => {
            lemma_resync_forward(ts, p + 1, depth, in_block);
        },
    }
}

/// The rest of a list of parameters moves forward.
pub proof fn lemma_params_rest_forward(ts: Seq<TokenV>, p: int, acc: Seq<Seq<char>>)
    requires
        0 <= p,
    ensures
        progress(ts, p, params_rest(ts, p, acc)),
    decreases remaining(ts, p),
{
    if let TokenV::Comma = tok(ts, p) {
        if let TokenV::Ident(name) = tok(ts, p + 1) {
            lemma_params_rest_forward(ts, p + 2, acc.push(name));
        }
    }
}

/// A list of parameters moves forward.
pub proof fn lemma_params_forward(ts: Seq<TokenV>, p: int)
    requires
        0 <= p,
    ensures
        progress(ts, p, params_at(ts, p)),
{
    if let TokenV::Ident(name) = tok(ts, p) {
        lemma_params_rest_forward(ts, p + 1, seq![name]);
    }
}

/// A sequence of statements does not move backward.
pub proof fn lemma_sequence_forward(
    ts: Seq<TokenV>,
    p: int,
    in_block: bool,
    acc: Seq<StatementV>,
    errors: Seq<Seq<char>>,
)
    requires
        0 <= p,
    ensures
        steady(ts, p, sequence(ts, p, in_block, acc, errors)),
        sequence(ts, p, in_block, acc, errors).node is Some,
    decreases remaining(ts, p), 70int,
{
    reveal_with_fuel(sequence, 1);
    reveal_with_fuel(parse_statement, 1);
    if !(tok(ts, p) is Eof || (in_block && tok(ts, p) is RightBrace)) {
        lemma_statement_forward(ts, p);
        let st = parse_statement(ts, p);
        match st.node {
            Some(s) => {
                lemma_sequence_forward(ts, st.next, in_block, acc.push(s), errors + st.errors);
            },
            None => {
                lemma_resync_forward(ts, st.next, 0, in_block);
                let r = resync(ts, st.next, 0, in_block);
                let q = if r < p + 1 {
                    p + 1
                } else {
                    r
                };
                lemma_sequence_forward(ts, q, in_block, acc, errors + st.errors);
            },
        }
    }
}

/// A block moves forward.
pub proof fn lemma_block_forward(ts: Seq<TokenV>, p: int)
    requires
        0 <= p,
    ensures
        progress(ts, p, block_at(ts, p)),
    decreases remaining(ts, p), 80int,
{
    reveal_with_fuel(block_at, 1);
    reveal_with_fuel(sequence, 1);
    lemma_sequence_forward(ts, p, true, Seq::empty(), Seq::empty());
}

/// A statement moves forward.
pub proof fn lemma_statement_forward(ts: Seq<TokenV>, p: int)
    requires
        0 <= p,
    ensures
        progress(ts, p, parse_statement(ts, p)),
    decreases remaining(ts, p), 60int,
{
    reveal_with_fuel(parse_statement, 1);
    reveal_with_fuel(binding_statement, 1);
    reveal_with_fuel(return_statement, 1);
    reveal_with_fuel(expression_statement, 1);
    reveal_with_fuel(parse_expr, 1);
    match tok(ts, p) {
        TokenV::Let | TokenV::Anew => {
            if let TokenV::Ident(name) = tok(ts, p + 1) {
                if tok(ts, p + 2) is Assign {
                    lemma_expr_forward(ts, p + 3, Precedence::Lowest);
                }
            }
        },
        TokenV::Return => {
            match tok(ts, p + 1) {
                TokenV::Semicolon => {},
                TokenV::RightBrace | TokenV::Eof => {},
                _ => {
                    lemma_expr_forward(ts, p + 1, Precedence::Lowest);
                },
            }
        },
        TokenV::Include => {},
        _ => {
            lemma_expr_forward(ts, p, Precedence::Lowest);
        },
    }
}

/// An expression moves forward.
pub proof fn lemma_expr_forward(ts: Seq<TokenV>, p: int, prec: Precedence)
    requires
        0 <= p,
    ensures
        progress(ts, p, parse_expr(ts, p, prec)),
    decreases remaining(ts, p), 40int,
{
    reveal_with_fuel(parse_expr, 1);
    reveal_with_fuel(prefix_form, 1);
    reveal_with_fuel(extend, 1);
    lemma_prefix_forward(ts, p);
    let left = prefix_form(ts, p);
    if let Some(e) = left.node {
        lemma_extend_forward(ts, e, left.next, prec, left.errors);
    }
}

/// The start of an expression moves forward.
pub proof fn lemma_prefix_forward(ts: Seq<TokenV>, p: int)
    requires
        0 <= p,
    ensures
        progress(ts, p, prefix_form(ts, p)),
    decreases remaining(ts, p), 30int,
{
    reveal_with_fuel(prefix_form, 1);
    reveal_with_fuel(operator_form, 1);
    reveal_with_fuel(group_form, 1);
    reveal_with_fuel(array_form, 1);
    reveal_with_fuel(object_form, 1);
    reveal_with_fuel(if_form, 1);
    reveal_with_fuel(fun_form, 1);
    reveal_with_fuel(parse_expr, 1);
    reveal_with_fuel(list_at, 1);
    reveal_with_fuel(pairs_at, 1);
    match tok(ts, p) {
        TokenV::Bang | TokenV::Minus | TokenV::Plus => {
            lemma_expr_forward(ts, p + 1, Precedence::Prefix);
        },
        TokenV::LeftParen => {
            lemma_expr_forward(ts, p + 1, Precedence::Lowest);
        },
        TokenV::LeftBracket => {
            lemma_list_forward(ts, p + 1, Closer::Bracket);
        },
        TokenV::LeftBrace => {
            lemma_pairs_forward(ts, p + 1, Seq::empty(), Seq::empty());
        },
        TokenV::If => {
            lemma_if_forward(ts, p);
        },
        TokenV::Func => {
            lemma_fun_forward(ts, p);
        },
        _ => {},
    }
}

/// A conditional moves forward.
pub proof fn lemma_if_forward(ts: Seq<TokenV>, p: int)
    requires
        0 <= p,
    ensures
        progress(ts, p, if_form(ts, p)),
    decreases remaining(ts, p), 20int,
{
    reveal_with_fuel(if_form, 1);
    reveal_with_fuel(parse_expr, 1);
    reveal_with_fuel(if_blocks, 1);
    if tok(ts, p) is If && tok(ts, p + 1) is LeftParen {
        lemma_expr_forward(ts, p + 2, Precedence::Lowest);
        let c = parse_expr(ts, p + 2, Precedence::Lowest);
        if let Some(cond) = c.node {
            if tok(ts, c.next) is RightParen && tok(ts, c.next + 1) is LeftBrace {
                lemma_if_blocks_forward(ts, c.next + 2, cond);
            }
        }
    }
}

/// The blocks of a conditional move forward.
pub proof fn lemma_if_blocks_forward(ts: Seq<TokenV>, p: int, cond: ExprV)
    requires
        0 <= p,
    ensures
        progress(ts, p, if_blocks(ts, p, cond)),
    decreases remaining(ts, p), 90int,
{
    reveal_with_fuel(if_blocks, 1);
    reveal_with_fuel(block_at, 1);
    lemma_block_forward(ts, p);
    let b = block_at(ts, p);
    if b.node is Some && tok(ts, b.next) is Else && tok(ts, b.next + 1) is LeftBrace {
        lemma_block_forward(ts, b.next + 2);
    }
}

/// A function literal moves forward.
pub proof fn lemma_fun_forward(ts: Seq<TokenV>, p: int)
    requires
        0 <= p,
    ensures
        progress(ts, p, fun_form(ts, p)),
    decreases remaining(ts, p), 20int,
{
    reveal_with_fuel(fun_form, 1);
    reveal_with_fuel(block_at, 1);
    if tok(ts, p) is Func && tok(ts, p + 1) is LeftParen {
        lemma_params_forward(ts, p + 2);
        let ps = params_at(ts, p + 2);
        if ps.node is Some && tok(ts, ps.next) is LeftBrace {
            lemma_block_forward(ts, ps.next + 1);
        }
    }
}

/// The forms that follow an expression do not move backward, and keep the
/// tree that they were given or fail.
pub proof fn lemma_extend_forward(
    ts: Seq<TokenV>,
    left: ExprV,
    p: int,
    prec: Precedence,
    errors: Seq<Seq<char>>,
)
    requires
        0 <= p,
    ensures
        steady(ts, p, extend(ts, left, p, prec, errors)),
    decreases remaining(ts, p), 10int,
{
    reveal_with_fuel(extend, 1);
    reveal_with_fuel(parse_expr, 1);
    reveal_with_fuel(list_at, 1);
    let t = tok(ts, p);
    if !(t is Semicolon || prec.rank() >= crate::parser::grammar::precedence_of(t).rank()) {
        if t is LeftParen {
            lemma_list_forward(ts, p + 1, Closer::Paren);
            let r = list_at(ts, p + 1, Closer::Paren);
            if let Some(args) = r.node {
                lemma_extend_forward(
                    ts,
                    ExprV::Call(Box::new(left), args),
                    r.next,
                    prec,
                    errors + r.errors,
                );
            }
        } else if t is LeftBracket {
            lemma_expr_forward(ts, p + 1, Precedence::Lowest);
            let r = parse_expr(ts, p + 1, Precedence::Lowest);
            if let Some(index) = r.node {
                if tok(ts, r.next) is RightBracket {
                    lemma_extend_forward(
                        ts,
                        ExprV::Index(Box::new(left), Box::new(index)),
                        r.next + 1,
                        prec,
                        errors + r.errors,
                    );
                }
            }
        } else if let Some(op) = crate::parser::grammar::infix_of(t) {
            let power = crate::parser::grammar::precedence_of(t);
            lemma_expr_forward(ts, p + 1, power);
            let r = parse_expr(ts, p + 1, power);
            if let Some(right) = r.node {
                lemma_extend_forward(
                    ts,
                    ExprV::Infix(op, Box::new(left), Box::new(right)),
                    r.next,
                    prec,
                    errors + r.errors,
                );
            }
        }
    }
}

/// A list of expressions moves forward.
pub proof fn lemma_list_forward(ts: Seq<TokenV>, p: int, close: Closer)
    requires
        0 <= p,
    ensures
        progress(ts, p, list_at(ts, p, close)),
    decreases remaining(ts, p), 50int,
{
    reveal_with_fuel(list_at, 1);
    reveal_with_fuel(list_rest, 1);
    reveal_with_fuel(parse_expr, 1);
    if !crate::parser::grammar::closes(tok(ts, p), close) {
        lemma_expr_forward(ts, p, Precedence::Lowest);
        let first = parse_expr(ts, p, Precedence::Lowest);
        if let Some(e) = first.node {
            lemma_list_rest_forward(ts, first.next, close, seq![e], first.errors);
        }
    }
}

/// The rest of a list of expressions moves forward.
pub proof fn lemma_list_rest_forward(
    ts: Seq<TokenV>,
    p: int,
    close: Closer,
    acc: Seq<ExprV>,
    errors: Seq<Seq<char>>,
)
    requires
        0 <= p,
    ensures
        progress(ts, p, list_rest(ts, p, close, acc, errors)),
    decreases remaining(ts, p), 0int,
{
    reveal_with_fuel(list_rest, 1);
    reveal_with_fuel(parse_expr, 1);
    if tok(ts, p) is Comma {
        lemma_expr_forward(ts, p + 1, Precedence::Lowest);
        let e = parse_expr(ts, p + 1, Precedence::Lowest);
        if let Some(item) = e.node {
            lemma_list_rest_forward(ts, e.next, close, acc.push(item), errors + e.errors);
        }
    }
}

/// The pairs of an object literal move forward.
pub proof fn lemma_pairs_forward(
    ts: Seq<TokenV>,
    p: int,
    acc: Seq<(ExprV, ExprV)>,
    errors: Seq<Seq<char>>,
)
    requires
        0 <= p,
    ensures
        progress(ts, p, pairs_at(ts, p, acc, errors)),
    decreases remaining(ts, p), 50int,
{
    reveal_with_fuel(pairs_at, 1);
    reveal_with_fuel(parse_expr, 1);
    if !(tok(ts, p) is RightBrace) {
        lemma_expr_forward(ts, p, Precedence::Lowest);
        let k = parse_expr(ts, p, Precedence::Lowest);
        if let Some(key) = k.node {
            if tok(ts, k.next) is Colon {
                lemma_expr_forward(ts, k.next + 1, Precedence::Lowest);
                let v = parse_expr(ts, k.next + 1, Precedence::Lowest);
                if let Some(value) = v.node {
                    if tok(ts, v.next) is Comma {
                        lemma_pairs_forward(
                            ts,
                            v.next + 1,
                            acc.push((key, value)),
                            errors + k.errors + v.errors,
                        );
                    }
                }
            }
        }
    }
}

} // verus!
