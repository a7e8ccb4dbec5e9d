//! The grammar, as functions from a sequence of tokens and a position to a
//! syntax tree, the position of the first token not yet used, and the
//! messages of the errors met.

use vstd::prelude::*;
use crate::ast::{ExprV, Infix, LiteralV, Precedence, Prefix, StatementV};
use crate::lexer::scan;
use crate::token::{token_text, TokenV};

verus! {

/// The tokens of `input` from `pos` on: comments left out, and one `Eof` at
/// the end.
pub open spec fn tokens_of(input: Seq<char>, pos: int) -> Seq<TokenV>
    decreases input.len() - pos,
{
    let (token, next) = scan(input, pos);
    if token is Eof || next <= pos || next > input.len() {
        seq![TokenV::Eof]
    } else if token is Comment {
        tokens_of(input, next)
    } else {
        seq![token] + tokens_of(input, next)
    }
}

/// The token at `i`, and `Eof` outside the sequence.
pub open spec fn tok(ts: Seq<TokenV>, i: int) -> TokenV {
    if 0 <= i < ts.len() {
        ts[i]
    } else {
        TokenV::Eof
    }
}

/// How many tokens stand at or after `pos`.
pub open spec fn remaining(ts: Seq<TokenV>, pos: int) -> nat {
    if pos <= ts.len() {
        (ts.len() - pos) as nat
    } else {
        0
    }
}

/// The position `p`, but never before `floor`. The rules apply it to the
/// positions that other rules give back, which keeps every rule moving forward.
pub open spec fn later(p: int, floor: int) -> int {
    if p < floor {
        floor
    } else {
        p
    }
}

/// What one grammar rule made of the tokens from some position on: the tree,
/// or `None` where the tokens do not fit the rule; the position of the first
/// token that the rule did not use; and the messages of the errors met.
pub struct Step<T> {
    pub node: Option<T>,
    pub next: int,
    pub errors: Seq<Seq<char>>,
}

/// The result of a rule that met `before` and then stopped at `next` with
/// one more error.
pub open spec fn fail<T>(next: int, before: Seq<Seq<char>>, message: Seq<char>) -> Step<T> {
    Step { node: None, next, errors: before.push(message) }
}

/// The message for a token that is not the one the grammar requires.
#[verifier::opaque]
pub open spec fn expected(want: Seq<char>, got: TokenV) -> Seq<char> {
    "expected next token to be "@ + want + ", got "@ + token_text(got) + " instead"@
}

/// The message for a token with which no expression can start.
#[verifier::opaque]
pub open spec fn no_prefix(got: TokenV) -> Seq<char> {
    "no prefix parse function for "@ + token_text(got) + " found"@
}

/// The binding power of a token that stands after an expression.
pub open spec fn precedence_of(t: TokenV) -> Precedence {
    match t {
        TokenV::Equals | TokenV::NotEquals => Precedence::Equals,
        TokenV::Less | TokenV::LessEqual | TokenV::Greater | TokenV::GreaterEqual =>
            Precedence::LessGreater,
        TokenV::Plus | TokenV::Minus => Precedence::Sum,
        TokenV::Slash | TokenV::Asterisk | TokenV::Percent => Precedence::Product,
        TokenV::LeftParen => Precedence::Call,
        TokenV::LeftBracket => Precedence::Index,
        _ => Precedence::Lowest,
    }
}

/// The infix operator that a token writes, if any.
pub open spec fn infix_of(t: TokenV) -> Option<Infix> {
    match t {
        TokenV::Plus => Some(Infix::Plus),
        TokenV::Minus => Some(Infix::Minus),
        TokenV::Asterisk => Some(Infix::Times),
        TokenV::Slash => Some(Infix::Divide),
        TokenV::Percent => Some(Infix::Modulo),
        TokenV::Equals => Some(Infix::Equals),
        TokenV::NotEquals => Some(Infix::NotEquals),
        TokenV::Less => Some(Infix::Less),
        TokenV::Greater => Some(Infix::Greater),
        TokenV::LessEqual => Some(Infix::LessEq),
        TokenV::GreaterEqual => Some(Infix::GreaterEq),
        _ => None,
    }
}

/// The prefix operator that a token writes, if any.
pub open spec fn prefix_of(t: TokenV) -> Option<Prefix> {
    match t {
        TokenV::Plus => Some(Prefix::Plus),
        TokenV::Minus => Some(Prefix::Minus),
        TokenV::Bang => Some(Prefix::Not),
        _ => None,
    }
}

/// The two brackets that close a list of expressions.
#[derive(Clone, Copy, PartialEq, Eq, Debug, Structural)]
pub enum Closer {
    Paren,
    Bracket,
}

/// Whether `t` is the bracket `close`.
pub open spec fn closes(t: TokenV, close: Closer) -> bool {
    match close {
        Closer::Paren => t is RightParen,
        Closer::Bracket => t is RightBracket,
    }
}

/// The name of the bracket `close` in messages.
pub open spec fn closer_text(close: Closer) -> Seq<char> {
    match close {
        Closer::Paren => "RightParen"@,
        Closer::Bracket => "RightBracket"@,
    }
}

/// Where parsing goes on after a statement that failed at `p`: after the next
/// semicolon outside braces, after the brace that closes the first brace
/// opened since, before a closing brace that belongs to the enclosing block,
/// or at the end of the tokens.
pub open spec fn resync(ts: Seq<TokenV>, p: int, depth: nat, in_block: bool) -> int
    decreases remaining(ts, p),
{
    match tok(ts, p) {
        TokenV::Eof => p,
        TokenV::Semicolon => if depth == 0 {
            p + 1
        } else {
            resync(ts, p + 1, depth, in_block)
        },
        TokenV::LeftBrace => resync(ts, p + 1, depth + 1, in_block),
        TokenV::RightBrace => if depth == 0 {
            if in_block {
                p
            } else {
                resync(ts, p + 1, 0, in_block)
            }
        } else if depth == 1 {
            p + 1
        } else {
            resync(ts, p + 1, (depth - 1) as nat, in_block)
        },
        _ => resync(ts, p + 1, depth, in_block),
    }
}

/// The rest of a list of parameters, from a comma or the closing bracket at
/// `p` on.
pub open spec fn params_rest(ts: Seq<TokenV>, p: int, acc: Seq<Seq<char>>) -> Step<Seq<Seq<char>>>
    decreases remaining(ts, p),
{
    match tok(ts, p) {
        TokenV::Comma => match tok(ts, p + 1) {
            TokenV::Ident(name) => params_rest(ts, p + 2, acc.push(name)),
            other => fail(p + 1, Seq::empty(), expected("Ident"@, other)),
        },
        TokenV::RightParen => Step { node: Some(acc), next: p + 1, errors: Seq::empty() },
        other => fail(p, Seq::empty(), expected("RightParen"@, other)),
    }
}

/// The parameters of a function literal, from the token after the opening
/// bracket on, closing bracket included.
pub open spec fn params_at(ts: Seq<TokenV>, p: int) -> Step<Seq<Seq<char>>> {
    match tok(ts, p) {
        TokenV::RightParen => Step { node: Some(Seq::empty()), next: p + 1, errors: Seq::empty() },
        TokenV::Ident(name) => params_rest(ts, p + 1, seq![name]),
        other => fail(p, Seq::empty(), expected("Ident"@, other)),
    }
}

/// The position after an optional semicolon at `p`.
pub open spec fn skip_semicolon(ts: Seq<TokenV>, p: int) -> int {
    if tok(ts, p) is Semicolon {
        p + 1
    } else {
        p
    }
}

/// The statements from `p` on, to the end of the tokens or, inside a block,
/// to the closing brace. A statement that does not parse leaves its error
/// messages and is skipped as `resync` says.
#[verifier::opaque]
pub open spec fn sequence(
    ts: Seq<TokenV>,
    p: int,
    in_block: bool,
    acc: Seq<StatementV>,
    errors: Seq<Seq<char>>,
) -> Step<Seq<StatementV>>
    decreases remaining(ts, p), 70int,
{
    if tok(ts, p) is Eof || (in_block && tok(ts, p) is RightBrace) {
        Step { node: Some(acc), next: p, errors }
    } else {
        let st = parse_statement(ts, p);
        match st.node {
            Some(s) => sequence(
                ts,
                later(st.next, p + 1),
                in_block,
                acc.push(s),
                errors + st.errors,
            ),
            None => sequence(
                ts,
                later(resync(ts, later(st.next, p), 0, in_block), p + 1),
                in_block,
                acc,
                errors + st.errors,
            ),
        }
    }
}

/// The block whose opening brace stands before `p`: its statements, and the
/// closing brace that must follow them.
#[verifier::opaque]
pub open spec fn block_at(ts: Seq<TokenV>, p: int) -> Step<Seq<StatementV>>
    decreases remaining(ts, p), 80int,
{
    let body = sequence(ts, p, true, Seq::empty(), Seq::empty());
    let q = later(body.next, p);
    if tok(ts, q) is RightBrace {
        Step { node: body.node, next: q + 1, errors: body.errors }
    } else {
        fail(q, body.errors, expected("RightBrace"@, tok(ts, q)))
    }
}

/// The declaration or reassignment whose keyword stands at `p`.
#[verifier::opaque]
pub open spec fn binding_statement(ts: Seq<TokenV>, p: int) -> Step<StatementV>
    decreases remaining(ts, p), 55int,
{
    match tok(ts, p + 1) {
        TokenV::Ident(name) => if tok(ts, p + 2) is Assign {
            let e = parse_expr(ts, p + 3, Precedence::Lowest);
            match e.node {
                Some(value) => Step {
                    node: Some(
                        if tok(ts, p) is Let {
                            StatementV::Let(name, value)
                        } else {
                            StatementV::Reassign(name, value)
                        },
                    ),
                    next: skip_semicolon(ts, later(e.next, p + 3)),
                    errors: e.errors,
                },
                None => Step { node: None, next: e.next, errors: e.errors },
            }
        } else {
            fail(p + 2, Seq::empty(), expected("Assign"@, tok(ts, p + 2)))
        },
        other => fail(p + 1, Seq::empty(), expected("Ident"@, other)),
    }
}

/// The return statement whose keyword stands at `p`.
#[verifier::opaque]
pub open spec fn return_statement(ts: Seq<TokenV>, p: int) -> Step<StatementV>
    decreases remaining(ts, p), 55int,
{
    match tok(ts, p + 1) {
        TokenV::Semicolon => Step {
            node: Some(StatementV::Return(None)),
            next: p + 2,
            errors: Seq::empty(),
        },
        TokenV::RightBrace | TokenV::Eof => Step {
            node: Some(StatementV::Return(None)),
            next: p + 1,
            errors: Seq::empty(),
        },
        _ => {
            let e = parse_expr(ts, p + 1, Precedence::Lowest);
            match e.node {
                Some(value) => Step {
                    node: Some(StatementV::Return(Some(value))),
                    next: skip_semicolon(ts, later(e.next, p + 1)),
                    errors: e.errors,
                },
                None => Step { node: None, next: e.next, errors: e.errors },
            }
        },
    }
}

/// The inclusion of a module whose keyword stands at `p`. The module is
/// named by an identifier or by a string.
pub open spec fn include_statement(ts: Seq<TokenV>, p: int) -> Step<StatementV> {
    match tok(ts, p + 1) {
        TokenV::Ident(name) => Step {
            node: Some(StatementV::Include(name)),
            next: skip_semicolon(ts, p + 2),
            errors: Seq::empty(),
        },
        TokenV::String(name) => Step {
            node: Some(StatementV::Include(name)),
            next: skip_semicolon(ts, p + 2),
            errors: Seq::empty(),
        },
        other => fail(p + 1, Seq::empty(), expected("Ident"@, other)),
    }
}

/// The expression that stands at `p` as a statement.
#[verifier::opaque]
pub open spec fn expression_statement(ts: Seq<TokenV>, p: int) -> Step<StatementV>
    decreases remaining(ts, p), 55int,
{
    let e = parse_expr(ts, p, Precedence::Lowest);
    match e.node {
        Some(value) => Step {
            node: Some(StatementV::Expression(value)),
            next: skip_semicolon(ts, later(e.next, p)),
            errors: e.errors,
        },
        None => Step { node: None, next: e.next, errors: e.errors },
    }
}

/// The statement that starts at `p`: a declaration after `set`, a
/// reassignment after `anew`, a return, an inclusion, or else an expression.
#[verifier::opaque]
pub open spec fn parse_statement(ts: Seq<TokenV>, p: int) -> Step<StatementV>
    decreases remaining(ts, p), 60int,
{
    match tok(ts, p) {
        TokenV::Let | TokenV::Anew => binding_statement(ts, p),
        TokenV::Return => return_statement(ts, p),
        TokenV::Include => include_statement(ts, p),
        _ => expression_statement(ts, p),
    }
}

/// The expression that starts at `p`, as far as operators that bind more
/// strongly than `prec` extend it.
#[verifier::opaque]
pub open spec fn parse_expr(ts: Seq<TokenV>, p: int, prec: Precedence) -> Step<ExprV>
    decreases remaining(ts, p), 40int,
{
    let left = prefix_form(ts, p);
    match left.node {
        Some(e) => extend(ts, e, later(left.next, p), prec, left.errors),
        None => left,
    }
}

/// The expression without the infix, call and index forms that may follow it:
/// a name, a literal, an operator before its operand, an expression in round
/// brackets, an array or an object literal, a conditional, or a function
/// literal.
#[verifier::opaque]
pub open spec fn prefix_form(ts: Seq<TokenV>, p: int) -> Step<ExprV>
    decreases remaining(ts, p), 30int,
{
    match tok(ts, p) {
        TokenV::Ident(name) => Step {
            node: Some(ExprV::Ident(name)),
            next: p + 1,
            errors: Seq::empty(),
        },
        TokenV::Int(i) => Step {
            node: Some(ExprV::Literal(LiteralV::Int(i))),
            next: p + 1,
            errors: Seq::empty(),
        },
        TokenV::String(s) => Step {
            node: Some(ExprV::Literal(LiteralV::String(s))),
            next: p + 1,
            errors: Seq::empty(),
        },
        TokenV::Boolean(b) => Step {
            node: Some(ExprV::Literal(LiteralV::Boolean(b))),
            next: p + 1,
            errors: Seq::empty(),
        },
        TokenV::Bang | TokenV::Minus | TokenV::Plus => operator_form(ts, p),
        TokenV::LeftParen => group_form(ts, p),
        TokenV::LeftBracket => array_form(ts, p),
        TokenV::LeftBrace => object_form(ts, p),
        TokenV::If => if_form(ts, p),
        TokenV::Func => fun_form(ts, p),
        other => fail(p, Seq::empty(), no_prefix(other)),
    }
}

/// The prefix operator at `p` and its operand.
#[verifier::opaque]
pub open spec fn operator_form(ts: Seq<TokenV>, p: int) -> Step<ExprV>
    decreases remaining(ts, p), 20int,
{
    match prefix_of(tok(ts, p)) {
        Some(op) => {
            let r = parse_expr(ts, p + 1, Precedence::Prefix);
            match r.node {
                Some(e) => Step {
                    node: Some(ExprV::Prefix(op, Box::new(e))),
                    next: later(r.next, p + 1),
                    errors: r.errors,
                },
                None => r,
            }
        },
        None => fail(p, Seq::empty(), no_prefix(tok(ts, p))),
    }
}

/// The expression in round brackets whose opening bracket stands at `p`.
#[verifier::opaque]
pub open spec fn group_form(ts: Seq<TokenV>, p: int) -> Step<ExprV>
    decreases remaining(ts, p), 20int,
{
    if !(tok(ts, p) is LeftParen) {
        fail(p, Seq::empty(), no_prefix(tok(ts, p)))
    } else {
        let r = parse_expr(ts, p + 1, Precedence::Lowest);
        match r.node {
            Some(e) => {
                let q = later(r.next, p + 1);
                if tok(ts, q) is RightParen {
                    Step { node: Some(e), next: q + 1, errors: r.errors }
                } else {
                    fail(q, r.errors, expected("RightParen"@, tok(ts, q)))
                }
            },
            None => r,
        }
    }
}

/// The array literal whose opening bracket stands at `p`.
#[verifier::opaque]
pub open spec fn array_form(ts: Seq<TokenV>, p: int) -> Step<ExprV>
    decreases remaining(ts, p), 20int,
{
    if !(tok(ts, p) is LeftBracket) {
        fail(p, Seq::empty(), no_prefix(tok(ts, p)))
    } else {
        let r = list_at(ts, p + 1, Closer::Bracket);
        match r.node {
            Some(items) => Step {
                node: Some(ExprV::Literal(LiteralV::Array(items))),
                next: later(r.next, p + 1),
                errors: r.errors,
            },
            None => Step { node: None, next: r.next, errors: r.errors },
        }
    }
}

/// The object literal whose opening brace stands at `p`.
#[verifier::opaque]
pub open spec fn object_form(ts: Seq<TokenV>, p: int) -> Step<ExprV>
    decreases remaining(ts, p), 20int,
{
    if !(tok(ts, p) is LeftBrace) {
        fail(p, Seq::empty(), no_prefix(tok(ts, p)))
    } else {
        let r = pairs_at(ts, p + 1, Seq::empty(), Seq::empty());
        match r.node {
            Some(pairs) => Step {
                node: Some(ExprV::Literal(LiteralV::Object(pairs))),
                next: later(r.next, p + 1),
                errors: r.errors,
            },
            None => Step { node: None, next: r.next, errors: r.errors },
        }
    }
}

/// The conditional whose `if` stands at `p`: a condition in round brackets,
/// a block, and optionally `else` and a second block.
#[verifier::opaque]
pub open spec fn if_form(ts: Seq<TokenV>, p: int) -> Step<ExprV>
    decreases remaining(ts, p), 20int,
{
    if !(tok(ts, p) is If) {
        fail(p, Seq::empty(), no_prefix(tok(ts, p)))
    } else if !(tok(ts, p + 1) is LeftParen) {
        fail(p + 1, Seq::empty(), expected("LeftParen"@, tok(ts, p + 1)))
    } else {
        let c = parse_expr(ts, p + 2, Precedence::Lowest);
        match c.node {
            None => c,
            Some(cond) => {
                let q = later(c.next, p + 2);
                if !(tok(ts, q) is RightParen) {
                    fail(q, c.errors, expected("RightParen"@, tok(ts, q)))
                } else if !(tok(ts, q + 1) is LeftBrace) {
                    fail(q + 1, c.errors, expected("LeftBrace"@, tok(ts, q + 1)))
                } else {
                    let rest = if_blocks(ts, q + 2, cond);
                    Step { node: rest.node, next: rest.next, errors: c.errors + rest.errors }
                }
            },
        }
    }
}

/// The blocks of a conditional with the condition `cond`, from the token
/// after the first opening brace on.
#[verifier::opaque]
pub open spec fn if_blocks(ts: Seq<TokenV>, p: int, cond: ExprV) -> Step<ExprV>
    decreases remaining(ts, p), 90int,
{
    let b = block_at(ts, p);
    match b.node {
        None => Step { node: None, next: b.next, errors: b.errors },
        Some(consequence) => {
            let r = later(b.next, p);
            if !(tok(ts, r) is Else) {
                Step {
                    node: Some(ExprV::If(Box::new(cond), consequence, None)),
                    next: r,
                    errors: b.errors,
                }
            } else if !(tok(ts, r + 1) is LeftBrace) {
                fail(r + 1, b.errors, expected("LeftBrace"@, tok(ts, r + 1)))
            } else {
                let a = block_at(ts, r + 2);
                Step {
                    node: match a.node {
                        Some(alternative) => Some(
                            ExprV::If(Box::new(cond), consequence, Some(alternative)),
                        ),
                        None => None,
                    },
                    next: later(a.next, r + 2),
                    errors: b.errors + a.errors,
                }
            }
        },
    }
}

/// The function literal whose `fun` stands at `p`.
#[verifier::opaque]
pub open spec fn fun_form(ts: Seq<TokenV>, p: int) -> Step<ExprV>
    decreases remaining(ts, p), 20int,
{
    if !(tok(ts, p) is Func) {
        fail(p, Seq::empty(), no_prefix(tok(ts, p)))
    } else if !(tok(ts, p + 1) is LeftParen) {
        fail(p + 1, Seq::empty(), expected("LeftParen"@, tok(ts, p + 1)))
    } else {
        let ps = params_at(ts, p + 2);
        match ps.node {
            None => Step { node: None, next: ps.next, errors: ps.errors },
            Some(params) => {
                let q = later(ps.next, p + 2);
                if !(tok(ts, q) is LeftBrace) {
                    fail(q, ps.errors, expected("LeftBrace"@, tok(ts, q)))
                } else {
                    let b = block_at(ts, q + 1);
                    Step {
                        node: match b.node {
                            Some(body) => Some(ExprV::Fun(params, body)),
                            None => None,
                        },
                        next: later(b.next, q + 1),
                        errors: ps.errors + b.errors,
                    }
                }
            },
        }
    }
}

/// The expression `left`, which ends before `p`, extended by the infix, call
/// and index forms that follow it and bind more strongly than `prec`.
/// Operators of one binding power group to the left.
#[verifier::opaque]
pub open spec fn extend(
    ts: Seq<TokenV>,
    left: ExprV,
    p: int,
    prec: Precedence,
    errors: Seq<Seq<char>>,
) -> Step<ExprV>
    decreases remaining(ts, p), 10int,
{
    let t = tok(ts, p);
    if t is Semicolon || prec.rank() >= precedence_of(t).rank() {
        Step { node: Some(left), next: p, errors }
    } else if t is LeftParen {
        let r = list_at(ts, p + 1, Closer::Paren);
        match r.node {
            Some(args) => extend(
                ts,
                ExprV::Call(Box::new(left), args),
                later(r.next, p + 1),
                prec,
                errors + r.errors,
            ),
            None => Step { node: None, next: r.next, errors: errors + r.errors },
        }
    } else if t is LeftBracket {
        let r = parse_expr(ts, p + 1, Precedence::Lowest);
        match r.node {
            Some(index) => {
                let q = later(r.next, p + 1);
                if tok(ts, q) is RightBracket {
                    extend(
                        ts,
                        ExprV::Index(Box::new(left), Box::new(index)),
                        q + 1,
                        prec,
                        errors + r.errors,
                    )
                } else {
                    fail(q, errors + r.errors, expected("RightBracket"@, tok(ts, q)))
                }
            },
            None => Step { node: None, next: r.next, errors: errors + r.errors },
        }
    } else {
        match infix_of(t) {
            Some(op) => {
                let r = parse_expr(ts, p + 1, precedence_of(t));
                match r.node {
                    Some(right) => extend(
                        ts,
                        ExprV::Infix(op, Box::new(left), Box::new(right)),
                        later(r.next, p + 1),
                        prec,
                        errors + r.errors,
                    ),
                    None => Step { node: None, next: r.next, errors: errors + r.errors },
                }
            },
            None => Step { node: Some(left), next: p, errors },
        }
    }
}

/// A list of expressions with commas between them, from the token after the
/// opening bracket on, closing bracket included.
#[verifier::opaque]
pub open spec fn list_at(ts: Seq<TokenV>, p: int, close: Closer) -> Step<Seq<ExprV>>
    decreases remaining(ts, p), 50int,
{
    if closes(tok(ts, p), close) {
        Step { node: Some(Seq::empty()), next: p + 1, errors: Seq::empty() }
    } else {
        let first = parse_expr(ts, p, Precedence::Lowest);
        match first.node {
            Some(e) => list_rest(ts, later(first.next, p), close, seq![e], first.errors),
            None => Step { node: None, next: first.next, errors: first.errors },
        }
    }
}

/// The rest of a list of expressions, from a comma or the closing bracket at
/// `p` on.
#[verifier::opaque]
pub open spec fn list_rest(
    ts: Seq<TokenV>,
    p: int,
    close: Closer,
    acc: Seq<ExprV>,
    errors: Seq<Seq<char>>,
) -> Step<Seq<ExprV>>
    decreases remaining(ts, p), 0int,
{
    if tok(ts, p) is Comma {
        let e = parse_expr(ts, p + 1, Precedence::Lowest);
        match e.node {
            Some(item) => list_rest(
                ts,
                later(e.next, p + 1),
                close,
                acc.push(item),
                errors + e.errors,
            ),
            None => Step { node: None, next: e.next, errors: errors + e.errors },
        }
    } else if closes(tok(ts, p), close) {
        Step { node: Some(acc), next: p + 1, errors }
    } else {
        fail(p, errors, expected(closer_text(close), tok(ts, p)))
    }
}

/// The pairs of an object literal, from the token after the opening brace or
/// after a comma on, closing brace included.
#[verifier::opaque]
pub open spec fn pairs_at(
    ts: Seq<TokenV>,
    p: int,
    acc: Seq<(ExprV, ExprV)>,
    errors: Seq<Seq<char>>,
) -> Step<Seq<(ExprV, ExprV)>>
    decreases remaining(ts, p), 50int,
{
    if tok(ts, p) is RightBrace {
        Step { node: Some(acc), next: p + 1, errors }
    } else {
        let k = parse_expr(ts, p, Precedence::Lowest);
        match k.node {
            None => Step { node: None, next: k.next, errors: errors + k.errors },
            Some(key) => {
                let kq = later(k.next, p);
                if !(tok(ts, kq) is Colon) {
                    fail(kq, errors + k.errors, expected("Colon"@, tok(ts, kq)))
                } else {
                    let v = parse_expr(ts, kq + 1, Precedence::Lowest);
                    match v.node {
                        None => Step {
                            node: None,
                            next: v.next,
                            errors: errors + k.errors + v.errors,
                        },
                        Some(value) => {
                            let vq = later(v.next, kq + 1);
                            if tok(ts, vq) is RightBrace {
                                Step {
                                    node: Some(acc.push((key, value))),
                                    next: vq + 1,
                                    errors: errors + k.errors + v.errors,
                                }
                            } else if tok(ts, vq) is Comma {
                                pairs_at(
                                    ts,
                                    vq + 1,
                                    acc.push((key, value)),
                                    errors + k.errors + v.errors,
                                )
                            } else {
                                fail(
                                    vq,
                                    errors + k.errors + v.errors,
                                    expected("Comma"@, tok(ts, vq)),
                                )
                            }
                        },
                    }
                }
            },
        }
    }
}

/// The program that a sequence of tokens writes, and the messages of the
/// errors in it.
pub open spec fn parse_tokens(ts: Seq<TokenV>) -> (Seq<StatementV>, Seq<Seq<char>>) {
    let all = sequence(ts, 0, false, Seq::empty(), Seq::empty());
    (all.node->0, all.errors)
}

/// The program that a source text writes, and the messages of the errors in
/// it.
pub open spec fn parse_source(input: Seq<char>) -> (Seq<StatementV>, Seq<Seq<char>>) {
    parse_tokens(tokens_of(input, 0))
}

} // verus!
