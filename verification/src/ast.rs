//! The abstract syntax tree: what the parser builds and the evaluator walks.

use vstd::prelude::*;
use crate::text::push_text;

verus! {

/// A name in a program.
#[derive(PartialEq, Clone, Debug)]
pub struct Ident(pub String);

/// The operators that stand before their operand.
#[derive(PartialEq, Eq, Clone, Copy, Debug, Structural)]
pub enum Prefix {
    Plus,
    Minus,
    Not,
}

/// The operators that stand between two operands.
#[derive(PartialEq, Eq, Clone, Copy, Debug, Structural)]
pub enum Infix {
    Plus,
    Minus,
    Times,
    Divide,
    Modulo,
    Equals,
    NotEquals,
    Less,
    Greater,
    LessEq,
    GreaterEq,
}

/// A literal value. The elements of an array and the keys and values of an
/// object are expressions.
#[derive(PartialEq, Debug)]
pub enum Literal {
    Int(i32),
    String(String),
    Boolean(bool),
    Array(Vec<Expr>),
    Object(Vec<(Expr, Expr)>),
}

/// A statement.
#[derive(PartialEq, Debug)]
pub enum Statement {
    /// Declares a name in the current scope.
    Let(Ident, Expr),
    /// Gives a new value to a name that some scope of the chain declares.
    Reassign(Ident, Expr),
    /// Leaves the enclosing function or block, with a value if one is given.
    Return(Option<Expr>),
    /// An expression in the place of a statement.
    Expression(Expr),
    /// Brings the bindings of a module into scope.
    Include(Ident),
}

/// How strongly an operator binds, weakest first.
#[derive(PartialEq, Eq, PartialOrd, Ord, Clone, Copy, Debug, Structural)]
pub enum Precedence {
    Lowest,
    Equals,
    LessGreater,
    Sum,
    Product,
    Prefix,
    Call,
    Index,
}

/// The statements between two braces.
pub type BlockStatement = Vec<Statement>;

/// An expression.
#[derive(PartialEq, Debug)]
pub enum Expr {
    Literal(Literal),
    Ident(Ident),
    Prefix(Prefix, Box<Expr>),
    Infix(Infix, Box<Expr>, Box<Expr>),
    If { cond: Box<Expr>, then: Box<BlockStatement>, else_: Option<BlockStatement> },
    Fun { params: Vec<Ident>, body: BlockStatement },
    Call { function: Box<Expr>, args: Vec<Expr> },
    Index { array: Box<Expr>, index: Box<Expr> },
}

/// A program: statements in the order in which they are evaluated.
#[derive(PartialEq, Debug)]
pub struct Program {
    pub statements: Vec<Statement>,
}

/// The mathematical value of a [`Literal`].
pub enum LiteralV {
    Int(i32),
    String(Seq<char>),
    Boolean(bool),
    Array(Seq<ExprV>),
    Object(Seq<(ExprV, ExprV)>),
}

/// The mathematical value of an [`Expr`].
pub enum ExprV {
    Literal(LiteralV),
    Ident(Seq<char>),
    Prefix(Prefix, Box<ExprV>),
    Infix(Infix, Box<ExprV>, Box<ExprV>),
    If(Box<ExprV>, Seq<StatementV>, Option<Seq<StatementV>>),
    Fun(Seq<Seq<char>>, Seq<StatementV>),
    Call(Box<ExprV>, Seq<ExprV>),
    Index(Box<ExprV>, Box<ExprV>),
}

/// The mathematical value of a [`Statement`].
pub enum StatementV {
    Let(Seq<char>, ExprV),
    Reassign(Seq<char>, ExprV),
    Return(Option<ExprV>),
    Expression(ExprV),
    Include(Seq<char>),
}

impl Precedence {
    /// The place of the precedence on the scale, from 0 for the weakest.
    pub open spec fn rank(self) -> int {
        match self {
            Precedence::Lowest => 0,
            Precedence::Equals => 1,
            Precedence::LessGreater => 2,
            Precedence::Sum => 3,
            Precedence::Product => 4,
            Precedence::Prefix => 5,
            Precedence::Call => 6,
            Precedence::Index => 7,
        }
    }

    /// The place of the precedence on the scale.
    pub fn level(&self) -> (r: u8)
        ensures
            r == self.rank(),
    {
        match self {
            Precedence::Lowest => 0,
            Precedence::Equals => 1,
            Precedence::LessGreater => 2,
            Precedence::Sum => 3,
            Precedence::Product => 4,
            Precedence::Prefix => 5,
            Precedence::Call => 6,
            Precedence::Index => 7,
        }
    }
}

/// How a prefix operator is written.
pub open spec fn prefix_text(p: Prefix) -> Seq<char> {
    match p {
        Prefix::Plus => "+"@,
        Prefix::Minus => "-"@,
        Prefix::Not => "!"@,
    }
}

/// How an infix operator is written.
pub open spec fn infix_text(op: Infix) -> Seq<char> {
    match op {
        Infix::Plus => "+"@,
        Infix::Minus => "-"@,
        Infix::Times => "*"@,
        Infix::Divide => "/"@,
        Infix::Modulo => "%"@,
        Infix::Equals => "=="@,
        Infix::NotEquals => "!="@,
        Infix::Less => "<"@,
        Infix::Greater => ">"@,
        Infix::LessEq => "<="@,
        Infix::GreaterEq => ">="@,
    }
}

impl Prefix {
    /// Appends the operator, as it is written, to `s`.
    pub fn write(&self, s: &mut String)
        ensures
            final(s)@ == old(s)@ + prefix_text(*self),
    {
        match self {
            Prefix::Plus => push_text(s, "+"),
            Prefix::Minus => push_text(s, "-"),
            Prefix::Not => push_text(s, "!"),
        }
    }
}

impl Infix {
    /// Appends the operator, as it is written, to `s`.
    pub fn write(&self, s: &mut String)
        ensures
            final(s)@ == old(s)@ + infix_text(*self),
    {
        match self {
            Infix::Plus => push_text(s, "+"),
            Infix::Minus => push_text(s, "-"),
            Infix::Times => push_text(s, "*"),
            Infix::Divide => push_text(s, "/"),
            Infix::Modulo => push_text(s, "%"),
            Infix::Equals => push_text(s, "=="),
            Infix::NotEquals => push_text(s, "!="),
            Infix::Less => push_text(s, "<"),
            Infix::Greater => push_text(s, ">"),
            Infix::LessEq => push_text(s, "<="),
            Infix::GreaterEq => push_text(s, ">="),
        }
    }
}

/// The values of a sequence of names.
pub open spec fn names_model(names: Seq<Ident>) -> Seq<Seq<char>> {
    Seq::new(names.len(), |i: int| names[i].0@)
}

/// The values of a sequence of expressions.
pub open spec fn exprs_model(exprs: Seq<Expr>) -> Seq<ExprV>
    decreases exprs, 0int,
{
    Seq::new(
        exprs.len(),
        |i: int|
            if 0 <= i < exprs.len() {
                exprs[i].model()
            } else {
                arbitrary()
            },
    )
}

/// The values of a sequence of pairs of expressions.
pub open spec fn pairs_model(pairs: Seq<(Expr, Expr)>) -> Seq<(ExprV, ExprV)>
    decreases pairs, 0int,
{
    Seq::new(
        pairs.len(),
        |i: int|
            if 0 <= i < pairs.len() {
                (pairs[i].0.model(), pairs[i].1.model())
            } else {
                arbitrary()
            },
    )
}

/// The values of a sequence of statements.
pub open spec fn block_model(block: Seq<Statement>) -> Seq<StatementV>
    decreases block, 0int,
{
    Seq::new(
        block.len(),
        |i: int|
            if 0 <= i < block.len() {
                block[i].model()
            } else {
                arbitrary()
            },
    )
}

impl Literal {
    /// The mathematical value of the literal.
    pub open spec fn model(self) -> LiteralV
        decreases self, 0int,
    {
        match self {
            Literal::Int(i) => LiteralV::Int(i),
            Literal::String(s) => LiteralV::String(s@),
            Literal::Boolean(b) => LiteralV::Boolean(b),
            Literal::Array(items) => LiteralV::Array(exprs_model(items@)),
            Literal::Object(pairs) => LiteralV::Object(pairs_model(pairs@)),
        }
    }
}

impl Expr {
    /// The mathematical value of the expression.
    pub open spec fn model(self) -> ExprV
        decreases self, 0int,
    {
        match self {
            Expr::Literal(l) => ExprV::Literal(l.model()),
            Expr::Ident(name) => ExprV::Ident(name.0@),
            Expr::Prefix(p, right) => ExprV::Prefix(p, Box::new((*right).model())),
            Expr::Infix(op, left, right) => ExprV::Infix(
                op,
                Box::new((*left).model()),
                Box::new((*right).model()),
            ),
            Expr::If { cond, then, else_ } => ExprV::If(
                Box::new((*cond).model()),
                block_model((*then)@),
                match else_ {
                    Some(block) => Some(block_model(block@)),
                    None => None,
                },
            ),
            Expr::Fun { params, body } => ExprV::Fun(names_model(params@), block_model(body@)),
            Expr::Call { function, args } => ExprV::Call(
                Box::new((*function).model()),
                exprs_model(args@),
            ),
            Expr::Index { array, index } => ExprV::Index(
                Box::new((*array).model()),
                Box::new((*index).model()),
            ),
        }
    }
}

impl Statement {
    /// The mathematical value of the statement.
    pub open spec fn model(self) -> StatementV
        decreases self, 0int,
    {
        match self {
            Statement::Let(name, e) => StatementV::Let(name.0@, e.model()),
            Statement::Reassign(name, e) => StatementV::Reassign(name.0@, e.model()),
            Statement::Return(e) => StatementV::Return(
                match e {
                    Some(e) => Some(e.model()),
                    None => None,
                },
            ),
            Statement::Expression(e) => StatementV::Expression(e.model()),
            Statement::Include(name) => StatementV::Include(name.0@),
        }
    }
}

impl Ident {
    /// A copy of the name.
    pub fn copy(&self) -> (r: Ident)
        ensures
            r@ == self@,
    {
        Ident(self.0.clone())
    }
}

/// A copy of a list of names.
pub fn copy_names(names: &Vec<Ident>) -> (r: Vec<Ident>)
    ensures
        names_model(r@) == names_model(names@),
{
    let mut r: Vec<Ident> = Vec::new();
    let mut i: usize = 0;
    while i < names.len()
        invariant
            i <= names.len(),
            r.len() == i,
            forall|j: int| 0 <= j < i ==> r[j].0@ == names[j].0@,
        decreases names.len() - i,
    {
        r.push(names[i].copy());
        i += 1;
    }
    assert(names_model(r@) =~= names_model(names@));
    r
}

/// A copy of a list of expressions.
#[verifier::loop_isolation(false)]
pub fn copy_exprs(exprs: &Vec<Expr>) -> (r: Vec<Expr>)
    ensures
        exprs_model(r@) == exprs_model(exprs@),
    decreases exprs,
{
    let mut r: Vec<Expr> = Vec::new();
    let mut i: usize = 0;
    while i < exprs.len()
        invariant
            i <= exprs.len(),
            r.len() == i,
            forall|j: int| 0 <= j < i ==> r[j].model() == exprs[j].model(),
        decreases exprs.len() - i,
    {
        r.push(exprs[i].copy());
        i += 1;
    }
    assert(exprs_model(r@) =~= exprs_model(exprs@));
    r
}

/// A copy of a list of pairs of expressions.
#[verifier::loop_isolation(false)]
pub fn copy_pairs(pairs: &Vec<(Expr, Expr)>) -> (r: Vec<(Expr, Expr)>)
    ensures
        pairs_model(r@) == pairs_model(pairs@),
    decreases pairs,
{
    let mut r: Vec<(Expr, Expr)> = Vec::new();
    let mut i: usize = 0;
    while i < pairs.len()
        invariant
            i <= pairs.len(),
            r.len() == i,
            forall|j: int|
                0 <= j < i ==> r[j].0.model() == pairs[j].0.model() && r[j].1.model()
                    == pairs[j].1.model(),
        decreases pairs.len() - i,
    {
        let key = pairs[i].0.copy();
        let value = pairs[i].1.copy();
        r.push((key, value));
        i += 1;
    }
    assert(pairs_model(r@) =~= pairs_model(pairs@));
    r
}

/// A copy of a list of statements.
#[verifier::loop_isolation(false)]
pub fn copy_block(block: &Vec<Statement>) -> (r: Vec<Statement>)
    ensures
        block_model(r@) == block_model(block@),
    decreases block,
{
    let mut r: Vec<Statement> = Vec::new();
    let mut i: usize = 0;
    while i < block.len()
        invariant
            i <= block.len(),
            r.len() == i,
            forall|j: int| 0 <= j < i ==> r[j].model() == block[j].model(),
        decreases block.len() - i,
    {
        r.push(block[i].copy());
        i += 1;
    }
    assert(block_model(r@) =~= block_model(block@));
    r
}

impl Literal {
    /// A copy of the literal.
    pub fn copy(&self) -> (r: Literal)
        ensures
            r@ == self@,
        decreases self,
    {
        match self {
            Literal::Int(i) => Literal::Int(*i),
            Literal::String(s) => Literal::String(s.clone()),
            Literal::Boolean(b) => Literal::Boolean(*b),
            Literal::Array(items) => Literal::Array(copy_exprs(items)),
            Literal::Object(pairs) => Literal::Object(copy_pairs(pairs)),
        }
    }
}

impl Expr {
    /// A copy of the expression.
    pub fn copy(&self) -> (r: Expr)
        ensures
            r@ == self@,
        decreases self,
    {
        match self {
            Expr::Literal(l) => Expr::Literal(l.copy()),
            Expr::Ident(name) => Expr::Ident(name.copy()),
            Expr::Prefix(p, right) => Expr::Prefix(*p, Box::new(right.copy())),
            Expr::Infix(op, left, right) => Expr::Infix(
                *op,
                Box::new(left.copy()),
                Box::new(right.copy()),
            ),
            Expr::If { cond, then, else_ } => Expr::If {
                cond: Box::new(cond.copy()),
                then: Box::new(copy_block(then)),
                else_: match else_ {
                    Some(block) => Some(copy_block(block)),
                    None => None,
                },
            },
            Expr::Fun { params, body } => Expr::Fun {
                params: copy_names(params),
                body: copy_block(body),
            },
            Expr::Call { function, args } => Expr::Call {
                function: Box::new(function.copy()),
                args: copy_exprs(args),
            },
            Expr::Index { array, index } => Expr::Index {
                array: Box::new(array.copy()),
                index: Box::new(index.copy()),
            },
        }
    }
}

impl Statement {
    /// A copy of the statement.
    pub fn copy(&self) -> (r: Statement)
        ensures
            r@ == self@,
        decreases self,
    {
        match self {
            Statement::Let(name, e) => Statement::Let(name.copy(), e.copy()),
            Statement::Reassign(name, e) => Statement::Reassign(name.copy(), e.copy()),
            Statement::Return(e) => Statement::Return(
                match e {
                    Some(e) => Some(e.copy()),
                    None => None,
                },
            ),
            Statement::Expression(e) => Statement::Expression(e.copy()),
            Statement::Include(name) => Statement::Include(name.copy()),
        }
    }
}

impl Program {
    /// A copy of the program.
    pub fn copy(&self) -> (r: Program)
        ensures
            r@ == self@,
    {
        Program { statements: copy_block(&self.statements) }
    }
}

impl Clone for Literal {
    fn clone(&self) -> (r: Literal)
        ensures
            r@ == self@,
    {
        self.copy()
    }
}

impl Clone for Expr {
    fn clone(&self) -> (r: Expr)
        ensures
            r@ == self@,
    {
        self.copy()
    }
}

impl Clone for Statement {
    fn clone(&self) -> (r: Statement)
        ensures
            r@ == self@,
    {
        self.copy()
    }
}

impl Clone for Program {
    fn clone(&self) -> (r: Program)
        ensures
            r@ == self@,
    {
        self.copy()
    }
}

impl View for Ident {
    type V = Seq<char>;

    open spec fn view(&self) -> Seq<char> {
        self.0@
    }
}

impl View for Literal {
    type V = LiteralV;

    open spec fn view(&self) -> LiteralV {
        self.model()
    }
}

impl View for Expr {
    type V = ExprV;

    open spec fn view(&self) -> ExprV {
        self.model()
    }
}

impl View for Statement {
    type V = StatementV;

    open spec fn view(&self) -> StatementV {
        self.model()
    }
}

impl View for Program {
    type V = Seq<StatementV>;

    open spec fn view(&self) -> Seq<StatementV> {
        block_model(self.statements@)
    }
}

} // verus!
