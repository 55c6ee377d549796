//! The abstract syntax tree shared by both stages of the pipeline, and the
//! mathematical views that contracts are stated over.
//!
//! The tree is generic over the call-target representation `R`: the parser
//! produces `R = String` (textual names), the linker rebuilds the same shape
//! with `R = FunctionId` (dense handles).  The ghost types `ExpressionView`,
//! `StatementView` and `FunctionView` mirror the tree over `Seq<char>` and the
//! view of `R`.

use crate::grammar;
use crate::parser;
use std::rc::Rc;
use vstd::prelude::*;

verus! {

/// Parses a whole source text into a module, or reports why it is not one.
///
/// The result is exactly what the grammar derives: `Ok` with the derived
/// tree when [`grammar::spec_parse`] succeeds on the text, and `Err` — with
/// a rendered diagnostic of the deepest failure — exactly when it does not.
/// Trailing content that the grammar cannot consume therefore fails the
/// whole parse; there is no partial success.
pub fn parse(input: &str) -> (r: Result<Module, ParseError>)
    ensures
        match r {
            Ok(m) => grammar::spec_parse(input@) == Some(m@),
            Err(_) => grammar::spec_parse(input@) is None,
        },
{
    let mut diag = parser::Diag::new();
    match parser::parse_module(input, 0, &mut diag) {
        Some(functions) => Ok(Module::new(functions)),
        None => Err(ParseError::new(parser::render_error(input, &diag))),
    }
}

/// A parsed module: the ordered sequence of function declarations of one
/// source text, with call targets still textual.  Produced once by `parse`,
/// consumed once by `Library::link`.
#[derive(PartialEq, Eq, Debug)]
pub struct Module {
    pub functions: Vec<Function<String>>,
}

/// One function declaration: a name and an ordered statement body.  The body
/// sits behind `Rc` so that many long-lived consumers can share it without
/// copies; it is never mutated after construction.
#[derive(PartialEq, Eq, Debug)]
pub struct Function<R> {
    pub name: String,
    pub body: Rc<Vec<Statement<R>>>,
}

/// A statement of a function body.
#[derive(PartialEq, Eq, Debug)]
pub enum Statement<R> {
    Pass,
    Expression(Expression<R>),
}

/// An expression: a bare identifier, or a call whose target has
/// representation `R` and whose arguments nest arbitrarily.  Parentheses are
/// a grammar device only and leave no node behind.
#[derive(PartialEq, Eq, Debug)]
pub enum Expression<R> {
    Variable { name: String },
    Call { target: R, args: Vec<Expression<R>> },
}

/// Arithmetic operators, declared ahead of need: no rule of the grammar
/// produces them yet.
pub enum BinOp {
    Plus,
    Minus,
    Mulitply,
    Divide,
}

/// Ghost mirror of `Expression` over mathematical types.
pub enum ExpressionView<T> {
    Variable { name: Seq<char> },
    Call { target: T, args: Seq<ExpressionView<T>> },
}

/// Ghost mirror of `Statement`.
pub enum StatementView<T> {
    Pass,
    Expression(ExpressionView<T>),
}

/// Ghost mirror of `Function`.
pub struct FunctionView<T> {
    pub name: Seq<char>,
    pub body: Seq<StatementView<T>>,
}

pub open spec fn expr_view<R: View>(e: Expression<R>) -> ExpressionView<R::V>
    decreases e,
{
    match e {
        Expression::Variable { name } => ExpressionView::Variable { name: name@ },
        Expression::Call { target, args } => ExpressionView::Call {
            target: target@,
            args: exprs_view(args),
        },
    }
}

pub open spec fn exprs_view<R: View>(args: Vec<Expression<R>>) -> Seq<ExpressionView<R::V>>
    decreases args,
{
    Seq::new(
        args@.len(),
        |i: int|
            if 0 <= i < args@.len() {
                expr_view(args[i])
            } else {
                ExpressionView::Variable { name: Seq::empty() }
            },
    )
}

pub open spec fn stmt_view<R: View>(s: Statement<R>) -> StatementView<R::V> {
    match s {
        Statement::Pass => StatementView::Pass,
        Statement::Expression(e) => StatementView::Expression(expr_view(e)),
    }
}

pub open spec fn stmts_view<R: View>(body: Seq<Statement<R>>) -> Seq<StatementView<R::V>> {
    Seq::new(
        body.len(),
        |i: int|
            if 0 <= i < body.len() {
                stmt_view(body[i])
            } else {
                StatementView::Pass
            },
    )
}

pub open spec fn func_view<R: View>(f: Function<R>) -> FunctionView<R::V> {
    FunctionView { name: f.name@, body: stmts_view(f.body@) }
}

pub open spec fn funcs_view<R: View>(fns: Seq<Function<R>>) -> Seq<FunctionView<R::V>> {
    Seq::new(
        fns.len(),
        |i: int|
            if 0 <= i < fns.len() {
                func_view(fns[i])
            } else {
                FunctionView { name: Seq::empty(), body: Seq::empty() }
            },
    )
}

/// An empty argument vector views to the empty sequence.
pub proof fn lemma_exprs_view_empty<R: View>(v: Vec<Expression<R>>)
    requires
        v@.len() == 0,
    ensures
        exprs_view(v) == Seq::<ExpressionView<R::V>>::empty(),
{
    assert(exprs_view(v) =~= Seq::<ExpressionView<R::V>>::empty());
}

/// Viewing distributes over putting one expression in front.
pub proof fn lemma_exprs_view_cons<R: View>(
    x: Expression<R>,
    rest: Vec<Expression<R>>,
    all: Vec<Expression<R>>,
)
    requires
        all@ == seq![x] + rest@,
    ensures
        exprs_view(all) == seq![expr_view(x)] + exprs_view(rest),
{
    assert forall|i: int| 0 <= i < all@.len() implies exprs_view(all)[i] == (seq![expr_view(x)]
        + exprs_view(rest))[i] by {
        if i == 0 {
            assert(all@[0] == x);
        } else {
            assert(all@[i] == rest@[i - 1]);
        }
    }
    assert(exprs_view(all) =~= seq![expr_view(x)] + exprs_view(rest));
}

/// An empty statement sequence views to the empty sequence.
pub proof fn lemma_stmts_view_empty<R: View>(body: Seq<Statement<R>>)
    requires
        body.len() == 0,
    ensures
        stmts_view(body) == Seq::<StatementView<R::V>>::empty(),
{
    assert(stmts_view(body) =~= Seq::<StatementView<R::V>>::empty());
}

/// Viewing distributes over putting one statement in front.
pub proof fn lemma_stmts_view_cons<R: View>(
    x: Statement<R>,
    rest: Seq<Statement<R>>,
    all: Seq<Statement<R>>,
)
    requires
        all == seq![x] + rest,
    ensures
        stmts_view(all) == seq![stmt_view(x)] + stmts_view(rest),
{
    assert forall|i: int| 0 <= i < all.len() implies stmts_view(all)[i] == (seq![stmt_view(x)]
        + stmts_view(rest))[i] by {
        if i == 0 {
            assert(all[0] == x);
        } else {
            assert(all[i] == rest[i - 1]);
        }
    }
    assert(stmts_view(all) =~= seq![stmt_view(x)] + stmts_view(rest));
}

/// Viewing distributes over appending one statement.
pub proof fn lemma_stmts_view_push<R: View>(body: Seq<Statement<R>>, x: Statement<R>)
    ensures
        stmts_view(body.push(x)) == stmts_view(body).push(stmt_view(x)),
{
    assert forall|i: int| 0 <= i < body.len() + 1 implies stmts_view(body.push(x))[i]
        == stmts_view(body).push(stmt_view(x))[i] by {
        if i < body.len() {
            assert(body.push(x)[i] == body[i]);
        } else {
            assert(body.push(x)[i] == x);
        }
    }
    assert(stmts_view(body.push(x)) =~= stmts_view(body).push(stmt_view(x)));
}

/// An empty function sequence views to the empty sequence.
pub proof fn lemma_funcs_view_empty<R: View>(fns: Seq<Function<R>>)
    requires
        fns.len() == 0,
    ensures
        funcs_view(fns) == Seq::<FunctionView<R::V>>::empty(),
{
    assert(funcs_view(fns) =~= Seq::<FunctionView<R::V>>::empty());
}

/// Viewing distributes over appending one declaration.
pub proof fn lemma_funcs_view_push<R: View>(fns: Seq<Function<R>>, x: Function<R>)
    ensures
        funcs_view(fns.push(x)) == funcs_view(fns).push(func_view(x)),
{
    assert forall|i: int| 0 <= i < fns.len() + 1 implies funcs_view(fns.push(x))[i]
        == funcs_view(fns).push(func_view(x))[i] by {
        if i < fns.len() {
            assert(fns.push(x)[i] == fns[i]);
        } else {
            assert(fns.push(x)[i] == x);
        }
    }
    assert(funcs_view(fns.push(x)) =~= funcs_view(fns).push(func_view(x)));
}

impl<R: View> View for Expression<R> {
    type V = ExpressionView<R::V>;

    open spec fn view(&self) -> ExpressionView<R::V> {
        expr_view(*self)
    }
}

impl<R: View> View for Statement<R> {
    type V = StatementView<R::V>;

    open spec fn view(&self) -> StatementView<R::V> {
        stmt_view(*self)
    }
}

impl<R: View> View for Function<R> {
    type V = FunctionView<R::V>;

    open spec fn view(&self) -> FunctionView<R::V> {
        func_view(*self)
    }
}

impl View for Module {
    type V = Seq<FunctionView<Seq<char>>>;

    open spec fn view(&self) -> Seq<FunctionView<Seq<char>>> {
        funcs_view(self.functions@)
    }
}

impl Module {
    /// Wraps an ordered sequence of declarations as a module.
    pub fn new(functions: Vec<Function<String>>) -> (m: Module)
        ensures
            m@ == funcs_view(functions@),
    {
        Module { functions }
    }

    /// Consumes the module, handing its functions over in declaration order.
    pub fn functions(self) -> (r: Vec<Function<String>>)
        ensures
            funcs_view(r@) == self@,
    {
        self.functions
    }
}

impl<R: View> Function<R> {
    /// Builds a declaration from a name and an owned body.
    pub fn new(name: String, body: Vec<Statement<R>>) -> (f: Function<R>)
        ensures
            f@ == (FunctionView { name: name@, body: stmts_view(body@) }),
    {
        Function { name, body: Rc::new(body) }
    }

    pub fn name(&self) -> (r: &str)
        ensures
            r@ == self@.name,
    {
        self.name.as_str()
    }

    /// The shared, read-only statement body.
    pub fn body(&self) -> (r: &Rc<Vec<Statement<R>>>)
        ensures
            stmts_view(r@) == self@.body,
    {
        &self.body
    }
}

/// A rendered parse diagnostic: the offending position, an excerpt of the
/// source line, and the chain of grammar rules active at the failure.
#[derive(Debug)]
pub struct ParseError {
    pub message: String,
}

impl View for ParseError {
    type V = Seq<char>;

    open spec fn view(&self) -> Seq<char> {
        self.message@
    }
}

impl ParseError {
    pub(crate) fn new(message: String) -> (e: ParseError)
        ensures
            e@ == message@,
    {
        ParseError { message }
    }

    /// The diagnostic text, ready to be shown to the user.
    pub fn text(&self) -> (r: &str)
        ensures
            r@ == self@,
    {
        self.message.as_str()
    }
}

} // verus!
