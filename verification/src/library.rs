//! Linking: from a parsed [`Module`] with textual call targets to an
//! immutable [`Library`] whose targets are dense integer handles.
//!
//! Every function is assigned the [`FunctionId`] equal to its position in
//! declaration order.  With the whole table known, every call target in
//! every body is looked up by name — which is what lets a function call one
//! declared later, itself, or a mutually recursive partner — and replaced by
//! the id of the *last* declaration carrying that name.  A target that no
//! declaration carries fails the link with an [`UnresolvedReference`]
//! naming both the missing target and the function it occurs in; no partial
//! library is ever produced.

use crate::syntax_tree::{
    expr_view, exprs_view, func_view, funcs_view, lemma_exprs_view_cons, lemma_exprs_view_empty,
    lemma_funcs_view_empty, lemma_funcs_view_push, lemma_stmts_view_cons, stmt_view, stmts_view,
    Expression, ExpressionView, Function, FunctionView, Module, Statement, StatementView,
};
use vstd::prelude::*;
use vstd::string::*;

verus! {

/// A dense handle into the function table of one `Library`: the position of
/// the function in declaration order.  It is only ever produced by `link`,
/// and is valid against the library that produced it.
#[derive(PartialEq, Eq, Hash, Copy, Clone, Debug)]
pub struct FunctionId(pub usize);

impl View for FunctionId {
    type V = int;

    open spec fn view(&self) -> int {
        self.0 as int
    }
}

/// The failure of a link: a call target that no declaration carries, and
/// the name of the function whose body holds the call.
#[derive(PartialEq, Eq, Debug)]
pub struct UnresolvedReference {
    pub name: String,
    pub function: String,
}

/// Ghost mirror of `UnresolvedReference`.
pub struct UnresolvedReferenceView {
    pub name: Seq<char>,
    pub function: Seq<char>,
}

impl View for UnresolvedReference {
    type V = UnresolvedReferenceView;

    open spec fn view(&self) -> UnresolvedReferenceView {
        UnresolvedReferenceView { name: self.name@, function: self.function@ }
    }
}

/// Ghost mirror of `Library`.
pub struct LibraryView {
    pub functions: Seq<FunctionView<int>>,
    pub main_id: Option<int>,
}

/// The name of the entry point.
pub open spec fn main_name() -> Seq<char> {
    seq!['m', 'a', 'i', 'n']
}

/// The id a call target resolves to: the position of the last declaration
/// with that name, if any.
pub open spec fn resolve_name(fns: Seq<FunctionView<Seq<char>>>, name: Seq<char>) -> Option<int>
    decreases fns.len(),
{
    if fns.len() == 0 {
        None
    } else if fns.last().name == name {
        Some(fns.len() - 1)
    } else {
        resolve_name(fns.drop_last(), name)
    }
}

/// What `resolve_name` returns: the last matching position, or nothing when
/// no declaration matches.
pub proof fn lemma_resolve_name(fns: Seq<FunctionView<Seq<char>>>, name: Seq<char>)
    ensures
        match resolve_name(fns, name) {
            Some(k) => 0 <= k < fns.len() && fns[k].name == name && forall|j: int|
                k < j < fns.len() ==> #[trigger] fns[j].name != name,
            None => forall|j: int| 0 <= j < fns.len() ==> #[trigger] fns[j].name != name,
        },
    decreases fns.len(),
{
    if fns.len() > 0 {
        lemma_resolve_name(fns.drop_last(), name);
        assert forall|j: int| 0 <= j < fns.len() - 1 implies fns.drop_last()[j] == fns[j] by {}
    }
}

/// Rewrites one expression, replacing every call target by its id; the error
/// is the first target, in target-before-arguments order, that resolves to
/// nothing.
pub open spec fn resolve_expr(
    fns: Seq<FunctionView<Seq<char>>>,
    e: ExpressionView<Seq<char>>,
) -> Result<ExpressionView<int>, Seq<char>>
    decreases e, 0int,
{
    match e {
        ExpressionView::Variable { name } => Ok(ExpressionView::Variable { name }),
        ExpressionView::Call { target, args } => match resolve_name(fns, target) {
            Some(id) => match resolve_args(fns, args, 0) {
                Ok(rargs) => Ok(ExpressionView::Call { target: id, args: rargs }),
                Err(n) => Err(n),
            },
            None => Err(target),
        },
    }
}

/// Rewrites the arguments of a call from position `i` on.
pub open spec fn resolve_args(
    fns: Seq<FunctionView<Seq<char>>>,
    args: Seq<ExpressionView<Seq<char>>>,
    i: int,
) -> Result<Seq<ExpressionView<int>>, Seq<char>>
    decreases args, args.len() - i,
{
    if i < 0 || i >= args.len() {
        Ok(Seq::empty())
    } else {
        match resolve_expr(fns, args[i]) {
            Ok(r) => match resolve_args(fns, args, i + 1) {
                Ok(rest) => Ok(seq![r] + rest),
                Err(n) => Err(n),
            },
            Err(n) => Err(n),
        }
    }
}

/// Rewrites one statement.
pub open spec fn resolve_stmt(
    fns: Seq<FunctionView<Seq<char>>>,
    st: StatementView<Seq<char>>,
) -> Result<StatementView<int>, Seq<char>> {
    match st {
        StatementView::Pass => Ok(StatementView::Pass),
        StatementView::Expression(e) => match resolve_expr(fns, e) {
            Ok(r) => Ok(StatementView::Expression(r)),
            Err(n) => Err(n),
        },
    }
}

/// Rewrites a statement body from position `i` on.
pub open spec fn resolve_body(
    fns: Seq<FunctionView<Seq<char>>>,
    body: Seq<StatementView<Seq<char>>>,
    i: int,
) -> Result<Seq<StatementView<int>>, Seq<char>>
    decreases body.len() - i,
{
    if i < 0 || i >= body.len() {
        Ok(Seq::empty())
    } else {
        match resolve_stmt(fns, body[i]) {
            Ok(r) => match resolve_body(fns, body, i + 1) {
                Ok(rest) => Ok(seq![r] + rest),
                Err(n) => Err(n),
            },
            Err(n) => Err(n),
        }
    }
}

/// Rewrites one declaration; a failure names this function as the host.
pub open spec fn resolve_function(
    fns: Seq<FunctionView<Seq<char>>>,
    f: FunctionView<Seq<char>>,
) -> Result<FunctionView<int>, UnresolvedReferenceView> {
    match resolve_body(fns, f.body, 0) {
        Ok(body) => Ok(FunctionView { name: f.name, body }),
        Err(n) => Err(UnresolvedReferenceView { name: n, function: f.name }),
    }
}

/// Rewrites the declarations from position `i` on, in order; the first
/// failure wins.
pub open spec fn resolve_functions(
    fns: Seq<FunctionView<Seq<char>>>,
    i: int,
) -> Result<Seq<FunctionView<int>>, UnresolvedReferenceView>
    decreases fns.len() - i,
{
    if i < 0 || i >= fns.len() {
        Ok(Seq::empty())
    } else {
        match resolve_function(fns, fns[i]) {
            Ok(f) => match resolve_functions(fns, i + 1) {
                Ok(rest) => Ok(seq![f] + rest),
                Err(e) => Err(e),
            },
            Err(e) => Err(e),
        }
    }
}

/// What linking a module means: every body rewritten over the full table,
/// and the entry point recorded, if a declaration names it.
pub open spec fn spec_link(fns: Seq<FunctionView<Seq<char>>>) -> Result<
    LibraryView,
    UnresolvedReferenceView,
> {
    match resolve_functions(fns, 0) {
        Ok(resolved) => Ok(
            LibraryView { functions: resolved, main_id: resolve_name(fns, main_name()) },
        ),
        Err(e) => Err(e),
    }
}

/// Does `target` occur as a call target anywhere in this expression?
pub open spec fn expr_calls(e: ExpressionView<Seq<char>>, target: Seq<char>) -> bool
    decreases e, 0int,
{
    match e {
        ExpressionView::Variable { .. } => false,
        ExpressionView::Call { target: t, args } => t == target || args_call(args, 0, target),
    }
}

/// Does `target` occur as a call target in the arguments from `i` on?
pub open spec fn args_call(args: Seq<ExpressionView<Seq<char>>>, i: int, target: Seq<char>) -> bool
    decreases args, args.len() - i,
{
    if i < 0 || i >= args.len() {
        false
    } else {
        expr_calls(args[i], target) || args_call(args, i + 1, target)
    }
}

/// Does `target` occur as a call target in this statement?
pub open spec fn stmt_calls(st: StatementView<Seq<char>>, target: Seq<char>) -> bool {
    match st {
        StatementView::Pass => false,
        StatementView::Expression(e) => expr_calls(e, target),
    }
}

/// Does `target` occur as a call target in the body from `i` on?
pub open spec fn body_calls(body: Seq<StatementView<Seq<char>>>, i: int, target: Seq<char>) -> bool
    decreases body.len() - i,
{
    if i < 0 || i >= body.len() {
        false
    } else {
        stmt_calls(body[i], target) || body_calls(body, i + 1, target)
    }
}

/// Is every call target in this expression a declared name?
pub open spec fn expr_resolvable(fns: Seq<FunctionView<Seq<char>>>, e: ExpressionView<Seq<char>>) -> bool
    decreases e, 0int,
{
    match e {
        ExpressionView::Variable { .. } => true,
        ExpressionView::Call { target, args } => resolve_name(fns, target) is Some
            && args_resolvable(fns, args, 0),
    }
}

/// Is every call target in the arguments from `i` on a declared name?
pub open spec fn args_resolvable(
    fns: Seq<FunctionView<Seq<char>>>,
    args: Seq<ExpressionView<Seq<char>>>,
    i: int,
) -> bool
    decreases args, args.len() - i,
{
    if i < 0 || i >= args.len() {
        true
    } else {
        expr_resolvable(fns, args[i]) && args_resolvable(fns, args, i + 1)
    }
}

/// Is every call target in this statement a declared name?
pub open spec fn stmt_resolvable(
    fns: Seq<FunctionView<Seq<char>>>,
    st: StatementView<Seq<char>>,
) -> bool {
    match st {
        StatementView::Pass => true,
        StatementView::Expression(e) => expr_resolvable(fns, e),
    }
}

/// Is every call target in the body from `i` on a declared name?
pub open spec fn body_resolvable(
    fns: Seq<FunctionView<Seq<char>>>,
    body: Seq<StatementView<Seq<char>>>,
    i: int,
) -> bool
    decreases body.len() - i,
{
    if i < 0 || i >= body.len() {
        true
    } else {
        stmt_resolvable(fns, body[i]) && body_resolvable(fns, body, i + 1)
    }
}

/// Does every call target anywhere in the module name a declared function?
/// Order plays no part: a target may name a function declared later, the
/// host itself, or a mutually recursive partner.
pub open spec fn module_resolvable(fns: Seq<FunctionView<Seq<char>>>) -> bool {
    forall|k: int| 0 <= k < fns.len() ==> body_resolvable(fns, #[trigger] fns[k].body, 0)
}

proof fn lemma_resolve_expr_cases(fns: Seq<FunctionView<Seq<char>>>, e: ExpressionView<Seq<char>>)
    ensures
        resolve_expr(fns, e) is Ok <==> expr_resolvable(fns, e),
        resolve_expr(fns, e) matches Err(n) ==> expr_calls(e, n) && resolve_name(fns, n) is None,
    decreases e, 0int,
{
    match e {
        ExpressionView::Variable { .. } => {},
        ExpressionView::Call { target, args } => {
            lemma_resolve_args_cases(fns, args, 0);
            if resolve_name(fns, target) is None {
                lemma_resolve_name(fns, target);
            }
        },
    }
}

proof fn lemma_resolve_args_cases(
    fns: Seq<FunctionView<Seq<char>>>,
    args: Seq<ExpressionView<Seq<char>>>,
    i: int,
)
    ensures
        resolve_args(fns, args, i) is Ok <==> args_resolvable(fns, args, i),
        resolve_args(fns, args, i) matches Err(n) ==> args_call(args, i, n) && resolve_name(
            fns,
            n,
        ) is None,
    decreases args, args.len() - i,
{
    if 0 <= i < args.len() {
        lemma_resolve_expr_cases(fns, args[i]);
        lemma_resolve_args_cases(fns, args, i + 1);
    }
}

proof fn lemma_resolve_stmt_cases(fns: Seq<FunctionView<Seq<char>>>, st: StatementView<Seq<char>>)
    ensures
        resolve_stmt(fns, st) is Ok <==> stmt_resolvable(fns, st),
        resolve_stmt(fns, st) matches Err(n) ==> stmt_calls(st, n) && resolve_name(fns, n) is None,
{
    match st {
        StatementView::Pass => {},
        StatementView::Expression(e) => {
            lemma_resolve_expr_cases(fns, e);
        },
    }
}

proof fn lemma_resolve_body_cases(
    fns: Seq<FunctionView<Seq<char>>>,
    body: Seq<StatementView<Seq<char>>>,
    i: int,
)
    ensures
        resolve_body(fns, body, i) is Ok <==> body_resolvable(fns, body, i),
        resolve_body(fns, body, i) matches Err(n) ==> body_calls(body, i, n) && resolve_name(
            fns,
            n,
        ) is None,
    decreases body.len() - i,
{
    if 0 <= i < body.len() {
        lemma_resolve_stmt_cases(fns, body[i]);
        lemma_resolve_body_cases(fns, body, i + 1);
    }
}

proof fn lemma_resolve_functions_cases(fns: Seq<FunctionView<Seq<char>>>, i: int)
    requires
        0 <= i <= fns.len(),
    ensures
        resolve_functions(fns, i) is Ok <==> (forall|k: int|
            i <= k < fns.len() ==> body_resolvable(fns, #[trigger] fns[k].body, 0)),
        resolve_functions(fns, i) matches Err(e) ==> resolve_name(fns, e.name) is None && exists|
            k: int,
        |
            i <= k < fns.len() && (#[trigger] fns[k]).name == e.function && body_calls(
                fns[k].body,
                0,
                e.name,
            ),
    decreases fns.len() - i,
{
    if 0 <= i < fns.len() {
        lemma_resolve_body_cases(fns, fns[i].body, 0);
        lemma_resolve_functions_cases(fns, i + 1);
    }
}

/// Resolving the declarations from `i` on preserves their count, order,
/// and each one's resolution.
proof fn lemma_resolve_functions_ok(
    fns: Seq<FunctionView<Seq<char>>>,
    i: int,
    rs: Seq<FunctionView<int>>,
)
    requires
        0 <= i <= fns.len(),
        resolve_functions(fns, i) == Ok::<_, UnresolvedReferenceView>(rs),
    ensures
        rs.len() == fns.len() - i,
        forall|j: int|
            0 <= j < rs.len() ==> resolve_function(fns, fns[i + j]) == Ok::<
                _,
                UnresolvedReferenceView,
            >(#[trigger] rs[j]),
    decreases fns.len() - i,
{
    if i < fns.len() {
        let rest = resolve_functions(fns, i + 1)->Ok_0;
        lemma_resolve_functions_ok(fns, i + 1, rest);
        assert(rs == seq![resolve_function(fns, fns[i])->Ok_0] + rest);
        assert forall|j: int| 0 <= j < rs.len() implies resolve_function(fns, fns[i + j]) == Ok::<
            _,
            UnresolvedReferenceView,
        >(rs[j]) by {
            if j > 0 {
                assert(rs[j] == rest[j - 1]);
            }
        }
    }
}

/// Resolving a body from `i` on preserves statement count and order.
proof fn lemma_resolve_body_ok(
    fns: Seq<FunctionView<Seq<char>>>,
    body: Seq<StatementView<Seq<char>>>,
    i: int,
    rs: Seq<StatementView<int>>,
)
    requires
        0 <= i <= body.len(),
        resolve_body(fns, body, i) == Ok::<_, Seq<char>>(rs),
    ensures
        rs.len() == body.len() - i,
        forall|j: int|
            0 <= j < rs.len() ==> resolve_stmt(fns, body[i + j]) == Ok::<_, Seq<char>>(
                #[trigger] rs[j],
            ),
    decreases body.len() - i,
{
    if i < body.len() {
        let rest = resolve_body(fns, body, i + 1)->Ok_0;
        lemma_resolve_body_ok(fns, body, i + 1, rest);
        assert(rs == seq![resolve_stmt(fns, body[i])->Ok_0] + rest);
        assert forall|j: int| 0 <= j < rs.len() implies resolve_stmt(fns, body[i + j]) == Ok::<
            _,
            Seq<char>,
        >(rs[j]) by {
            if j > 0 {
                assert(rs[j] == rest[j - 1]);
            }
        }
    }
}

/// A linked library has an entry point exactly when the module declares at
/// least one function named `main`; the entry point it records denotes a
/// function in the table that carries that name.
pub proof fn lemma_entry_point(fns: Seq<FunctionView<Seq<char>>>, lib: LibraryView)
    requires
        spec_link(fns) == Ok::<_, UnresolvedReferenceView>(lib),
    ensures
        lib.main_id is Some <==> exists|k: int|
            0 <= k < fns.len() && (#[trigger] fns[k]).name == main_name(),
        match lib.main_id {
            Some(k) => 0 <= k < lib.functions.len() && lib.functions[k].name == main_name(),
            None => true,
        },
{
    lemma_resolve_name(fns, main_name());
    lemma_order_preservation(fns, lib);
    match resolve_name(fns, main_name()) {
        Some(k) => {
            assert(0 <= k < fns.len() && fns[k].name == main_name());
        },
        None => {},
    }
}

/// Order preservation: linking keeps the count of functions, and the k-th
/// declared function keeps position k, its name, its statement count and
/// its statement order — each statement resolving in place.
pub proof fn lemma_order_preservation(fns: Seq<FunctionView<Seq<char>>>, lib: LibraryView)
    requires
        spec_link(fns) == Ok::<_, UnresolvedReferenceView>(lib),
    ensures
        lib.functions.len() == fns.len(),
        forall|k: int|
            0 <= k < fns.len() ==> (#[trigger] lib.functions[k]).name == fns[k].name,
        forall|k: int|
            0 <= k < fns.len() ==> (#[trigger] lib.functions[k]).body.len() == fns[k].body.len(),
        forall|k: int, j: int|
            0 <= k < fns.len() && 0 <= j < fns[k].body.len() ==> resolve_stmt(
                fns,
                fns[k].body[j],
            ) == Ok::<_, Seq<char>>(#[trigger] lib.functions[k].body[j]),
{
    lemma_resolve_functions_ok(fns, 0, lib.functions);
    assert forall|k: int| 0 <= k < fns.len() implies (#[trigger] lib.functions[k]).name
        == fns[k].name && lib.functions[k].body.len() == fns[k].body.len() && (forall|j: int|
        0 <= j < fns[k].body.len() ==> resolve_stmt(fns, fns[k].body[j]) == Ok::<_, Seq<char>>(
            #[trigger] lib.functions[k].body[j],
        )) by {
        assert(resolve_function(fns, fns[k]) == Ok::<_, UnresolvedReferenceView>(
            lib.functions[k],
        ));
        lemma_resolve_body_ok(fns, fns[k].body, 0, lib.functions[k].body);
    }
}

/// Success is owed exactly when every call target in the module names a
/// declared function: forward, self and mutual references all resolve,
/// because resolution runs against the complete table.
pub proof fn lemma_link_succeeds_iff(fns: Seq<FunctionView<Seq<char>>>)
    ensures
        spec_link(fns) is Ok <==> module_resolvable(fns),
{
    lemma_resolve_functions_cases(fns, 0);
}

/// A failed link reports a genuine failure: the reported name occurs as a
/// call target in a declared function carrying the reported host name, and
/// no declaration carries the reported name.
pub proof fn lemma_unresolved_reporting(
    fns: Seq<FunctionView<Seq<char>>>,
    e: UnresolvedReferenceView,
)
    requires
        spec_link(fns) == Err::<LibraryView, _>(e),
    ensures
        resolve_name(fns, e.name) is None,
        forall|j: int| 0 <= j < fns.len() ==> #[trigger] fns[j].name != e.name,
        exists|k: int|
            0 <= k < fns.len() && (#[trigger] fns[k]).name == e.function && body_calls(
                fns[k].body,
                0,
                e.name,
            ),
{
    lemma_resolve_functions_cases(fns, 0);
    lemma_resolve_name(fns, e.name);
}

/// Searches the declarations from the end, so that the last one carrying
/// `name` wins.
fn find_name(fns: &Vec<Function<String>>, name: &String) -> (r: Option<usize>)
    ensures
        match r {
            Some(k) => resolve_name(funcs_view(fns@), name@) == Some(k as int) && k < fns@.len(),
            None => resolve_name(funcs_view(fns@), name@) is None,
        },
{
    let ghost gfns = funcs_view(fns@);
    let mut i = fns.len();
    proof {
        assert(gfns.subrange(0, i as int) =~= gfns);
    }
    while i > 0
        invariant
            i <= fns@.len(),
            gfns == funcs_view(fns@),
            resolve_name(gfns, name@) == resolve_name(gfns.subrange(0, i as int), name@),
        decreases i,
    {
        i = i - 1;
        let f = &fns[i];
        proof {
            let sub = gfns.subrange(0, i + 1);
            assert(sub.last() == gfns[i as int]);
            assert(sub.drop_last() =~= gfns.subrange(0, i as int));
        }
        if f.name == *name {
            return Some(i);
        }
    }
    proof {
        assert(gfns.subrange(0, 0) =~= Seq::<FunctionView<Seq<char>>>::empty());
    }
    None
}

fn resolve_expr_exec(fns: &Vec<Function<String>>, e: &Expression<String>) -> (r: Result<
    Expression<FunctionId>,
    String,
>)
    ensures
        match r {
            Ok(re) => resolve_expr(funcs_view(fns@), e@) == Ok::<_, Seq<char>>(re@),
            Err(n) => resolve_expr(funcs_view(fns@), e@) == Err::<ExpressionView<int>, _>(n@),
        },
    decreases expr_view(*e), 0int,
{
    match e {
        Expression::Variable { name } => Ok(Expression::Variable { name: name.clone() }),
        Expression::Call { target, args } => {
            proof {
                assert(expr_view(*e) == (ExpressionView::Call {
                    target: target@,
                    args: exprs_view(*args),
                }));
            }
            match find_name(fns, target) {
                Some(k) => {
                    match resolve_args_exec(fns, args, 0) {
                        Ok(rargs) => Ok(Expression::Call { target: FunctionId(k), args: rargs }),
                        Err(n) => Err(n),
                    }
                },
                None => Err(target.clone()),
            }
        },
    }
}

fn resolve_args_exec(fns: &Vec<Function<String>>, args: &Vec<Expression<String>>, i: usize) -> (r:
    Result<Vec<Expression<FunctionId>>, String>)
    requires
        i <= args@.len(),
    ensures
        match r {
            Ok(v) => resolve_args(funcs_view(fns@), exprs_view(*args), i as int) == Ok::<
                _,
                Seq<char>,
            >(exprs_view(v)),
            Err(n) => resolve_args(funcs_view(fns@), exprs_view(*args), i as int) == Err::<
                Seq<ExpressionView<int>>,
                _,
            >(n@),
        },
    decreases exprs_view(*args), exprs_view(*args).len() - i,
{
    if i >= args.len() {
        let v: Vec<Expression<FunctionId>> = Vec::new();
        proof {
            lemma_exprs_view_empty(v);
        }
        Ok(v)
    } else {
        let element = &args[i];
        proof {
            assert(exprs_view(*args)[i as int] == expr_view(*element));
        }
        match resolve_expr_exec(fns, element) {
            Ok(re) => {
                match resolve_args_exec(fns, args, i + 1) {
                    Ok(mut rest) => {
                        let ghost re0 = re;
                        let ghost rest0 = rest;
                        let mut v: Vec<Expression<FunctionId>> = Vec::new();
                        v.push(re);
                        v.append(&mut rest);
                        proof {
                            assert(v@ == seq![re0] + rest0@);
                            lemma_exprs_view_cons(re0, rest0, v);
                        }
                        Ok(v)
                    },
                    Err(n) => Err(n),
                }
            },
            Err(n) => Err(n),
        }
    }
}

fn resolve_stmt_exec(fns: &Vec<Function<String>>, st: &Statement<String>) -> (r: Result<
    Statement<FunctionId>,
    String,
>)
    ensures
        match r {
            Ok(rs) => resolve_stmt(funcs_view(fns@), st@) == Ok::<_, Seq<char>>(rs@),
            Err(n) => resolve_stmt(funcs_view(fns@), st@) == Err::<StatementView<int>, _>(n@),
        },
{
    match st {
        Statement::Pass => Ok(Statement::Pass),
        Statement::Expression(e) => match resolve_expr_exec(fns, e) {
            Ok(re) => Ok(Statement::Expression(re)),
            Err(n) => Err(n),
        },
    }
}

fn resolve_body_exec(fns: &Vec<Function<String>>, body: &Vec<Statement<String>>, i: usize) -> (r:
    Result<Vec<Statement<FunctionId>>, String>)
    requires
        i <= body@.len(),
    ensures
        match r {
            Ok(v) => resolve_body(funcs_view(fns@), stmts_view(body@), i as int) == Ok::<
                _,
                Seq<char>,
            >(stmts_view(v@)),
            Err(n) => resolve_body(funcs_view(fns@), stmts_view(body@), i as int) == Err::<
                Seq<StatementView<int>>,
                _,
            >(n@),
        },
    decreases body@.len() - i,
{
    if i >= body.len() {
        let v: Vec<Statement<FunctionId>> = Vec::new();
        proof {
            assert(stmts_view(v@) =~= Seq::<StatementView<int>>::empty());
        }
        Ok(v)
    } else {
        let element = &body[i];
        proof {
            assert(stmts_view(body@)[i as int] == stmt_view(*element));
        }
        match resolve_stmt_exec(fns, element) {
            Ok(rs) => {
                match resolve_body_exec(fns, body, i + 1) {
                    Ok(mut rest) => {
                        let ghost rs0 = rs;
                        let ghost rest0 = rest@;
                        let mut v: Vec<Statement<FunctionId>> = Vec::new();
                        v.push(rs);
                        v.append(&mut rest);
                        proof {
                            assert(v@ == seq![rs0] + rest0);
                            lemma_stmts_view_cons(rs0, rest0, v@);
                        }
                        Ok(v)
                    },
                    Err(n) => Err(n),
                }
            },
            Err(n) => Err(n),
        }
    }
}

fn resolve_function_exec(fns: &Vec<Function<String>>, f: &Function<String>) -> (r: Result<
    Function<FunctionId>,
    UnresolvedReference,
>)
    ensures
        match r {
            Ok(rf) => resolve_function(funcs_view(fns@), f@) == Ok::<_, UnresolvedReferenceView>(
                rf@,
            ),
            Err(e) => resolve_function(funcs_view(fns@), f@) == Err::<FunctionView<int>, _>(e@),
        },
{
    let body_ref: &Vec<Statement<String>> = &f.body;
    match resolve_body_exec(fns, body_ref, 0) {
        Ok(body) => Ok(Function::new(f.name.clone(), body)),
        Err(n) => Err(UnresolvedReference { name: n, function: f.name.clone() }),
    }
}

/// The immutable, linked function table: functions addressed directly by
/// [`FunctionId`], plus the optional entry point.  Never mutated once
/// `link` returns, so any number of readers may share it.
#[derive(Debug)]
pub struct Library {
    main_id: Option<FunctionId>,
    functions: Vec<Function<FunctionId>>,
}

impl Library {
    /// The entry point, when recorded, is a valid index into the table.
    #[verifier::type_invariant]
    closed spec fn wf(self) -> bool {
        match self.main_id {
            Some(id) => id.0 < self.functions.len(),
            None => true,
        }
    }
}

impl View for Library {
    type V = LibraryView;

    closed spec fn view(&self) -> LibraryView {
        LibraryView {
            functions: funcs_view(self.functions@),
            main_id: match self.main_id {
                Some(id) => Some(id.0 as int),
                None => None,
            },
        }
    }
}

impl Library {
    /// Links a module: assigns each declaration the id equal to its
    /// position, rewrites every call target to the id its name resolves to,
    /// and records the entry point bound to the name `main`, if any.
    ///
    /// When several declarations share one name, the last wins in name
    /// resolution (and as entry point), while every declaration still keeps
    /// its own id in the table; earlier ones are then unreachable by name.
    /// A call target that no declaration carries fails the whole link with
    /// an [`UnresolvedReference`]; no partial library is produced.
    pub fn link(module: Module) -> (r: Result<Library, UnresolvedReference>)
        ensures
            match r {
                Ok(lib) => spec_link(module@) == Ok::<_, UnresolvedReferenceView>(lib@),
                Err(e) => spec_link(module@) == Err::<LibraryView, _>(e@),
            },
    {
        let fns = module.functions();
        let ghost gfns = funcs_view(fns@);
        let main_key = String::from_str("main");
        proof {
            reveal_strlit("main");
            assert(main_key@ =~= main_name());
        }
        let main_id = match find_name(&fns, &main_key) {
            Some(k) => Some(FunctionId(k)),
            None => None,
        };
        let mut functions: Vec<Function<FunctionId>> = Vec::new();
        let mut i: usize = 0;
        proof {
            lemma_funcs_view_empty(functions@);
        }
        while i < fns.len()
            invariant
                i <= fns@.len(),
                gfns == funcs_view(fns@),
                gfns == module@,
                functions@.len() == i,
                resolve_functions(gfns, 0) == match resolve_functions(gfns, i as int) {
                    Ok(rest) => Ok(funcs_view(functions@) + rest),
                    Err(e) => Err(e),
                },
            decreases fns@.len() - i,
        {
            let f = &fns[i];
            proof {
                assert(gfns[i as int] == func_view(fns@[i as int]));
            }
            match resolve_function_exec(&fns, f) {
                Ok(rf) => {
                    proof {
                        let m1 = resolve_functions(gfns, i + 1);
                        lemma_funcs_view_push(functions@, rf);
                        if m1 is Ok {
                            let rest = m1->Ok_0;
                            assert(funcs_view(functions@.push(rf)) + rest =~= funcs_view(
                                functions@,
                            ) + (seq![rf@] + rest));
                        }
                    }
                    functions.push(rf);
                    i = i + 1;
                },
                Err(e) => {
                    return Err(e);
                },
            }
        }
        proof {
            assert(funcs_view(functions@) + Seq::<FunctionView<int>>::empty() =~= funcs_view(
                functions@,
            ));
        }
        Ok(Library { main_id, functions })
    }

    /// The number of functions in the table.
    pub fn len(&self) -> (n: usize)
        ensures
            n == self@.functions.len(),
    {
        self.functions.len()
    }

    /// Direct, non-failing access by id.  Valid ids are guaranteed by
    /// construction: they are only ever produced by `link` against this
    /// same library.
    pub fn lookup(&self, id: FunctionId) -> (r: &Function<FunctionId>)
        requires
            id@ < self@.functions.len(),
        ensures
            r@ == self@.functions[id@],
    {
        &self.functions[id.0]
    }

    /// The entry point: the function a declaration named `main` bound last,
    /// if there is one.
    pub fn main(&self) -> (r: Option<&Function<FunctionId>>)
        ensures
            match self@.main_id {
                Some(k) => r matches Some(f) && f@ == self@.functions[k],
                None => r is None,
            },
    {
        proof {
            use_type_invariant(self);
        }
        match self.main_id {
            Some(id) => Some(self.lookup(id)),
            None => None,
        }
    }
}

} // verus!

