//! The executable recursive-descent parser.
//!
//! Every function here mirrors one rule of [`crate::grammar`] and is proved
//! to return exactly what that rule derives: the same end position and a tree
//! whose view is the derived view, or `None` exactly when the rule derives
//! nothing.  Alongside the verified result, the parser keeps a [`Diag`]
//! record of the deepest failure seen so far and the grammar rules active
//! there, from which [`crate::syntax_tree::parse`] renders its diagnostic;
//! the contracts do not constrain that record.

use crate::grammar;
use crate::syntax_tree::{
    exprs_view, funcs_view, lemma_exprs_view_cons, lemma_exprs_view_empty, lemma_funcs_view_push,
    lemma_stmts_view_cons, stmt_view, stmts_view, Expression, Function, FunctionView, Statement,
    StatementView,
};
use vstd::prelude::*;
use vstd::string::*;

verus! {

fn is_space_c(c: char) -> (b: bool)
    ensures
        b == grammar::is_space(c),
{
    c == ' ' || c == '\t'
}

fn is_line_break_c(c: char) -> (b: bool)
    ensures
        b == grammar::is_line_break(c),
{
    c == '\n' || c == '\r'
}

fn is_multispace_c(c: char) -> (b: bool)
    ensures
        b == grammar::is_multispace(c),
{
    c == ' ' || c == '\t' || c == '\n' || c == '\r'
}

fn is_ident_start_c(c: char) -> (b: bool)
    ensures
        b == grammar::is_ident_start(c),
{
    let u = c as u32;
    ('a' as u32 <= u && u <= 'z' as u32) || ('A' as u32 <= u && u <= 'Z' as u32) || c == '_'
}

fn is_ident_char_c(c: char) -> (b: bool)
    ensures
        b == grammar::is_ident_char(c),
{
    let u = c as u32;
    ('a' as u32 <= u && u <= 'z' as u32) || ('A' as u32 <= u && u <= 'Z' as u32) || ('0' as u32
        <= u && u <= '9' as u32) || c == '_'
}

fn skip_spaces(s: &str, pos: usize) -> (r: usize)
    requires
        pos <= s@.len(),
    ensures
        r == grammar::skip_spaces(s@, pos as int),
        pos <= r <= s@.len(),
{
    let n = s.unicode_len();
    let mut i = pos;
    while i < n && is_space_c(s.get_char(i))
        invariant
            pos <= i <= n,
            n == s@.len(),
            grammar::skip_spaces(s@, pos as int) == grammar::skip_spaces(s@, i as int),
        decreases n - i,
    {
        i = i + 1;
    }
    i
}

fn skip_multispace(s: &str, pos: usize) -> (r: usize)
    requires
        pos <= s@.len(),
    ensures
        r == grammar::skip_multispace(s@, pos as int),
        pos <= r <= s@.len(),
{
    let n = s.unicode_len();
    let mut i = pos;
    while i < n && is_multispace_c(s.get_char(i))
        invariant
            pos <= i <= n,
            n == s@.len(),
            grammar::skip_multispace(s@, pos as int) == grammar::skip_multispace(s@, i as int),
        decreases n - i,
    {
        i = i + 1;
    }
    i
}

fn scan_ident(s: &str, pos: usize) -> (r: usize)
    requires
        pos <= s@.len(),
    ensures
        r == grammar::scan_ident(s@, pos as int),
        pos <= r <= s@.len(),
{
    let n = s.unicode_len();
    let mut i = pos;
    while i < n && is_ident_char_c(s.get_char(i))
        invariant
            pos <= i <= n,
            n == s@.len(),
            grammar::scan_ident(s@, pos as int) == grammar::scan_ident(s@, i as int),
        decreases n - i,
    {
        i = i + 1;
    }
    i
}

fn scan_line(s: &str, pos: usize) -> (r: usize)
    requires
        pos <= s@.len(),
    ensures
        r == grammar::scan_line(s@, pos as int),
        pos <= r <= s@.len(),
{
    let n = s.unicode_len();
    let mut i = pos;
    while i < n && !is_line_break_c(s.get_char(i))
        invariant
            pos <= i <= n,
            n == s@.len(),
            grammar::scan_line(s@, pos as int) == grammar::scan_line(s@, i as int),
        decreases n - i,
    {
        i = i + 1;
    }
    i
}

fn line_ending(s: &str, pos: usize) -> (r: Option<usize>)
    requires
        pos <= s@.len(),
    ensures
        match r {
            Some(p) => grammar::line_ending_end(s@, pos as int) == Some(p as int) && pos < p
                <= s@.len(),
            None => grammar::line_ending_end(s@, pos as int) is None,
        },
{
    let n = s.unicode_len();
    if pos < n && s.get_char(pos) == '\n' {
        Some(pos + 1)
    } else if n - pos >= 2 && s.get_char(pos) == '\r' && s.get_char(pos + 1) == '\n' {
        Some(pos + 2)
    } else {
        None
    }
}

fn eol(s: &str, pos: usize) -> (r: Option<usize>)
    requires
        pos <= s@.len(),
    ensures
        match r {
            Some(p) => grammar::eol_end(s@, pos as int) == Some(p as int) && pos < p <= s@.len(),
            None => grammar::eol_end(s@, pos as int) is None,
        },
{
    let n = s.unicode_len();
    let p = skip_spaces(s, pos);
    let q = if p < n && s.get_char(p) == '#' && n - p >= 2 && !is_line_break_c(s.get_char(p + 1)) {
        scan_line(s, p + 1)
    } else {
        p
    };
    line_ending(s, q)
}

fn blank_lines(s: &str, pos: usize) -> (r: usize)
    requires
        pos <= s@.len(),
    ensures
        r == grammar::blank_lines_end(s@, pos as int),
        pos <= r <= s@.len(),
{
    let n = s.unicode_len();
    let mut i = pos;
    loop
        invariant_except_break
            pos <= i <= n,
            n == s@.len(),
            grammar::blank_lines_end(s@, pos as int) == grammar::blank_lines_end(s@, i as int),
        ensures
            pos <= i <= s@.len(),
            i == grammar::blank_lines_end(s@, pos as int),
        decreases n - i,
    {
        match eol(s, i) {
            Some(p) => {
                i = p;
            },
            None => {
                break ;
            },
        }
    }
    i
}

fn identifier(s: &str, pos: usize) -> (r: Option<(usize, String)>)
    requires
        pos <= s@.len(),
    ensures
        match r {
            Some((ie, name)) => grammar::identifier_at(s@, pos as int) == Some(
                (ie as int, name@),
            ) && pos < ie <= s@.len(),
            None => grammar::identifier_at(s@, pos as int) is None,
        },
{
    let n = s.unicode_len();
    if pos < n && is_ident_start_c(s.get_char(pos)) {
        let end = scan_ident(s, pos);
        assert(end > pos) by {
            grammar::lemma_scan_bounds(s@, pos + 1);
        }
        let name = String::from_str(s.substring_char(pos, end));
        Some((end, name))
    } else {
        None
    }
}

fn pass_kw(s: &str, pos: usize) -> (b: bool)
    requires
        pos <= s@.len(),
    ensures
        b == grammar::pass_at(s@, pos as int),
{
    let n = s.unicode_len();
    n - pos >= 4 && s.get_char(pos) == 'p' && s.get_char(pos + 1) == 'a' && s.get_char(pos + 2)
        == 's' && s.get_char(pos + 3) == 's'
}

fn def_kw(s: &str, pos: usize) -> (b: bool)
    requires
        pos <= s@.len(),
    ensures
        b == grammar::def_at(s@, pos as int),
{
    let n = s.unicode_len();
    n - pos >= 3 && s.get_char(pos) == 'd' && s.get_char(pos + 1) == 'e' && s.get_char(pos + 2)
        == 'f'
}

/// Does the exact string `prefix` stand at `pos` in `s`?
fn has_prefix_at(s: &str, pos: usize, prefix: &str) -> (b: bool)
    requires
        pos <= s@.len(),
    ensures
        b == (pos + prefix@.len() <= s@.len() && s@.subrange(
            pos as int,
            pos + prefix@.len(),
        ) == prefix@),
{
    let n = s.unicode_len();
    let plen = prefix.unicode_len();
    if n - pos < plen {
        return false;
    }
    let mut k: usize = 0;
    while k < plen
        invariant
            0 <= k <= plen,
            plen == prefix@.len(),
            n == s@.len(),
            pos + plen <= n,
            forall|j: int| 0 <= j < k ==> s@[pos + j] == prefix@[j],
        decreases plen - k,
    {
        if s.get_char(pos + k) != prefix.get_char(k) {
            assert(s@.subrange(pos as int, pos + plen) != prefix@) by {
                assert(s@.subrange(pos as int, pos + plen)[k as int] != prefix@[k as int]);
            }
            return false;
        }
        k = k + 1;
    }
    assert(s@.subrange(pos as int, pos + plen) =~= prefix@);
    true
}

/// Record of the deepest failure position seen so far and the grammar rules
/// that were active there, innermost first.  Only the rendering of a failed
/// parse reads it; no contract constrains it.
pub struct Diag {
    pub pos: usize,
    pub chain: Vec<&'static str>,
}

impl Diag {
    pub(crate) fn new() -> Diag {
        Diag { pos: 0, chain: Vec::new() }
    }

    /// Notes that `rule` failed at `pos`: a deeper failure replaces the
    /// record, one at the recorded depth adds the enclosing rule to the
    /// chain as the failure propagates outward.
    fn note(&mut self, pos: usize, rule: &'static str) {
        if pos > self.pos {
            self.pos = pos;
            self.chain = Vec::new();
            self.chain.push(rule);
        } else if pos == self.pos {
            self.chain.push(rule);
        }
    }
}

fn parse_expr(s: &str, pos: usize, diag: &mut Diag) -> (r: Option<(usize, Expression<String>)>)
    requires
        pos <= s@.len(),
    ensures
        match r {
            Some((q, e)) => grammar::expr_at(s@, pos as int) == Some((q as int, e@)) && pos < q
                <= s@.len(),
            None => grammar::expr_at(s@, pos as int) is None,
        },
    decreases s@.len() - pos, 0int,
{
    let n = s.unicode_len();
    match identifier(s, pos) {
        Some((ie, name)) => {
            let p = skip_spaces(s, ie);
            if p < n && s.get_char(p) == '(' {
                match parse_call_args(s, p + 1, diag) {
                    Some((q, args)) => Some((q, Expression::Call { target: name, args })),
                    None => Some((ie, Expression::Variable { name })),
                }
            } else {
                Some((ie, Expression::Variable { name }))
            }
        },
        None => {
            if pos < n && s.get_char(pos) == '(' {
                let q1 = skip_multispace(s, pos + 1);
                match parse_expr(s, q1, diag) {
                    Some((q2, inner)) => {
                        let q3 = skip_multispace(s, q2);
                        if q3 < n && s.get_char(q3) == ')' {
                            Some((q3 + 1, inner))
                        } else {
                            diag.note(q3, "parenthesized");
                            None
                        }
                    },
                    None => {
                        diag.note(q1, "parenthesized");
                        None
                    },
                }
            } else {
                diag.note(pos, "expression");
                None
            }
        },
    }
}

/// The argument list of a call, entered just after the opening parenthesis.
fn parse_call_args(s: &str, pos: usize, diag: &mut Diag) -> (r: Option<
    (usize, Vec<Expression<String>>),
>)
    requires
        pos <= s@.len(),
    ensures
        match r {
            Some((q, args)) => grammar::call_args_at(s@, pos as int) == Some(
                (q as int, exprs_view(args)),
            ) && pos < q <= s@.len(),
            None => grammar::call_args_at(s@, pos as int) is None,
        },
    decreases s@.len() - pos, 1int,
{
    let n = s.unicode_len();
    let q0 = skip_multispace(s, pos);
    match parse_expr(s, q0, diag) {
        Some((e1, first)) => {
            let q1 = skip_multispace(s, e1);
            match parse_more_args(s, q1, diag) {
                Some((q2, mut rest)) => {
                    let ghost first0 = first;
                    let ghost rest0 = rest;
                    let mut args: Vec<Expression<String>> = Vec::new();
                    args.push(first);
                    args.append(&mut rest);
                    proof {
                        assert(args@ == seq![first0] + rest0@);
                        lemma_exprs_view_cons(first0, rest0, args);
                    }
                    Some((q2, args))
                },
                None => {
                    diag.note(q1, "call");
                    None
                },
            }
        },
        None => {
            if pos < n && s.get_char(pos) == ')' {
                let args: Vec<Expression<String>> = Vec::new();
                proof {
                    lemma_exprs_view_empty(args);
                }
                Some((pos + 1, args))
            } else {
                diag.note(pos, "call");
                None
            }
        },
    }
}

/// What follows an argument: either `, expression` repeated, or the closing
/// parenthesis.
fn parse_more_args(s: &str, pos: usize, diag: &mut Diag) -> (r: Option<
    (usize, Vec<Expression<String>>),
>)
    requires
        pos <= s@.len(),
    ensures
        match r {
            Some((q, args)) => grammar::more_args_at(s@, pos as int) == Some(
                (q as int, exprs_view(args)),
            ) && pos < q <= s@.len(),
            None => grammar::more_args_at(s@, pos as int) is None,
        },
    decreases s@.len() - pos, 2int,
{
    let n = s.unicode_len();
    if pos < n && s.get_char(pos) == ',' {
        let q2 = skip_multispace(s, pos + 1);
        match parse_expr(s, q2, diag) {
            Some((e, ev)) => {
                let q3 = skip_multispace(s, e);
                match parse_more_args(s, q3, diag) {
                    Some((q4, mut rest)) => {
                        let ghost ev0 = ev;
                        let ghost rest0 = rest;
                        let mut args: Vec<Expression<String>> = Vec::new();
                        args.push(ev);
                        args.append(&mut rest);
                        proof {
                            assert(args@ == seq![ev0] + rest0@);
                            lemma_exprs_view_cons(ev0, rest0, args);
                        }
                        Some((q4, args))
                    },
                    None => None,
                }
            },
            None => {
                diag.note(q2, "call");
                None
            },
        }
    } else if pos < n && s.get_char(pos) == ')' {
        let args: Vec<Expression<String>> = Vec::new();
        proof {
            lemma_exprs_view_empty(args);
        }
        Some((pos + 1, args))
    } else {
        diag.note(pos, "call");
        None
    }
}

fn parse_statement(s: &str, pos: usize, diag: &mut Diag) -> (r: Option<(usize, Statement<String>)>)
    requires
        pos <= s@.len(),
    ensures
        match r {
            Some((q, st)) => grammar::statement_at(s@, pos as int) == Some((q as int, st@)) && pos
                < q <= s@.len(),
            None => grammar::statement_at(s@, pos as int) is None,
        },
{
    let n = s.unicode_len();
    if pass_kw(s, pos) {
        Some((pos + 4, Statement::Pass))
    } else {
        match parse_expr(s, pos, diag) {
            Some((q, e)) => Some((q, Statement::Expression(e))),
            None => {
                diag.note(pos, "statement");
                None
            },
        }
    }
}

/// The statements of a block after its first one; never fails, the first
/// line that does not continue the block simply ends it.
fn parse_block_rest(s: &str, pos: usize, prefix: &str, diag: &mut Diag) -> (r: (
    usize,
    Vec<Statement<String>>,
))
    requires
        pos <= s@.len(),
    ensures
        grammar::block_rest_at(s@, pos as int, prefix@) == (r.0 as int, stmts_view(r.1@)),
        pos <= r.0 <= s@.len(),
{
    let n = s.unicode_len();
    let plen = prefix.unicode_len();
    let mut cur = pos;
    let mut acc: Vec<Statement<String>> = Vec::new();
    loop
        invariant_except_break
            pos <= cur <= n,
            n == s@.len(),
            plen == prefix@.len(),
            grammar::block_rest_at(s@, pos as int, prefix@).0 == grammar::block_rest_at(
                s@,
                cur as int,
                prefix@,
            ).0,
            grammar::block_rest_at(s@, pos as int, prefix@).1 == stmts_view(acc@)
                + grammar::block_rest_at(s@, cur as int, prefix@).1,
        ensures
            pos <= cur <= s@.len(),
            grammar::block_rest_at(s@, pos as int, prefix@) == (cur as int, stmts_view(acc@)),
        decreases n - cur,
    {
        let ghost stop = (cur as int, Seq::<StatementView<Seq<char>>>::empty());
        match eol(s, cur) {
            Some(p1) => {
                let p2 = blank_lines(s, p1);
                if has_prefix_at(s, p2, prefix) {
                    match parse_statement(s, p2 + plen, diag) {
                        Some((q, st)) => {
                            proof {
                                let rest = grammar::block_rest_at(s@, q as int, prefix@);
                                assert(grammar::block_rest_at(s@, cur as int, prefix@) == (
                                    rest.0,
                                    seq![st@] + rest.1,
                                ));
                                assert(stmts_view(acc@.push(st)) + rest.1 =~= stmts_view(acc@) + (
                                seq![st@] + rest.1)) by {
                                    crate::syntax_tree::lemma_stmts_view_push(acc@, st);
                                }
                            }
                            acc.push(st);
                            cur = q;
                        },
                        None => {
                            proof {
                                assert(grammar::block_rest_at(s@, cur as int, prefix@) == stop);
                                assert(stmts_view(acc@) + stop.1 =~= stmts_view(acc@));
                            }
                            break ;
                        },
                    }
                } else {
                    proof {
                        assert(grammar::block_rest_at(s@, cur as int, prefix@) == stop);
                        assert(stmts_view(acc@) + stop.1 =~= stmts_view(acc@));
                    }
                    break ;
                }
            },
            None => {
                proof {
                    assert(grammar::block_rest_at(s@, cur as int, prefix@) == stop);
                    assert(stmts_view(acc@) + stop.1 =~= stmts_view(acc@));
                }
                break ;
            },
        }
    }
    (cur, acc)
}

/// A block body: line ending, blank lines, the captured indentation prefix,
/// then one or more statements.
fn parse_block(s: &str, pos: usize, diag: &mut Diag) -> (r: Option<
    (usize, Vec<Statement<String>>),
>)
    requires
        pos <= s@.len(),
    ensures
        match r {
            Some((q, body)) => grammar::block_at(s@, pos as int) == Some(
                (q as int, stmts_view(body@)),
            ) && pos < q <= s@.len(),
            None => grammar::block_at(s@, pos as int) is None,
        },
{
    match eol(s, pos) {
        Some(p1) => {
            let p2 = blank_lines(s, p1);
            let pe = skip_spaces(s, p2);
            let prefix = s.substring_char(p2, pe);
            match parse_statement(s, pe, diag) {
                Some((q, st)) => {
                    let (qq, rest) = parse_block_rest(s, q, prefix, diag);
                    let ghost st0 = st;
                    let ghost rest0 = rest@;
                    let mut body: Vec<Statement<String>> = Vec::new();
                    body.push(st);
                    let mut rest_vec = rest;
                    body.append(&mut rest_vec);
                    proof {
                        assert(body@ == seq![st0] + rest0);
                        lemma_stmts_view_cons(st0, rest0, body@);
                    }
                    Some((qq, body))
                },
                None => {
                    diag.note(pe, "block body");
                    None
                },
            }
        },
        None => {
            diag.note(pos, "block body");
            None
        },
    }
}

/// A function body: one statement on the definition line, else a block.
fn parse_body(s: &str, pos: usize, diag: &mut Diag) -> (r: Option<(usize, Vec<Statement<String>>)>)
    requires
        pos <= s@.len(),
    ensures
        match r {
            Some((q, body)) => grammar::body_at(s@, pos as int) == Some(
                (q as int, stmts_view(body@)),
            ) && pos < q <= s@.len(),
            None => grammar::body_at(s@, pos as int) is None,
        },
{
    match parse_statement(s, pos, diag) {
        Some((q, st)) => {
            let ghost st0 = st;
            let mut body: Vec<Statement<String>> = Vec::new();
            body.push(st);
            proof {
                assert(stmts_view(body@) =~= seq![stmt_view(st0)]);
            }
            Some((q, body))
        },
        None => parse_block(s, pos, diag),
    }
}

/// A function declaration: `def`, whitespace, the name, `()`, `:`, a body.
fn parse_function(s: &str, pos: usize, diag: &mut Diag) -> (r: Option<(usize, Function<String>)>)
    requires
        pos <= s@.len(),
    ensures
        match r {
            Some((q, f)) => grammar::function_at(s@, pos as int) == Some((q as int, f@)) && pos < q
                <= s@.len(),
            None => grammar::function_at(s@, pos as int) is None,
        },
{
    let n = s.unicode_len();
    if !def_kw(s, pos) {
        diag.note(pos, "function");
        return None;
    }
    if !(pos + 3 < n && is_space_c(s.get_char(pos + 3))) {
        diag.note(pos + 3, "function");
        return None;
    }
    let p2 = skip_spaces(s, pos + 4);
    match identifier(s, p2) {
        Some((ie, name)) => {
            let p3 = skip_spaces(s, ie);
            if !(n - p3 >= 2 && s.get_char(p3) == '(' && s.get_char(p3 + 1) == ')') {
                diag.note(p3, "function");
                return None;
            }
            let p4 = skip_spaces(s, p3 + 2);
            if !(p4 < n && s.get_char(p4) == ':') {
                diag.note(p4, "function");
                return None;
            }
            let p5 = skip_spaces(s, p4 + 1);
            match parse_body(s, p5, diag) {
                Some((q, body)) => Some((q, Function::new(name, body))),
                None => {
                    diag.note(pos, "function");
                    None
                },
            }
        },
        None => {
            diag.note(p2, "identifier");
            diag.note(p2, "function");
            None
        },
    }
}

/// Whitespace and comment-only lines between declarations.
fn skip_trivia(s: &str, pos: usize) -> (r: usize)
    requires
        pos <= s@.len(),
    ensures
        r == grammar::skip_trivia(s@, pos as int),
        pos <= r <= s@.len(),
{
    let n = s.unicode_len();
    let mut i = pos;
    loop
        invariant
            pos <= i <= n,
            n == s@.len(),
            grammar::skip_trivia(s@, pos as int) == grammar::skip_trivia(s@, i as int),
        decreases n - i,
    {
        let p = skip_multispace(s, i);
        if p < n && s.get_char(p) == '#' {
            let q = scan_line(s, p + 1);
            i = q;
        } else {
            return p;
        }
    }
}

/// The module rule: declarations separated by trivia, until the end of the
/// text.  Anything left over that is not a declaration fails the parse.
pub(crate) fn parse_module(s: &str, pos: usize, diag: &mut Diag) -> (r: Option<
    Vec<Function<String>>,
>)
    requires
        pos <= s@.len(),
    ensures
        match r {
            Some(fns) => grammar::module_at(s@, pos as int) == Some(funcs_view(fns@)),
            None => grammar::module_at(s@, pos as int) is None,
        },
{
    let n = s.unicode_len();
    let mut cur = pos;
    let mut acc: Vec<Function<String>> = Vec::new();
    loop
        invariant
            pos <= cur <= n,
            n == s@.len(),
            grammar::module_at(s@, pos as int) == match grammar::module_at(s@, cur as int) {
                Some(rest) => Some(funcs_view(acc@) + rest),
                None => None::<Seq<FunctionView<Seq<char>>>>,
            },
        decreases n - cur,
    {
        let p = skip_trivia(s, cur);
        if p == n {
            proof {
                assert(grammar::module_at(s@, cur as int) == Some(
                    Seq::<FunctionView<Seq<char>>>::empty(),
                ));
                assert(funcs_view(acc@) + Seq::<FunctionView<Seq<char>>>::empty() =~= funcs_view(
                    acc@,
                ));
            }
            return Some(acc);
        }
        match parse_function(s, p, diag) {
            Some((q, f)) => {
                proof {
                    let mq = grammar::module_at(s@, q as int);
                    assert(grammar::module_at(s@, cur as int) == match mq {
                        Some(rest) => Some(seq![f@] + rest),
                        None => None::<Seq<FunctionView<Seq<char>>>>,
                    });
                    lemma_funcs_view_push(acc@, f);
                    if mq is Some {
                        let rest = mq->0;
                        assert(funcs_view(acc@.push(f)) + rest =~= funcs_view(acc@) + (seq![f@]
                            + rest));
                    }
                }
                acc.push(f);
                cur = q;
            },
            None => {
                diag.note(p, "module");
                return None;
            },
        }
    }
}

fn digit_str(d: usize) -> &'static str
    requires
        d < 10,
{
    match d {
        0 => "0",
        1 => "1",
        2 => "2",
        3 => "3",
        4 => "4",
        5 => "5",
        6 => "6",
        7 => "7",
        8 => "8",
        _ => "9",
    }
}

/// Appends the decimal digits of `n` to `out`.
fn push_decimal(out: &mut String, n: usize) {
    let mut digits: Vec<&'static str> = Vec::new();
    let mut m = n;
    loop
        decreases m,
    {
        let d = m % 10;
        digits.push(digit_str(d));
        m = m / 10;
        if m == 0 {
            break ;
        }
    }
    let mut i = digits.len();
    while i > 0
        invariant
            i <= digits.len(),
        decreases i,
    {
        i = i - 1;
        out.append(digits[i]);
    }
}

/// Renders the recorded deepest failure: its line and column, the source
/// line it sits on with a caret underneath, and the chain of grammar rules
/// that were active, outermost first.
pub(crate) fn render_error(s: &str, diag: &Diag) -> String {
    let n = s.unicode_len();
    let pos = if diag.pos > n {
        n
    } else {
        diag.pos
    };
    let mut line: usize = 1;
    let mut line_start: usize = 0;
    let mut i: usize = 0;
    while i < pos
        invariant
            i <= pos,
            pos <= n,
            n == s@.len(),
            line_start <= pos,
        decreases pos - i,
    {
        if s.get_char(i) == '\n' {
            line = line.saturating_add(1);
            line_start = i + 1;
        }
        i = i + 1;
    }
    let line_end = scan_line(s, line_start);
    let col = (pos - line_start).saturating_add(1);
    let mut out = String::new();
    out.append("parse error at line ");
    push_decimal(&mut out, line);
    out.append(", column ");
    push_decimal(&mut out, col);
    out.append(":\n");
    out.append(s.substring_char(line_start, line_end));
    out.append("\n");
    let mut k: usize = 1;
    while k < col
        invariant
            1 <= k,
        decreases col - k,
    {
        out.append(" ");
        k = k + 1;
    }
    out.append("^\n");
    out.append("expected ");
    let mut j = diag.chain.len();
    let mut sep = false;
    while j > 0
        invariant
            j <= diag.chain.len(),
        decreases j,
    {
        j = j - 1;
        if sep {
            out.append(" > ");
        }
        out.append(diag.chain[j]);
        sep = true;
    }
    out
}

} // verus!
