//! The grammar, written down once as total specification functions over the
//! source text viewed as a `Seq<char>`.
//!
//! Each function takes the text and a position and says what the rule at that
//! position derives and where it stops, `None` meaning the rule does not match
//! there.  Alternatives are tried in a fixed order and the first match wins,
//! so every function is a mathematical description of one grammar rule:
//!
//! ```text
//! module      := (blank-or-comment-line | function)*         [module_at]
//! function    := "def" ws+ identifier ws* "()" ws* ":" body  [function_at]
//! body        := inline-body | block-body                    [body_at]
//! block-body  := eol blank-lines PREFIX statement
//!                (eol blank-lines PREFIX statement)*         [block_at]
//! statement   := "pass" | expression                         [statement_at]
//! expression  := call | variable | "(" expression ")"        [expr_at]
//! call        := identifier ws* "(" arguments ")"            [call_args_at]
//! identifier  := [A-Za-z_][A-Za-z0-9_]*                      [identifier_at]
//! ```
//!
//! A block's indentation prefix is captured verbatim from the first statement
//! line and every further statement line must reproduce it exactly; the first
//! line that does not ends the block.  The module rule succeeds only when the
//! whole text is consumed.
//!
//! The executable parser in [`crate::parser`] is proved to agree with these
//! functions on every input.

use crate::syntax_tree::{ExpressionView, FunctionView, StatementView};
use vstd::prelude::*;

verus! {

/// Inline whitespace: what may sit between tokens on one line.
pub open spec fn is_space(c: char) -> bool {
    c == ' ' || c == '\t'
}

/// Characters that terminate a line.
pub open spec fn is_line_break(c: char) -> bool {
    c == '\n' || c == '\r'
}

/// Whitespace that may also span lines (inside parenthesized argument lists
/// and between declarations).
pub open spec fn is_multispace(c: char) -> bool {
    is_space(c) || is_line_break(c)
}

pub open spec fn is_ident_start(c: char) -> bool {
    ('a' as u32 <= c as u32 && c as u32 <= 'z' as u32) || ('A' as u32 <= c as u32 && c as u32
        <= 'Z' as u32) || c == '_'
}

pub open spec fn is_ident_char(c: char) -> bool {
    is_ident_start(c) || ('0' as u32 <= c as u32 && c as u32 <= '9' as u32)
}

/// First position at or after `pos` that does not hold inline whitespace.
pub open spec fn skip_spaces(s: Seq<char>, pos: int) -> int
    decreases s.len() - pos,
    when 0 <= pos <= s.len()
{
    if pos < s.len() && is_space(s[pos]) {
        skip_spaces(s, pos + 1)
    } else {
        pos
    }
}

/// First position at or after `pos` that does not hold whitespace of any kind.
pub open spec fn skip_multispace(s: Seq<char>, pos: int) -> int
    decreases s.len() - pos,
    when 0 <= pos <= s.len()
{
    if pos < s.len() && is_multispace(s[pos]) {
        skip_multispace(s, pos + 1)
    } else {
        pos
    }
}

/// End of the run of identifier characters starting at `pos`.
pub open spec fn scan_ident(s: Seq<char>, pos: int) -> int
    decreases s.len() - pos,
    when 0 <= pos <= s.len()
{
    if pos < s.len() && is_ident_char(s[pos]) {
        scan_ident(s, pos + 1)
    } else {
        pos
    }
}

/// End of the run of non-line-break characters starting at `pos` (the extent
/// of a comment).
pub open spec fn scan_line(s: Seq<char>, pos: int) -> int
    decreases s.len() - pos,
    when 0 <= pos <= s.len()
{
    if pos < s.len() && !is_line_break(s[pos]) {
        scan_line(s, pos + 1)
    } else {
        pos
    }
}

/// A line ending: `"\n"` or `"\r\n"`.
pub open spec fn line_ending_end(s: Seq<char>, pos: int) -> Option<int> {
    if pos < s.len() && s[pos] == '\n' {
        Some(pos + 1)
    } else if pos + 1 < s.len() && s[pos] == '\r' && s[pos + 1] == '\n' {
        Some(pos + 2)
    } else {
        None
    }
}

/// End of line: inline whitespace, an optional `#` comment (which must carry
/// at least one character), then a line ending.
pub open spec fn eol_end(s: Seq<char>, pos: int) -> Option<int> {
    let p = skip_spaces(s, pos);
    let q = if p < s.len() && s[p] == '#' && p + 1 < s.len() && !is_line_break(s[p + 1]) {
        scan_line(s, p + 1)
    } else {
        p
    };
    line_ending_end(s, q)
}

/// Zero or more blank or comment-only lines.
pub open spec fn blank_lines_end(s: Seq<char>, pos: int) -> int
    decreases s.len() - pos,
    when 0 <= pos <= s.len()
{
    match eol_end(s, pos) {
        Some(p) => if pos < p <= s.len() {
            blank_lines_end(s, p)
        } else {
            pos
        },
        None => pos,
    }
}

/// An identifier starting at `pos`: where it ends and its characters.
pub open spec fn identifier_at(s: Seq<char>, pos: int) -> Option<(int, Seq<char>)> {
    if pos < s.len() && is_ident_start(s[pos]) {
        let end = scan_ident(s, pos);
        Some((end, s.subrange(pos, end)))
    } else {
        None
    }
}

/// The keyword `pass` starting at `pos`.
pub open spec fn pass_at(s: Seq<char>, pos: int) -> bool {
    pos + 4 <= s.len() && s[pos] == 'p' && s[pos + 1] == 'a' && s[pos + 2] == 's' && s[pos + 3]
        == 's'
}

/// The keyword `def` starting at `pos`.
pub open spec fn def_at(s: Seq<char>, pos: int) -> bool {
    pos + 3 <= s.len() && s[pos] == 'd' && s[pos + 1] == 'e' && s[pos + 2] == 'f'
}

/// An expression at `pos`.  A leading identifier followed (after inline
/// whitespace) by `(` is tried as a call first; if its argument list does not
/// parse, the identifier alone stands as a variable.  Without a leading
/// identifier, a parenthesized expression is tried; the parentheses group
/// only and leave no node.
pub open spec fn expr_at(s: Seq<char>, pos: int) -> Option<(int, ExpressionView<Seq<char>>)>
    decreases s.len() - pos, 0int,
    when 0 <= pos <= s.len()
{
    match identifier_at(s, pos) {
        Some((ie, name)) => if 0 <= ie <= s.len() {
            let p = skip_spaces(s, ie);
            if pos <= p && p < s.len() && s[p] == '(' {
                match call_args_at(s, p + 1) {
                    Some((q, args)) => Some((q, ExpressionView::Call { target: name, args })),
                    None => Some((ie, ExpressionView::Variable { name })),
                }
            } else {
                Some((ie, ExpressionView::Variable { name }))
            }
        } else {
            None
        },
        None => if pos < s.len() && s[pos] == '(' {
            let q1 = skip_multispace(s, pos + 1);
            if pos + 1 <= q1 <= s.len() {
                match expr_at(s, q1) {
                    Some((q2, inner)) => if 0 <= q2 <= s.len() {
                        let q3 = skip_multispace(s, q2);
                        if q3 < s.len() && s[q3] == ')' {
                            Some((q3 + 1, inner))
                        } else {
                            None
                        }
                    } else {
                        None
                    },
                    None => None,
                }
            } else {
                None
            }
        } else {
            None
        },
    }
}

/// The argument list of a call, `pos` standing just after the opening `(`:
/// zero or more comma-separated expressions, each wrapped in whitespace that
/// may span lines, then the closing `)`.  An empty list must close
/// immediately: `f()` has one, `f( )` does not.
pub open spec fn call_args_at(s: Seq<char>, pos: int) -> Option<
    (int, Seq<ExpressionView<Seq<char>>>),
>
    decreases s.len() - pos, 1int,
    when 0 <= pos <= s.len()
{
    let q0 = skip_multispace(s, pos);
    if pos <= q0 <= s.len() {
        match expr_at(s, q0) {
            Some((e1, first)) => if 0 <= e1 <= s.len() {
                let q1 = skip_multispace(s, e1);
                if pos < q1 <= s.len() {
                    match more_args_at(s, q1) {
                        Some((q2, rest)) => Some((q2, seq![first] + rest)),
                        None => None,
                    }
                } else {
                    None
                }
            } else {
                None
            },
            None => if pos < s.len() && s[pos] == ')' {
                Some((pos + 1, Seq::empty()))
            } else {
                None
            },
        }
    } else {
        None
    }
}

/// Continuation of an argument list: either `, expression` repeated, or the
/// closing `)`.  A comma whose following expression does not parse is not
/// consumed, so the close paren must stand where the comma was — which fails,
/// as it should: there is no trailing comma.
pub open spec fn more_args_at(s: Seq<char>, pos: int) -> Option<
    (int, Seq<ExpressionView<Seq<char>>>),
>
    decreases s.len() - pos, 2int,
    when 0 <= pos <= s.len()
{
    if pos < s.len() && s[pos] == ',' {
        let q2 = skip_multispace(s, pos + 1);
        if pos + 1 <= q2 <= s.len() {
            match expr_at(s, q2) {
                Some((e, ev)) => if 0 <= e <= s.len() {
                    let q3 = skip_multispace(s, e);
                    if pos < q3 <= s.len() {
                        match more_args_at(s, q3) {
                            Some((q4, rest)) => Some((q4, seq![ev] + rest)),
                            None => None,
                        }
                    } else {
                        None
                    }
                } else {
                    None
                },
                None => None,
            }
        } else {
            None
        }
    } else if pos < s.len() && s[pos] == ')' {
        Some((pos + 1, Seq::empty()))
    } else {
        None
    }
}

/// A statement: the keyword `pass`, else an expression statement.  `pass` is
/// matched first, so an identifier beginning with those four letters is never
/// read as a variable in statement position.
pub open spec fn statement_at(s: Seq<char>, pos: int) -> Option<(int, StatementView<Seq<char>>)> {
    if pass_at(s, pos) {
        Some((pos + 4, StatementView::Pass))
    } else {
        match expr_at(s, pos) {
            Some((q, e)) => Some((q, StatementView::Expression(e))),
            None => None,
        }
    }
}

/// The statements of a block after its first one.  Each further statement
/// line must repeat the block's exact indentation prefix; the first line that
/// does not (or that holds no statement) ends the block without being
/// consumed.
pub open spec fn block_rest_at(s: Seq<char>, pos: int, prefix: Seq<char>) -> (
    int,
    Seq<StatementView<Seq<char>>>,
)
    decreases s.len() - pos,
    when 0 <= pos <= s.len()
{
    match eol_end(s, pos) {
        Some(p1) => if pos < p1 <= s.len() {
            let p2 = blank_lines_end(s, p1);
            if p1 <= p2 && p2 + prefix.len() <= s.len() && s.subrange(p2, p2 + prefix.len())
                == prefix {
                match statement_at(s, p2 + prefix.len()) {
                    Some((q, st)) => if pos < q <= s.len() {
                        let (qq, rest) = block_rest_at(s, q, prefix);
                        (qq, seq![st] + rest)
                    } else {
                        (pos, Seq::empty())
                    },
                    None => (pos, Seq::empty()),
                }
            } else {
                (pos, Seq::empty())
            }
        } else {
            (pos, Seq::empty())
        },
        None => (pos, Seq::empty()),
    }
}

/// A block body: a line ending, blank lines, then one or more statements.
/// The leading whitespace of the first statement line is captured verbatim as
/// the block's prefix.
pub open spec fn block_at(s: Seq<char>, pos: int) -> Option<(int, Seq<StatementView<Seq<char>>>)> {
    match eol_end(s, pos) {
        Some(p1) => if 0 <= p1 <= s.len() {
            let p2 = blank_lines_end(s, p1);
            if 0 <= p2 <= s.len() {
                let pe = skip_spaces(s, p2);
                if p2 <= pe <= s.len() {
                    let prefix = s.subrange(p2, pe);
                    match statement_at(s, pe) {
                        Some((q, st)) => if 0 <= q <= s.len() {
                            let (qq, rest) = block_rest_at(s, q, prefix);
                            Some((qq, seq![st] + rest))
                        } else {
                            None
                        },
                        None => None,
                    }
                } else {
                    None
                }
            } else {
                None
            }
        } else {
            None
        },
        None => None,
    }
}

/// A function body: a single statement on the definition line, else a block.
pub open spec fn body_at(s: Seq<char>, pos: int) -> Option<(int, Seq<StatementView<Seq<char>>>)> {
    match statement_at(s, pos) {
        Some((q, st)) => Some((q, seq![st])),
        None => block_at(s, pos),
    }
}

/// A function declaration: `def`, at least one space, a name, an empty
/// parameter list `()`, a colon, and a body.  Inline whitespace is free
/// around the punctuation.
pub open spec fn function_at(s: Seq<char>, pos: int) -> Option<(int, FunctionView<Seq<char>>)> {
    if def_at(s, pos) && pos + 3 < s.len() && is_space(s[pos + 3]) {
        let p2 = skip_spaces(s, pos + 4);
        if 0 <= p2 <= s.len() {
            match identifier_at(s, p2) {
                Some((ie, name)) => if 0 <= ie <= s.len() {
                    let p3 = skip_spaces(s, ie);
                    if p3 + 2 <= s.len() && s[p3] == '(' && s[p3 + 1] == ')' {
                        let p4 = skip_spaces(s, p3 + 2);
                        if p4 < s.len() && s[p4] == ':' {
                            let p5 = skip_spaces(s, p4 + 1);
                            if 0 <= p5 <= s.len() {
                                match body_at(s, p5) {
                                    Some((q, body)) => Some((q, FunctionView { name, body })),
                                    None => None,
                                }
                            } else {
                                None
                            }
                        } else {
                            None
                        }
                    } else {
                        None
                    }
                } else {
                    None
                },
                None => None,
            }
        } else {
            None
        }
    } else {
        None
    }
}

/// Whitespace and comment-only lines between declarations.
pub open spec fn skip_trivia(s: Seq<char>, pos: int) -> int
    decreases s.len() - pos,
    when 0 <= pos <= s.len()
{
    let p = skip_multispace(s, pos);
    if pos <= p && p < s.len() && s[p] == '#' {
        let q = scan_line(s, p + 1);
        if pos < q <= s.len() {
            skip_trivia(s, q)
        } else {
            p
        }
    } else {
        p
    }
}

/// The module rule from `pos` on: function declarations separated by trivia,
/// succeeding only when they reach the end of the text.  Anything else left
/// over is a parse failure, not a partial success.
pub open spec fn module_at(s: Seq<char>, pos: int) -> Option<Seq<FunctionView<Seq<char>>>>
    decreases s.len() - pos,
    when 0 <= pos <= s.len()
{
    let p = skip_trivia(s, pos);
    if p == s.len() {
        Some(Seq::empty())
    } else if pos <= p {
        match function_at(s, p) {
            Some((q, f)) => if p < q <= s.len() {
                match module_at(s, q) {
                    Some(rest) => Some(seq![f] + rest),
                    None => None,
                }
            } else {
                None
            },
            None => None,
        }
    } else {
        None
    }
}

/// What the whole source text parses to, if anything: the meaning of
/// `crate::syntax_tree::parse`.
pub open spec fn spec_parse(s: Seq<char>) -> Option<Seq<FunctionView<Seq<char>>>> {
    module_at(s, 0)
}

/// The scanners stay within the text: each one ends at or after where it
/// started and never beyond the end.
pub proof fn lemma_scan_bounds(s: Seq<char>, pos: int)
    requires
        0 <= pos <= s.len(),
    ensures
        pos <= skip_spaces(s, pos) <= s.len(),
        pos <= skip_multispace(s, pos) <= s.len(),
        pos <= scan_ident(s, pos) <= s.len(),
        pos <= scan_line(s, pos) <= s.len(),
    decreases s.len() - pos,
{
    if pos < s.len() {
        lemma_scan_bounds(s, pos + 1);
    }
}

/// `skip_spaces` ends exactly at the first position that does not hold
/// inline whitespace.
pub proof fn lemma_skip_spaces_run(s: Seq<char>, pos: int, b: int)
    requires
        0 <= pos <= b <= s.len(),
        forall|j: int| pos <= j < b ==> is_space(#[trigger] s[j]),
        b == s.len() || !is_space(s[b]),
    ensures
        skip_spaces(s, pos) == b,
    decreases b - pos,
{
    if pos < b {
        lemma_skip_spaces_run(s, pos + 1, b);
    }
}

/// `skip_multispace` ends exactly at the first position that does not hold
/// whitespace of any kind.
pub proof fn lemma_skip_multispace_run(s: Seq<char>, pos: int, b: int)
    requires
        0 <= pos <= b <= s.len(),
        forall|j: int| pos <= j < b ==> is_multispace(#[trigger] s[j]),
        b == s.len() || !is_multispace(s[b]),
    ensures
        skip_multispace(s, pos) == b,
    decreases b - pos,
{
    if pos < b {
        lemma_skip_multispace_run(s, pos + 1, b);
    }
}

/// `scan_ident` ends exactly at the first position that does not hold an
/// identifier character.
pub proof fn lemma_scan_ident_run(s: Seq<char>, pos: int, b: int)
    requires
        0 <= pos <= b <= s.len(),
        forall|j: int| pos <= j < b ==> is_ident_char(#[trigger] s[j]),
        b == s.len() || !is_ident_char(s[b]),
    ensures
        scan_ident(s, pos) == b,
    decreases b - pos,
{
    if pos < b {
        lemma_scan_ident_run(s, pos + 1, b);
    }
}

} // verus!
