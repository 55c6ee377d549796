//! Properties of the grammar proved once and for all: the exact-prefix
//! block rule and the full-consumption rule, each stated over every source
//! text of the relevant shape.

use crate::grammar::{
    blank_lines_end, block_at, block_rest_at, body_at, def_at, eol_end, expr_at, function_at,
    identifier_at, is_ident_char, is_ident_start, is_multispace, is_space, lemma_scan_ident_run,
    lemma_skip_multispace_run, lemma_skip_spaces_run, line_ending_end, module_at, pass_at,
    skip_trivia, spec_parse, statement_at,
};
use crate::syntax_tree::StatementView;
use vstd::prelude::*;

verus! {

/// A function whose block body holds two `pass` lines, the first indented
/// by `n1` spaces and the second by `n2`:
///
/// ```text
/// def f():\n {n1 spaces} pass\n {n2 spaces} pass\n
/// ```
pub open spec fn two_line_block_text(s: Seq<char>, n1: int, n2: int) -> bool {
    &&& n1 >= 0
    &&& n2 >= 0
    &&& s.len() == 19 + n1 + n2
    &&& s[0] == 'd'
    &&& s[1] == 'e'
    &&& s[2] == 'f'
    &&& s[3] == ' '
    &&& s[4] == 'f'
    &&& s[5] == '('
    &&& s[6] == ')'
    &&& s[7] == ':'
    &&& s[8] == '\n'
    &&& forall|j: int| 9 <= j < 9 + n1 ==> #[trigger] s[j] == ' '
    &&& s[9 + n1] == 'p'
    &&& s[10 + n1] == 'a'
    &&& s[11 + n1] == 's'
    &&& s[12 + n1] == 's'
    &&& s[13 + n1] == '\n'
    &&& forall|j: int| 14 + n1 <= j < 14 + n1 + n2 ==> #[trigger] s[j] == ' '
    &&& s[14 + n1 + n2] == 'p'
    &&& s[15 + n1 + n2] == 'a'
    &&& s[16 + n1 + n2] == 's'
    &&& s[17 + n1 + n2] == 's'
    &&& s[18 + n1 + n2] == '\n'
}

/// How the declaration at the head of such a text parses: the block keeps
/// only its first statement when the second line's indentation differs.
proof fn lemma_two_line_block_function(s: Seq<char>, n1: int, n2: int)
    requires
        two_line_block_text(s, n1, n2),
        n1 != n2,
    ensures
        function_at(s, 0) == Some((13 + n1, crate::syntax_tree::FunctionView {
            name: s.subrange(4, 5),
            body: seq![StatementView::<Seq<char>>::Pass],
        })),
{
    let len = s.len();
    // "def" and the single space after it
    assert(def_at(s, 0));
    assert(is_space(s[3]));
    lemma_skip_spaces_run(s, 4, 4);
    // the name: one identifier character
    assert(is_ident_start(s[4]));
    assert(!is_ident_char(s[5]));
    lemma_scan_ident_run(s, 4, 5);
    assert(identifier_at(s, 4) == Some((5int, s.subrange(4, 5))));
    // "()", ":", and the end of the definition line
    lemma_skip_spaces_run(s, 5, 5);
    lemma_skip_spaces_run(s, 7, 7);
    lemma_skip_spaces_run(s, 8, 8);
    // no inline statement on the definition line
    assert(!pass_at(s, 8));
    assert(!is_ident_start(s[8]));
    assert(identifier_at(s, 8) is None);
    assert(expr_at(s, 8) is None);
    assert(statement_at(s, 8) is None);
    // the block: line ending, no blank line, prefix of n1 spaces
    assert(line_ending_end(s, 8) == Some(9int));
    assert(eol_end(s, 8) == Some(9int));
    lemma_skip_spaces_run(s, 9, 9 + n1);
    assert(!is_space(s[9 + n1]));
    assert(line_ending_end(s, 9 + n1) is None);
    assert(eol_end(s, 9) is None);
    assert(blank_lines_end(s, 9) == 9);
    let prefix = s.subrange(9, 9 + n1);
    // the first statement
    assert(pass_at(s, 9 + n1));
    assert(statement_at(s, 9 + n1) == Some((13 + n1, StatementView::<Seq<char>>::Pass)));
    // the second line does not continue the block
    assert(line_ending_end(s, 13 + n1) == Some(14 + n1));
    lemma_skip_spaces_run(s, 13 + n1, 13 + n1);
    assert(eol_end(s, 13 + n1) == Some(14 + n1));
    lemma_skip_spaces_run(s, 14 + n1, 14 + n1 + n2);
    assert(line_ending_end(s, 14 + n1 + n2) is None);
    assert(eol_end(s, 14 + n1) is None);
    assert(blank_lines_end(s, 14 + n1) == 14 + n1);
    if n1 < n2 {
        // the old prefix matches, but only whitespace follows it
        assert(s.subrange(14 + n1, 14 + n1 + n1) =~= prefix) by {
            assert(forall|j: int|
                14 + n1 <= j < 14 + n1 + n1 ==> #[trigger] s[j] == ' ');
        }
        assert(14 + n1 + n1 < 14 + n1 + n2);
        assert(s[14 + n1 + n1] == ' ');
        assert(!pass_at(s, 14 + n1 + n1));
        assert(!is_ident_start(s[14 + n1 + n1]));
        assert(identifier_at(s, 14 + n1 + n1) is None);
        assert(expr_at(s, 14 + n1 + n1) is None);
        assert(statement_at(s, 14 + n1 + n1) is None);
    } else {
        // the old prefix reaches past the shorter indentation
        if 14 + n1 + n1 <= len {
            assert(s.subrange(14 + n1, 14 + n1 + n1)[n2] == s[14 + n1 + n2]);
            assert(s[14 + n1 + n2] == 'p');
            assert(prefix[n2] == ' ');
            assert(s.subrange(14 + n1, 14 + n1 + n1) != prefix);
        }
    }
    assert(block_rest_at(s, 13 + n1, prefix) == (13 + n1, Seq::<StatementView<Seq<char>>>::empty()));
    assert(seq![StatementView::<Seq<char>>::Pass] + Seq::<StatementView<Seq<char>>>::empty()
        =~= seq![StatementView::<Seq<char>>::Pass]);
    assert(block_at(s, 8) == Some((13 + n1, seq![StatementView::<Seq<char>>::Pass])));
    assert(body_at(s, 8) == Some((13 + n1, seq![StatementView::<Seq<char>>::Pass])));
}

/// Exact-prefix block rule: a block body whose second statement line has a
/// different amount of leading whitespace than its first — deeper or
/// shallower — gives the text no parse at all, rather than being read as
/// part of the same block.
pub proof fn lemma_exact_prefix_rule(s: Seq<char>, n1: int, n2: int)
    requires
        two_line_block_text(s, n1, n2),
        n1 != n2,
    ensures
        spec_parse(s) is None,
{
    let len = s.len();
    lemma_two_line_block_function(s, n1, n2);
    // the module rule starts at the declaration itself
    assert(!is_multispace(s[0]));
    lemma_skip_multispace_run(s, 0, 0);
    assert(skip_trivia(s, 0) == 0);
    // after the declaration, trivia reaches the orphaned second line
    assert(forall|j: int| 13 + n1 <= j < 14 + n1 + n2 ==> is_multispace(#[trigger] s[j]));
    assert(!is_multispace(s[14 + n1 + n2]));
    lemma_skip_multispace_run(s, 13 + n1, 14 + n1 + n2);
    assert(skip_trivia(s, 13 + n1) == 14 + n1 + n2);
    // which is not a declaration, so the module rule fails there
    assert(!def_at(s, 14 + n1 + n2));
    assert(function_at(s, 14 + n1 + n2) is None);
    assert(module_at(s, 13 + n1) is None);
    assert(module_at(s, 0) is None);
}

/// A complete one-function module followed by trailing content:
///
/// ```text
/// def f():\n {4 spaces} pass\n {anything that is neither whitespace, nor
/// a comment, nor the start of another declaration}
/// ```
pub open spec fn trailing_content_text(s: Seq<char>) -> bool {
    &&& s.len() > 18
    &&& s[0] == 'd'
    &&& s[1] == 'e'
    &&& s[2] == 'f'
    &&& s[3] == ' '
    &&& s[4] == 'f'
    &&& s[5] == '('
    &&& s[6] == ')'
    &&& s[7] == ':'
    &&& s[8] == '\n'
    &&& s[9] == ' '
    &&& s[10] == ' '
    &&& s[11] == ' '
    &&& s[12] == ' '
    &&& s[13] == 'p'
    &&& s[14] == 'a'
    &&& s[15] == 's'
    &&& s[16] == 's'
    &&& s[17] == '\n'
    &&& !is_multispace(s[18])
    &&& s[18] != '#'
    &&& !def_at(s, 18)
}

/// Full-consumption rule: trailing content after the last function — one
/// that whitespace and comments cannot absorb and that does not begin a
/// further declaration — is a parse failure of the whole text, never a
/// partial success.
pub proof fn lemma_full_consumption(s: Seq<char>)
    requires
        trailing_content_text(s),
    ensures
        spec_parse(s) is None,
{
    let len = s.len();
    // the declaration at the head parses as in the two-line lemma
    assert(def_at(s, 0));
    assert(is_space(s[3]));
    lemma_skip_spaces_run(s, 4, 4);
    assert(is_ident_start(s[4]));
    assert(!is_ident_char(s[5]));
    lemma_scan_ident_run(s, 4, 5);
    assert(identifier_at(s, 4) == Some((5int, s.subrange(4, 5))));
    lemma_skip_spaces_run(s, 5, 5);
    lemma_skip_spaces_run(s, 7, 7);
    lemma_skip_spaces_run(s, 8, 8);
    assert(!pass_at(s, 8));
    assert(!is_ident_start(s[8]));
    assert(identifier_at(s, 8) is None);
    assert(expr_at(s, 8) is None);
    assert(statement_at(s, 8) is None);
    assert(line_ending_end(s, 8) == Some(9int));
    assert(eol_end(s, 8) == Some(9int));
    lemma_skip_spaces_run(s, 9, 13);
    assert(line_ending_end(s, 13) is None);
    assert(eol_end(s, 9) is None);
    assert(blank_lines_end(s, 9) == 9);
    let prefix = s.subrange(9, 13);
    assert(pass_at(s, 13));
    assert(statement_at(s, 13) == Some((17int, StatementView::<Seq<char>>::Pass)));
    // the trailing content does not continue the block ...
    lemma_skip_spaces_run(s, 17, 17);
    assert(line_ending_end(s, 17) == Some(18int));
    assert(eol_end(s, 17) == Some(18int));
    assert(!is_space(s[18]));
    lemma_skip_spaces_run(s, 18, 18);
    assert(line_ending_end(s, 18) is None);
    assert(eol_end(s, 18) is None);
    assert(blank_lines_end(s, 18) == 18);
    if 22 <= len {
        assert(s.subrange(18, 22)[0] == s[18]);
        assert(prefix[0] == ' ');
        assert(s.subrange(18, 22) != prefix);
    }
    assert(block_rest_at(s, 17, prefix) == (17int, Seq::<StatementView<Seq<char>>>::empty()));
    assert(seq![StatementView::<Seq<char>>::Pass] + Seq::<StatementView<Seq<char>>>::empty()
        =~= seq![StatementView::<Seq<char>>::Pass]);
    assert(block_at(s, 8) == Some((17int, seq![StatementView::<Seq<char>>::Pass])));
    assert(body_at(s, 8) == Some((17int, seq![StatementView::<Seq<char>>::Pass])));
    assert(function_at(s, 0) == Some((17int, crate::syntax_tree::FunctionView {
        name: s.subrange(4, 5),
        body: seq![StatementView::<Seq<char>>::Pass],
    })));
    // ... nor can the module rule treat it as trivia or a declaration
    assert(!is_multispace(s[0]));
    lemma_skip_multispace_run(s, 0, 0);
    assert(skip_trivia(s, 0) == 0);
    assert(is_multispace(s[17]));
    lemma_skip_multispace_run(s, 17, 18);
    assert(skip_trivia(s, 17) == 18);
    assert(function_at(s, 18) is None);
    assert(module_at(s, 17) is None);
    assert(module_at(s, 0) is None);
}

} // verus!
