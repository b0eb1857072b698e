//! The lexical grammar of token-stream text.
//!
//! Tokens: delimited groups, identifiers (with the `r#` raw form), numeric
//! literals (digits then any identifier characters or a decimal point not
//! followed by a second one), string / character / byte-string literals with
//! backslash escapes, and single punctuation characters, marked `Joint` when
//! directly followed by another punctuation character. Whitespace, line
//! comments and nested block comments separate tokens. A text parses as a
//! stream only when it holds at least one token, every delimiter matches
//! and every block comment is terminated.

use vstd::prelude::*;
use crate::token::{Delimiter, Group, GroupV, Ident, IdentV, LitV, Literal, Punct, PunctV, Spacing, Span, TokenStream, TokenTree, TreeV, ident_text_valid, is_ident_continue, is_ident_start, tree_view};
use crate::strext::push_char;
use crate::numfmt::{dec_digits, dec_int, digit_char};
use crate::escape::{byte_escape, byte_string_lit_body, byte_string_lit_text, char_lit_text, escape_char_default, hex_char_lower, hex_char_upper, hex_digits_lower, string_lit_body, string_lit_text};

verus! {

/// Parse failure: the input is not a well-formed token stream.
#[derive(Debug)]
pub struct LexError {}

pub open spec fn is_ws(c: char) -> bool {
    c == ' ' || c == '\t' || c == '\n' || c == '\r'
}

pub open spec fn is_digit(c: char) -> bool {
    '0' <= c && c <= '9'
}

/// A character that continues a punctuation run: a following token starting
/// with one keeps the previous punctuation `Joint`.
pub open spec fn is_punct_follow(c: char) -> bool {
    &&& !is_ws(c)
    &&& !is_ident_continue(c)
    &&& c != '(' && c != ')' && c != '[' && c != ']' && c != '{' && c != '}'
    &&& c != '"' && c != '\''
}

/// The index just past a line comment's body: after the next newline, or
/// the end of input.
pub open spec fn line_comment_end(s: Seq<char>, i: int) -> int
    decreases s.len() - i,
{
    if 0 <= i < s.len() {
        if s[i] == '\n' {
            i + 1
        } else {
            line_comment_end(s, i + 1)
        }
    } else {
        i
    }
}

/// The index just past the close matching `depth` open block comments,
/// scanning from `i`; block comments nest. An unterminated comment yields
/// the out-of-range index one past the input, which the token scanner
/// treats as a parse failure.
pub open spec fn block_comment_end(s: Seq<char>, i: int, depth: nat) -> int
    decreases s.len() - i,
{
    if depth == 0 {
        i
    } else if 0 <= i < s.len() {
        if s[i] == '*' && i + 1 < s.len() && s[i + 1] == '/' {
            block_comment_end(s, i + 2, (depth - 1) as nat)
        } else if s[i] == '/' && i + 1 < s.len() && s[i + 1] == '*' {
            block_comment_end(s, i + 2, depth + 1)
        } else {
            block_comment_end(s, i + 1, depth)
        }
    } else {
        s.len() + 1 as int
    }
}

/// The first index at or after `i` holding a token: whitespace, line
/// comments and block comments are passed over. An unterminated block
/// comment yields the out-of-range index one past the input.
pub open spec fn skip_trivia(s: Seq<char>, i: int) -> int
    decreases s.len() - i,
{
    if 0 <= i < s.len() {
        if is_ws(s[i]) {
            skip_trivia(s, i + 1)
        } else if s[i] == '/' && i + 1 < s.len() && s[i + 1] == '/' {
            let j = line_comment_end(s, i + 2);
            if j <= i || j > s.len() {
                j
            } else {
                skip_trivia(s, j)
            }
        } else if s[i] == '/' && i + 1 < s.len() && s[i + 1] == '*' {
            let j = block_comment_end(s, i + 2, 1);
            if j <= i || j > s.len() {
                j
            } else {
                skip_trivia(s, j)
            }
        } else {
            i
        }
    } else {
        i
    }
}

/// The end of a numeric literal starting at `i`: identifier characters and
/// decimal points not followed by a second point.
/// A sign continues a numeric literal only directly after an exponent
/// marker.
pub open spec fn is_exponent_sign(s: Seq<char>, i: int) -> bool {
    (s[i] == '+' || s[i] == '-') && i > 0 && (s[i - 1] == 'e' || s[i - 1] == 'E')
}

pub open spec fn num_end(s: Seq<char>, i: int) -> int
    decreases s.len() - i,
{
    if 0 <= i < s.len() && (is_ident_continue(s[i]) || (s[i] == '.' && !(i + 1 < s.len() && s[i
        + 1] == '.')) || is_exponent_sign(s, i)) {
        num_end(s, i + 1)
    } else {
        i
    }
}

/// The end of an identifier run starting at `i`.
pub open spec fn ident_end(s: Seq<char>, i: int) -> int
    decreases s.len() - i,
{
    if 0 <= i < s.len() && is_ident_continue(s[i]) {
        ident_end(s, i + 1)
    } else {
        i
    }
}

/// The index just past the closing quote `q`, scanning from `i`, where a
/// backslash skips the following character. `None` when unterminated.
pub open spec fn quoted_end(s: Seq<char>, i: int, q: char) -> Option<int>
    decreases s.len() - i,
{
    if 0 <= i < s.len() {
        if s[i] == q {
            Some(i + 1)
        } else if s[i] == '\\' {
            if i + 1 < s.len() {
                quoted_end(s, i + 2, q)
            } else {
                None
            }
        } else {
            quoted_end(s, i + 1, q)
        }
    } else {
        None
    }
}

pub open spec fn close_for(c: char) -> char {
    if c == '(' {
        ')'
    } else if c == '[' {
        ']'
    } else {
        '}'
    }
}

pub open spec fn delim_for(c: char) -> Delimiter {
    if c == '(' {
        Delimiter::Parenthesis
    } else if c == '[' {
        Delimiter::Bracket
    } else {
        Delimiter::Brace
    }
}

/// One token starting at the non-whitespace position `i`: the tree and the
/// index just past it. `None` on any lexical error, including an unexpected
/// closing delimiter.
pub open spec fn lex_tree(s: Seq<char>, i: int) -> Option<(TreeV, int)>
    decreases s.len() - i, 0int,
{
    if !(0 <= i < s.len()) {
        None
    } else {
        let c = s[i];
        if c == '(' || c == '[' || c == '{' {
            match lex_trees(s, i + 1, Some(close_for(c))) {
                Some(p) => Some(
                    (
                        TreeV::Group(
                            GroupV {
                                delimiter: delim_for(c),
                                stream: p.0,
                                span: Span { handle: 0u32 },
                            },
                        ),
                        p.1,
                    ),
                ),
                None => None,
            }
        } else if c == ')' || c == ']' || c == '}' {
            None
        } else if is_digit(c) {
            let j = num_end(s, i);
            if i < j <= s.len() {
                Some((TreeV::Literal(LitV { text: s.subrange(i, j), span: Span { handle: 0u32 } }), j))
            } else {
                None
            }
        } else if c == 'b' && i + 1 < s.len() && s[i + 1] == '"' {
            match quoted_end(s, i + 2, '"') {
                Some(j) => Some(
                    (TreeV::Literal(LitV { text: s.subrange(i, j), span: Span { handle: 0u32 } }), j),
                ),
                None => None,
            }
        } else if c == 'r' && i + 2 < s.len() && s[i + 1] == '#' && is_ident_start(s[i + 2]) {
            let j = ident_end(s, i + 2);
            if i + 2 < j <= s.len() {
                Some(
                    (
                        TreeV::Ident(
                            IdentV { sym: s.subrange(i + 2, j), span: Span { handle: 0u32 }, raw: true },
                        ),
                        j,
                    ),
                )
            } else {
                None
            }
        } else if is_ident_start(c) {
            let j = ident_end(s, i);
            if i < j <= s.len() {
                Some(
                    (
                        TreeV::Ident(
                            IdentV { sym: s.subrange(i, j), span: Span { handle: 0u32 }, raw: false },
                        ),
                        j,
                    ),
                )
            } else {
                None
            }
        } else if c == '"' {
            match quoted_end(s, i + 1, '"') {
                Some(j) => Some(
                    (TreeV::Literal(LitV { text: s.subrange(i, j), span: Span { handle: 0u32 } }), j),
                ),
                None => None,
            }
        } else if c == '\'' {
            if i + 1 < s.len() && s[i + 1] == '\\' {
                match quoted_end(s, i + 1, '\'') {
                    Some(j) => Some(
                        (
                            TreeV::Literal(
                                LitV { text: s.subrange(i, j), span: Span { handle: 0u32 } },
                            ),
                            j,
                        ),
                    ),
                    None => None,
                }
            } else if i + 2 < s.len() && s[i + 2] == '\'' && s[i + 1] != '\'' {
                Some(
                    (
                        TreeV::Literal(
                            LitV { text: s.subrange(i, i + 3), span: Span { handle: 0u32 } },
                        ),
                        i + 3,
                    ),
                )
            } else {
                let joint = i + 1 < s.len() && is_ident_start(s[i + 1]);
                Some(
                    (
                        TreeV::Punct(
                            PunctV {
                                op: c,
                                spacing: if joint {
                                    Spacing::Joint
                                } else {
                                    Spacing::Alone
                                },
                                span: Span { handle: 0u32 },
                            },
                        ),
                        i + 1,
                    ),
                )
            }
        } else {
            let joint = i + 1 < s.len() && is_punct_follow(s[i + 1]);
            Some(
                (
                    TreeV::Punct(
                        PunctV {
                            op: c,
                            spacing: if joint {
                                Spacing::Joint
                            } else {
                                Spacing::Alone
                            },
                            span: Span { handle: 0u32 },
                        },
                    ),
                    i + 1,
                ),
            )
        }
    }
}

/// A token sequence from `i` up to the closing delimiter `close` (consumed),
/// or to the end of input when `close` is `None`.
pub open spec fn lex_trees(s: Seq<char>, i: int, close: Option<char>) -> Option<(Seq<TreeV>, int)>
    decreases s.len() - i, 1int,
{
    if !(0 <= i <= s.len()) {
        None
    } else {
        let j = skip_trivia(s, i);
        if j < i || j > s.len() {
            None
        } else if j == s.len() {
            match close {
                Option::None => Some((Seq::empty(), j)),
                Option::Some(_) => None,
            }
        } else if (match close {
            Option::Some(cc) => s[j] == cc,
            Option::None => false,
        }) {
            Some((Seq::empty(), j + 1))
        } else {
            match lex_tree(s, j) {
                None => None,
                Some(p) => {
                    if p.1 <= j || p.1 > s.len() {
                        None
                    } else {
                        match lex_trees(s, p.1, close) {
                            None => None,
                            Some(q) => Some((seq![p.0] + q.0, q.1)),
                        }
                    }
                },
            }
        }
    }
}

/// What `from_str` accepts: the whole input lexes, with at least one token.
pub open spec fn parse_stream(s: Seq<char>) -> Option<Seq<TreeV>> {
    match lex_trees(s, 0, Option::None) {
        Option::None => Option::None,
        Some(p) => if p.0.len() == 0 {
            Option::None
        } else {
            Some(p.0)
        },
    }
}

/// The end of one literal token starting at `i`, if any.
pub open spec fn literal_token_end(s: Seq<char>, i: int) -> Option<int> {
    if !(0 <= i < s.len()) {
        None
    } else if is_digit(s[i]) {
        let j = num_end(s, i);
        if i < j <= s.len() {
            Some(j)
        } else {
            None
        }
    } else if s[i] == '"' {
        quoted_end(s, i + 1, '"')
    } else if s[i] == 'b' && i + 1 < s.len() && s[i + 1] == '"' {
        quoted_end(s, i + 2, '"')
    } else if s[i] == '\'' {
        if i + 1 < s.len() && s[i + 1] == '\\' {
            quoted_end(s, i + 1, '\'')
        } else if i + 2 < s.len() && s[i + 2] == '\'' && s[i + 1] != '\'' {
            Some(i + 3)
        } else {
            None
        }
    } else {
        None
    }
}

/// A text that re-lexes as exactly one literal token, an optional leading
/// minus sign included, consuming the whole text.
pub open spec fn literal_text_ok(s: Seq<char>) -> bool {
    let start: int = if s.len() > 0 && s[0] == '-' {
        1
    } else {
        0
    };
    &&& (start == 1 ==> s.len() > 1 && is_digit(s[1]))
    &&& (match literal_token_end(s, start) {
        Some(j) => j == s.len(),
        None => false,
    })
}

// ---------------------------------------------------------------------------
// Bounds of the scanners.
// ---------------------------------------------------------------------------

pub proof fn lemma_line_comment_end(s: Seq<char>, i: int)
    requires
        0 <= i <= s.len(),
    ensures
        i <= line_comment_end(s, i) <= s.len(),
    decreases s.len() - i,
{
    if i < s.len() && s[i] != '\n' {
        lemma_line_comment_end(s, i + 1);
    }
}

pub proof fn lemma_block_comment_end(s: Seq<char>, i: int, depth: nat)
    requires
        0 <= i <= s.len(),
    ensures
        i <= block_comment_end(s, i, depth) <= s.len() + 1,
    decreases s.len() - i,
{
    if depth == 0 {
    } else if i < s.len() {
        if s[i] == '*' && i + 1 < s.len() && s[i + 1] == '/' {
            lemma_block_comment_end(s, i + 2, (depth - 1) as nat);
        } else if s[i] == '/' && i + 1 < s.len() && s[i + 1] == '*' {
            lemma_block_comment_end(s, i + 2, depth + 1);
        } else {
            lemma_block_comment_end(s, i + 1, depth);
        }
    }
}

pub proof fn lemma_skip_trivia(s: Seq<char>, i: int)
    requires
        0 <= i <= s.len(),
    ensures
        i <= skip_trivia(s, i) <= s.len() + 1,
    decreases s.len() - i,
{
    if i < s.len() {
        if is_ws(s[i]) {
            lemma_skip_trivia(s, i + 1);
        } else if s[i] == '/' && i + 1 < s.len() && s[i + 1] == '/' {
            lemma_line_comment_end(s, i + 2);
            let j = line_comment_end(s, i + 2);
            if i < j <= s.len() {
                lemma_skip_trivia(s, j);
            }
        } else if s[i] == '/' && i + 1 < s.len() && s[i + 1] == '*' {
            lemma_block_comment_end(s, i + 2, 1);
            let j = block_comment_end(s, i + 2, 1);
            if i < j <= s.len() {
                lemma_skip_trivia(s, j);
            }
        }
    }
}

pub proof fn lemma_num_end(s: Seq<char>, i: int)
    requires
        0 <= i <= s.len(),
    ensures
        i <= num_end(s, i) <= s.len(),
        (i < s.len() && is_ident_continue(s[i])) ==> i < num_end(s, i),
    decreases s.len() - i,
{
    if i < s.len() && (is_ident_continue(s[i]) || (s[i] == '.' && !(i + 1 < s.len() && s[i + 1]
        == '.')) || is_exponent_sign(s, i)) {
        lemma_num_end(s, i + 1);
    }
}

pub proof fn lemma_ident_end(s: Seq<char>, i: int)
    requires
        0 <= i <= s.len(),
    ensures
        i <= ident_end(s, i) <= s.len(),
        forall|k: int| i <= k < ident_end(s, i) ==> is_ident_continue(s[k]),
        ident_end(s, i) < s.len() ==> !is_ident_continue(s[ident_end(s, i)]),
        (i < s.len() && is_ident_continue(s[i])) ==> i < ident_end(s, i),
    decreases s.len() - i,
{
    if i < s.len() && is_ident_continue(s[i]) {
        lemma_ident_end(s, i + 1);
    }
}

pub proof fn lemma_quoted_end(s: Seq<char>, i: int, q: char)
    requires
        0 <= i,
    ensures
        quoted_end(s, i, q) matches Some(j) ==> i < j <= s.len(),
    decreases s.len() - i,
{
    if 0 <= i < s.len() {
        if s[i] == q {
        } else if s[i] == '\\' {
            if i + 1 < s.len() {
                lemma_quoted_end(s, i + 2, q);
            }
        } else {
            lemma_quoted_end(s, i + 1, q);
        }
    }
}

/// A scanned identifier run is a well-formed identifier text.
pub proof fn lemma_scanned_ident_valid(s: Seq<char>, i: int, j: int)
    requires
        0 <= i < s.len(),
        is_ident_start(s[i]),
        j == ident_end(s, i),
        i < j <= s.len(),
    ensures
        ident_text_valid(s.subrange(i, j)),
{
    lemma_ident_end(s, i);
    let sub = s.subrange(i, j);
    assert(sub[0] == s[i]);
    assert(!('0' <= sub[0] <= '9'));
    assert(forall|k: int| 0 < k < sub.len() ==> is_ident_continue(#[trigger] sub[k]));
}

// ---------------------------------------------------------------------------
// Executable lexer.
// ---------------------------------------------------------------------------

fn line_comment_end_exec(s: &str, i: usize, len: usize) -> (r: usize)
    requires
        len == s@.len(),
        i <= len,
    ensures
        r == line_comment_end(s@, i as int),
        i <= r <= len,
    decreases len - i,
{
    proof {
        lemma_line_comment_end(s@, i as int);
    }
    if i < len {
        if s.get_char(i) == '\n' {
            return i + 1;
        }
        return line_comment_end_exec(s, i + 1, len);
    }
    i
}

/// Scans past the matching close of one block comment opening; `None` for
/// an unterminated comment.
fn block_comment_end_exec(s: &str, start: usize, len: usize) -> (r: Option<usize>)
    requires
        len == s@.len(),
        start <= len,
    ensures
        (r matches Some(j) ==> j as int == block_comment_end(s@, start as int, 1) && start <= j
            <= len),
        r is None ==> block_comment_end(s@, start as int, 1) == s@.len() + 1,
{
    let mut j = start;
    let mut depth: usize = 1;
    loop
        invariant
            len == s@.len(),
            start <= j <= len,
            1 <= depth,
            depth <= (j - start) / 2 + 1,
            block_comment_end(s@, start as int, 1) == block_comment_end(
                s@,
                j as int,
                depth as nat,
            ),
        decreases len - j,
    {
        if j >= len {
            return None;
        }
        let c = s.get_char(j);
        if c == '*' && j + 1 < len && s.get_char(j + 1) == '/' {
            if depth == 1 {
                proof {
                    assert(block_comment_end(s@, j as int, 1nat) == block_comment_end(
                        s@,
                        j + 2 as int,
                        0nat,
                    ));
                    assert(block_comment_end(s@, j + 2 as int, 0nat) == j + 2);
                }
                return Some(j + 2);
            }
            depth = depth - 1;
            j = j + 2;
        } else if c == '/' && j + 1 < len && s.get_char(j + 1) == '*' {
            depth = depth + 1;
            j = j + 2;
        } else {
            j = j + 1;
        }
    }
}

/// Passes over whitespace and comments; `None` when an unterminated block
/// comment swallows the rest of the input.
fn skip_trivia_exec(s: &str, i: usize, len: usize) -> (r: Option<usize>)
    requires
        len == s@.len(),
        i <= len,
    ensures
        (r matches Some(j) ==> j == skip_trivia(s@, i as int) && i <= j <= len),
        r is None ==> skip_trivia(s@, i as int) > s@.len(),
    decreases len - i,
{
    proof {
        lemma_skip_trivia(s@, i as int);
    }
    if i < len {
        let c = s.get_char(i);
        if c == ' ' || c == '\t' || c == '\n' || c == '\r' {
            return skip_trivia_exec(s, i + 1, len);
        }
        if c == '/' && i + 1 < len {
            let c2 = s.get_char(i + 1);
            if c2 == '/' {
                let j = line_comment_end_exec(s, i + 2, len);
                return skip_trivia_exec(s, j, len);
            }
            if c2 == '*' {
                match block_comment_end_exec(s, i + 2, len) {
                    Some(j) => {
                        return skip_trivia_exec(s, j, len);
                    },
                    None => {
                        return None;
                    },
                }
            }
        }
    }
    Some(i)
}

fn is_ident_continue_exec(c: char) -> (r: bool)
    ensures
        r == is_ident_continue(c),
{
    ('a' <= c && c <= 'z') || ('A' <= c && c <= 'Z') || c == '_' || ('0' <= c && c <= '9')
}

fn is_ident_start_exec(c: char) -> (r: bool)
    ensures
        r == is_ident_start(c),
{
    ('a' <= c && c <= 'z') || ('A' <= c && c <= 'Z') || c == '_'
}

fn is_punct_follow_exec(c: char) -> (r: bool)
    ensures
        r == is_punct_follow(c),
{
    !(c == ' ' || c == '\t' || c == '\n' || c == '\r') && !is_ident_continue_exec(c) && c != '('
        && c != ')' && c != '[' && c != ']' && c != '{' && c != '}' && c != '"' && c != '\''
}

fn num_end_exec(s: &str, i: usize, len: usize) -> (r: usize)
    requires
        len == s@.len(),
        i <= len,
    ensures
        r == num_end(s@, i as int),
        i <= r <= len,
    decreases len - i,
{
    proof {
        lemma_num_end(s@, i as int);
    }
    if i < len {
        let c = s.get_char(i);
        let dotish = c == '.' && !(i + 1 < len && s.get_char(i + 1) == '.');
        let signish = (c == '+' || c == '-') && i > 0 && {
            let p = s.get_char(i - 1);
            p == 'e' || p == 'E'
        };
        if is_ident_continue_exec(c) || dotish || signish {
            return num_end_exec(s, i + 1, len);
        }
    }
    i
}

fn ident_end_exec(s: &str, i: usize, len: usize) -> (r: usize)
    requires
        len == s@.len(),
        i <= len,
    ensures
        r == ident_end(s@, i as int),
        i <= r <= len,
    decreases len - i,
{
    proof {
        lemma_ident_end(s@, i as int);
    }
    if i < len {
        if is_ident_continue_exec(s.get_char(i)) {
            return ident_end_exec(s, i + 1, len);
        }
    }
    i
}

fn quoted_end_exec(s: &str, i: usize, len: usize, q: char) -> (r: Option<usize>)
    requires
        len == s@.len(),
        i <= len,
    ensures
        (r matches Some(j) ==> quoted_end(s@, i as int, q) == Some(j as int) && i < j <= len),
        r is None ==> quoted_end(s@, i as int, q) is None,
    decreases len - i,
{
    proof {
        lemma_quoted_end(s@, i as int, q);
    }
    if i < len {
        let c = s.get_char(i);
        if c == q {
            Some(i + 1)
        } else if c == '\\' {
            if i + 1 < len {
                quoted_end_exec(s, i + 2, len, q)
            } else {
                None
            }
        } else {
            quoted_end_exec(s, i + 1, len, q)
        }
    } else {
        None
    }
}

/// Copies the characters `[from, to)` of `s` into a fresh `String`.
fn substring_copy(s: &str, from: usize, to: usize, len: usize) -> (r: String)
    requires
        len == s@.len(),
        from <= to <= len,
    ensures
        r@ == s@.subrange(from as int, to as int),
    decreases to - from,
{
    if from < to {
        let mut r = substring_copy(s, from, to - 1, len);
        push_char(&mut r, s.get_char(to - 1));
        proof {
            assert(r@ =~= s@.subrange(from as int, to as int));
        }
        r
    } else {
        let r = String::new();
        proof {
            assert(r@ =~= s@.subrange(from as int, to as int));
        }
        r
    }
}

fn lex_tree_exec(s: &str, i: usize, len: usize) -> (r: Option<(TokenTree, usize)>)
    requires
        len == s@.len(),
        i < len,
    ensures
        r is Some <==> lex_tree(s@, i as int) is Some,
        (r matches Some(p) ==> (lex_tree(s@, i as int) matches Some(q) && p.0@ == q.0 && p.1
            == q.1 && i < p.1 <= len)),
    decreases len - i, 0int,
{
    let c = s.get_char(i);
    if c == '(' || c == '[' || c == '{' {
        let closer = if c == '(' {
            ')'
        } else if c == '[' {
            ']'
        } else {
            '}'
        };
        let delim = if c == '(' {
            Delimiter::Parenthesis
        } else if c == '[' {
            Delimiter::Bracket
        } else {
            Delimiter::Brace
        };
        match lex_trees_exec(s, i + 1, len, Some(closer)) {
            Some(p) => {
                let g = Group::new(delim, p.0);
                Some((TokenTree::Group(g), p.1))
            },
            None => None,
        }
    } else if c == ')' || c == ']' || c == '}' {
        None
    } else if '0' <= c && c <= '9' {
        let j = num_end_exec(s, i, len);
        proof {
            lemma_num_end(s@, i as int);
        }
        let text = substring_copy(s, i, j, len);
        Some((TokenTree::Literal(Literal::from_text(text)), j))
    } else if c == 'b' && len - i > 1 && s.get_char(i + 1) == '"' {
        match quoted_end_exec(s, i + 2, len, '"') {
            Some(j) => {
                let text = substring_copy(s, i, j, len);
                Some((TokenTree::Literal(Literal::from_text(text)), j))
            },
            None => None,
        }
    } else if c == 'r' && len - i > 2 && s.get_char(i + 1) == '#' && is_ident_start_exec(
        s.get_char(i + 2),
    ) {
        let j = ident_end_exec(s, i + 2, len);
        proof {
            lemma_ident_end(s@, i + 2 as int);
            lemma_scanned_ident_valid(s@, i + 2 as int, j as int);
        }
        let sym = substring_copy(s, i + 2, j, len);
        Some((TokenTree::Ident(Ident::make(sym, true, Span::call_site())), j))
    } else if is_ident_start_exec(c) {
        let j = ident_end_exec(s, i, len);
        proof {
            lemma_ident_end(s@, i as int);
            lemma_scanned_ident_valid(s@, i as int, j as int);
        }
        let sym = substring_copy(s, i, j, len);
        Some((TokenTree::Ident(Ident::make(sym, false, Span::call_site())), j))
    } else if c == '"' {
        match quoted_end_exec(s, i + 1, len, '"') {
            Some(j) => {
                let text = substring_copy(s, i, j, len);
                Some((TokenTree::Literal(Literal::from_text(text)), j))
            },
            None => None,
        }
    } else if c == '\'' {
        if len - i > 1 && s.get_char(i + 1) == '\\' {
            match quoted_end_exec(s, i + 1, len, '\'') {
                Some(j) => {
                    let text = substring_copy(s, i, j, len);
                    Some((TokenTree::Literal(Literal::from_text(text)), j))
                },
                None => None,
            }
        } else if len - i > 2 && s.get_char(i + 2) == '\'' && s.get_char(i + 1) != '\'' {
            let text = substring_copy(s, i, i + 3, len);
            Some((TokenTree::Literal(Literal::from_text(text)), i + 3))
        } else {
            let joint = i + 1 < len && is_ident_start_exec(s.get_char(i + 1));
            let sp = if joint {
                Spacing::Joint
            } else {
                Spacing::Alone
            };
            Some((TokenTree::Punct(Punct::new(c, sp)), i + 1))
        }
    } else {
        let joint = i + 1 < len && is_punct_follow_exec(s.get_char(i + 1));
        let sp = if joint {
            Spacing::Joint
        } else {
            Spacing::Alone
        };
        Some((TokenTree::Punct(Punct::new(c, sp)), i + 1))
    }
}

fn lex_trees_exec(s: &str, i: usize, len: usize, close: Option<char>) -> (r: Option<
    (TokenStream, usize),
>)
    requires
        len == s@.len(),
        i <= len,
    ensures
        r is Some <==> lex_trees(s@, i as int, close) is Some,
        (r matches Some(p) ==> (lex_trees(s@, i as int, close) matches Some(q) && p.0@ == q.0
            && p.1 == q.1 && i <= p.1 <= len)),
    decreases len - i, 1int,
{
    let j = match skip_trivia_exec(s, i, len) {
        Some(j) => j,
        None => {
            return None;
        },
    };
    if j == len {
        match close {
            Option::None => Some((TokenStream::new(), j)),
            Option::Some(_) => None,
        }
    } else {
        let at_close = match close {
            Option::Some(cc) => s.get_char(j) == cc,
            Option::None => false,
        };
        if at_close {
            Some((TokenStream::new(), j + 1))
        } else {
            match lex_tree_exec(s, j, len) {
                None => None,
                Some(p) => {
                    match lex_trees_exec(s, p.1, len, close) {
                        None => None,
                        Some(q) => {
                            let (head, k) = p;
                            let (mut rest, end) = q;
                            let mut out = TokenStream::from_tree(head);
                            out.extend_stream(&rest);
                            proof {
                                let sq = lex_trees(s@, k as int, close)->Some_0;
                                assert(out@ =~= seq![tree_view(head)] + sq.0) by {
                                    assert(out@ == seq![tree_view(head)] + rest@);
                                };
                            }
                            Some((out, end))
                        },
                    }
                },
            }
        }
    }
}

impl TokenStream {
    /// Parses `input`; an empty or malformed text is rejected.
    pub fn from_str(input: &str) -> (r: Result<TokenStream, LexError>)
        ensures
            r is Ok <==> parse_stream(input@) is Some,
            (r matches Ok(ts) ==> parse_stream(input@) == Some(ts@)),
    {
        let len = input.unicode_len();
        match lex_trees_exec(input, 0, len, Option::None) {
            Some(p) => {
                if p.0.is_empty() {
                    Err(LexError {})
                } else {
                    Ok(p.0)
                }
            },
            None => Err(LexError {}),
        }
    }
}

/// Decides [`literal_text_ok`].
pub fn check_literal_text(s: &str) -> (r: bool)
    ensures
        r == literal_text_ok(s@),
{
    let len = s.unicode_len();
    if len == 0 {
        return false;
    }
    let start: usize = if s.get_char(0) == '-' {
        1
    } else {
        0
    };
    if start == 1 && !(len > 1 && '0' <= s.get_char(1) && s.get_char(1) <= '9') {
        return false;
    }
    if start >= len {
        return false;
    }
    let c = s.get_char(start);
    if '0' <= c && c <= '9' {
        let j = num_end_exec(s, start, len);
        j == len
    } else if c == '"' {
        match quoted_end_exec(s, start + 1, len, '"') {
            Some(j) => j == len,
            None => false,
        }
    } else if c == 'b' && len - start > 1 && s.get_char(start + 1) == '"' {
        match quoted_end_exec(s, start + 2, len, '"') {
            Some(j) => j == len,
            None => false,
        }
    } else if c == '\'' {
        if start + 1 < len && s.get_char(start + 1) == '\\' {
            match quoted_end_exec(s, start + 1, len, '\'') {
                Some(j) => j == len,
                None => false,
            }
        } else if len - start > 2 && s.get_char(start + 2) == '\'' && s.get_char(start + 1)
            != '\'' {
            start + 3 == len
        } else {
            false
        }
    } else {
        false
    }
}

/// Parses a literal text accepted by [`literal_text_ok`] into a literal
/// token carrying that very text, at the call site span.
pub fn parse_literal(s: &str) -> (r: Option<Literal>)
    ensures
        r is Some <==> literal_text_ok(s@),
        (r matches Some(l) ==> l@ == (LitV { text: s@, span: Span { handle: 0u32 } })),
{
    if check_literal_text(s) {
        Some(Literal::from_text(String::from_str(s)))
    } else {
        None
    }
}

// ---------------------------------------------------------------------------
// The factories' texts re-lex: decimal literals, suffixed or not, are
// single literal tokens, so streams built from the integer factories meet
// the codec's round-trip condition.
// ---------------------------------------------------------------------------

/// Every character of a decimal rendering is a digit.
pub proof fn lemma_dec_digits_are_digits(n: nat)
    ensures
        dec_digits(n).len() > 0,
        forall|k: int| 0 <= k < dec_digits(n).len() ==> is_digit(#[trigger] dec_digits(n)[k]),
    decreases n,
{
    if n >= 10 {
        lemma_dec_digits_are_digits(n / 10);
        assert(is_digit(digit_char(n % 10)));
        assert(forall|k: int|
            0 <= k < dec_digits(n).len() ==> is_digit(#[trigger] dec_digits(n)[k]));
    } else {
        assert(is_digit(digit_char(n)));
    }
}

/// A run of identifier characters is consumed whole by the numeric
/// scanner.
proof fn lemma_num_end_full(s: Seq<char>, i: int)
    requires
        0 <= i <= s.len(),
        forall|k: int| i <= k < s.len() ==> is_ident_continue(#[trigger] s[k]),
    ensures
        num_end(s, i) == s.len(),
    decreases s.len() - i,
{
    if i < s.len() {
        lemma_num_end_full(s, i + 1);
    }
}

/// A decimal rendering followed by identifier characters re-lexes as
/// exactly one literal token.
pub proof fn lemma_unsigned_literal_text_ok(n: nat, suffix: Seq<char>)
    requires
        forall|k: int| 0 <= k < suffix.len() ==> is_ident_continue(#[trigger] suffix[k]),
    ensures
        literal_text_ok(dec_digits(n) + suffix),
{
    let s = dec_digits(n) + suffix;
    lemma_dec_digits_are_digits(n);
    assert(s[0] == dec_digits(n)[0]);
    assert(is_digit(s[0]));
    assert(s[0] != '-');
    assert forall|k: int| 0 <= k < s.len() implies is_ident_continue(#[trigger] s[k]) by {
        if k < dec_digits(n).len() {
            assert(is_digit(dec_digits(n)[k]));
        } else {
            assert(s[k] == suffix[k - dec_digits(n).len()]);
        }
    };
    lemma_num_end_full(s, 0);
}

/// A signed decimal rendering followed by identifier characters re-lexes
/// as exactly one literal token, the leading minus sign included.
pub proof fn lemma_signed_literal_text_ok(n: int, suffix: Seq<char>)
    requires
        forall|k: int| 0 <= k < suffix.len() ==> is_ident_continue(#[trigger] suffix[k]),
    ensures
        literal_text_ok(dec_int(n) + suffix),
{
    if n >= 0 {
        lemma_unsigned_literal_text_ok(n as nat, suffix);
        assert(dec_int(n) + suffix =~= dec_digits(n as nat) + suffix);
    } else {
        let m = (-n) as nat;
        let s = dec_int(n) + suffix;
        lemma_dec_digits_are_digits(m);
        assert(dec_int(n) =~= seq!['-'] + dec_digits(m));
        assert(s[0] == '-');
        assert(s.len() > 1);
        assert(s[1] == dec_digits(m)[0]);
        assert(is_digit(s[1]));
        assert forall|k: int| 1 <= k < s.len() implies is_ident_continue(#[trigger] s[k]) by {
            if k < 1 + dec_digits(m).len() {
                assert(s[k] == dec_digits(m)[k - 1]);
                assert(is_digit(dec_digits(m)[k - 1]));
            } else {
                assert(s[k] == suffix[k - 1 - dec_digits(m).len()]);
            }
        };
        lemma_num_end_full(s, 1);
    }
}

// ---------------------------------------------------------------------------
// The quoted factories' texts re-lex too: a string, character or
// byte-string literal built with the defined escaping is one literal token.
// ---------------------------------------------------------------------------

/// A well-formed quoted body: a backslash is always followed by one more
/// character, and the quote appears only escaped.
pub open spec fn quote_body_ok(b: Seq<char>, q: char) -> bool
    decreases b.len(),
{
    if b.len() == 0 {
        true
    } else if b[0] == '\\' {
        b.len() >= 2 && quote_body_ok(b.skip(2), q)
    } else {
        b[0] != q && quote_body_ok(b.skip(1), q)
    }
}

proof fn lemma_body_ok_concat(a: Seq<char>, b: Seq<char>, q: char)
    requires
        quote_body_ok(a, q),
        quote_body_ok(b, q),
    ensures
        quote_body_ok(a + b, q),
    decreases a.len(),
{
    if a.len() == 0 {
        assert(a + b =~= b);
    } else if a[0] == '\\' {
        lemma_body_ok_concat(a.skip(2), b, q);
        assert((a + b).skip(2) =~= a.skip(2) + b);
    } else {
        lemma_body_ok_concat(a.skip(1), b, q);
        assert((a + b).skip(1) =~= a.skip(1) + b);
    }
}

proof fn lemma_body_ok_singles(s: Seq<char>, q: char)
    requires
        forall|k: int| 0 <= k < s.len() ==> s[k] != '\\' && #[trigger] s[k] != q,
    ensures
        quote_body_ok(s, q),
    decreases s.len(),
{
    if s.len() > 0 {
        lemma_body_ok_singles(s.skip(1), q);
    }
}

/// Hex digits are identifier characters, so never quotes or backslashes.
proof fn lemma_hex_lower_chars(n: nat)
    ensures
        forall|k: int|
            0 <= k < hex_digits_lower(n).len() ==> is_ident_continue(
                #[trigger] hex_digits_lower(n)[k],
            ),
    decreases n,
{
    if n >= 16 {
        lemma_hex_lower_chars(n / 16);
        assert(is_ident_continue(hex_char_lower(n % 16)));
        assert forall|k: int|
            0 <= k < hex_digits_lower(n).len() implies is_ident_continue(
            #[trigger] hex_digits_lower(n)[k],
        ) by {
            if k < hex_digits_lower(n / 16).len() {
                assert(hex_digits_lower(n)[k] == hex_digits_lower(n / 16)[k]);
            } else {
                assert(hex_digits_lower(n)[k] == hex_char_lower(n % 16));
            }
        };
    } else {
        assert(is_ident_continue(hex_char_lower(n)));
    }
}

/// The default escape of any character is a well-formed quoted body, for
/// either quote character.
proof fn lemma_escape_body_ok(c: char, q: char)
    requires
        q == '"' || q == '\'',
    ensures
        quote_body_ok(escape_char_default(c), q),
{
    let e = escape_char_default(c);
    if c == '\t' || c == '\r' || c == '\n' || c == '\\' || c == '\'' || c == '"' {
        assert(e.skip(2) =~= Seq::<char>::empty());
        assert(quote_body_ok(e.skip(2), q));
        assert(quote_body_ok(e, q));
    } else if ' ' <= c && c <= '~' {
        assert(e.skip(1) =~= Seq::<char>::empty());
        assert(quote_body_ok(e.skip(1), q));
        assert(quote_body_ok(e, q));
    } else {
        let hex = hex_digits_lower(c as u32 as nat);
        lemma_hex_lower_chars(c as u32 as nat);
        let tail = seq!['{'] + hex + seq!['}'];
        assert(forall|k: int| 0 <= k < tail.len() ==> tail[k] != '\\' && #[trigger] tail[k] != q)
            by {
            assert(forall|k: int|
                0 <= k < hex.len() ==> #[trigger] tail[1 + k] == hex[k]);
        };
        lemma_body_ok_singles(tail, q);
        let head = seq!['\\', 'u'];
        assert(head.skip(2) =~= Seq::<char>::empty());
        assert(quote_body_ok(head.skip(2), q));
        assert(quote_body_ok(head, q));
        lemma_body_ok_concat(head, tail, q);
        assert(e =~= head + tail);
    }
}

/// A scan from the start of a well-formed body finds the closing quote
/// right after it.
proof fn lemma_quoted_end_body(s: Seq<char>, i: int, b: Seq<char>, q: char)
    requires
        0 <= i,
        i + b.len() + 1 <= s.len(),
        s.subrange(i, i + b.len()) == b,
        s[i + b.len()] == q,
        quote_body_ok(b, q),
        q != '\\',
    ensures
        quoted_end(s, i, q) == Some(i + b.len() + 1),
    decreases b.len(),
{
    if b.len() == 0 {
        assert(s[i] == q);
    } else if b[0] == '\\' {
        assert(s.subrange(i, i + b.len())[0] == s[i]);
        assert(s[i] == '\\');
        assert(s.subrange(i + 2, i + 2 + b.skip(2).len()) =~= b.skip(2)) by {
            assert(forall|k: int|
                0 <= k < b.len() ==> #[trigger] s.subrange(i, i + b.len())[k] == s[i + k]);
        };
        lemma_quoted_end_body(s, i + 2, b.skip(2), q);
    } else {
        assert(s.subrange(i, i + b.len())[0] == s[i]);
        assert(s[i] == b[0]);
        assert(s[i] != q && s[i] != '\\');
        assert(s.subrange(i + 1, i + 1 + b.skip(1).len()) =~= b.skip(1)) by {
            assert(forall|k: int|
                0 <= k < b.len() ==> #[trigger] s.subrange(i, i + b.len())[k] == s[i + k]);
        };
        lemma_quoted_end_body(s, i + 1, b.skip(1), q);
    }
}

proof fn lemma_string_body_ok(s: Seq<char>)
    ensures
        quote_body_ok(string_lit_body(s), '"'),
    decreases s.len(),
{
    if s.len() > 0 {
        lemma_string_body_ok(s.drop_first());
        let head: Seq<char> = if s[0] == '\'' {
            seq![s[0]]
        } else {
            escape_char_default(s[0])
        };
        if s[0] == '\'' {
            assert(head.skip(1) =~= Seq::<char>::empty());
            assert(quote_body_ok(head.skip(1), '"'));
            assert(quote_body_ok(head, '"'));
        } else {
            lemma_escape_body_ok(s[0], '"');
        }
        lemma_body_ok_concat(head, string_lit_body(s.drop_first()), '"');
    }
}

/// A string literal built with the defined escaping re-lexes as one
/// literal token.
pub proof fn lemma_string_literal_text_ok(s: Seq<char>)
    ensures
        literal_text_ok(string_lit_text(s)),
{
    let body = string_lit_body(s);
    let text = string_lit_text(s);
    lemma_string_body_ok(s);
    assert(text[0] == '"');
    assert(text.subrange(1, 1 + body.len() as int) =~= body);
    assert(text[1 + body.len() as int] == '"');
    lemma_quoted_end_body(text, 1, body, '"');
    assert(literal_token_end(text, 0) == Some(text.len() as int));
}

/// A character literal built with the defined escaping re-lexes as one
/// literal token.
pub proof fn lemma_char_literal_text_ok(c: char)
    ensures
        literal_text_ok(char_lit_text(c)),
{
    let body: Seq<char> = if c == '"' {
        seq![c]
    } else {
        escape_char_default(c)
    };
    let text = char_lit_text(c);
    assert(text[0] == '\'');
    assert(text =~= seq!['\''] + body + seq!['\'']);
    if c != '"' && (c == '\t' || c == '\r' || c == '\n' || c == '\\' || c == '\'' || !(' ' <= c
        && c <= '~')) {
        // escaped form: the body starts with a backslash
        assert(body[0] == '\\');
        assert(text[1] == '\\');
        lemma_escape_body_ok(c, '\'');
        assert(text.subrange(1, 1 + body.len() as int) =~= body);
        assert(text[1 + body.len() as int] == '\'');
        lemma_quoted_end_body(text, 1, body, '\'');
        assert(literal_token_end(text, 0) == Some(text.len() as int));
    } else {
        // single-character form
        assert(body =~= seq![c]);
        assert(text.len() == 3);
        assert(text[1] == c);
        assert(text[2] == '\'');
        assert(text[1] != '\\' && text[1] != '\'');
        assert(literal_token_end(text, 0) == Some(3int));
    }
}

proof fn lemma_byte_body_ok(bs: Seq<u8>)
    ensures
        quote_body_ok(byte_string_lit_body(bs), '"'),
    decreases bs.len(),
{
    if bs.len() > 0 {
        lemma_byte_body_ok(bs.drop_first());
        let head = byte_escape(bs[0]);
        let b = bs[0];
        if b == 0 || b == 9 || b == 10 || b == 13 || b == 34 || b == 92 {
            assert(head.skip(2) =~= Seq::<char>::empty());
            assert(quote_body_ok(head.skip(2), '"'));
            assert(quote_body_ok(head, '"'));
        } else if 0x20 <= b && b <= 0x7E {
            assert(head.skip(1) =~= Seq::<char>::empty());
            assert(quote_body_ok(head.skip(1), '"'));
            assert(quote_body_ok(head, '"'));
        } else {
            assert(head[0] == '\\');
            assert(head.skip(2) =~= seq![
                hex_char_upper((b / 16) as nat),
                hex_char_upper((b % 16) as nat),
            ]);
            let rest = head.skip(2);
            assert(rest[0] != '\\' && rest[0] != '"');
            assert(rest[1] != '\\' && rest[1] != '"');
            lemma_body_ok_singles(rest, '"');
            assert(quote_body_ok(head, '"'));
        }
        lemma_body_ok_concat(head, byte_string_lit_body(bs.drop_first()), '"');
    }
}

/// A byte-string literal built with the defined escaping re-lexes as one
/// literal token.
pub proof fn lemma_byte_string_literal_text_ok(bs: Seq<u8>)
    ensures
        literal_text_ok(byte_string_lit_text(bs)),
{
    let body = byte_string_lit_body(bs);
    let text = byte_string_lit_text(bs);
    lemma_byte_body_ok(bs);
    assert(text[0] == 'b');
    assert(text[1] == '"');
    assert(text.subrange(2, 2 + body.len() as int) =~= body);
    assert(text[2 + body.len() as int] == '"');
    lemma_quoted_end_body(text, 2, body, '"');
    assert(literal_token_end(text, 0) == Some(text.len() as int));
}

} // verus!
