//! Textual rendering of token trees.
//!
//! Display form: adjacent tokens are separated by one space unless the
//! preceding punctuation was marked `Joint`; delimiters bracket their inner
//! stream with a single space of padding, and an empty group keeps one space
//! between its brackets. Debug form: a structural rendering naming every
//! field.

use vstd::prelude::*;
use crate::escape::{escape_char_default, push_escape_char_default, string_lit_body, push_string_lit_body_pub};
use crate::numfmt::{dec_digits, push_dec_u128};

use crate::strext::push_char;
use crate::token::{Delimiter, Group, GroupV, Ident, IdentV, LitV, Literal, Punct, PunctV, Spacing, Span, TokenStream, TokenTree, TreeV, lemma_trees_view};

verus! {

broadcast use vstd::seq::axiom_seq_index_decreases, vstd::std_specs::vec::axiom_vec_decreases_to_view;

/// Whether a following token attaches without a space.
pub open spec fn tree_is_joint(t: TreeV) -> bool {
    match t {
        TreeV::Punct(p) => p.spacing is Joint,
        _ => false,
    }
}

/// The rendered text of an identifier; the raw flag folds in as an `r#`
/// prefix.
pub open spec fn render_ident(i: IdentV) -> Seq<char> {
    if i.raw {
        seq!['r', '#'] + i.sym
    } else {
        i.sym
    }
}

pub open spec fn open_delim(d: Delimiter) -> char {
    match d {
        Delimiter::Parenthesis => '(',
        Delimiter::Brace => '{',
        Delimiter::Bracket => '[',
        Delimiter::NoDelim => ' ',
    }
}

pub open spec fn close_delim(d: Delimiter) -> char {
    match d {
        Delimiter::Parenthesis => ')',
        Delimiter::Brace => '}',
        Delimiter::Bracket => ']',
        Delimiter::NoDelim => ' ',
    }
}

/// The rendered text of a group: brackets pad their inner stream with one
/// space each side; an empty group keeps a single space between brackets; an
/// undelimited group is just its inner stream.
pub open spec fn render_group(d: Delimiter, inner: Seq<TreeV>) -> Seq<char>
    decreases inner, 2int,
{
    if d is NoDelim {
        render_stream_from(inner, 0)
    } else if inner.len() == 0 {
        seq![open_delim(d), ' ', close_delim(d)]
    } else {
        seq![open_delim(d), ' '] + render_stream_from(inner, 0) + seq![' ', close_delim(d)]
    }
}

pub open spec fn render_tree(t: TreeV) -> Seq<char>
    decreases t, 3int,
{
    match t {
        TreeV::Group(g) => render_group(g.delimiter, g.stream),
        TreeV::Ident(i) => render_ident(i),
        TreeV::Punct(p) => seq![p.op],
        TreeV::Literal(l) => l.text,
    }
}

/// The rendered text of the suffix of a stream starting at token `i`,
/// including the separating space before token `i` where one is due.
pub open spec fn render_stream_from(s: Seq<TreeV>, i: int) -> Seq<char>
    decreases s, 1int, s.len() - i,
{
    if 0 <= i < s.len() {
        let sep: Seq<char> = if i > 0 && !tree_is_joint(s[i - 1]) {
            seq![' ']
        } else {
            Seq::empty()
        };
        sep + render_tree(s[i]) + render_stream_from(s, i + 1)
    } else {
        Seq::empty()
    }
}

/// The rendered text of a whole stream.
pub open spec fn render_stream(s: Seq<TreeV>) -> Seq<char> {
    render_stream_from(s, 0)
}

// ---------------------------------------------------------------------------
// Executable display rendering.
// ---------------------------------------------------------------------------

fn push_render_tree(out: &mut String, t: &TokenTree)
    ensures
        final(out)@ == old(out)@ + render_tree(t@),
    decreases *t, 3int, 0int,
{
    match t {
        TokenTree::Group(g) => {
            push_render_group(out, g);
        },
        TokenTree::Ident(i) => {
            if i.raw {
                push_char(out, 'r');
                push_char(out, '#');
            }
            out.append(i.sym.as_str());
            proof {
                assert(final(out)@ =~= old(out)@ + render_tree(t@));
            }
        },
        TokenTree::Punct(p) => {
            push_char(out, p.op);
            proof {
                assert(final(out)@ =~= old(out)@ + render_tree(t@));
            }
        },
        TokenTree::Literal(l) => {
            out.append(l.text.as_str());
        },
    }
}

fn push_render_group(out: &mut String, g: &Group)
    ensures
        final(out)@ == old(out)@ + render_group(g.delimiter, g@.stream),
    decreases *g, 2int, 0int,
{
    proof {
        lemma_trees_view(g.stream.trees@);
    }
    if let Delimiter::NoDelim = g.delimiter {
        push_render_stream_from(out, &g.stream, 0);
        return ;
    }
    let (open, close) = match g.delimiter {
        Delimiter::Parenthesis => ('(', ')'),
        Delimiter::Brace => ('{', '}'),
        Delimiter::Bracket => ('[', ']'),
        Delimiter::NoDelim => (' ', ' '),
    };
    push_char(out, open);
    push_char(out, ' ');
    if g.stream.trees.len() > 0 {
        push_render_stream_from(out, &g.stream, 0);
        push_char(out, ' ');
    }
    push_char(out, close);
    proof {
        assert(final(out)@ =~= old(out)@ + render_group(g.delimiter, g@.stream));
    }
}

fn push_render_stream_from(out: &mut String, s: &TokenStream, i: usize)
    requires
        i <= s.trees@.len(),
    ensures
        final(out)@ == old(out)@ + render_stream_from(s@, i as int),
    decreases *s, 1int, s.trees@.len() - i,
{
    proof {
        lemma_trees_view(s.trees@);
    }
    if i < s.trees.len() {
        if i > 0 {
            let joint = match &s.trees[i - 1] {
                TokenTree::Punct(p) => matches!(p.spacing, Spacing::Joint),
                _ => false,
            };
            proof {
                assert(joint == tree_is_joint(s@[i - 1]));
            }
            if !joint {
                push_char(out, ' ');
            }
        }
        push_render_tree(out, &s.trees[i]);
        push_render_stream_from(out, s, i + 1);
        proof {
            assert(final(out)@ =~= old(out)@ + render_stream_from(s@, i as int));
        }
    }
}

impl TokenStream {
    /// The display form of the stream.
    pub fn display_string(&self) -> (r: String)
        ensures
            r@ == render_stream(self@),
    {
        let mut out = String::new();
        push_render_stream_from(&mut out, self, 0);
        proof {
            assert(out@ =~= render_stream(self@));
        }
        out
    }
}

impl Group {
    /// The display form of the group, brackets included.
    pub fn display_string(&self) -> (r: String)
        ensures
            r@ == render_group(self@.delimiter, self@.stream),
    {
        let mut out = String::new();
        push_render_group(&mut out, self);
        proof {
            assert(out@ =~= render_group(self@.delimiter, self@.stream));
        }
        out
    }
}

impl Ident {
    /// The display form of the identifier, `r#` prefix included when raw.
    pub fn display_string(&self) -> (r: String)
        ensures
            r@ == render_ident(self@),
    {
        let mut out = String::new();
        if self.raw {
            push_char(&mut out, 'r');
            push_char(&mut out, '#');
        }
        out.append(self.sym.as_str());
        proof {
            assert(out@ =~= render_ident(self@));
        }
        out
    }
}

impl Punct {
    /// The display form: the single character.
    pub fn display_string(&self) -> (r: String)
        ensures
            r@ == seq![self@.op],
    {
        let mut out = String::new();
        push_char(&mut out, self.op);
        proof {
            assert(out@ =~= seq![self@.op]);
        }
        out
    }
}

impl Literal {
    /// The display form: the pre-rendered text.
    pub fn display_string(&self) -> (r: String)
        ensures
            r@ == self@.text,
    {
        self.text.clone()
    }
}

// ---------------------------------------------------------------------------
// Lexicographic comparison of rendered identifiers.
// ---------------------------------------------------------------------------

/// Lexicographic order on character sequences: negative for less, zero for
/// equal, positive for greater.
pub open spec fn lex_cmp(a: Seq<char>, b: Seq<char>) -> int
    decreases a.len(),
{
    if a.len() == 0 && b.len() == 0 {
        0
    } else if a.len() == 0 {
        -1
    } else if b.len() == 0 {
        1
    } else if a[0] < b[0] {
        -1
    } else if b[0] < a[0] {
        1
    } else {
        lex_cmp(a.drop_first(), b.drop_first())
    }
}

/// Decides [`lex_cmp`] on two strings.
pub fn str_lex_cmp(a: &str, b: &str) -> (r: i32)
    ensures
        r == lex_cmp(a@, b@),
        -1 <= r <= 1,
{
    let alen = a.unicode_len();
    let blen = b.unicode_len();
    let r = str_lex_cmp_from(a, b, 0, alen, blen);
    proof {
        assert(a@.skip(0) =~= a@);
        assert(b@.skip(0) =~= b@);
    }
    r
}

fn str_lex_cmp_from(a: &str, b: &str, i: usize, alen: usize, blen: usize) -> (r: i32)
    requires
        alen == a@.len(),
        blen == b@.len(),
        i <= alen,
        i <= blen,
    ensures
        r == lex_cmp(a@.skip(i as int), b@.skip(i as int)),
        -1 <= r <= 1,
    decreases alen - i,
{
    proof {
        if i < alen && i < blen {
            assert(a@.skip(i as int)[0] == a@[i as int]);
            assert(b@.skip(i as int)[0] == b@[i as int]);
            assert(a@.skip(i as int).drop_first() =~= a@.skip(i + 1 as int));
            assert(b@.skip(i as int).drop_first() =~= b@.skip(i + 1 as int));
        }
    }
    if i == alen && i == blen {
        0
    } else if i == alen {
        -1
    } else if i == blen {
        1
    } else {
        let ca = a.get_char(i);
        let cb = b.get_char(i);
        if ca < cb {
            -1
        } else if cb < ca {
            1
        } else {
            str_lex_cmp_from(a, b, i + 1, alen, blen)
        }
    }
}

// ---------------------------------------------------------------------------
// Debug rendering.
// ---------------------------------------------------------------------------

pub open spec fn debug_span(sp: Span) -> Seq<char> {
    seq!['S', 'p', 'a', 'n', ' ', '{', ' ', 'h', 'a', 'n', 'd', 'l', 'e', ':', ' '] + dec_digits(
        sp.handle as nat,
    ) + seq![' ', '}']
}

pub open spec fn debug_delimiter(d: Delimiter) -> Seq<char> {
    match d {
        Delimiter::Parenthesis => seq!['P', 'a', 'r', 'e', 'n', 't', 'h', 'e', 's', 'i', 's'],
        Delimiter::Brace => seq!['B', 'r', 'a', 'c', 'e'],
        Delimiter::Bracket => seq!['B', 'r', 'a', 'c', 'k', 'e', 't'],
        Delimiter::NoDelim => seq!['N', 'o', 'D', 'e', 'l', 'i', 'm'],
    }
}

pub open spec fn debug_spacing(sp: Spacing) -> Seq<char> {
    match sp {
        Spacing::Alone => seq!['A', 'l', 'o', 'n', 'e'],
        Spacing::Joint => seq!['J', 'o', 'i', 'n', 't'],
    }
}

pub open spec fn debug_ident(i: IdentV) -> Seq<char> {
    seq!['I', 'd', 'e', 'n', 't', ' ', '{', ' ', 's', 'y', 'm', ':', ' '] + render_ident(i) + seq![
        ',',
        ' ',
        's',
        'p',
        'a',
        'n',
        ':',
        ' ',
    ] + debug_span(i.span) + seq![' ', '}']
}

pub open spec fn debug_punct(p: PunctV) -> Seq<char> {
    seq!['P', 'u', 'n', 'c', 't', ' ', '{', ' ', 'o', 'p', ':', ' ', '\''] + escape_char_default(
        p.op,
    ) + seq!['\'', ',', ' ', 's', 'p', 'a', 'c', 'i', 'n', 'g', ':', ' '] + debug_spacing(p.spacing)
        + seq![',', ' ', 's', 'p', 'a', 'n', ':', ' '] + debug_span(p.span) + seq![' ', '}']
}

pub open spec fn debug_literal(l: LitV) -> Seq<char> {
    seq!['L', 'i', 't', 'e', 'r', 'a', 'l', ' ', '{', ' ', 't', 'e', 'x', 't', ':', ' ', '"']
        + string_lit_body(l.text) + seq!['"', ',', ' ', 's', 'p', 'a', 'n', ':', ' '] + debug_span(
        l.span,
    ) + seq![' ', '}']
}

pub open spec fn debug_group(g: GroupV) -> Seq<char>
    decreases g.stream, 2int, 0int,
{
    seq!['G', 'r', 'o', 'u', 'p', ' ', '{', ' ', 'd', 'e', 'l', 'i', 'm', 'i', 't', 'e', 'r', ':', ' ']
        + debug_delimiter(g.delimiter) + seq![',', ' ', 's', 't', 'r', 'e', 'a', 'm', ':', ' ']
        + debug_stream(g.stream) + seq![',', ' ', 's', 'p', 'a', 'n', ':', ' '] + debug_span(g.span)
        + seq![' ', '}']
}

pub open spec fn debug_tree(t: TreeV) -> Seq<char>
    decreases t, 3int, 0int,
{
    match t {
        TreeV::Group(g) => debug_group(g),
        TreeV::Ident(i) => debug_ident(i),
        TreeV::Punct(p) => debug_punct(p),
        TreeV::Literal(l) => debug_literal(l),
    }
}

pub open spec fn debug_stream_entries(s: Seq<TreeV>, i: int) -> Seq<char>
    decreases s, 0int, s.len() - i,
{
    if 0 <= i < s.len() {
        let sep: Seq<char> = if i > 0 {
            seq![',', ' ']
        } else {
            Seq::empty()
        };
        sep + debug_tree(s[i]) + debug_stream_entries(s, i + 1)
    } else {
        Seq::empty()
    }
}

/// The debug form of a stream: the type name then the bracketed entries.
pub open spec fn debug_stream(s: Seq<TreeV>) -> Seq<char>
    decreases s, 1int, 0int,
{
    seq!['T', 'o', 'k', 'e', 'n', 'S', 't', 'r', 'e', 'a', 'm', ' ', '['] + debug_stream_entries(
        s,
        0,
    ) + seq![']']
}

fn push_debug_span(out: &mut String, sp: Span)
    ensures
        final(out)@ == old(out)@ + debug_span(sp),
{
    out.append("Span { handle: ");
    push_dec_u128(out, sp.handle as u128);
    out.append(" }");
    proof {
        reveal_strlit("Span { handle: ");
        reveal_strlit(" }");
        assert(final(out)@ =~= old(out)@ + debug_span(sp));
    }
}

fn push_debug_ident(out: &mut String, i: &Ident)
    ensures
        final(out)@ == old(out)@ + debug_ident(i@),
{
    out.append("Ident { sym: ");
    if i.raw {
        push_char(out, 'r');
        push_char(out, '#');
    }
    out.append(i.sym.as_str());
    out.append(", span: ");
    push_debug_span(out, i.span);
    out.append(" }");
    proof {
        reveal_strlit("Ident { sym: ");
        reveal_strlit(", span: ");
        reveal_strlit(" }");
        assert(final(out)@ =~= old(out)@ + debug_ident(i@));
    }
}

fn push_debug_punct(out: &mut String, p: &Punct)
    ensures
        final(out)@ == old(out)@ + debug_punct(p@),
{
    out.append("Punct { op: ");
    push_char(out, '\'');
    push_escape_char_default(out, p.op);
    push_char(out, '\'');
    out.append(", spacing: ");
    match p.spacing {
        Spacing::Alone => out.append("Alone"),
        Spacing::Joint => out.append("Joint"),
    }
    out.append(", span: ");
    push_debug_span(out, p.span);
    out.append(" }");
    proof {
        reveal_strlit("Punct { op: ");
        reveal_strlit(", spacing: ");
        reveal_strlit("Alone");
        reveal_strlit("Joint");
        reveal_strlit(", span: ");
        reveal_strlit(" }");
        assert(final(out)@ =~= old(out)@ + debug_punct(p@));
    }
}

fn push_debug_literal(out: &mut String, l: &Literal)
    ensures
        final(out)@ == old(out)@ + debug_literal(l@),
{
    out.append("Literal { text: ");
    push_char(out, '"');
    push_string_lit_body_pub(out, l.text.as_str());
    push_char(out, '"');
    out.append(", span: ");
    push_debug_span(out, l.span);
    out.append(" }");
    proof {
        reveal_strlit("Literal { text: ");
        reveal_strlit(", span: ");
        reveal_strlit(" }");
        assert(final(out)@ =~= old(out)@ + debug_literal(l@));
    }
}

fn push_debug_group(out: &mut String, g: &Group)
    ensures
        final(out)@ == old(out)@ + debug_group(g@),
    decreases *g, 2int, 0int,
{
    out.append("Group { delimiter: ");
    match g.delimiter {
        Delimiter::Parenthesis => out.append("Parenthesis"),
        Delimiter::Brace => out.append("Brace"),
        Delimiter::Bracket => out.append("Bracket"),
        Delimiter::NoDelim => out.append("NoDelim"),
    }
    out.append(", stream: ");
    push_debug_stream(out, &g.stream);
    out.append(", span: ");
    push_debug_span(out, g.span);
    out.append(" }");
    proof {
        reveal_strlit("Group { delimiter: ");
        reveal_strlit("Parenthesis");
        reveal_strlit("Brace");
        reveal_strlit("Bracket");
        reveal_strlit("NoDelim");
        reveal_strlit(", stream: ");
        reveal_strlit(", span: ");
        reveal_strlit(" }");
        assert(final(out)@ =~= old(out)@ + debug_group(g@));
    }
}

fn push_debug_tree(out: &mut String, t: &TokenTree)
    ensures
        final(out)@ == old(out)@ + debug_tree(t@),
    decreases *t, 3int, 0int,
{
    match t {
        TokenTree::Group(g) => push_debug_group(out, g),
        TokenTree::Ident(i) => push_debug_ident(out, i),
        TokenTree::Punct(p) => push_debug_punct(out, p),
        TokenTree::Literal(l) => push_debug_literal(out, l),
    }
}

fn push_debug_entries(out: &mut String, s: &TokenStream, i: usize)
    requires
        i <= s.trees@.len(),
    ensures
        final(out)@ == old(out)@ + debug_stream_entries(s@, i as int),
    decreases *s, 1int, s.trees@.len() - i,
{
    proof {
        lemma_trees_view(s.trees@);
    }
    if i < s.trees.len() {
        if i > 0 {
            out.append(", ");
            proof {
                reveal_strlit(", ");
            }
        }
        push_debug_tree(out, &s.trees[i]);
        push_debug_entries(out, s, i + 1);
        proof {
            assert(final(out)@ =~= old(out)@ + debug_stream_entries(s@, i as int));
        }
    }
}

fn push_debug_stream(out: &mut String, s: &TokenStream)
    ensures
        final(out)@ == old(out)@ + debug_stream(s@),
    decreases *s, 2int, 0int,
{
    out.append("TokenStream [");
    push_debug_entries(out, s, 0);
    push_char(out, ']');
    proof {
        reveal_strlit("TokenStream [");
        assert(final(out)@ =~= old(out)@ + debug_stream(s@));
    }
}

impl TokenStream {
    /// The debug form of the stream.
    pub fn debug_string(&self) -> (r: String)
        ensures
            r@ == debug_stream(self@),
    {
        let mut out = String::new();
        push_debug_stream(&mut out, self);
        proof {
            assert(out@ =~= debug_stream(self@));
        }
        out
    }
}

impl Group {
    /// The debug form of the group.
    pub fn debug_string(&self) -> (r: String)
        ensures
            r@ == debug_group(self@),
    {
        let mut out = String::new();
        push_debug_group(&mut out, self);
        proof {
            assert(out@ =~= debug_group(self@));
        }
        out
    }
}

impl Ident {
    /// The debug form of the identifier.
    pub fn debug_string(&self) -> (r: String)
        ensures
            r@ == debug_ident(self@),
    {
        let mut out = String::new();
        push_debug_ident(&mut out, self);
        proof {
            assert(out@ =~= debug_ident(self@));
        }
        out
    }
}

impl Punct {
    /// The debug form of the punctuation token.
    pub fn debug_string(&self) -> (r: String)
        ensures
            r@ == debug_punct(self@),
    {
        let mut out = String::new();
        push_debug_punct(&mut out, self);
        proof {
            assert(out@ =~= debug_punct(self@));
        }
        out
    }
}

impl Literal {
    /// The debug form of the literal.
    pub fn debug_string(&self) -> (r: String)
        ensures
            r@ == debug_literal(self@),
    {
        let mut out = String::new();
        push_debug_literal(&mut out, self);
        proof {
            assert(out@ =~= debug_literal(self@));
        }
        out
    }
}

impl Span {
    /// The debug form of the span.
    pub fn debug_string(&self) -> (r: String)
        ensures
            r@ == debug_span(*self),
    {
        let mut out = String::new();
        push_debug_span(&mut out, *self);
        proof {
            assert(out@ =~= debug_span(*self));
        }
        out
    }
}

} // verus!
