//! The token-tree data model shared between host and guest.
//!
//! A stream is an ordered sequence of trees; a tree is a group, an
//! identifier, a punctuation character or a literal. The spec-level mirror
//! of each type (`TreeV`, `GroupV`, ...) is what every contract in the crate
//! speaks about.

use vstd::prelude::*;

verus! {

broadcast use vstd::seq::axiom_seq_index_decreases, vstd::std_specs::vec::axiom_vec_decreases_to_view;

/// Opaque source location, passed around by value and referenced on the wire
/// through the span slab of the arena.
#[derive(Clone, Copy, PartialEq, Eq, Structural, Debug)]
pub struct Span {
    pub handle: u32,
}

impl Span {
    /// The identity "call site" span.
    pub fn call_site() -> (s: Span)
        ensures
            s == (Span { handle: 0u32 }),
    {
        Span { handle: 0 }
    }

    /// Joining spans is unsupported: there is never a combined location.
    pub fn join(&self, other: Span) -> (r: Option<Span>)
        ensures
            r is None,
    {
        let _ = other;
        None
    }
}

#[derive(Clone, Copy, PartialEq, Eq, Structural, Debug)]
pub enum Delimiter {
    Parenthesis,
    Brace,
    Bracket,
    /// An invisible delimiter: the group renders without brackets.
    NoDelim,
}

#[derive(Clone, Copy, PartialEq, Eq, Structural, Debug)]
pub enum Spacing {
    Alone,
    Joint,
}

/// An ordered sequence of token trees.
pub struct TokenStream {
    pub trees: Vec<TokenTree>,
}

pub enum TokenTree {
    Group(Group),
    Ident(Ident),
    Punct(Punct),
    Literal(Literal),
}

/// A delimited (or undelimited) nested stream.
pub struct Group {
    pub delimiter: Delimiter,
    pub stream: TokenStream,
    pub span: Span,
}

/// An identifier; `raw` marks the `r#` form, which is folded into the
/// rendered text.
pub struct Ident {
    pub sym: String,
    pub span: Span,
    pub raw: bool,
}

/// One punctuation character; `Joint` means no space before the next token
/// when rendered.
pub struct Punct {
    pub op: char,
    pub spacing: Spacing,
    pub span: Span,
}

/// A literal kept in its pre-rendered textual form, e.g. `3u32` or `"abc"`.
pub struct Literal {
    pub text: String,
    pub span: Span,
}

// ---------------------------------------------------------------------------
// Spec-level mirrors.
// ---------------------------------------------------------------------------

pub struct GroupV {
    pub delimiter: Delimiter,
    pub stream: Seq<TreeV>,
    pub span: Span,
}

pub struct IdentV {
    pub sym: Seq<char>,
    pub span: Span,
    pub raw: bool,
}

pub struct PunctV {
    pub op: char,
    pub spacing: Spacing,
    pub span: Span,
}

pub struct LitV {
    pub text: Seq<char>,
    pub span: Span,
}

pub enum TreeV {
    Group(GroupV),
    Ident(IdentV),
    Punct(PunctV),
    Literal(LitV),
}

pub open spec fn tree_view(t: TokenTree) -> TreeV
    decreases t,
{
    match t {
        TokenTree::Group(g) => TreeV::Group(
            GroupV { delimiter: g.delimiter, stream: trees_view_from(g.stream.trees@, 0), span: g.span },
        ),
        TokenTree::Ident(i) => TreeV::Ident(IdentV { sym: i.sym@, span: i.span, raw: i.raw }),
        TokenTree::Punct(p) => TreeV::Punct(PunctV { op: p.op, spacing: p.spacing, span: p.span }),
        TokenTree::Literal(l) => TreeV::Literal(LitV { text: l.text@, span: l.span }),
    }
}

pub open spec fn trees_view_from(v: Seq<TokenTree>, i: int) -> Seq<TreeV>
    decreases v, v.len() - i,
{
    if 0 <= i < v.len() {
        seq![tree_view(v[i])] + trees_view_from(v, i + 1)
    } else {
        Seq::empty()
    }
}

/// The view of a whole sequence of trees.
pub open spec fn trees_view(v: Seq<TokenTree>) -> Seq<TreeV> {
    trees_view_from(v, 0)
}

impl View for TokenTree {
    type V = TreeV;

    open spec fn view(&self) -> TreeV {
        tree_view(*self)
    }
}

impl View for TokenStream {
    type V = Seq<TreeV>;

    open spec fn view(&self) -> Seq<TreeV> {
        trees_view(self.trees@)
    }
}

impl View for Group {
    type V = GroupV;

    open spec fn view(&self) -> GroupV {
        GroupV { delimiter: self.delimiter, stream: trees_view(self.stream.trees@), span: self.span }
    }
}

impl View for Ident {
    type V = IdentV;

    open spec fn view(&self) -> IdentV {
        IdentV { sym: self.sym@, span: self.span, raw: self.raw }
    }
}

impl View for Punct {
    type V = PunctV;

    open spec fn view(&self) -> PunctV {
        PunctV { op: self.op, spacing: self.spacing, span: self.span }
    }
}

impl View for Literal {
    type V = LitV;

    open spec fn view(&self) -> LitV {
        LitV { text: self.text@, span: self.span }
    }
}

// ---------------------------------------------------------------------------
// Facts about the view of a tree sequence.
// ---------------------------------------------------------------------------

pub proof fn lemma_trees_view_from(v: Seq<TokenTree>, i: int)
    requires
        0 <= i <= v.len(),
    ensures
        trees_view_from(v, i).len() == v.len() - i,
        forall|j: int|
            0 <= j < v.len() - i ==> trees_view_from(v, i)[j] == tree_view(v[i + j]),
    decreases v.len() - i,
{
    if i < v.len() {
        lemma_trees_view_from(v, i + 1);
    }
}

/// The view of a tree sequence is its elementwise view.
pub proof fn lemma_trees_view(v: Seq<TokenTree>)
    ensures
        trees_view(v).len() == v.len(),
        forall|j: int| 0 <= j < v.len() ==> trees_view(v)[j] == tree_view(v[j]),
{
    lemma_trees_view_from(v, 0);
}

pub proof fn lemma_trees_view_push(v: Seq<TokenTree>, t: TokenTree)
    ensures
        trees_view(v.push(t)) == trees_view(v).push(tree_view(t)),
{
    lemma_trees_view(v);
    lemma_trees_view(v.push(t));
    assert(trees_view(v.push(t)) =~= trees_view(v).push(tree_view(t)));
}

// ---------------------------------------------------------------------------
// Executable operations.
// ---------------------------------------------------------------------------

impl TokenStream {
    /// The empty stream.
    pub fn new() -> (s: TokenStream)
        ensures
            s@ == Seq::<TreeV>::empty(),
    {
        TokenStream { trees: Vec::new() }
    }

    pub fn is_empty(&self) -> (r: bool)
        ensures
            r == (self@.len() == 0),
    {
        proof {
            lemma_trees_view(self.trees@);
        }
        self.trees.len() == 0
    }

    pub fn len(&self) -> (r: usize)
        ensures
            r == self@.len(),
    {
        proof {
            lemma_trees_view(self.trees@);
        }
        self.trees.len()
    }

    pub fn get_tree(&self, i: usize) -> (r: &TokenTree)
        requires
            i < self@.len(),
        ensures
            r@ == self@[i as int],
    {
        proof {
            lemma_trees_view(self.trees@);
        }
        &self.trees[i]
    }

    /// A one-tree stream.
    pub fn from_tree(t: TokenTree) -> (s: TokenStream)
        ensures
            s@ == seq![t@],
    {
        let mut trees: Vec<TokenTree> = Vec::new();
        trees.push(t);
        proof {
            lemma_trees_view_push(Seq::empty(), trees@[0]);
        }
        TokenStream { trees }
    }

    /// Appends one tree in place.
    pub fn push_tree(&mut self, t: TokenTree)
        ensures
            final(self)@ == old(self)@.push(t@),
    {
        proof {
            lemma_trees_view_push(self.trees@, t);
        }
        self.trees.push(t);
    }

    /// Appends a copy of every tree of `other` in place.
    pub fn extend_stream(&mut self, other: &TokenStream)
        ensures
            final(self)@ == old(self)@ + other@,
        decreases *other, 0int,
    {
        proof {
            lemma_trees_view(other.trees@);
        }
        let n = other.trees.len();
        let mut i: usize = 0;
        while i < n
            invariant
                n == other.trees.len(),
                i <= n,
                self@ == old(self)@ + other@.subrange(0, i as int),
                trees_view(other.trees@) == other@,
            decreases n - i,
        {
            proof {
                lemma_trees_view(other.trees@);
            }
            let t = other.trees[i].deep_clone();
            self.push_tree(t);
            proof {
                assert(old(self)@ + other@.subrange(0, i + 1 as int) =~= (old(self)@
                    + other@.subrange(0, i as int)).push(other@[i as int]));
            }
            i += 1;
        }
        proof {
            assert(old(self)@ + other@.subrange(0, n as int) =~= old(self)@ + other@);
        }
    }

    /// A structurally equal copy.
    pub fn deep_clone(&self) -> (r: TokenStream)
        ensures
            r@ == self@,
        decreases *self, 1int,
    {
        let mut out = TokenStream::new();
        out.extend_stream(self);
        proof {
            assert(Seq::<TreeV>::empty() + self@ =~= self@);
        }
        out
    }
}

impl TokenTree {
    pub fn span(&self) -> (r: Span)
        ensures
            r == tree_span(self@),
    {
        match self {
            TokenTree::Group(t) => t.span,
            TokenTree::Ident(t) => t.span,
            TokenTree::Punct(t) => t.span,
            TokenTree::Literal(t) => t.span,
        }
    }

    pub fn set_span(&mut self, span: Span)
        ensures
            final(self)@ == tree_with_span(old(self)@, span),
    {
        match self {
            TokenTree::Group(t) => t.span = span,
            TokenTree::Ident(t) => t.span = span,
            TokenTree::Punct(t) => t.span = span,
            TokenTree::Literal(t) => t.span = span,
        }
    }

    /// A structurally equal copy.
    pub fn deep_clone(&self) -> (r: TokenTree)
        ensures
            r@ == self@,
        decreases *self, 0int,
    {
        match self {
            TokenTree::Group(g) => TokenTree::Group(g.deep_clone()),
            TokenTree::Ident(i) => TokenTree::Ident(i.deep_clone()),
            TokenTree::Punct(p) => TokenTree::Punct(p.deep_clone()),
            TokenTree::Literal(l) => TokenTree::Literal(l.deep_clone()),
        }
    }
}

pub open spec fn tree_span(t: TreeV) -> Span {
    match t {
        TreeV::Group(g) => g.span,
        TreeV::Ident(i) => i.span,
        TreeV::Punct(p) => p.span,
        TreeV::Literal(l) => l.span,
    }
}

pub open spec fn tree_with_span(t: TreeV, span: Span) -> TreeV {
    match t {
        TreeV::Group(g) => TreeV::Group(GroupV { span, ..g }),
        TreeV::Ident(i) => TreeV::Ident(IdentV { span, ..i }),
        TreeV::Punct(p) => TreeV::Punct(PunctV { span, ..p }),
        TreeV::Literal(l) => TreeV::Literal(LitV { span, ..l }),
    }
}

impl Group {
    /// A new group around `stream`, placed at the call site span.
    pub fn new(delimiter: Delimiter, stream: TokenStream) -> (g: Group)
        ensures
            g@ == (GroupV { delimiter, stream: stream@, span: Span { handle: 0u32 } }),
    {
        Group { delimiter, stream, span: Span::call_site() }
    }

    pub fn delimiter(&self) -> (r: Delimiter)
        ensures
            r == self@.delimiter,
    {
        self.delimiter
    }

    /// A copy of the inner stream.
    pub fn stream(&self) -> (r: TokenStream)
        ensures
            r@ == self@.stream,
    {
        self.stream.deep_clone()
    }

    pub fn span(&self) -> (r: Span)
        ensures
            r == self@.span,
    {
        self.span
    }

    pub fn span_open(&self) -> (r: Span)
        ensures
            r == self@.span,
    {
        self.span
    }

    pub fn span_close(&self) -> (r: Span)
        ensures
            r == self@.span,
    {
        self.span
    }

    pub fn set_span(&mut self, span: Span)
        ensures
            final(self)@ == (GroupV { span, ..old(self)@ }),
    {
        self.span = span;
    }

    /// A structurally equal copy.
    pub fn deep_clone(&self) -> (r: Group)
        ensures
            r@ == self@,
        decreases *self, 0int,
    {
        Group { delimiter: self.delimiter, stream: self.stream.deep_clone(), span: self.span }
    }
}

impl Punct {
    /// A new punctuation token at the call site span.
    pub fn new(op: char, spacing: Spacing) -> (p: Punct)
        ensures
            p@ == (PunctV { op, spacing, span: Span { handle: 0u32 } }),
    {
        Punct { op, spacing, span: Span::call_site() }
    }

    pub fn as_char(&self) -> (r: char)
        ensures
            r == self@.op,
    {
        self.op
    }

    pub fn spacing(&self) -> (r: Spacing)
        ensures
            r == self@.spacing,
    {
        self.spacing
    }

    pub fn span(&self) -> (r: Span)
        ensures
            r == self@.span,
    {
        self.span
    }

    pub fn set_span(&mut self, span: Span)
        ensures
            final(self)@ == (PunctV { span, ..old(self)@ }),
    {
        self.span = span;
    }

    /// A structurally equal copy.
    pub fn deep_clone(&self) -> (r: Punct)
        ensures
            r@ == self@,
    {
        Punct { op: self.op, spacing: self.spacing, span: self.span }
    }
}

// ---------------------------------------------------------------------------
// Identifier validity.
// ---------------------------------------------------------------------------

pub open spec fn is_ident_start(c: char) -> bool {
    ('a' <= c && c <= 'z') || ('A' <= c && c <= 'Z') || c == '_'
}

pub open spec fn is_ident_continue(c: char) -> bool {
    is_ident_start(c) || ('0' <= c && c <= '9')
}

pub open spec fn all_digits(s: Seq<char>) -> bool {
    forall|i: int| 0 <= i < s.len() ==> '0' <= #[trigger] s[i] <= '9'
}

/// A well-formed identifier text: non-empty, not all digits, an identifier
/// start character followed by identifier continue characters.
pub open spec fn ident_text_valid(s: Seq<char>) -> bool {
    &&& s.len() > 0
    &&& !all_digits(s)
    &&& is_ident_start(s[0])
    &&& forall|i: int| 0 < i < s.len() ==> is_ident_continue(#[trigger] s[i])
}

/// Decides [`ident_text_valid`].
pub fn check_ident_text(s: &str) -> (r: bool)
    ensures
        r == ident_text_valid(s@),
{
    let len = s.unicode_len();
    if len == 0 {
        return false;
    }
    let mut digits_only = true;
    let mut shape_ok = true;
    let mut i: usize = 0;
    while i < len
        invariant
            len == s@.len(),
            i <= len,
            digits_only == (forall|j: int| 0 <= j < i ==> '0' <= #[trigger] s@[j] <= '9'),
            shape_ok == (i == 0 || (is_ident_start(s@[0]) && forall|j: int|
                0 < j < i ==> is_ident_continue(#[trigger] s@[j]))),
        decreases len - i,
    {
        let c = s.get_char(i);
        let is_digit = '0' <= c && c <= '9';
        if !is_digit {
            digits_only = false;
        }
        if i == 0 {
            shape_ok = ('a' <= c && c <= 'z') || ('A' <= c && c <= 'Z') || c == '_';
        } else {
            let cont = ('a' <= c && c <= 'z') || ('A' <= c && c <= 'Z') || c == '_' || is_digit;
            shape_ok = shape_ok && cont;
        }
        i += 1;
    }
    !digits_only && shape_ok
}

impl Ident {
    /// A new non-raw identifier. The text must be well-formed; callers on an
    /// untrusted path check with [`check_ident_text`] first.
    pub fn new(string: &str, span: Span) -> (r: Ident)
        requires
            ident_text_valid(string@),
        ensures
            r@ == (IdentV { sym: string@, span, raw: false }),
    {
        Ident { sym: String::from_str(string), span, raw: false }
    }

    /// Internal constructor that also sets the raw flag.
    pub fn make(sym: String, raw: bool, span: Span) -> (r: Ident)
        requires
            ident_text_valid(sym@),
        ensures
            r@ == (IdentV { sym: sym@, span, raw }),
    {
        Ident { sym, span, raw }
    }

    pub fn span(&self) -> (r: Span)
        ensures
            r == self@.span,
    {
        self.span
    }

    pub fn set_span(&mut self, span: Span)
        ensures
            final(self)@ == (IdentV { span, ..old(self)@ }),
    {
        self.span = span;
    }

    /// A structurally equal copy.
    pub fn deep_clone(&self) -> (r: Ident)
        ensures
            r@ == self@,
    {
        Ident { sym: self.sym.clone(), span: self.span, raw: self.raw }
    }
}

impl Literal {
    /// Internal constructor around a pre-rendered text, at the call site.
    pub fn from_text(text: String) -> (r: Literal)
        ensures
            r@ == (LitV { text: text@, span: Span { handle: 0u32 } }),
    {
        Literal { text, span: Span::call_site() }
    }

    pub fn span(&self) -> (r: Span)
        ensures
            r == self@.span,
    {
        self.span
    }

    pub fn set_span(&mut self, span: Span)
        ensures
            final(self)@ == (LitV { span, ..old(self)@ }),
    {
        self.span = span;
    }

    /// Narrowing a literal to a sub-span is unsupported.
    pub fn subspan(&self, lo: usize, hi: usize) -> (r: Option<Span>)
        ensures
            r is None,
    {
        let _ = lo;
        let _ = hi;
        None
    }

    /// A structurally equal copy.
    pub fn deep_clone(&self) -> (r: Literal)
        ensures
            r@ == self@,
    {
        Literal { text: self.text.clone(), span: self.span }
    }
}

// ---------------------------------------------------------------------------
// Iteration: a cursor over a snapshot of a stream.
// ---------------------------------------------------------------------------

/// A cursor over a snapshotted copy of a stream's sequence; its view is the
/// remaining suffix. Advancing it is independent of later mutation of the
/// source stream.
pub struct IntoIter {
    pub trees: Vec<TokenTree>,
    pub pos: usize,
}

impl View for IntoIter {
    type V = Seq<TreeV>;

    open spec fn view(&self) -> Seq<TreeV> {
        if self.pos <= self.trees@.len() {
            trees_view(self.trees@).skip(self.pos as int)
        } else {
            Seq::empty()
        }
    }
}

impl IntoIter {
    /// Snapshots `stream` into a fresh cursor.
    pub fn from_stream(stream: &TokenStream) -> (r: IntoIter)
        ensures
            r@ == stream@,
    {
        let copy = stream.deep_clone();
        proof {
            lemma_trees_view(copy.trees@);
            assert(trees_view(copy.trees@).skip(0) =~= trees_view(copy.trees@));
        }
        IntoIter { trees: copy.trees, pos: 0 }
    }

    /// Takes the next tree, or `None` once exhausted; safe to call again
    /// after exhaustion.
    pub fn next(&mut self) -> (r: Option<TokenTree>)
        ensures
            old(self)@.len() == 0 ==> r is None && final(self)@ == old(self)@,
            old(self)@.len() > 0 ==> (r matches Some(t) && t@ == old(self)@[0] && final(self)@
                == old(self)@.drop_first()),
    {
        proof {
            lemma_trees_view(self.trees@);
        }
        if self.pos < self.trees.len() {
            let t = self.trees[self.pos].deep_clone();
            self.pos += 1;
            proof {
                assert(trees_view(self.trees@).skip(self.pos as int) =~= trees_view(
                    self.trees@,
                ).skip(self.pos - 1 as int).drop_first());
            }
            Some(t)
        } else {
            None
        }
    }

    /// Duplicates the cursor position independently.
    pub fn deep_clone(&self) -> (r: IntoIter)
        ensures
            r@ == self@,
    {
        let mut trees: Vec<TokenTree> = Vec::new();
        let n = self.trees.len();
        let mut i: usize = 0;
        while i < n
            invariant
                n == self.trees.len(),
                i <= n,
                trees@.len() == i,
                forall|j: int| 0 <= j < i ==> tree_view(trees@[j]) == tree_view(self.trees@[j]),
            decreases n - i,
        {
            let t = self.trees[i].deep_clone();
            trees.push(t);
            i += 1;
        }
        proof {
            lemma_trees_view(trees@);
            lemma_trees_view(self.trees@);
            assert(trees_view(trees@) =~= trees_view(self.trees@));
        }
        IntoIter { trees, pos: self.pos }
    }
}

} // verus!
