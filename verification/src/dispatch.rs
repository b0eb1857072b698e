//! The host implementation of every operation a guest may invoke by name.
//!
//! Each operation works on raw `u32` handles of the current scope (plus raw
//! scalars), reads or writes the arena, and returns a handle or scalar. A
//! handle outside its slab, a scalar outside its protocol range and an
//! invalid identifier text are defects of the exchange and come back as
//! errors; parse failure and iterator exhaustion are expected conditions and
//! come back as the sentinel handle.

use vstd::prelude::*;
use crate::arena::{Arena, ArenaV, Handle, lemma_seq_views_push, lemma_seq_views_update, slab_get, slab_push};
use crate::error::{HostError, Slab};
use crate::escape::{byte_string_lit_text, char_lit_text, string_lit_text};
use crate::lex::parse_stream;
use crate::literal::{signed_suffixed_text, unsigned_suffixed_text};
use crate::numfmt::{dec_digits, dec_int, i128_val};
use crate::render::{debug_group, debug_ident, debug_literal, debug_punct, debug_span, debug_stream, lex_cmp, render_group, render_ident, render_stream, str_lex_cmp};
use crate::strext::{char_from_u32, is_unicode_scalar, push_char};
use vstd::string::StringSliceAdditionalSpecFns;
use crate::token::{Delimiter, Group, GroupV, Ident, IdentV, IntoIter, LitV, Literal, Punct, PunctV, Spacing, Span, TokenStream, TokenTree, TreeV, check_ident_text, ident_text_valid};
use crate::SENTINEL;

verus! {

pub const TOKEN_GROUP: u32 = 0;

pub const TOKEN_IDENT: u32 = 1;

pub const TOKEN_PUNCT: u32 = 2;

pub const TOKEN_LITERAL: u32 = 3;

pub const DELIMITER_PARENTHESIS: u32 = 0;

pub const DELIMITER_BRACE: u32 = 1;

pub const DELIMITER_BRACKET: u32 = 2;

pub const DELIMITER_NONE: u32 = 3;

pub const SPACING_ALONE: u32 = 0;

pub const SPACING_JOINT: u32 = 1;

pub const ORDERING_LESS: u32 = 0;

pub const ORDERING_EQUAL: u32 = 1;

pub const ORDERING_GREATER: u32 = 2;

/// A raw handle addresses a live slot of a slab of this length.
pub open spec fn idx_ok(len: nat, h: u32) -> bool {
    (h as nat) < len
}

/// One more value may be pushed without reaching the sentinel index.
pub open spec fn can_push(len: nat) -> bool {
    len < SENTINEL as nat
}

/// The protocol code of a tree's kind.
pub open spec fn kind_code(t: TreeV) -> u32 {
    match t {
        TreeV::Group(_) => TOKEN_GROUP,
        TreeV::Ident(_) => TOKEN_IDENT,
        TreeV::Punct(_) => TOKEN_PUNCT,
        TreeV::Literal(_) => TOKEN_LITERAL,
    }
}

pub open spec fn delimiter_code(d: Delimiter) -> u32 {
    match d {
        Delimiter::Parenthesis => DELIMITER_PARENTHESIS,
        Delimiter::Brace => DELIMITER_BRACE,
        Delimiter::Bracket => DELIMITER_BRACKET,
        Delimiter::NoDelim => DELIMITER_NONE,
    }
}

pub open spec fn spacing_code(sp: Spacing) -> u32 {
    match sp {
        Spacing::Alone => SPACING_ALONE,
        Spacing::Joint => SPACING_JOINT,
    }
}

// ---------------------------------------------------------------------------
// Token streams.
// ---------------------------------------------------------------------------

/// A fresh empty stream.
pub fn token_stream_new(a: &mut Arena) -> (r: Result<u32, HostError>)
    ensures
        !can_push(old(a)@.streams.len()) ==> r == Err::<u32, HostError>(
            HostError::SlabFull { slab: Slab::TokenStreams },
        ) && final(a)@ == old(a)@,
        can_push(old(a)@.streams.len()) ==> r == Ok::<u32, HostError>(
            old(a)@.streams.len() as u32,
        ) && final(a)@ == (ArenaV {
            streams: old(a)@.streams.push(Seq::empty()),
            ..old(a)@
        }),
{
    let scope = a.scope;
    let ts = TokenStream::new();
    proof {
        lemma_seq_views_push(a.streams@, ts);
    }
    match slab_push(&mut a.streams, scope, ts, Slab::TokenStreams) {
        Ok(h) => Ok(h.index),
        Err(e) => Err(e),
    }
}

/// Whether the stream is empty, as a 0/1 scalar.
pub fn token_stream_is_empty(a: &mut Arena, stream: u32) -> (r: Result<u32, HostError>)
    ensures
        final(a)@ == old(a)@,
        !idx_ok(old(a)@.streams.len(), stream) ==> r == Err::<u32, HostError>(
            HostError::InvalidHandle { slab: Slab::TokenStreams, handle: stream },
        ),
        idx_ok(old(a)@.streams.len(), stream) ==> r == Ok::<u32, HostError>(
            if old(a)@.streams[stream as int].len() == 0 {
                1u32
            } else {
                0u32
            },
        ),
{
    let scope = a.scope;
    match slab_get(&a.streams, scope, Handle { index: stream, scope }, Slab::TokenStreams) {
        Ok(ts) => Ok(if ts.is_empty() {
            1
        } else {
            0
        }),
        Err(e) => Err(e),
    }
}

/// Parses the text at `string` into a fresh stream handle; malformed or
/// empty text gives the sentinel, never an error.
pub fn token_stream_from_str(a: &mut Arena, string: u32) -> (r: Result<u32, HostError>)
    ensures
        !idx_ok(old(a)@.strings.len(), string) ==> r == Err::<u32, HostError>(
            HostError::InvalidHandle { slab: Slab::Strings, handle: string },
        ) && final(a)@ == old(a)@,
        idx_ok(old(a)@.strings.len(), string) && parse_stream(old(a)@.strings[string as int])
            is None ==> r == Ok::<u32, HostError>(SENTINEL) && final(a)@ == old(a)@,
        (idx_ok(old(a)@.strings.len(), string) && parse_stream(old(a)@.strings[string as int])
            is Some) ==> (if can_push(old(a)@.streams.len()) {
            r == Ok::<u32, HostError>(old(a)@.streams.len() as u32) && final(a)@ == (ArenaV {
                streams: old(a)@.streams.push(
                    parse_stream(old(a)@.strings[string as int])->Some_0,
                ),
                ..old(a)@
            })
        } else {
            r == Err::<u32, HostError>(HostError::SlabFull { slab: Slab::TokenStreams })
                && final(a)@ == old(a)@
        }),
{
    let scope = a.scope;
    let text = match slab_get(&a.strings, scope, Handle { index: string, scope }, Slab::Strings) {
        Ok(s) => s,
        Err(e) => return Err(e),
    };
    match TokenStream::from_str(text.as_str()) {
        Ok(ts) => {
            proof {
                lemma_seq_views_push(a.streams@, ts);
            }
            match slab_push(&mut a.streams, scope, ts, Slab::TokenStreams) {
                Ok(h) => Ok(h.index),
                Err(e) => Err(e),
            }
        },
        Err(_) => Ok(SENTINEL),
    }
}

/// Snapshots the stream into a fresh cursor handle.
pub fn token_stream_into_iter(a: &mut Arena, stream: u32) -> (r: Result<u32, HostError>)
    ensures
        !idx_ok(old(a)@.streams.len(), stream) ==> r == Err::<u32, HostError>(
            HostError::InvalidHandle { slab: Slab::TokenStreams, handle: stream },
        ) && final(a)@ == old(a)@,
        idx_ok(old(a)@.streams.len(), stream) && !can_push(old(a)@.cursors.len()) ==> r == Err::<
            u32,
            HostError,
        >(HostError::SlabFull { slab: Slab::Cursors }) && final(a)@ == old(a)@,
        idx_ok(old(a)@.streams.len(), stream) && can_push(old(a)@.cursors.len()) ==> r == Ok::<
            u32,
            HostError,
        >(old(a)@.cursors.len() as u32) && final(a)@ == (ArenaV {
            cursors: old(a)@.cursors.push(old(a)@.streams[stream as int]),
            ..old(a)@
        }),
{
    let scope = a.scope;
    let ts = match slab_get(
        &a.streams,
        scope,
        Handle { index: stream, scope },
        Slab::TokenStreams,
    ) {
        Ok(s) => s,
        Err(e) => return Err(e),
    };
    let cursor = IntoIter::from_stream(ts);
    proof {
        lemma_seq_views_push(a.cursors@, cursor);
    }
    match slab_push(&mut a.cursors, scope, cursor, Slab::Cursors) {
        Ok(h) => Ok(h.index),
        Err(e) => Err(e),
    }
}

/// Advances the cursor: a fresh handle for the next tree, or the sentinel
/// once exhausted; safe to call again after exhaustion.
pub fn token_stream_iter_next(a: &mut Arena, iter: u32) -> (r: Result<u32, HostError>)
    ensures
        !idx_ok(old(a)@.cursors.len(), iter) ==> r == Err::<u32, HostError>(
            HostError::InvalidHandle { slab: Slab::Cursors, handle: iter },
        ) && final(a)@ == old(a)@,
        idx_ok(old(a)@.cursors.len(), iter) && old(a)@.cursors[iter as int].len() == 0 ==> r
            == Ok::<u32, HostError>(SENTINEL) && final(a)@ == old(a)@,
        idx_ok(old(a)@.cursors.len(), iter) && old(a)@.cursors[iter as int].len() > 0 ==> (if
            can_push(old(a)@.trees.len()) {
            r == Ok::<u32, HostError>(old(a)@.trees.len() as u32) && final(a)@ == (ArenaV {
                trees: old(a)@.trees.push(old(a)@.cursors[iter as int][0]),
                cursors: old(a)@.cursors.update(
                    iter as int,
                    old(a)@.cursors[iter as int].drop_first(),
                ),
                ..old(a)@
            })
        } else {
            r == Err::<u32, HostError>(HostError::SlabFull { slab: Slab::TokenTrees })
                && final(a)@ == old(a)@
        }),
{
    let scope = a.scope;
    if !((iter as usize) < a.cursors.len()) {
        return Err(HostError::InvalidHandle { slab: Slab::Cursors, handle: iter });
    }
    if a.trees.len() >= SENTINEL as usize {
        let cur = &a.cursors[iter as usize];
        if cur.pos < cur.trees.len() {
            proof {
                crate::token::lemma_trees_view(a.cursors@[iter as int].trees@);
            }
            return Err(HostError::SlabFull { slab: Slab::TokenTrees });
        } else {
            proof {
                crate::token::lemma_trees_view(a.cursors@[iter as int].trees@);
            }
            return Ok(SENTINEL);
        }
    }
    let cur = &mut a.cursors[iter as usize];
    match cur.next() {
        Some(t) => {
            proof {
                lemma_seq_views_update(old(a).cursors@, iter as int, a.cursors@[iter as int]);
                lemma_seq_views_push(a.trees@, t);
            }
            match slab_push(&mut a.trees, scope, t, Slab::TokenTrees) {
                Ok(h) => Ok(h.index),
                Err(e) => Err(e),
            }
        },
        None => {
            proof {
                lemma_seq_views_update(old(a).cursors@, iter as int, a.cursors@[iter as int]);
                assert(final(a)@ =~= old(a)@) by {
                    assert(crate::arena::seq_views(a.cursors@) =~= crate::arena::seq_views(
                        old(a).cursors@,
                    ));
                };
            }
            Ok(SENTINEL)
        },
    }
}

/// Duplicates the cursor, position included, independently.
pub fn token_stream_iter_clone(a: &mut Arena, iter: u32) -> (r: Result<u32, HostError>)
    ensures
        !idx_ok(old(a)@.cursors.len(), iter) ==> r == Err::<u32, HostError>(
            HostError::InvalidHandle { slab: Slab::Cursors, handle: iter },
        ) && final(a)@ == old(a)@,
        idx_ok(old(a)@.cursors.len(), iter) && !can_push(old(a)@.cursors.len()) ==> r == Err::<
            u32,
            HostError,
        >(HostError::SlabFull { slab: Slab::Cursors }) && final(a)@ == old(a)@,
        idx_ok(old(a)@.cursors.len(), iter) && can_push(old(a)@.cursors.len()) ==> r == Ok::<
            u32,
            HostError,
        >(old(a)@.cursors.len() as u32) && final(a)@ == (ArenaV {
            cursors: old(a)@.cursors.push(old(a)@.cursors[iter as int]),
            ..old(a)@
        }),
{
    let scope = a.scope;
    let cur = match slab_get(&a.cursors, scope, Handle { index: iter, scope }, Slab::Cursors) {
        Ok(c) => c,
        Err(e) => return Err(e),
    };
    let copy = cur.deep_clone();
    proof {
        lemma_seq_views_push(a.cursors@, copy);
    }
    match slab_push(&mut a.cursors, scope, copy, Slab::Cursors) {
        Ok(h) => Ok(h.index),
        Err(e) => Err(e),
    }
}

/// A one-tree stream holding a copy of the group.
pub fn token_stream_from_group(a: &mut Arena, group: u32) -> (r: Result<u32, HostError>)
    ensures
        !idx_ok(old(a)@.groups.len(), group) ==> r == Err::<u32, HostError>(
            HostError::InvalidHandle { slab: Slab::Groups, handle: group },
        ) && final(a)@ == old(a)@,
        idx_ok(old(a)@.groups.len(), group) && !can_push(old(a)@.streams.len()) ==> r == Err::<
            u32,
            HostError,
        >(HostError::SlabFull { slab: Slab::TokenStreams }) && final(a)@ == old(a)@,
        idx_ok(old(a)@.groups.len(), group) && can_push(old(a)@.streams.len()) ==> r == Ok::<
            u32,
            HostError,
        >(old(a)@.streams.len() as u32) && final(a)@ == (ArenaV {
            streams: old(a)@.streams.push(seq![TreeV::Group(old(a)@.groups[group as int])]),
            ..old(a)@
        }),
{
    let scope = a.scope;
    let x = match slab_get(&a.groups, scope, Handle { index: group, scope }, Slab::Groups) {
        Ok(x) => x,
        Err(e) => return Err(e),
    };
    let ts = TokenStream::from_tree(TokenTree::Group(x.deep_clone()));
    proof {
        lemma_seq_views_push(a.streams@, ts);
    }
    match slab_push(&mut a.streams, scope, ts, Slab::TokenStreams) {
        Ok(h) => Ok(h.index),
        Err(e) => Err(e),
    }
}

/// A one-tree stream holding a copy of the identifier.
pub fn token_stream_from_ident(a: &mut Arena, ident: u32) -> (r: Result<u32, HostError>)
    ensures
        !idx_ok(old(a)@.idents.len(), ident) ==> r == Err::<u32, HostError>(
            HostError::InvalidHandle { slab: Slab::Idents, handle: ident },
        ) && final(a)@ == old(a)@,
        idx_ok(old(a)@.idents.len(), ident) && !can_push(old(a)@.streams.len()) ==> r == Err::<
            u32,
            HostError,
        >(HostError::SlabFull { slab: Slab::TokenStreams }) && final(a)@ == old(a)@,
        idx_ok(old(a)@.idents.len(), ident) && can_push(old(a)@.streams.len()) ==> r == Ok::<
            u32,
            HostError,
        >(old(a)@.streams.len() as u32) && final(a)@ == (ArenaV {
            streams: old(a)@.streams.push(seq![TreeV::Ident(old(a)@.idents[ident as int])]),
            ..old(a)@
        }),
{
    let scope = a.scope;
    let x = match slab_get(&a.idents, scope, Handle { index: ident, scope }, Slab::Idents) {
        Ok(x) => x,
        Err(e) => return Err(e),
    };
    let ts = TokenStream::from_tree(TokenTree::Ident(x.deep_clone()));
    proof {
        lemma_seq_views_push(a.streams@, ts);
    }
    match slab_push(&mut a.streams, scope, ts, Slab::TokenStreams) {
        Ok(h) => Ok(h.index),
        Err(e) => Err(e),
    }
}

/// A one-tree stream holding a copy of the punctuation token.
pub fn token_stream_from_punct(a: &mut Arena, punct: u32) -> (r: Result<u32, HostError>)
    ensures
        !idx_ok(old(a)@.puncts.len(), punct) ==> r == Err::<u32, HostError>(
            HostError::InvalidHandle { slab: Slab::Puncts, handle: punct },
        ) && final(a)@ == old(a)@,
        idx_ok(old(a)@.puncts.len(), punct) && !can_push(old(a)@.streams.len()) ==> r == Err::<
            u32,
            HostError,
        >(HostError::SlabFull { slab: Slab::TokenStreams }) && final(a)@ == old(a)@,
        idx_ok(old(a)@.puncts.len(), punct) && can_push(old(a)@.streams.len()) ==> r == Ok::<
            u32,
            HostError,
        >(old(a)@.streams.len() as u32) && final(a)@ == (ArenaV {
            streams: old(a)@.streams.push(seq![TreeV::Punct(old(a)@.puncts[punct as int])]),
            ..old(a)@
        }),
{
    let scope = a.scope;
    let x = match slab_get(&a.puncts, scope, Handle { index: punct, scope }, Slab::Puncts) {
        Ok(x) => x,
        Err(e) => return Err(e),
    };
    let ts = TokenStream::from_tree(TokenTree::Punct(x.deep_clone()));
    proof {
        lemma_seq_views_push(a.streams@, ts);
    }
    match slab_push(&mut a.streams, scope, ts, Slab::TokenStreams) {
        Ok(h) => Ok(h.index),
        Err(e) => Err(e),
    }
}

/// A one-tree stream holding a copy of the literal.
pub fn token_stream_from_literal(a: &mut Arena, literal: u32) -> (r: Result<u32, HostError>)
    ensures
        !idx_ok(old(a)@.literals.len(), literal) ==> r == Err::<u32, HostError>(
            HostError::InvalidHandle { slab: Slab::Literals, handle: literal },
        ) && final(a)@ == old(a)@,
        idx_ok(old(a)@.literals.len(), literal) && !can_push(old(a)@.streams.len()) ==> r == Err::<
            u32,
            HostError,
        >(HostError::SlabFull { slab: Slab::TokenStreams }) && final(a)@ == old(a)@,
        idx_ok(old(a)@.literals.len(), literal) && can_push(old(a)@.streams.len()) ==> r == Ok::<
            u32,
            HostError,
        >(old(a)@.streams.len() as u32) && final(a)@ == (ArenaV {
            streams: old(a)@.streams.push(seq![TreeV::Literal(old(a)@.literals[literal as int])]),
            ..old(a)@
        }),
{
    let scope = a.scope;
    let x = match slab_get(&a.literals, scope, Handle { index: literal, scope }, Slab::Literals) {
        Ok(x) => x,
        Err(e) => return Err(e),
    };
    let ts = TokenStream::from_tree(TokenTree::Literal(x.deep_clone()));
    proof {
        lemma_seq_views_push(a.streams@, ts);
    }
    match slab_push(&mut a.streams, scope, ts, Slab::TokenStreams) {
        Ok(h) => Ok(h.index),
        Err(e) => Err(e),
    }
}

/// Appends a copy of the group onto the stream in place.
pub fn token_stream_push_group(a: &mut Arena, stream: u32, group: u32) -> (r: Result<
    (),
    HostError,
>)
    ensures
        !idx_ok(old(a)@.groups.len(), group) ==> r == Err::<(), HostError>(
            HostError::InvalidHandle { slab: Slab::Groups, handle: group },
        ) && final(a)@ == old(a)@,
        idx_ok(old(a)@.groups.len(), group) && !idx_ok(old(a)@.streams.len(), stream) ==> r
            == Err::<(), HostError>(
            HostError::InvalidHandle { slab: Slab::TokenStreams, handle: stream },
        ) && final(a)@ == old(a)@,
        idx_ok(old(a)@.groups.len(), group) && idx_ok(old(a)@.streams.len(), stream) ==> r
            == Ok::<(), HostError>(()) && final(a)@ == (ArenaV {
            streams: old(a)@.streams.update(
                stream as int,
                old(a)@.streams[stream as int].push(TreeV::Group(old(a)@.groups[group as int])),
            ),
            ..old(a)@
        }),
{
    let scope = a.scope;
    let x = match slab_get(&a.groups, scope, Handle { index: group, scope }, Slab::Groups) {
        Ok(x) => x,
        Err(e) => return Err(e),
    };
    let t = TokenTree::Group(x.deep_clone());
    if !((stream as usize) < a.streams.len()) {
        return Err(HostError::InvalidHandle { slab: Slab::TokenStreams, handle: stream });
    }
    let ts = &mut a.streams[stream as usize];
    ts.push_tree(t);
    proof {
        lemma_seq_views_update(old(a).streams@, stream as int, a.streams@[stream as int]);
    }
    Ok(())
}

/// Appends a copy of the identifier onto the stream in place.
pub fn token_stream_push_ident(a: &mut Arena, stream: u32, ident: u32) -> (r: Result<
    (),
    HostError,
>)
    ensures
        !idx_ok(old(a)@.idents.len(), ident) ==> r == Err::<(), HostError>(
            HostError::InvalidHandle { slab: Slab::Idents, handle: ident },
        ) && final(a)@ == old(a)@,
        idx_ok(old(a)@.idents.len(), ident) && !idx_ok(old(a)@.streams.len(), stream) ==> r
            == Err::<(), HostError>(
            HostError::InvalidHandle { slab: Slab::TokenStreams, handle: stream },
        ) && final(a)@ == old(a)@,
        idx_ok(old(a)@.idents.len(), ident) && idx_ok(old(a)@.streams.len(), stream) ==> r
            == Ok::<(), HostError>(()) && final(a)@ == (ArenaV {
            streams: old(a)@.streams.update(
                stream as int,
                old(a)@.streams[stream as int].push(TreeV::Ident(old(a)@.idents[ident as int])),
            ),
            ..old(a)@
        }),
{
    let scope = a.scope;
    let x = match slab_get(&a.idents, scope, Handle { index: ident, scope }, Slab::Idents) {
        Ok(x) => x,
        Err(e) => return Err(e),
    };
    let t = TokenTree::Ident(x.deep_clone());
    if !((stream as usize) < a.streams.len()) {
        return Err(HostError::InvalidHandle { slab: Slab::TokenStreams, handle: stream });
    }
    let ts = &mut a.streams[stream as usize];
    ts.push_tree(t);
    proof {
        lemma_seq_views_update(old(a).streams@, stream as int, a.streams@[stream as int]);
    }
    Ok(())
}

/// Appends a copy of the punctuation token onto the stream in place.
pub fn token_stream_push_punct(a: &mut Arena, stream: u32, punct: u32) -> (r: Result<
    (),
    HostError,
>)
    ensures
        !idx_ok(old(a)@.puncts.len(), punct) ==> r == Err::<(), HostError>(
            HostError::InvalidHandle { slab: Slab::Puncts, handle: punct },
        ) && final(a)@ == old(a)@,
        idx_ok(old(a)@.puncts.len(), punct) && !idx_ok(old(a)@.streams.len(), stream) ==> r
            == Err::<(), HostError>(
            HostError::InvalidHandle { slab: Slab::TokenStreams, handle: stream },
        ) && final(a)@ == old(a)@,
        idx_ok(old(a)@.puncts.len(), punct) && idx_ok(old(a)@.streams.len(), stream) ==> r
            == Ok::<(), HostError>(()) && final(a)@ == (ArenaV {
            streams: old(a)@.streams.update(
                stream as int,
                old(a)@.streams[stream as int].push(TreeV::Punct(old(a)@.puncts[punct as int])),
            ),
            ..old(a)@
        }),
{
    let scope = a.scope;
    let x = match slab_get(&a.puncts, scope, Handle { index: punct, scope }, Slab::Puncts) {
        Ok(x) => x,
        Err(e) => return Err(e),
    };
    let t = TokenTree::Punct(x.deep_clone());
    if !((stream as usize) < a.streams.len()) {
        return Err(HostError::InvalidHandle { slab: Slab::TokenStreams, handle: stream });
    }
    let ts = &mut a.streams[stream as usize];
    ts.push_tree(t);
    proof {
        lemma_seq_views_update(old(a).streams@, stream as int, a.streams@[stream as int]);
    }
    Ok(())
}

/// Appends a copy of the literal onto the stream in place.
pub fn token_stream_push_literal(a: &mut Arena, stream: u32, literal: u32) -> (r: Result<
    (),
    HostError,
>)
    ensures
        !idx_ok(old(a)@.literals.len(), literal) ==> r == Err::<(), HostError>(
            HostError::InvalidHandle { slab: Slab::Literals, handle: literal },
        ) && final(a)@ == old(a)@,
        idx_ok(old(a)@.literals.len(), literal) && !idx_ok(old(a)@.streams.len(), stream) ==> r
            == Err::<(), HostError>(
            HostError::InvalidHandle { slab: Slab::TokenStreams, handle: stream },
        ) && final(a)@ == old(a)@,
        idx_ok(old(a)@.literals.len(), literal) && idx_ok(old(a)@.streams.len(), stream) ==> r
            == Ok::<(), HostError>(()) && final(a)@ == (ArenaV {
            streams: old(a)@.streams.update(
                stream as int,
                old(a)@.streams[stream as int].push(TreeV::Literal(old(a)@.literals[literal as int])),
            ),
            ..old(a)@
        }),
{
    let scope = a.scope;
    let x = match slab_get(&a.literals, scope, Handle { index: literal, scope }, Slab::Literals) {
        Ok(x) => x,
        Err(e) => return Err(e),
    };
    let t = TokenTree::Literal(x.deep_clone());
    if !((stream as usize) < a.streams.len()) {
        return Err(HostError::InvalidHandle { slab: Slab::TokenStreams, handle: stream });
    }
    let ts = &mut a.streams[stream as usize];
    ts.push_tree(t);
    proof {
        lemma_seq_views_update(old(a).streams@, stream as int, a.streams@[stream as int]);
    }
    Ok(())
}

/// Appends a copy of every tree of the stream at `next` onto the stream at
/// `stream` in place.
pub fn token_stream_extend(a: &mut Arena, stream: u32, next: u32) -> (r: Result<(), HostError>)
    ensures
        !idx_ok(old(a)@.streams.len(), next) ==> r == Err::<(), HostError>(
            HostError::InvalidHandle { slab: Slab::TokenStreams, handle: next },
        ) && final(a)@ == old(a)@,
        idx_ok(old(a)@.streams.len(), next) && !idx_ok(old(a)@.streams.len(), stream) ==> r
            == Err::<(), HostError>(
            HostError::InvalidHandle { slab: Slab::TokenStreams, handle: stream },
        ) && final(a)@ == old(a)@,
        idx_ok(old(a)@.streams.len(), next) && idx_ok(old(a)@.streams.len(), stream) ==> r
            == Ok::<(), HostError>(()) && final(a)@ == (ArenaV {
            streams: old(a)@.streams.update(
                stream as int,
                old(a)@.streams[stream as int] + old(a)@.streams[next as int],
            ),
            ..old(a)@
        }),
{
    let scope = a.scope;
    let other = match slab_get(
        &a.streams,
        scope,
        Handle { index: next, scope },
        Slab::TokenStreams,
    ) {
        Ok(s) => s.deep_clone(),
        Err(e) => return Err(e),
    };
    if !((stream as usize) < a.streams.len()) {
        return Err(HostError::InvalidHandle { slab: Slab::TokenStreams, handle: stream });
    }
    let ts = &mut a.streams[stream as usize];
    ts.extend_stream(&other);
    proof {
        lemma_seq_views_update(old(a).streams@, stream as int, a.streams@[stream as int]);
    }
    Ok(())
}

/// The protocol code of the tree's kind.
pub fn token_tree_kind(a: &mut Arena, token: u32) -> (r: Result<u32, HostError>)
    ensures
        final(a)@ == old(a)@,
        !idx_ok(old(a)@.trees.len(), token) ==> r == Err::<u32, HostError>(
            HostError::InvalidHandle { slab: Slab::TokenTrees, handle: token },
        ),
        idx_ok(old(a)@.trees.len(), token) ==> r == Ok::<u32, HostError>(
            kind_code(old(a)@.trees[token as int]),
        ),
{
    let scope = a.scope;
    let t = match slab_get(&a.trees, scope, Handle { index: token, scope }, Slab::TokenTrees) {
        Ok(t) => t,
        Err(e) => return Err(e),
    };
    Ok(
        match t {
            TokenTree::Group(_) => TOKEN_GROUP,
            TokenTree::Ident(_) => TOKEN_IDENT,
            TokenTree::Punct(_) => TOKEN_PUNCT,
            TokenTree::Literal(_) => TOKEN_LITERAL,
        },
    )
}

/// The group inside the tree, under a fresh handle; a tree of another kind
/// is a protocol violation reported with its kind code.
pub fn token_tree_unwrap_group(a: &mut Arena, token: u32) -> (r: Result<u32, HostError>)
    ensures
        !idx_ok(old(a)@.trees.len(), token) ==> r == Err::<u32, HostError>(
            HostError::InvalidHandle { slab: Slab::TokenTrees, handle: token },
        ) && final(a)@ == old(a)@,
        idx_ok(old(a)@.trees.len(), token) && !(old(a)@.trees[token as int] is Group) ==> r
            == Err::<u32, HostError>(
            HostError::InvalidScalar { value: kind_code(old(a)@.trees[token as int]) },
        ) && final(a)@ == old(a)@,
        (idx_ok(old(a)@.trees.len(), token) && old(a)@.trees[token as int] is Group && !can_push(
            old(a)@.groups.len(),
        )) ==> r == Err::<u32, HostError>(HostError::SlabFull { slab: Slab::Groups }) && final(a)@ == old(a)@,
        (idx_ok(old(a)@.trees.len(), token) && old(a)@.trees[token as int] is Group && can_push(
            old(a)@.groups.len(),
        )) ==> r == Ok::<u32, HostError>(old(a)@.groups.len() as u32) && final(a)@ == (ArenaV {
            groups: old(a)@.groups.push(old(a)@.trees[token as int]->Group_0),
            ..old(a)@
        }),
{
    let scope = a.scope;
    let t = match slab_get(&a.trees, scope, Handle { index: token, scope }, Slab::TokenTrees) {
        Ok(t) => t,
        Err(e) => return Err(e),
    };
    let k = match t {
        TokenTree::Group(_) => TOKEN_GROUP,
        TokenTree::Ident(_) => TOKEN_IDENT,
        TokenTree::Punct(_) => TOKEN_PUNCT,
        TokenTree::Literal(_) => TOKEN_LITERAL,
    };
    let x = match t {
        TokenTree::Group(x) => x.deep_clone(),
        _ => {
            return Err(HostError::InvalidScalar { value: k });
        },
    };
    proof {
        lemma_seq_views_push(a.groups@, x);
    }
    match slab_push(&mut a.groups, scope, x, Slab::Groups) {
        Ok(h) => Ok(h.index),
        Err(e) => Err(e),
    }
}

/// The identifier inside the tree, under a fresh handle; a tree of another kind
/// is a protocol violation reported with its kind code.
pub fn token_tree_unwrap_ident(a: &mut Arena, token: u32) -> (r: Result<u32, HostError>)
    ensures
        !idx_ok(old(a)@.trees.len(), token) ==> r == Err::<u32, HostError>(
            HostError::InvalidHandle { slab: Slab::TokenTrees, handle: token },
        ) && final(a)@ == old(a)@,
        idx_ok(old(a)@.trees.len(), token) && !(old(a)@.trees[token as int] is Ident) ==> r
            == Err::<u32, HostError>(
            HostError::InvalidScalar { value: kind_code(old(a)@.trees[token as int]) },
        ) && final(a)@ == old(a)@,
        (idx_ok(old(a)@.trees.len(), token) && old(a)@.trees[token as int] is Ident && !can_push(
            old(a)@.idents.len(),
        )) ==> r == Err::<u32, HostError>(HostError::SlabFull { slab: Slab::Idents }) && final(a)@ == old(a)@,
        (idx_ok(old(a)@.trees.len(), token) && old(a)@.trees[token as int] is Ident && can_push(
            old(a)@.idents.len(),
        )) ==> r == Ok::<u32, HostError>(old(a)@.idents.len() as u32) && final(a)@ == (ArenaV {
            idents: old(a)@.idents.push(old(a)@.trees[token as int]->Ident_0),
            ..old(a)@
        }),
{
    let scope = a.scope;
    let t = match slab_get(&a.trees, scope, Handle { index: token, scope }, Slab::TokenTrees) {
        Ok(t) => t,
        Err(e) => return Err(e),
    };
    let k = match t {
        TokenTree::Group(_) => TOKEN_GROUP,
        TokenTree::Ident(_) => TOKEN_IDENT,
        TokenTree::Punct(_) => TOKEN_PUNCT,
        TokenTree::Literal(_) => TOKEN_LITERAL,
    };
    let x = match t {
        TokenTree::Ident(x) => x.deep_clone(),
        _ => {
            return Err(HostError::InvalidScalar { value: k });
        },
    };
    proof {
        lemma_seq_views_push(a.idents@, x);
    }
    match slab_push(&mut a.idents, scope, x, Slab::Idents) {
        Ok(h) => Ok(h.index),
        Err(e) => Err(e),
    }
}

/// The punctuation token inside the tree, under a fresh handle; a tree of another kind
/// is a protocol violation reported with its kind code.
pub fn token_tree_unwrap_punct(a: &mut Arena, token: u32) -> (r: Result<u32, HostError>)
    ensures
        !idx_ok(old(a)@.trees.len(), token) ==> r == Err::<u32, HostError>(
            HostError::InvalidHandle { slab: Slab::TokenTrees, handle: token },
        ) && final(a)@ == old(a)@,
        idx_ok(old(a)@.trees.len(), token) && !(old(a)@.trees[token as int] is Punct) ==> r
            == Err::<u32, HostError>(
            HostError::InvalidScalar { value: kind_code(old(a)@.trees[token as int]) },
        ) && final(a)@ == old(a)@,
        (idx_ok(old(a)@.trees.len(), token) && old(a)@.trees[token as int] is Punct && !can_push(
            old(a)@.puncts.len(),
        )) ==> r == Err::<u32, HostError>(HostError::SlabFull { slab: Slab::Puncts }) && final(a)@ == old(a)@,
        (idx_ok(old(a)@.trees.len(), token) && old(a)@.trees[token as int] is Punct && can_push(
            old(a)@.puncts.len(),
        )) ==> r == Ok::<u32, HostError>(old(a)@.puncts.len() as u32) && final(a)@ == (ArenaV {
            puncts: old(a)@.puncts.push(old(a)@.trees[token as int]->Punct_0),
            ..old(a)@
        }),
{
    let scope = a.scope;
    let t = match slab_get(&a.trees, scope, Handle { index: token, scope }, Slab::TokenTrees) {
        Ok(t) => t,
        Err(e) => return Err(e),
    };
    let k = match t {
        TokenTree::Group(_) => TOKEN_GROUP,
        TokenTree::Ident(_) => TOKEN_IDENT,
        TokenTree::Punct(_) => TOKEN_PUNCT,
        TokenTree::Literal(_) => TOKEN_LITERAL,
    };
    let x = match t {
        TokenTree::Punct(x) => x.deep_clone(),
        _ => {
            return Err(HostError::InvalidScalar { value: k });
        },
    };
    proof {
        lemma_seq_views_push(a.puncts@, x);
    }
    match slab_push(&mut a.puncts, scope, x, Slab::Puncts) {
        Ok(h) => Ok(h.index),
        Err(e) => Err(e),
    }
}

/// The literal inside the tree, under a fresh handle; a tree of another kind
/// is a protocol violation reported with its kind code.
pub fn token_tree_unwrap_literal(a: &mut Arena, token: u32) -> (r: Result<u32, HostError>)
    ensures
        !idx_ok(old(a)@.trees.len(), token) ==> r == Err::<u32, HostError>(
            HostError::InvalidHandle { slab: Slab::TokenTrees, handle: token },
        ) && final(a)@ == old(a)@,
        idx_ok(old(a)@.trees.len(), token) && !(old(a)@.trees[token as int] is Literal) ==> r
            == Err::<u32, HostError>(
            HostError::InvalidScalar { value: kind_code(old(a)@.trees[token as int]) },
        ) && final(a)@ == old(a)@,
        (idx_ok(old(a)@.trees.len(), token) && old(a)@.trees[token as int] is Literal && !can_push(
            old(a)@.literals.len(),
        )) ==> r == Err::<u32, HostError>(HostError::SlabFull { slab: Slab::Literals }) && final(a)@ == old(a)@,
        (idx_ok(old(a)@.trees.len(), token) && old(a)@.trees[token as int] is Literal && can_push(
            old(a)@.literals.len(),
        )) ==> r == Ok::<u32, HostError>(old(a)@.literals.len() as u32) && final(a)@ == (ArenaV {
            literals: old(a)@.literals.push(old(a)@.trees[token as int]->Literal_0),
            ..old(a)@
        }),
{
    let scope = a.scope;
    let t = match slab_get(&a.trees, scope, Handle { index: token, scope }, Slab::TokenTrees) {
        Ok(t) => t,
        Err(e) => return Err(e),
    };
    let k = match t {
        TokenTree::Group(_) => TOKEN_GROUP,
        TokenTree::Ident(_) => TOKEN_IDENT,
        TokenTree::Punct(_) => TOKEN_PUNCT,
        TokenTree::Literal(_) => TOKEN_LITERAL,
    };
    let x = match t {
        TokenTree::Literal(x) => x.deep_clone(),
        _ => {
            return Err(HostError::InvalidScalar { value: k });
        },
    };
    proof {
        lemma_seq_views_push(a.literals@, x);
    }
    match slab_push(&mut a.literals, scope, x, Slab::Literals) {
        Ok(h) => Ok(h.index),
        Err(e) => Err(e),
    }
}

// ---------------------------------------------------------------------------
// Spans, groups, punctuation, identifiers.
// ---------------------------------------------------------------------------

/// The delimiter a protocol code denotes, for codes below four.
pub open spec fn delim_of(c: u32) -> Delimiter {
    if c == DELIMITER_PARENTHESIS {
        Delimiter::Parenthesis
    } else if c == DELIMITER_BRACE {
        Delimiter::Brace
    } else if c == DELIMITER_BRACKET {
        Delimiter::Bracket
    } else {
        Delimiter::NoDelim
    }
}

/// The spacing a protocol code denotes, for codes below two.
pub open spec fn spacing_of(c: u32) -> Spacing {
    if c == SPACING_ALONE {
        Spacing::Alone
    } else {
        Spacing::Joint
    }
}

/// A fresh handle for the call site span.
pub fn span_call_site(a: &mut Arena) -> (r: Result<u32, HostError>)
    ensures
        !can_push(old(a)@.spans.len()) ==> r == Err::<u32, HostError>(
            HostError::SlabFull { slab: Slab::Spans },
        ) && final(a)@ == old(a)@,
        can_push(old(a)@.spans.len()) ==> r == Ok::<u32, HostError>(old(a)@.spans.len() as u32)
            && final(a)@ == (ArenaV {
            spans: old(a)@.spans.push(Span { handle: 0u32 }),
            ..old(a)@
        }),
{
    let scope = a.scope;
    match slab_push(&mut a.spans, scope, Span::call_site(), Slab::Spans) {
        Ok(h) => Ok(h.index),
        Err(e) => Err(e),
    }
}

/// A new group around a copy of the stream, under the given delimiter code.
pub fn group_new(a: &mut Arena, delimiter: u32, stream: u32) -> (r: Result<u32, HostError>)
    ensures
        !idx_ok(old(a)@.streams.len(), stream) ==> r == Err::<u32, HostError>(
            HostError::InvalidHandle { slab: Slab::TokenStreams, handle: stream },
        ) && final(a)@ == old(a)@,
        idx_ok(old(a)@.streams.len(), stream) && delimiter > 3 ==> r == Err::<u32, HostError>(
            HostError::InvalidScalar { value: delimiter },
        ) && final(a)@ == old(a)@,
        (idx_ok(old(a)@.streams.len(), stream) && delimiter <= 3 && !can_push(
            old(a)@.groups.len(),
        )) ==> r == Err::<u32, HostError>(HostError::SlabFull { slab: Slab::Groups })
            && final(a)@ == old(a)@,
        (idx_ok(old(a)@.streams.len(), stream) && delimiter <= 3 && can_push(
            old(a)@.groups.len(),
        )) ==> r == Ok::<u32, HostError>(old(a)@.groups.len() as u32) && final(a)@ == (ArenaV {
            groups: old(a)@.groups.push(
                GroupV {
                    delimiter: delim_of(delimiter),
                    stream: old(a)@.streams[stream as int],
                    span: Span { handle: 0u32 },
                },
            ),
            ..old(a)@
        }),
{
    let scope = a.scope;
    let ts = match slab_get(
        &a.streams,
        scope,
        Handle { index: stream, scope },
        Slab::TokenStreams,
    ) {
        Ok(s) => s,
        Err(e) => return Err(e),
    };
    let d = if delimiter == DELIMITER_PARENTHESIS {
        Delimiter::Parenthesis
    } else if delimiter == DELIMITER_BRACE {
        Delimiter::Brace
    } else if delimiter == DELIMITER_BRACKET {
        Delimiter::Bracket
    } else if delimiter == DELIMITER_NONE {
        Delimiter::NoDelim
    } else {
        return Err(HostError::InvalidScalar { value: delimiter });
    };
    let g = Group::new(d, ts.deep_clone());
    proof {
        lemma_seq_views_push(a.groups@, g);
    }
    match slab_push(&mut a.groups, scope, g, Slab::Groups) {
        Ok(h) => Ok(h.index),
        Err(e) => Err(e),
    }
}

/// The protocol code of the group's delimiter.
pub fn group_delimiter(a: &mut Arena, group: u32) -> (r: Result<u32, HostError>)
    ensures
        final(a)@ == old(a)@,
        !idx_ok(old(a)@.groups.len(), group) ==> r == Err::<u32, HostError>(
            HostError::InvalidHandle { slab: Slab::Groups, handle: group },
        ),
        idx_ok(old(a)@.groups.len(), group) ==> r == Ok::<u32, HostError>(
            delimiter_code(old(a)@.groups[group as int].delimiter),
        ),
{
    let scope = a.scope;
    let g = match slab_get(&a.groups, scope, Handle { index: group, scope }, Slab::Groups) {
        Ok(g) => g,
        Err(e) => return Err(e),
    };
    Ok(
        match g.delimiter {
            Delimiter::Parenthesis => DELIMITER_PARENTHESIS,
            Delimiter::Brace => DELIMITER_BRACE,
            Delimiter::Bracket => DELIMITER_BRACKET,
            Delimiter::NoDelim => DELIMITER_NONE,
        },
    )
}

/// A fresh stream handle holding a copy of the group's inner stream.
pub fn group_stream(a: &mut Arena, group: u32) -> (r: Result<u32, HostError>)
    ensures
        !idx_ok(old(a)@.groups.len(), group) ==> r == Err::<u32, HostError>(
            HostError::InvalidHandle { slab: Slab::Groups, handle: group },
        ) && final(a)@ == old(a)@,
        idx_ok(old(a)@.groups.len(), group) && !can_push(old(a)@.streams.len()) ==> r == Err::<
            u32,
            HostError,
        >(HostError::SlabFull { slab: Slab::TokenStreams }) && final(a)@ == old(a)@,
        idx_ok(old(a)@.groups.len(), group) && can_push(old(a)@.streams.len()) ==> r == Ok::<
            u32,
            HostError,
        >(old(a)@.streams.len() as u32) && final(a)@ == (ArenaV {
            streams: old(a)@.streams.push(old(a)@.groups[group as int].stream),
            ..old(a)@
        }),
{
    let scope = a.scope;
    let g = match slab_get(&a.groups, scope, Handle { index: group, scope }, Slab::Groups) {
        Ok(g) => g,
        Err(e) => return Err(e),
    };
    let ts = g.stream();
    proof {
        lemma_seq_views_push(a.streams@, ts);
    }
    match slab_push(&mut a.streams, scope, ts, Slab::TokenStreams) {
        Ok(h) => Ok(h.index),
        Err(e) => Err(e),
    }
}

/// A fresh span handle for the group's span.
pub fn group_span(a: &mut Arena, group: u32) -> (r: Result<u32, HostError>)
    ensures
        !idx_ok(old(a)@.groups.len(), group) ==> r == Err::<u32, HostError>(
            HostError::InvalidHandle { slab: Slab::Groups, handle: group },
        ) && final(a)@ == old(a)@,
        idx_ok(old(a)@.groups.len(), group) && !can_push(old(a)@.spans.len()) ==> r == Err::<
            u32,
            HostError,
        >(HostError::SlabFull { slab: Slab::Spans }) && final(a)@ == old(a)@,
        idx_ok(old(a)@.groups.len(), group) && can_push(old(a)@.spans.len()) ==> r == Ok::<
            u32,
            HostError,
        >(old(a)@.spans.len() as u32) && final(a)@ == (ArenaV {
            spans: old(a)@.spans.push(old(a)@.groups[group as int].span),
            ..old(a)@
        }),
{
    let scope = a.scope;
    let sp = match slab_get(&a.groups, scope, Handle { index: group, scope }, Slab::Groups) {
        Ok(x) => x.span,
        Err(e) => return Err(e),
    };
    match slab_push(&mut a.spans, scope, sp, Slab::Spans) {
        Ok(h) => Ok(h.index),
        Err(e) => Err(e),
    }
}

/// Moves the group to the span at `span`.
pub fn group_set_span(a: &mut Arena, group: u32, span: u32) -> (r: Result<(), HostError>)
    ensures
        !idx_ok(old(a)@.spans.len(), span) ==> r == Err::<(), HostError>(
            HostError::InvalidHandle { slab: Slab::Spans, handle: span },
        ) && final(a)@ == old(a)@,
        idx_ok(old(a)@.spans.len(), span) && !idx_ok(old(a)@.groups.len(), group) ==> r == Err::<
            (),
            HostError,
        >(HostError::InvalidHandle { slab: Slab::Groups, handle: group }) && final(a)@ == old(
            a,
        )@,
        idx_ok(old(a)@.spans.len(), span) && idx_ok(old(a)@.groups.len(), group) ==> r == Ok::<
            (),
            HostError,
        >(()) && final(a)@ == (ArenaV {
            groups: old(a)@.groups.update(
                group as int,
                GroupV { span: old(a)@.spans[span as int], ..old(a)@.groups[group as int] },
            ),
            ..old(a)@
        }),
{
    let scope = a.scope;
    let sp = match slab_get(&a.spans, scope, Handle { index: span, scope }, Slab::Spans) {
        Ok(x) => *x,
        Err(e) => return Err(e),
    };
    if !((group as usize) < a.groups.len()) {
        return Err(HostError::InvalidHandle { slab: Slab::Groups, handle: group });
    }
    let x = &mut a.groups[group as usize];
    x.set_span(sp);
    proof {
        lemma_seq_views_update(old(a).groups@, group as int, a.groups@[group as int]);
    }
    Ok(())
}

/// A fresh span handle for the punctuation token's span.
pub fn punct_span(a: &mut Arena, punct: u32) -> (r: Result<u32, HostError>)
    ensures
        !idx_ok(old(a)@.puncts.len(), punct) ==> r == Err::<u32, HostError>(
            HostError::InvalidHandle { slab: Slab::Puncts, handle: punct },
        ) && final(a)@ == old(a)@,
        idx_ok(old(a)@.puncts.len(), punct) && !can_push(old(a)@.spans.len()) ==> r == Err::<
            u32,
            HostError,
        >(HostError::SlabFull { slab: Slab::Spans }) && final(a)@ == old(a)@,
        idx_ok(old(a)@.puncts.len(), punct) && can_push(old(a)@.spans.len()) ==> r == Ok::<
            u32,
            HostError,
        >(old(a)@.spans.len() as u32) && final(a)@ == (ArenaV {
            spans: old(a)@.spans.push(old(a)@.puncts[punct as int].span),
            ..old(a)@
        }),
{
    let scope = a.scope;
    let sp = match slab_get(&a.puncts, scope, Handle { index: punct, scope }, Slab::Puncts) {
        Ok(x) => x.span,
        Err(e) => return Err(e),
    };
    match slab_push(&mut a.spans, scope, sp, Slab::Spans) {
        Ok(h) => Ok(h.index),
        Err(e) => Err(e),
    }
}

/// Moves the punctuation token to the span at `span`.
pub fn punct_set_span(a: &mut Arena, punct: u32, span: u32) -> (r: Result<(), HostError>)
    ensures
        !idx_ok(old(a)@.spans.len(), span) ==> r == Err::<(), HostError>(
            HostError::InvalidHandle { slab: Slab::Spans, handle: span },
        ) && final(a)@ == old(a)@,
        idx_ok(old(a)@.spans.len(), span) && !idx_ok(old(a)@.puncts.len(), punct) ==> r == Err::<
            (),
            HostError,
        >(HostError::InvalidHandle { slab: Slab::Puncts, handle: punct }) && final(a)@ == old(
            a,
        )@,
        idx_ok(old(a)@.spans.len(), span) && idx_ok(old(a)@.puncts.len(), punct) ==> r == Ok::<
            (),
            HostError,
        >(()) && final(a)@ == (ArenaV {
            puncts: old(a)@.puncts.update(
                punct as int,
                PunctV { span: old(a)@.spans[span as int], ..old(a)@.puncts[punct as int] },
            ),
            ..old(a)@
        }),
{
    let scope = a.scope;
    let sp = match slab_get(&a.spans, scope, Handle { index: span, scope }, Slab::Spans) {
        Ok(x) => *x,
        Err(e) => return Err(e),
    };
    if !((punct as usize) < a.puncts.len()) {
        return Err(HostError::InvalidHandle { slab: Slab::Puncts, handle: punct });
    }
    let x = &mut a.puncts[punct as usize];
    x.set_span(sp);
    proof {
        lemma_seq_views_update(old(a).puncts@, punct as int, a.puncts@[punct as int]);
    }
    Ok(())
}

/// A fresh span handle for the identifier's span.
pub fn ident_span(a: &mut Arena, ident: u32) -> (r: Result<u32, HostError>)
    ensures
        !idx_ok(old(a)@.idents.len(), ident) ==> r == Err::<u32, HostError>(
            HostError::InvalidHandle { slab: Slab::Idents, handle: ident },
        ) && final(a)@ == old(a)@,
        idx_ok(old(a)@.idents.len(), ident) && !can_push(old(a)@.spans.len()) ==> r == Err::<
            u32,
            HostError,
        >(HostError::SlabFull { slab: Slab::Spans }) && final(a)@ == old(a)@,
        idx_ok(old(a)@.idents.len(), ident) && can_push(old(a)@.spans.len()) ==> r == Ok::<
            u32,
            HostError,
        >(old(a)@.spans.len() as u32) && final(a)@ == (ArenaV {
            spans: old(a)@.spans.push(old(a)@.idents[ident as int].span),
            ..old(a)@
        }),
{
    let scope = a.scope;
    let sp = match slab_get(&a.idents, scope, Handle { index: ident, scope }, Slab::Idents) {
        Ok(x) => x.span,
        Err(e) => return Err(e),
    };
    match slab_push(&mut a.spans, scope, sp, Slab::Spans) {
        Ok(h) => Ok(h.index),
        Err(e) => Err(e),
    }
}

/// Moves the identifier to the span at `span`.
pub fn ident_set_span(a: &mut Arena, ident: u32, span: u32) -> (r: Result<(), HostError>)
    ensures
        !idx_ok(old(a)@.spans.len(), span) ==> r == Err::<(), HostError>(
            HostError::InvalidHandle { slab: Slab::Spans, handle: span },
        ) && final(a)@ == old(a)@,
        idx_ok(old(a)@.spans.len(), span) && !idx_ok(old(a)@.idents.len(), ident) ==> r == Err::<
            (),
            HostError,
        >(HostError::InvalidHandle { slab: Slab::Idents, handle: ident }) && final(a)@ == old(
            a,
        )@,
        idx_ok(old(a)@.spans.len(), span) && idx_ok(old(a)@.idents.len(), ident) ==> r == Ok::<
            (),
            HostError,
        >(()) && final(a)@ == (ArenaV {
            idents: old(a)@.idents.update(
                ident as int,
                IdentV { span: old(a)@.spans[span as int], ..old(a)@.idents[ident as int] },
            ),
            ..old(a)@
        }),
{
    let scope = a.scope;
    let sp = match slab_get(&a.spans, scope, Handle { index: span, scope }, Slab::Spans) {
        Ok(x) => *x,
        Err(e) => return Err(e),
    };
    if !((ident as usize) < a.idents.len()) {
        return Err(HostError::InvalidHandle { slab: Slab::Idents, handle: ident });
    }
    let x = &mut a.idents[ident as usize];
    x.set_span(sp);
    proof {
        lemma_seq_views_update(old(a).idents@, ident as int, a.idents@[ident as int]);
    }
    Ok(())
}

/// A fresh span handle for the literal's span.
pub fn literal_span(a: &mut Arena, literal: u32) -> (r: Result<u32, HostError>)
    ensures
        !idx_ok(old(a)@.literals.len(), literal) ==> r == Err::<u32, HostError>(
            HostError::InvalidHandle { slab: Slab::Literals, handle: literal },
        ) && final(a)@ == old(a)@,
        idx_ok(old(a)@.literals.len(), literal) && !can_push(old(a)@.spans.len()) ==> r == Err::<
            u32,
            HostError,
        >(HostError::SlabFull { slab: Slab::Spans }) && final(a)@ == old(a)@,
        idx_ok(old(a)@.literals.len(), literal) && can_push(old(a)@.spans.len()) ==> r == Ok::<
            u32,
            HostError,
        >(old(a)@.spans.len() as u32) && final(a)@ == (ArenaV {
            spans: old(a)@.spans.push(old(a)@.literals[literal as int].span),
            ..old(a)@
        }),
{
    let scope = a.scope;
    let sp = match slab_get(&a.literals, scope, Handle { index: literal, scope }, Slab::Literals) {
        Ok(x) => x.span,
        Err(e) => return Err(e),
    };
    match slab_push(&mut a.spans, scope, sp, Slab::Spans) {
        Ok(h) => Ok(h.index),
        Err(e) => Err(e),
    }
}

/// Moves the literal to the span at `span`.
pub fn literal_set_span(a: &mut Arena, literal: u32, span: u32) -> (r: Result<(), HostError>)
    ensures
        !idx_ok(old(a)@.spans.len(), span) ==> r == Err::<(), HostError>(
            HostError::InvalidHandle { slab: Slab::Spans, handle: span },
        ) && final(a)@ == old(a)@,
        idx_ok(old(a)@.spans.len(), span) && !idx_ok(old(a)@.literals.len(), literal) ==> r == Err::<
            (),
            HostError,
        >(HostError::InvalidHandle { slab: Slab::Literals, handle: literal }) && final(a)@ == old(
            a,
        )@,
        idx_ok(old(a)@.spans.len(), span) && idx_ok(old(a)@.literals.len(), literal) ==> r == Ok::<
            (),
            HostError,
        >(()) && final(a)@ == (ArenaV {
            literals: old(a)@.literals.update(
                literal as int,
                LitV { span: old(a)@.spans[span as int], ..old(a)@.literals[literal as int] },
            ),
            ..old(a)@
        }),
{
    let scope = a.scope;
    let sp = match slab_get(&a.spans, scope, Handle { index: span, scope }, Slab::Spans) {
        Ok(x) => *x,
        Err(e) => return Err(e),
    };
    if !((literal as usize) < a.literals.len()) {
        return Err(HostError::InvalidHandle { slab: Slab::Literals, handle: literal });
    }
    let x = &mut a.literals[literal as usize];
    x.set_span(sp);
    proof {
        lemma_seq_views_update(old(a).literals@, literal as int, a.literals@[literal as int]);
    }
    Ok(())
}

/// A new punctuation token from a code point and a spacing code.
pub fn punct_new(a: &mut Arena, op: u32, spacing: u32) -> (r: Result<u32, HostError>)
    ensures
        spacing > 1 ==> r == Err::<u32, HostError>(HostError::InvalidScalar { value: spacing })
            && final(a)@ == old(a)@,
        spacing <= 1 && !is_unicode_scalar(op) ==> r == Err::<u32, HostError>(
            HostError::InvalidScalar { value: op },
        ) && final(a)@ == old(a)@,
        (spacing <= 1 && is_unicode_scalar(op) && !can_push(old(a)@.puncts.len())) ==> r == Err::<
            u32,
            HostError,
        >(HostError::SlabFull { slab: Slab::Puncts }) && final(a)@ == old(a)@,
        (spacing <= 1 && is_unicode_scalar(op) && can_push(old(a)@.puncts.len())) ==> r == Ok::<
            u32,
            HostError,
        >(old(a)@.puncts.len() as u32) && final(a)@ == (ArenaV {
            puncts: old(a)@.puncts.push(
                PunctV {
                    op: op as char,
                    spacing: spacing_of(spacing),
                    span: Span { handle: 0u32 },
                },
            ),
            ..old(a)@
        }),
{
    let scope = a.scope;
    let sp = if spacing == SPACING_ALONE {
        Spacing::Alone
    } else if spacing == SPACING_JOINT {
        Spacing::Joint
    } else {
        return Err(HostError::InvalidScalar { value: spacing });
    };
    let c = match char_from_u32(op) {
        Some(c) => c,
        None => {
            return Err(HostError::InvalidScalar { value: op });
        },
    };
    proof {
        vstd::utf8::char_u32_cast(c, op);
    }
    let p = Punct::new(c, sp);
    proof {
        lemma_seq_views_push(a.puncts@, p);
    }
    match slab_push(&mut a.puncts, scope, p, Slab::Puncts) {
        Ok(h) => Ok(h.index),
        Err(e) => Err(e),
    }
}

/// The code point of the punctuation character.
pub fn punct_as_char(a: &mut Arena, punct: u32) -> (r: Result<u32, HostError>)
    ensures
        final(a)@ == old(a)@,
        !idx_ok(old(a)@.puncts.len(), punct) ==> r == Err::<u32, HostError>(
            HostError::InvalidHandle { slab: Slab::Puncts, handle: punct },
        ),
        idx_ok(old(a)@.puncts.len(), punct) ==> r == Ok::<u32, HostError>(
            old(a)@.puncts[punct as int].op as u32,
        ),
{
    let scope = a.scope;
    let p = match slab_get(&a.puncts, scope, Handle { index: punct, scope }, Slab::Puncts) {
        Ok(p) => p,
        Err(e) => return Err(e),
    };
    Ok(p.op as u32)
}

/// The protocol code of the token's spacing.
pub fn punct_spacing(a: &mut Arena, punct: u32) -> (r: Result<u32, HostError>)
    ensures
        final(a)@ == old(a)@,
        !idx_ok(old(a)@.puncts.len(), punct) ==> r == Err::<u32, HostError>(
            HostError::InvalidHandle { slab: Slab::Puncts, handle: punct },
        ),
        idx_ok(old(a)@.puncts.len(), punct) ==> r == Ok::<u32, HostError>(
            spacing_code(old(a)@.puncts[punct as int].spacing),
        ),
{
    let scope = a.scope;
    let p = match slab_get(&a.puncts, scope, Handle { index: punct, scope }, Slab::Puncts) {
        Ok(p) => p,
        Err(e) => return Err(e),
    };
    Ok(
        match p.spacing {
            Spacing::Alone => SPACING_ALONE,
            Spacing::Joint => SPACING_JOINT,
        },
    )
}

/// A new identifier from a string and a span; the text must be a
/// well-formed identifier.
pub fn ident_new(a: &mut Arena, string: u32, span: u32) -> (r: Result<u32, HostError>)
    ensures
        !idx_ok(old(a)@.spans.len(), span) ==> r == Err::<u32, HostError>(
            HostError::InvalidHandle { slab: Slab::Spans, handle: span },
        ) && final(a)@ == old(a)@,
        idx_ok(old(a)@.spans.len(), span) && !idx_ok(old(a)@.strings.len(), string) ==> r
            == Err::<u32, HostError>(HostError::InvalidHandle { slab: Slab::Strings, handle: string })
            && final(a)@ == old(a)@,
        (idx_ok(old(a)@.spans.len(), span) && idx_ok(old(a)@.strings.len(), string)
            && !ident_text_valid(old(a)@.strings[string as int])) ==> r == Err::<u32, HostError>(
            HostError::InvalidIdent,
        ) && final(a)@ == old(a)@,
        (idx_ok(old(a)@.spans.len(), span) && idx_ok(old(a)@.strings.len(), string)
            && ident_text_valid(old(a)@.strings[string as int]) && !can_push(
            old(a)@.idents.len(),
        )) ==> r == Err::<u32, HostError>(HostError::SlabFull { slab: Slab::Idents })
            && final(a)@ == old(a)@,
        (idx_ok(old(a)@.spans.len(), span) && idx_ok(old(a)@.strings.len(), string)
            && ident_text_valid(old(a)@.strings[string as int]) && can_push(
            old(a)@.idents.len(),
        )) ==> r == Ok::<u32, HostError>(old(a)@.idents.len() as u32) && final(a)@ == (ArenaV {
            idents: old(a)@.idents.push(
                IdentV {
                    sym: old(a)@.strings[string as int],
                    span: old(a)@.spans[span as int],
                    raw: false,
                },
            ),
            ..old(a)@
        }),
{
    let scope = a.scope;
    let sp = match slab_get(&a.spans, scope, Handle { index: span, scope }, Slab::Spans) {
        Ok(x) => *x,
        Err(e) => return Err(e),
    };
    let text = match slab_get(&a.strings, scope, Handle { index: string, scope }, Slab::Strings) {
        Ok(s) => s,
        Err(e) => return Err(e),
    };
    if !check_ident_text(text.as_str()) {
        return Err(HostError::InvalidIdent);
    }
    let id = Ident::new(text.as_str(), sp);
    proof {
        lemma_seq_views_push(a.idents@, id);
    }
    match slab_push(&mut a.idents, scope, id, Slab::Idents) {
        Ok(h) => Ok(h.index),
        Err(e) => Err(e),
    }
}

/// Whether two identifiers render to the same text; never handle equality.
pub fn ident_eq(a: &mut Arena, ident: u32, other: u32) -> (r: Result<u32, HostError>)
    ensures
        final(a)@ == old(a)@,
        !idx_ok(old(a)@.idents.len(), other) ==> r == Err::<u32, HostError>(
            HostError::InvalidHandle { slab: Slab::Idents, handle: other },
        ),
        idx_ok(old(a)@.idents.len(), other) && !idx_ok(old(a)@.idents.len(), ident) ==> r
            == Err::<u32, HostError>(HostError::InvalidHandle { slab: Slab::Idents, handle: ident }),
        idx_ok(old(a)@.idents.len(), other) && idx_ok(old(a)@.idents.len(), ident) ==> r == Ok::<
            u32,
            HostError,
        >(
            if render_ident(old(a)@.idents[ident as int]) == render_ident(
                old(a)@.idents[other as int],
            ) {
                1u32
            } else {
                0u32
            },
        ),
{
    let scope = a.scope;
    let ib = match slab_get(&a.idents, scope, Handle { index: other, scope }, Slab::Idents) {
        Ok(x) => x,
        Err(e) => return Err(e),
    };
    let sb = ib.display_string();
    let ia = match slab_get(&a.idents, scope, Handle { index: ident, scope }, Slab::Idents) {
        Ok(x) => x,
        Err(e) => return Err(e),
    };
    let sa = ia.display_string();
    Ok(if sa == sb {
        1
    } else {
        0
    })
}

/// Whether the identifier renders exactly as the text at `other`; a raw
/// identifier matches only the `r#`-prefixed form.
pub fn ident_eq_str(a: &mut Arena, ident: u32, other: u32) -> (r: Result<u32, HostError>)
    ensures
        final(a)@ == old(a)@,
        !idx_ok(old(a)@.strings.len(), other) ==> r == Err::<u32, HostError>(
            HostError::InvalidHandle { slab: Slab::Strings, handle: other },
        ),
        idx_ok(old(a)@.strings.len(), other) && !idx_ok(old(a)@.idents.len(), ident) ==> r
            == Err::<u32, HostError>(HostError::InvalidHandle { slab: Slab::Idents, handle: ident }),
        idx_ok(old(a)@.strings.len(), other) && idx_ok(old(a)@.idents.len(), ident) ==> r
            == Ok::<u32, HostError>(
            if render_ident(old(a)@.idents[ident as int]) == old(a)@.strings[other as int] {
                1u32
            } else {
                0u32
            },
        ),
{
    let scope = a.scope;
    let sb = match slab_get(&a.strings, scope, Handle { index: other, scope }, Slab::Strings) {
        Ok(x) => x,
        Err(e) => return Err(e),
    };
    let ia = match slab_get(&a.idents, scope, Handle { index: ident, scope }, Slab::Idents) {
        Ok(x) => x,
        Err(e) => return Err(e),
    };
    let sa = ia.display_string();
    Ok(if crate::strext::str_eq(sa.as_str(), sb.as_str()) {
        1
    } else {
        0
    })
}

/// The order of two identifiers by their rendered texts.
pub fn ident_cmp(a: &mut Arena, ident: u32, other: u32) -> (r: Result<u32, HostError>)
    ensures
        final(a)@ == old(a)@,
        !idx_ok(old(a)@.idents.len(), other) ==> r == Err::<u32, HostError>(
            HostError::InvalidHandle { slab: Slab::Idents, handle: other },
        ),
        idx_ok(old(a)@.idents.len(), other) && !idx_ok(old(a)@.idents.len(), ident) ==> r
            == Err::<u32, HostError>(HostError::InvalidHandle { slab: Slab::Idents, handle: ident }),
        idx_ok(old(a)@.idents.len(), other) && idx_ok(old(a)@.idents.len(), ident) ==> r == Ok::<
            u32,
            HostError,
        >(
            {
                let c = lex_cmp(
                    render_ident(old(a)@.idents[ident as int]),
                    render_ident(old(a)@.idents[other as int]),
                );
                if c < 0 {
                    ORDERING_LESS
                } else if c == 0 {
                    ORDERING_EQUAL
                } else {
                    ORDERING_GREATER
                }
            },
        ),
{
    let scope = a.scope;
    let ib = match slab_get(&a.idents, scope, Handle { index: other, scope }, Slab::Idents) {
        Ok(x) => x,
        Err(e) => return Err(e),
    };
    let sb = ib.display_string();
    let ia = match slab_get(&a.idents, scope, Handle { index: ident, scope }, Slab::Idents) {
        Ok(x) => x,
        Err(e) => return Err(e),
    };
    let sa = ia.display_string();
    let c = str_lex_cmp(sa.as_str(), sb.as_str());
    Ok(
        if c < 0 {
            ORDERING_LESS
        } else if c == 0 {
            ORDERING_EQUAL
        } else {
            ORDERING_GREATER
        },
    )
}

// ---------------------------------------------------------------------------
// Literal factories.
// ---------------------------------------------------------------------------

/// Pushes the literal `value with its `u8` suffix`.
pub fn literal_u8_suffixed(a: &mut Arena, n: u8) -> (r: Result<u32, HostError>)
    ensures
        !can_push(old(a)@.literals.len()) ==> r == Err::<u32, HostError>(
            HostError::SlabFull { slab: Slab::Literals },
        ) && final(a)@ == old(a)@,
        can_push(old(a)@.literals.len()) ==> r == Ok::<u32, HostError>(
            old(a)@.literals.len() as u32,
        ) && final(a)@ == (ArenaV {
            literals: old(a)@.literals.push(
                LitV { text: unsigned_suffixed_text(n as nat, seq!['u', '8']), span: Span { handle: 0u32 } },
            ),
            ..old(a)@
        }),
{
    let scope = a.scope;
    let l = Literal::u8_suffixed(n);
    proof {
        lemma_seq_views_push(a.literals@, l);
    }
    match slab_push(&mut a.literals, scope, l, Slab::Literals) {
        Ok(h) => Ok(h.index),
        Err(e) => Err(e),
    }
}

/// Pushes the literal `value with its `u16` suffix`.
pub fn literal_u16_suffixed(a: &mut Arena, n: u16) -> (r: Result<u32, HostError>)
    ensures
        !can_push(old(a)@.literals.len()) ==> r == Err::<u32, HostError>(
            HostError::SlabFull { slab: Slab::Literals },
        ) && final(a)@ == old(a)@,
        can_push(old(a)@.literals.len()) ==> r == Ok::<u32, HostError>(
            old(a)@.literals.len() as u32,
        ) && final(a)@ == (ArenaV {
            literals: old(a)@.literals.push(
                LitV { text: unsigned_suffixed_text(n as nat, seq!['u', '1', '6']), span: Span { handle: 0u32 } },
            ),
            ..old(a)@
        }),
{
    let scope = a.scope;
    let l = Literal::u16_suffixed(n);
    proof {
        lemma_seq_views_push(a.literals@, l);
    }
    match slab_push(&mut a.literals, scope, l, Slab::Literals) {
        Ok(h) => Ok(h.index),
        Err(e) => Err(e),
    }
}

/// Pushes the literal `value with its `u32` suffix`.
pub fn literal_u32_suffixed(a: &mut Arena, n: u32) -> (r: Result<u32, HostError>)
    ensures
        !can_push(old(a)@.literals.len()) ==> r == Err::<u32, HostError>(
            HostError::SlabFull { slab: Slab::Literals },
        ) && final(a)@ == old(a)@,
        can_push(old(a)@.literals.len()) ==> r == Ok::<u32, HostError>(
            old(a)@.literals.len() as u32,
        ) && final(a)@ == (ArenaV {
            literals: old(a)@.literals.push(
                LitV { text: unsigned_suffixed_text(n as nat, seq!['u', '3', '2']), span: Span { handle: 0u32 } },
            ),
            ..old(a)@
        }),
{
    let scope = a.scope;
    let l = Literal::u32_suffixed(n);
    proof {
        lemma_seq_views_push(a.literals@, l);
    }
    match slab_push(&mut a.literals, scope, l, Slab::Literals) {
        Ok(h) => Ok(h.index),
        Err(e) => Err(e),
    }
}

/// Pushes the literal `value with its `u64` suffix`.
pub fn literal_u64_suffixed(a: &mut Arena, n: u64) -> (r: Result<u32, HostError>)
    ensures
        !can_push(old(a)@.literals.len()) ==> r == Err::<u32, HostError>(
            HostError::SlabFull { slab: Slab::Literals },
        ) && final(a)@ == old(a)@,
        can_push(old(a)@.literals.len()) ==> r == Ok::<u32, HostError>(
            old(a)@.literals.len() as u32,
        ) && final(a)@ == (ArenaV {
            literals: old(a)@.literals.push(
                LitV { text: unsigned_suffixed_text(n as nat, seq!['u', '6', '4']), span: Span { handle: 0u32 } },
            ),
            ..old(a)@
        }),
{
    let scope = a.scope;
    let l = Literal::u64_suffixed(n);
    proof {
        lemma_seq_views_push(a.literals@, l);
    }
    match slab_push(&mut a.literals, scope, l, Slab::Literals) {
        Ok(h) => Ok(h.index),
        Err(e) => Err(e),
    }
}

/// Pushes the literal `value with its `usize` suffix`.
pub fn literal_usize_suffixed(a: &mut Arena, n: u32) -> (r: Result<u32, HostError>)
    ensures
        !can_push(old(a)@.literals.len()) ==> r == Err::<u32, HostError>(
            HostError::SlabFull { slab: Slab::Literals },
        ) && final(a)@ == old(a)@,
        can_push(old(a)@.literals.len()) ==> r == Ok::<u32, HostError>(
            old(a)@.literals.len() as u32,
        ) && final(a)@ == (ArenaV {
            literals: old(a)@.literals.push(
                LitV { text: unsigned_suffixed_text(n as nat, seq!['u', 's', 'i', 'z', 'e']), span: Span { handle: 0u32 } },
            ),
            ..old(a)@
        }),
{
    let scope = a.scope;
    let l = Literal::usize_suffixed(n as usize);
    proof {
        lemma_seq_views_push(a.literals@, l);
    }
    match slab_push(&mut a.literals, scope, l, Slab::Literals) {
        Ok(h) => Ok(h.index),
        Err(e) => Err(e),
    }
}

/// Pushes the literal `value with its `i8` suffix`.
pub fn literal_i8_suffixed(a: &mut Arena, n: i8) -> (r: Result<u32, HostError>)
    ensures
        !can_push(old(a)@.literals.len()) ==> r == Err::<u32, HostError>(
            HostError::SlabFull { slab: Slab::Literals },
        ) && final(a)@ == old(a)@,
        can_push(old(a)@.literals.len()) ==> r == Ok::<u32, HostError>(
            old(a)@.literals.len() as u32,
        ) && final(a)@ == (ArenaV {
            literals: old(a)@.literals.push(
                LitV { text: signed_suffixed_text(n as int, seq!['i', '8']), span: Span { handle: 0u32 } },
            ),
            ..old(a)@
        }),
{
    let scope = a.scope;
    let l = Literal::i8_suffixed(n);
    proof {
        lemma_seq_views_push(a.literals@, l);
    }
    match slab_push(&mut a.literals, scope, l, Slab::Literals) {
        Ok(h) => Ok(h.index),
        Err(e) => Err(e),
    }
}

/// Pushes the literal `value with its `i16` suffix`.
pub fn literal_i16_suffixed(a: &mut Arena, n: i16) -> (r: Result<u32, HostError>)
    ensures
        !can_push(old(a)@.literals.len()) ==> r == Err::<u32, HostError>(
            HostError::SlabFull { slab: Slab::Literals },
        ) && final(a)@ == old(a)@,
        can_push(old(a)@.literals.len()) ==> r == Ok::<u32, HostError>(
            old(a)@.literals.len() as u32,
        ) && final(a)@ == (ArenaV {
            literals: old(a)@.literals.push(
                LitV { text: signed_suffixed_text(n as int, seq!['i', '1', '6']), span: Span { handle: 0u32 } },
            ),
            ..old(a)@
        }),
{
    let scope = a.scope;
    let l = Literal::i16_suffixed(n);
    proof {
        lemma_seq_views_push(a.literals@, l);
    }
    match slab_push(&mut a.literals, scope, l, Slab::Literals) {
        Ok(h) => Ok(h.index),
        Err(e) => Err(e),
    }
}

/// Pushes the literal `value with its `i32` suffix`.
pub fn literal_i32_suffixed(a: &mut Arena, n: i32) -> (r: Result<u32, HostError>)
    ensures
        !can_push(old(a)@.literals.len()) ==> r == Err::<u32, HostError>(
            HostError::SlabFull { slab: Slab::Literals },
        ) && final(a)@ == old(a)@,
        can_push(old(a)@.literals.len()) ==> r == Ok::<u32, HostError>(
            old(a)@.literals.len() as u32,
        ) && final(a)@ == (ArenaV {
            literals: old(a)@.literals.push(
                LitV { text: signed_suffixed_text(n as int, seq!['i', '3', '2']), span: Span { handle: 0u32 } },
            ),
            ..old(a)@
        }),
{
    let scope = a.scope;
    let l = Literal::i32_suffixed(n);
    proof {
        lemma_seq_views_push(a.literals@, l);
    }
    match slab_push(&mut a.literals, scope, l, Slab::Literals) {
        Ok(h) => Ok(h.index),
        Err(e) => Err(e),
    }
}

/// Pushes the literal `value with its `i64` suffix`.
pub fn literal_i64_suffixed(a: &mut Arena, n: i64) -> (r: Result<u32, HostError>)
    ensures
        !can_push(old(a)@.literals.len()) ==> r == Err::<u32, HostError>(
            HostError::SlabFull { slab: Slab::Literals },
        ) && final(a)@ == old(a)@,
        can_push(old(a)@.literals.len()) ==> r == Ok::<u32, HostError>(
            old(a)@.literals.len() as u32,
        ) && final(a)@ == (ArenaV {
            literals: old(a)@.literals.push(
                LitV { text: signed_suffixed_text(n as int, seq!['i', '6', '4']), span: Span { handle: 0u32 } },
            ),
            ..old(a)@
        }),
{
    let scope = a.scope;
    let l = Literal::i64_suffixed(n);
    proof {
        lemma_seq_views_push(a.literals@, l);
    }
    match slab_push(&mut a.literals, scope, l, Slab::Literals) {
        Ok(h) => Ok(h.index),
        Err(e) => Err(e),
    }
}

/// Pushes the literal `value with its `isize` suffix`.
pub fn literal_isize_suffixed(a: &mut Arena, n: i32) -> (r: Result<u32, HostError>)
    ensures
        !can_push(old(a)@.literals.len()) ==> r == Err::<u32, HostError>(
            HostError::SlabFull { slab: Slab::Literals },
        ) && final(a)@ == old(a)@,
        can_push(old(a)@.literals.len()) ==> r == Ok::<u32, HostError>(
            old(a)@.literals.len() as u32,
        ) && final(a)@ == (ArenaV {
            literals: old(a)@.literals.push(
                LitV { text: signed_suffixed_text(n as int, seq!['i', 's', 'i', 'z', 'e']), span: Span { handle: 0u32 } },
            ),
            ..old(a)@
        }),
{
    let scope = a.scope;
    let l = Literal::isize_suffixed(n as isize);
    proof {
        lemma_seq_views_push(a.literals@, l);
    }
    match slab_push(&mut a.literals, scope, l, Slab::Literals) {
        Ok(h) => Ok(h.index),
        Err(e) => Err(e),
    }
}

/// Pushes the literal `value without a suffix`.
pub fn literal_u8_unsuffixed(a: &mut Arena, n: u8) -> (r: Result<u32, HostError>)
    ensures
        !can_push(old(a)@.literals.len()) ==> r == Err::<u32, HostError>(
            HostError::SlabFull { slab: Slab::Literals },
        ) && final(a)@ == old(a)@,
        can_push(old(a)@.literals.len()) ==> r == Ok::<u32, HostError>(
            old(a)@.literals.len() as u32,
        ) && final(a)@ == (ArenaV {
            literals: old(a)@.literals.push(
                LitV { text: dec_digits(n as nat), span: Span { handle: 0u32 } },
            ),
            ..old(a)@
        }),
{
    let scope = a.scope;
    let l = Literal::u8_unsuffixed(n);
    proof {
        lemma_seq_views_push(a.literals@, l);
    }
    match slab_push(&mut a.literals, scope, l, Slab::Literals) {
        Ok(h) => Ok(h.index),
        Err(e) => Err(e),
    }
}

/// Pushes the literal `value without a suffix`.
pub fn literal_u16_unsuffixed(a: &mut Arena, n: u16) -> (r: Result<u32, HostError>)
    ensures
        !can_push(old(a)@.literals.len()) ==> r == Err::<u32, HostError>(
            HostError::SlabFull { slab: Slab::Literals },
        ) && final(a)@ == old(a)@,
        can_push(old(a)@.literals.len()) ==> r == Ok::<u32, HostError>(
            old(a)@.literals.len() as u32,
        ) && final(a)@ == (ArenaV {
            literals: old(a)@.literals.push(
                LitV { text: dec_digits(n as nat), span: Span { handle: 0u32 } },
            ),
            ..old(a)@
        }),
{
    let scope = a.scope;
    let l = Literal::u16_unsuffixed(n);
    proof {
        lemma_seq_views_push(a.literals@, l);
    }
    match slab_push(&mut a.literals, scope, l, Slab::Literals) {
        Ok(h) => Ok(h.index),
        Err(e) => Err(e),
    }
}

/// Pushes the literal `value without a suffix`.
pub fn literal_u32_unsuffixed(a: &mut Arena, n: u32) -> (r: Result<u32, HostError>)
    ensures
        !can_push(old(a)@.literals.len()) ==> r == Err::<u32, HostError>(
            HostError::SlabFull { slab: Slab::Literals },
        ) && final(a)@ == old(a)@,
        can_push(old(a)@.literals.len()) ==> r == Ok::<u32, HostError>(
            old(a)@.literals.len() as u32,
        ) && final(a)@ == (ArenaV {
            literals: old(a)@.literals.push(
                LitV { text: dec_digits(n as nat), span: Span { handle: 0u32 } },
            ),
            ..old(a)@
        }),
{
    let scope = a.scope;
    let l = Literal::u32_unsuffixed(n);
    proof {
        lemma_seq_views_push(a.literals@, l);
    }
    match slab_push(&mut a.literals, scope, l, Slab::Literals) {
        Ok(h) => Ok(h.index),
        Err(e) => Err(e),
    }
}

/// Pushes the literal `value without a suffix`.
pub fn literal_u64_unsuffixed(a: &mut Arena, n: u64) -> (r: Result<u32, HostError>)
    ensures
        !can_push(old(a)@.literals.len()) ==> r == Err::<u32, HostError>(
            HostError::SlabFull { slab: Slab::Literals },
        ) && final(a)@ == old(a)@,
        can_push(old(a)@.literals.len()) ==> r == Ok::<u32, HostError>(
            old(a)@.literals.len() as u32,
        ) && final(a)@ == (ArenaV {
            literals: old(a)@.literals.push(
                LitV { text: dec_digits(n as nat), span: Span { handle: 0u32 } },
            ),
            ..old(a)@
        }),
{
    let scope = a.scope;
    let l = Literal::u64_unsuffixed(n);
    proof {
        lemma_seq_views_push(a.literals@, l);
    }
    match slab_push(&mut a.literals, scope, l, Slab::Literals) {
        Ok(h) => Ok(h.index),
        Err(e) => Err(e),
    }
}

/// Pushes the literal `value without a suffix`.
pub fn literal_usize_unsuffixed(a: &mut Arena, n: u32) -> (r: Result<u32, HostError>)
    ensures
        !can_push(old(a)@.literals.len()) ==> r == Err::<u32, HostError>(
            HostError::SlabFull { slab: Slab::Literals },
        ) && final(a)@ == old(a)@,
        can_push(old(a)@.literals.len()) ==> r == Ok::<u32, HostError>(
            old(a)@.literals.len() as u32,
        ) && final(a)@ == (ArenaV {
            literals: old(a)@.literals.push(
                LitV { text: dec_digits(n as nat), span: Span { handle: 0u32 } },
            ),
            ..old(a)@
        }),
{
    let scope = a.scope;
    let l = Literal::usize_unsuffixed(n as usize);
    proof {
        lemma_seq_views_push(a.literals@, l);
    }
    match slab_push(&mut a.literals, scope, l, Slab::Literals) {
        Ok(h) => Ok(h.index),
        Err(e) => Err(e),
    }
}

/// Pushes the literal `value without a suffix`.
pub fn literal_i8_unsuffixed(a: &mut Arena, n: i8) -> (r: Result<u32, HostError>)
    ensures
        !can_push(old(a)@.literals.len()) ==> r == Err::<u32, HostError>(
            HostError::SlabFull { slab: Slab::Literals },
        ) && final(a)@ == old(a)@,
        can_push(old(a)@.literals.len()) ==> r == Ok::<u32, HostError>(
            old(a)@.literals.len() as u32,
        ) && final(a)@ == (ArenaV {
            literals: old(a)@.literals.push(
                LitV { text: dec_int(n as int), span: Span { handle: 0u32 } },
            ),
            ..old(a)@
        }),
{
    let scope = a.scope;
    let l = Literal::i8_unsuffixed(n);
    proof {
        lemma_seq_views_push(a.literals@, l);
    }
    match slab_push(&mut a.literals, scope, l, Slab::Literals) {
        Ok(h) => Ok(h.index),
        Err(e) => Err(e),
    }
}

/// Pushes the literal `value without a suffix`.
pub fn literal_i16_unsuffixed(a: &mut Arena, n: i16) -> (r: Result<u32, HostError>)
    ensures
        !can_push(old(a)@.literals.len()) ==> r == Err::<u32, HostError>(
            HostError::SlabFull { slab: Slab::Literals },
        ) && final(a)@ == old(a)@,
        can_push(old(a)@.literals.len()) ==> r == Ok::<u32, HostError>(
            old(a)@.literals.len() as u32,
        ) && final(a)@ == (ArenaV {
            literals: old(a)@.literals.push(
                LitV { text: dec_int(n as int), span: Span { handle: 0u32 } },
            ),
            ..old(a)@
        }),
{
    let scope = a.scope;
    let l = Literal::i16_unsuffixed(n);
    proof {
        lemma_seq_views_push(a.literals@, l);
    }
    match slab_push(&mut a.literals, scope, l, Slab::Literals) {
        Ok(h) => Ok(h.index),
        Err(e) => Err(e),
    }
}

/// Pushes the literal `value without a suffix`.
pub fn literal_i32_unsuffixed(a: &mut Arena, n: i32) -> (r: Result<u32, HostError>)
    ensures
        !can_push(old(a)@.literals.len()) ==> r == Err::<u32, HostError>(
            HostError::SlabFull { slab: Slab::Literals },
        ) && final(a)@ == old(a)@,
        can_push(old(a)@.literals.len()) ==> r == Ok::<u32, HostError>(
            old(a)@.literals.len() as u32,
        ) && final(a)@ == (ArenaV {
            literals: old(a)@.literals.push(
                LitV { text: dec_int(n as int), span: Span { handle: 0u32 } },
            ),
            ..old(a)@
        }),
{
    let scope = a.scope;
    let l = Literal::i32_unsuffixed(n);
    proof {
        lemma_seq_views_push(a.literals@, l);
    }
    match slab_push(&mut a.literals, scope, l, Slab::Literals) {
        Ok(h) => Ok(h.index),
        Err(e) => Err(e),
    }
}

/// Pushes the literal `value without a suffix`.
pub fn literal_i64_unsuffixed(a: &mut Arena, n: i64) -> (r: Result<u32, HostError>)
    ensures
        !can_push(old(a)@.literals.len()) ==> r == Err::<u32, HostError>(
            HostError::SlabFull { slab: Slab::Literals },
        ) && final(a)@ == old(a)@,
        can_push(old(a)@.literals.len()) ==> r == Ok::<u32, HostError>(
            old(a)@.literals.len() as u32,
        ) && final(a)@ == (ArenaV {
            literals: old(a)@.literals.push(
                LitV { text: dec_int(n as int), span: Span { handle: 0u32 } },
            ),
            ..old(a)@
        }),
{
    let scope = a.scope;
    let l = Literal::i64_unsuffixed(n);
    proof {
        lemma_seq_views_push(a.literals@, l);
    }
    match slab_push(&mut a.literals, scope, l, Slab::Literals) {
        Ok(h) => Ok(h.index),
        Err(e) => Err(e),
    }
}

/// Pushes the literal `value without a suffix`.
pub fn literal_isize_unsuffixed(a: &mut Arena, n: i32) -> (r: Result<u32, HostError>)
    ensures
        !can_push(old(a)@.literals.len()) ==> r == Err::<u32, HostError>(
            HostError::SlabFull { slab: Slab::Literals },
        ) && final(a)@ == old(a)@,
        can_push(old(a)@.literals.len()) ==> r == Ok::<u32, HostError>(
            old(a)@.literals.len() as u32,
        ) && final(a)@ == (ArenaV {
            literals: old(a)@.literals.push(
                LitV { text: dec_int(n as int), span: Span { handle: 0u32 } },
            ),
            ..old(a)@
        }),
{
    let scope = a.scope;
    let l = Literal::isize_unsuffixed(n as isize);
    proof {
        lemma_seq_views_push(a.literals@, l);
    }
    match slab_push(&mut a.literals, scope, l, Slab::Literals) {
        Ok(h) => Ok(h.index),
        Err(e) => Err(e),
    }
}

/// The 128-bit value carried as two 64-bit halves, low then high.
pub open spec fn halves_val(lo: u64, hi: u64) -> nat {
    (hi as nat) * 0x10000000000000000 + (lo as nat)
}

fn assemble_halves(lo: u64, hi: u64) -> (n: u128)
    ensures
        n as nat == halves_val(lo, hi),
{
    (hi as u128) * 0x10000000000000000u128 + (lo as u128)
}

/// Pushes the literal rendering the 128-bit unsigned value with its `u128`
/// suffix; the value arrives as two 64-bit halves, low then high.
pub fn literal_u128_suffixed(a: &mut Arena, lo: u64, hi: u64) -> (r: Result<u32, HostError>)
    ensures
        !can_push(old(a)@.literals.len()) ==> r == Err::<u32, HostError>(
            HostError::SlabFull { slab: Slab::Literals },
        ) && final(a)@ == old(a)@,
        can_push(old(a)@.literals.len()) ==> r == Ok::<u32, HostError>(
            old(a)@.literals.len() as u32,
        ) && final(a)@ == (ArenaV {
            literals: old(a)@.literals.push(
                LitV {
                    text: unsigned_suffixed_text(halves_val(lo, hi), seq!['u', '1', '2', '8']),
                    span: Span { handle: 0u32 },
                },
            ),
            ..old(a)@
        }),
{
    let scope = a.scope;
    let l = Literal::u128_suffixed(assemble_halves(lo, hi));
    proof {
        lemma_seq_views_push(a.literals@, l);
    }
    match slab_push(&mut a.literals, scope, l, Slab::Literals) {
        Ok(h) => Ok(h.index),
        Err(e) => Err(e),
    }
}

/// Pushes the literal rendering the 128-bit unsigned value without a
/// suffix; two 64-bit halves, low then high.
pub fn literal_u128_unsuffixed(a: &mut Arena, lo: u64, hi: u64) -> (r: Result<u32, HostError>)
    ensures
        !can_push(old(a)@.literals.len()) ==> r == Err::<u32, HostError>(
            HostError::SlabFull { slab: Slab::Literals },
        ) && final(a)@ == old(a)@,
        can_push(old(a)@.literals.len()) ==> r == Ok::<u32, HostError>(
            old(a)@.literals.len() as u32,
        ) && final(a)@ == (ArenaV {
            literals: old(a)@.literals.push(
                LitV { text: dec_digits(halves_val(lo, hi)), span: Span { handle: 0u32 } },
            ),
            ..old(a)@
        }),
{
    let scope = a.scope;
    let l = Literal::u128_unsuffixed(assemble_halves(lo, hi));
    proof {
        lemma_seq_views_push(a.literals@, l);
    }
    match slab_push(&mut a.literals, scope, l, Slab::Literals) {
        Ok(h) => Ok(h.index),
        Err(e) => Err(e),
    }
}

fn signed_128_text(lo: u64, hi: u64) -> (t: String)
    ensures
        t@ == dec_int(i128_val(halves_val(lo, hi))),
{
    let n = assemble_halves(lo, hi);
    let mut t = String::new();
    crate::numfmt::push_dec_i128_pattern(&mut t, n);
    proof {
        assert(t@ =~= dec_int(i128_val(halves_val(lo, hi))));
    }
    t
}

/// Pushes the literal rendering the 128-bit pattern as a signed value with
/// its `i128` suffix; two 64-bit halves, low then high.
pub fn literal_i128_suffixed(a: &mut Arena, lo: u64, hi: u64) -> (r: Result<u32, HostError>)
    ensures
        !can_push(old(a)@.literals.len()) ==> r == Err::<u32, HostError>(
            HostError::SlabFull { slab: Slab::Literals },
        ) && final(a)@ == old(a)@,
        can_push(old(a)@.literals.len()) ==> r == Ok::<u32, HostError>(
            old(a)@.literals.len() as u32,
        ) && final(a)@ == (ArenaV {
            literals: old(a)@.literals.push(
                LitV {
                    text: dec_int(i128_val(halves_val(lo, hi))) + seq!['i', '1', '2', '8'],
                    span: Span { handle: 0u32 },
                },
            ),
            ..old(a)@
        }),
{
    let scope = a.scope;
    let mut t = signed_128_text(lo, hi);
    t.append("i128");
    proof {
        reveal_strlit("i128");
        assert(t@ =~= dec_int(i128_val(halves_val(lo, hi))) + seq!['i', '1', '2', '8']);
    }
    let l = Literal::from_text(t);
    proof {
        lemma_seq_views_push(a.literals@, l);
    }
    match slab_push(&mut a.literals, scope, l, Slab::Literals) {
        Ok(h) => Ok(h.index),
        Err(e) => Err(e),
    }
}

/// Pushes the literal rendering the 128-bit pattern as a signed value
/// without a suffix; two 64-bit halves, low then high.
pub fn literal_i128_unsuffixed(a: &mut Arena, lo: u64, hi: u64) -> (r: Result<u32, HostError>)
    ensures
        !can_push(old(a)@.literals.len()) ==> r == Err::<u32, HostError>(
            HostError::SlabFull { slab: Slab::Literals },
        ) && final(a)@ == old(a)@,
        can_push(old(a)@.literals.len()) ==> r == Ok::<u32, HostError>(
            old(a)@.literals.len() as u32,
        ) && final(a)@ == (ArenaV {
            literals: old(a)@.literals.push(
                LitV {
                    text: dec_int(i128_val(halves_val(lo, hi))),
                    span: Span { handle: 0u32 },
                },
            ),
            ..old(a)@
        }),
{
    let scope = a.scope;
    let t = signed_128_text(lo, hi);
    let l = Literal::from_text(t);
    proof {
        lemma_seq_views_push(a.literals@, l);
    }
    match slab_push(&mut a.literals, scope, l, Slab::Literals) {
        Ok(h) => Ok(h.index),
        Err(e) => Err(e),
    }
}

// ---------------------------------------------------------------------------
// Float-text factories and quoted literals.
// ---------------------------------------------------------------------------

/// Pushes an unsuffixed float literal from the pre-rendered decimal text of
/// the value; a decimal point is appended when the text has none.
pub fn literal_float_unsuffixed_text(a: &mut Arena, text: &str) -> (r: Result<u32, HostError>)
    ensures
        !can_push(old(a)@.literals.len()) ==> r == Err::<u32, HostError>(
            HostError::SlabFull { slab: Slab::Literals },
        ) && final(a)@ == old(a)@,
        can_push(old(a)@.literals.len()) ==> r == Ok::<u32, HostError>(
            old(a)@.literals.len() as u32,
        ) && final(a)@ == (ArenaV {
            literals: old(a)@.literals.push(
                LitV {
                    text: if text@.contains('.') {
                        text@
                    } else {
                        text@ + seq!['.', '0']
                    },
                    span: Span { handle: 0u32 },
                },
            ),
            ..old(a)@
        }),
{
    let scope = a.scope;
    let l = Literal::float_unsuffixed_from_text(text);
    proof {
        lemma_seq_views_push(a.literals@, l);
    }
    match slab_push(&mut a.literals, scope, l, Slab::Literals) {
        Ok(h) => Ok(h.index),
        Err(e) => Err(e),
    }
}

/// Pushes a suffixed 32-bit float literal from the pre-rendered decimal
/// text of the value.
pub fn literal_f32_suffixed_text(a: &mut Arena, text: &str) -> (r: Result<u32, HostError>)
    ensures
        !can_push(old(a)@.literals.len()) ==> r == Err::<u32, HostError>(
            HostError::SlabFull { slab: Slab::Literals },
        ) && final(a)@ == old(a)@,
        can_push(old(a)@.literals.len()) ==> r == Ok::<u32, HostError>(
            old(a)@.literals.len() as u32,
        ) && final(a)@ == (ArenaV {
            literals: old(a)@.literals.push(
                LitV { text: text@ + seq!['f', '3', '2'], span: Span { handle: 0u32 } },
            ),
            ..old(a)@
        }),
{
    let scope = a.scope;
    let l = Literal::f32_suffixed_from_text(text);
    proof {
        lemma_seq_views_push(a.literals@, l);
    }
    match slab_push(&mut a.literals, scope, l, Slab::Literals) {
        Ok(h) => Ok(h.index),
        Err(e) => Err(e),
    }
}

/// Pushes a suffixed 64-bit float literal from the pre-rendered decimal
/// text of the value.
pub fn literal_f64_suffixed_text(a: &mut Arena, text: &str) -> (r: Result<u32, HostError>)
    ensures
        !can_push(old(a)@.literals.len()) ==> r == Err::<u32, HostError>(
            HostError::SlabFull { slab: Slab::Literals },
        ) && final(a)@ == old(a)@,
        can_push(old(a)@.literals.len()) ==> r == Ok::<u32, HostError>(
            old(a)@.literals.len() as u32,
        ) && final(a)@ == (ArenaV {
            literals: old(a)@.literals.push(
                LitV { text: text@ + seq!['f', '6', '4'], span: Span { handle: 0u32 } },
            ),
            ..old(a)@
        }),
{
    let scope = a.scope;
    let l = Literal::f64_suffixed_from_text(text);
    proof {
        lemma_seq_views_push(a.literals@, l);
    }
    match slab_push(&mut a.literals, scope, l, Slab::Literals) {
        Ok(h) => Ok(h.index),
        Err(e) => Err(e),
    }
}

/// Pushes a double-quoted string literal for the text at `s`, with the
/// defined escaping.
pub fn literal_string(a: &mut Arena, s: u32) -> (r: Result<u32, HostError>)
    ensures
        !idx_ok(old(a)@.strings.len(), s) ==> r == Err::<u32, HostError>(
            HostError::InvalidHandle { slab: Slab::Strings, handle: s },
        ) && final(a)@ == old(a)@,
        idx_ok(old(a)@.strings.len(), s) && !can_push(old(a)@.literals.len()) ==> r == Err::<
            u32,
            HostError,
        >(HostError::SlabFull { slab: Slab::Literals }) && final(a)@ == old(a)@,
        idx_ok(old(a)@.strings.len(), s) && can_push(old(a)@.literals.len()) ==> r == Ok::<
            u32,
            HostError,
        >(old(a)@.literals.len() as u32) && final(a)@ == (ArenaV {
            literals: old(a)@.literals.push(
                LitV {
                    text: string_lit_text(old(a)@.strings[s as int]),
                    span: Span { handle: 0u32 },
                },
            ),
            ..old(a)@
        }),
{
    let scope = a.scope;
    let text = match slab_get(&a.strings, scope, Handle { index: s, scope }, Slab::Strings) {
        Ok(x) => x,
        Err(e) => return Err(e),
    };
    let l = Literal::string(text.as_str());
    proof {
        lemma_seq_views_push(a.literals@, l);
    }
    match slab_push(&mut a.literals, scope, l, Slab::Literals) {
        Ok(h) => Ok(h.index),
        Err(e) => Err(e),
    }
}

/// Pushes a single-quoted character literal for the code point, with the
/// defined escaping.
pub fn literal_character(a: &mut Arena, ch: u32) -> (r: Result<u32, HostError>)
    ensures
        !is_unicode_scalar(ch) ==> r == Err::<u32, HostError>(
            HostError::InvalidScalar { value: ch },
        ) && final(a)@ == old(a)@,
        is_unicode_scalar(ch) && !can_push(old(a)@.literals.len()) ==> r == Err::<
            u32,
            HostError,
        >(HostError::SlabFull { slab: Slab::Literals }) && final(a)@ == old(a)@,
        is_unicode_scalar(ch) && can_push(old(a)@.literals.len()) ==> r == Ok::<u32, HostError>(
            old(a)@.literals.len() as u32,
        ) && final(a)@ == (ArenaV {
            literals: old(a)@.literals.push(
                LitV { text: char_lit_text(ch as char), span: Span { handle: 0u32 } },
            ),
            ..old(a)@
        }),
{
    let scope = a.scope;
    let c = match char_from_u32(ch) {
        Some(c) => c,
        None => {
            return Err(HostError::InvalidScalar { value: ch });
        },
    };
    proof {
        vstd::utf8::char_u32_cast(c, ch);
    }
    let l = Literal::character(c);
    proof {
        lemma_seq_views_push(a.literals@, l);
    }
    match slab_push(&mut a.literals, scope, l, Slab::Literals) {
        Ok(h) => Ok(h.index),
        Err(e) => Err(e),
    }
}

/// Pushes a byte-string literal for the bytes at `s`, with the defined
/// escaping.
pub fn literal_byte_string(a: &mut Arena, s: u32) -> (r: Result<u32, HostError>)
    ensures
        !idx_ok(old(a)@.byte_bufs.len(), s) ==> r == Err::<u32, HostError>(
            HostError::InvalidHandle { slab: Slab::ByteBufs, handle: s },
        ) && final(a)@ == old(a)@,
        idx_ok(old(a)@.byte_bufs.len(), s) && !can_push(old(a)@.literals.len()) ==> r == Err::<
            u32,
            HostError,
        >(HostError::SlabFull { slab: Slab::Literals }) && final(a)@ == old(a)@,
        idx_ok(old(a)@.byte_bufs.len(), s) && can_push(old(a)@.literals.len()) ==> r == Ok::<
            u32,
            HostError,
        >(old(a)@.literals.len() as u32) && final(a)@ == (ArenaV {
            literals: old(a)@.literals.push(
                LitV {
                    text: byte_string_lit_text(old(a)@.byte_bufs[s as int]),
                    span: Span { handle: 0u32 },
                },
            ),
            ..old(a)@
        }),
{
    let scope = a.scope;
    let bytes = match slab_get(&a.byte_bufs, scope, Handle { index: s, scope }, Slab::ByteBufs) {
        Ok(x) => x,
        Err(e) => return Err(e),
    };
    let l = Literal::byte_string(bytes.as_slice());
    proof {
        lemma_seq_views_push(a.literals@, l);
    }
    match slab_push(&mut a.literals, scope, l, Slab::Literals) {
        Ok(h) => Ok(h.index),
        Err(e) => Err(e),
    }
}

// ---------------------------------------------------------------------------
// Copies.
// ---------------------------------------------------------------------------

/// A fresh handle holding a copy of the stream.
pub fn token_stream_clone(a: &mut Arena, obj: u32) -> (r: Result<u32, HostError>)
    ensures
        !idx_ok(old(a)@.streams.len(), obj) ==> r == Err::<u32, HostError>(
            HostError::InvalidHandle { slab: Slab::TokenStreams, handle: obj },
        ) && final(a)@ == old(a)@,
        idx_ok(old(a)@.streams.len(), obj) && !can_push(old(a)@.streams.len()) ==> r == Err::<
            u32,
            HostError,
        >(HostError::SlabFull { slab: Slab::TokenStreams }) && final(a)@ == old(a)@,
        idx_ok(old(a)@.streams.len(), obj) && can_push(old(a)@.streams.len()) ==> r == Ok::<
            u32,
            HostError,
        >(old(a)@.streams.len() as u32) && final(a)@ == (ArenaV {
            streams: old(a)@.streams.push(old(a)@.streams[obj as int]),
            ..old(a)@
        }),
{
    let scope = a.scope;
    let x = match slab_get(&a.streams, scope, Handle { index: obj, scope }, Slab::TokenStreams) {
        Ok(x) => x.deep_clone(),
        Err(e) => return Err(e),
    };
    proof {
        lemma_seq_views_push(a.streams@, x);
    }
    match slab_push(&mut a.streams, scope, x, Slab::TokenStreams) {
        Ok(h) => Ok(h.index),
        Err(e) => Err(e),
    }
}

/// A fresh handle holding a copy of the group.
pub fn group_clone(a: &mut Arena, obj: u32) -> (r: Result<u32, HostError>)
    ensures
        !idx_ok(old(a)@.groups.len(), obj) ==> r == Err::<u32, HostError>(
            HostError::InvalidHandle { slab: Slab::Groups, handle: obj },
        ) && final(a)@ == old(a)@,
        idx_ok(old(a)@.groups.len(), obj) && !can_push(old(a)@.groups.len()) ==> r == Err::<
            u32,
            HostError,
        >(HostError::SlabFull { slab: Slab::Groups }) && final(a)@ == old(a)@,
        idx_ok(old(a)@.groups.len(), obj) && can_push(old(a)@.groups.len()) ==> r == Ok::<
            u32,
            HostError,
        >(old(a)@.groups.len() as u32) && final(a)@ == (ArenaV {
            groups: old(a)@.groups.push(old(a)@.groups[obj as int]),
            ..old(a)@
        }),
{
    let scope = a.scope;
    let x = match slab_get(&a.groups, scope, Handle { index: obj, scope }, Slab::Groups) {
        Ok(x) => x.deep_clone(),
        Err(e) => return Err(e),
    };
    proof {
        lemma_seq_views_push(a.groups@, x);
    }
    match slab_push(&mut a.groups, scope, x, Slab::Groups) {
        Ok(h) => Ok(h.index),
        Err(e) => Err(e),
    }
}

/// A fresh handle holding a copy of the identifier.
pub fn ident_clone(a: &mut Arena, obj: u32) -> (r: Result<u32, HostError>)
    ensures
        !idx_ok(old(a)@.idents.len(), obj) ==> r == Err::<u32, HostError>(
            HostError::InvalidHandle { slab: Slab::Idents, handle: obj },
        ) && final(a)@ == old(a)@,
        idx_ok(old(a)@.idents.len(), obj) && !can_push(old(a)@.idents.len()) ==> r == Err::<
            u32,
            HostError,
        >(HostError::SlabFull { slab: Slab::Idents }) && final(a)@ == old(a)@,
        idx_ok(old(a)@.idents.len(), obj) && can_push(old(a)@.idents.len()) ==> r == Ok::<
            u32,
            HostError,
        >(old(a)@.idents.len() as u32) && final(a)@ == (ArenaV {
            idents: old(a)@.idents.push(old(a)@.idents[obj as int]),
            ..old(a)@
        }),
{
    let scope = a.scope;
    let x = match slab_get(&a.idents, scope, Handle { index: obj, scope }, Slab::Idents) {
        Ok(x) => x.deep_clone(),
        Err(e) => return Err(e),
    };
    proof {
        lemma_seq_views_push(a.idents@, x);
    }
    match slab_push(&mut a.idents, scope, x, Slab::Idents) {
        Ok(h) => Ok(h.index),
        Err(e) => Err(e),
    }
}

/// A fresh handle holding a copy of the punctuation token.
pub fn punct_clone(a: &mut Arena, obj: u32) -> (r: Result<u32, HostError>)
    ensures
        !idx_ok(old(a)@.puncts.len(), obj) ==> r == Err::<u32, HostError>(
            HostError::InvalidHandle { slab: Slab::Puncts, handle: obj },
        ) && final(a)@ == old(a)@,
        idx_ok(old(a)@.puncts.len(), obj) && !can_push(old(a)@.puncts.len()) ==> r == Err::<
            u32,
            HostError,
        >(HostError::SlabFull { slab: Slab::Puncts }) && final(a)@ == old(a)@,
        idx_ok(old(a)@.puncts.len(), obj) && can_push(old(a)@.puncts.len()) ==> r == Ok::<
            u32,
            HostError,
        >(old(a)@.puncts.len() as u32) && final(a)@ == (ArenaV {
            puncts: old(a)@.puncts.push(old(a)@.puncts[obj as int]),
            ..old(a)@
        }),
{
    let scope = a.scope;
    let x = match slab_get(&a.puncts, scope, Handle { index: obj, scope }, Slab::Puncts) {
        Ok(x) => x.deep_clone(),
        Err(e) => return Err(e),
    };
    proof {
        lemma_seq_views_push(a.puncts@, x);
    }
    match slab_push(&mut a.puncts, scope, x, Slab::Puncts) {
        Ok(h) => Ok(h.index),
        Err(e) => Err(e),
    }
}

/// A fresh handle holding a copy of the literal.
pub fn literal_clone(a: &mut Arena, obj: u32) -> (r: Result<u32, HostError>)
    ensures
        !idx_ok(old(a)@.literals.len(), obj) ==> r == Err::<u32, HostError>(
            HostError::InvalidHandle { slab: Slab::Literals, handle: obj },
        ) && final(a)@ == old(a)@,
        idx_ok(old(a)@.literals.len(), obj) && !can_push(old(a)@.literals.len()) ==> r == Err::<
            u32,
            HostError,
        >(HostError::SlabFull { slab: Slab::Literals }) && final(a)@ == old(a)@,
        idx_ok(old(a)@.literals.len(), obj) && can_push(old(a)@.literals.len()) ==> r == Ok::<
            u32,
            HostError,
        >(old(a)@.literals.len() as u32) && final(a)@ == (ArenaV {
            literals: old(a)@.literals.push(old(a)@.literals[obj as int]),
            ..old(a)@
        }),
{
    let scope = a.scope;
    let x = match slab_get(&a.literals, scope, Handle { index: obj, scope }, Slab::Literals) {
        Ok(x) => x.deep_clone(),
        Err(e) => return Err(e),
    };
    proof {
        lemma_seq_views_push(a.literals@, x);
    }
    match slab_push(&mut a.literals, scope, x, Slab::Literals) {
        Ok(h) => Ok(h.index),
        Err(e) => Err(e),
    }
}

// ---------------------------------------------------------------------------
// Stringification.
// ---------------------------------------------------------------------------

/// A fresh string handle holding the display form of the stream.
pub fn token_stream_to_string(a: &mut Arena, obj: u32) -> (r: Result<u32, HostError>)
    ensures
        !idx_ok(old(a)@.streams.len(), obj) ==> r == Err::<u32, HostError>(
            HostError::InvalidHandle { slab: Slab::TokenStreams, handle: obj },
        ) && final(a)@ == old(a)@,
        idx_ok(old(a)@.streams.len(), obj) && !can_push(old(a)@.strings.len()) ==> r == Err::<
            u32,
            HostError,
        >(HostError::SlabFull { slab: Slab::Strings }) && final(a)@ == old(a)@,
        idx_ok(old(a)@.streams.len(), obj) && can_push(old(a)@.strings.len()) ==> r == Ok::<
            u32,
            HostError,
        >(old(a)@.strings.len() as u32) && final(a)@ == (ArenaV {
            strings: old(a)@.strings.push(render_stream(old(a)@.streams[obj as int])),
            ..old(a)@
        }),
{
    let scope = a.scope;
    let text = match slab_get(&a.streams, scope, Handle { index: obj, scope }, Slab::TokenStreams) {
        Ok(x) => x.display_string(),
        Err(e) => return Err(e),
    };
    proof {
        lemma_seq_views_push(a.strings@, text);
    }
    match slab_push(&mut a.strings, scope, text, Slab::Strings) {
        Ok(h) => Ok(h.index),
        Err(e) => Err(e),
    }
}

/// A fresh string handle holding the display form of the group.
pub fn group_to_string(a: &mut Arena, obj: u32) -> (r: Result<u32, HostError>)
    ensures
        !idx_ok(old(a)@.groups.len(), obj) ==> r == Err::<u32, HostError>(
            HostError::InvalidHandle { slab: Slab::Groups, handle: obj },
        ) && final(a)@ == old(a)@,
        idx_ok(old(a)@.groups.len(), obj) && !can_push(old(a)@.strings.len()) ==> r == Err::<
            u32,
            HostError,
        >(HostError::SlabFull { slab: Slab::Strings }) && final(a)@ == old(a)@,
        idx_ok(old(a)@.groups.len(), obj) && can_push(old(a)@.strings.len()) ==> r == Ok::<
            u32,
            HostError,
        >(old(a)@.strings.len() as u32) && final(a)@ == (ArenaV {
            strings: old(a)@.strings.push(render_group(old(a)@.groups[obj as int].delimiter, old(a)@.groups[obj as int].stream)),
            ..old(a)@
        }),
{
    let scope = a.scope;
    let text = match slab_get(&a.groups, scope, Handle { index: obj, scope }, Slab::Groups) {
        Ok(x) => x.display_string(),
        Err(e) => return Err(e),
    };
    proof {
        lemma_seq_views_push(a.strings@, text);
    }
    match slab_push(&mut a.strings, scope, text, Slab::Strings) {
        Ok(h) => Ok(h.index),
        Err(e) => Err(e),
    }
}

/// A fresh string handle holding the display form of the identifier.
pub fn ident_to_string(a: &mut Arena, obj: u32) -> (r: Result<u32, HostError>)
    ensures
        !idx_ok(old(a)@.idents.len(), obj) ==> r == Err::<u32, HostError>(
            HostError::InvalidHandle { slab: Slab::Idents, handle: obj },
        ) && final(a)@ == old(a)@,
        idx_ok(old(a)@.idents.len(), obj) && !can_push(old(a)@.strings.len()) ==> r == Err::<
            u32,
            HostError,
        >(HostError::SlabFull { slab: Slab::Strings }) && final(a)@ == old(a)@,
        idx_ok(old(a)@.idents.len(), obj) && can_push(old(a)@.strings.len()) ==> r == Ok::<
            u32,
            HostError,
        >(old(a)@.strings.len() as u32) && final(a)@ == (ArenaV {
            strings: old(a)@.strings.push(render_ident(old(a)@.idents[obj as int])),
            ..old(a)@
        }),
{
    let scope = a.scope;
    let text = match slab_get(&a.idents, scope, Handle { index: obj, scope }, Slab::Idents) {
        Ok(x) => x.display_string(),
        Err(e) => return Err(e),
    };
    proof {
        lemma_seq_views_push(a.strings@, text);
    }
    match slab_push(&mut a.strings, scope, text, Slab::Strings) {
        Ok(h) => Ok(h.index),
        Err(e) => Err(e),
    }
}

/// A fresh string handle holding the display form of the punctuation token.
pub fn punct_to_string(a: &mut Arena, obj: u32) -> (r: Result<u32, HostError>)
    ensures
        !idx_ok(old(a)@.puncts.len(), obj) ==> r == Err::<u32, HostError>(
            HostError::InvalidHandle { slab: Slab::Puncts, handle: obj },
        ) && final(a)@ == old(a)@,
        idx_ok(old(a)@.puncts.len(), obj) && !can_push(old(a)@.strings.len()) ==> r == Err::<
            u32,
            HostError,
        >(HostError::SlabFull { slab: Slab::Strings }) && final(a)@ == old(a)@,
        idx_ok(old(a)@.puncts.len(), obj) && can_push(old(a)@.strings.len()) ==> r == Ok::<
            u32,
            HostError,
        >(old(a)@.strings.len() as u32) && final(a)@ == (ArenaV {
            strings: old(a)@.strings.push(seq![old(a)@.puncts[obj as int].op]),
            ..old(a)@
        }),
{
    let scope = a.scope;
    let text = match slab_get(&a.puncts, scope, Handle { index: obj, scope }, Slab::Puncts) {
        Ok(x) => x.display_string(),
        Err(e) => return Err(e),
    };
    proof {
        lemma_seq_views_push(a.strings@, text);
    }
    match slab_push(&mut a.strings, scope, text, Slab::Strings) {
        Ok(h) => Ok(h.index),
        Err(e) => Err(e),
    }
}

/// A fresh string handle holding the pre-rendered text of the literal.
pub fn literal_to_string(a: &mut Arena, obj: u32) -> (r: Result<u32, HostError>)
    ensures
        !idx_ok(old(a)@.literals.len(), obj) ==> r == Err::<u32, HostError>(
            HostError::InvalidHandle { slab: Slab::Literals, handle: obj },
        ) && final(a)@ == old(a)@,
        idx_ok(old(a)@.literals.len(), obj) && !can_push(old(a)@.strings.len()) ==> r == Err::<
            u32,
            HostError,
        >(HostError::SlabFull { slab: Slab::Strings }) && final(a)@ == old(a)@,
        idx_ok(old(a)@.literals.len(), obj) && can_push(old(a)@.strings.len()) ==> r == Ok::<
            u32,
            HostError,
        >(old(a)@.strings.len() as u32) && final(a)@ == (ArenaV {
            strings: old(a)@.strings.push(old(a)@.literals[obj as int].text),
            ..old(a)@
        }),
{
    let scope = a.scope;
    let text = match slab_get(&a.literals, scope, Handle { index: obj, scope }, Slab::Literals) {
        Ok(x) => x.display_string(),
        Err(e) => return Err(e),
    };
    proof {
        lemma_seq_views_push(a.strings@, text);
    }
    match slab_push(&mut a.strings, scope, text, Slab::Strings) {
        Ok(h) => Ok(h.index),
        Err(e) => Err(e),
    }
}

/// A fresh string handle holding the debug form of the stream.
pub fn token_stream_debug(a: &mut Arena, obj: u32) -> (r: Result<u32, HostError>)
    ensures
        !idx_ok(old(a)@.streams.len(), obj) ==> r == Err::<u32, HostError>(
            HostError::InvalidHandle { slab: Slab::TokenStreams, handle: obj },
        ) && final(a)@ == old(a)@,
        idx_ok(old(a)@.streams.len(), obj) && !can_push(old(a)@.strings.len()) ==> r == Err::<
            u32,
            HostError,
        >(HostError::SlabFull { slab: Slab::Strings }) && final(a)@ == old(a)@,
        idx_ok(old(a)@.streams.len(), obj) && can_push(old(a)@.strings.len()) ==> r == Ok::<
            u32,
            HostError,
        >(old(a)@.strings.len() as u32) && final(a)@ == (ArenaV {
            strings: old(a)@.strings.push(debug_stream(old(a)@.streams[obj as int])),
            ..old(a)@
        }),
{
    let scope = a.scope;
    let text = match slab_get(&a.streams, scope, Handle { index: obj, scope }, Slab::TokenStreams) {
        Ok(x) => x.debug_string(),
        Err(e) => return Err(e),
    };
    proof {
        lemma_seq_views_push(a.strings@, text);
    }
    match slab_push(&mut a.strings, scope, text, Slab::Strings) {
        Ok(h) => Ok(h.index),
        Err(e) => Err(e),
    }
}

/// A fresh string handle holding the debug form of the group.
pub fn group_debug(a: &mut Arena, obj: u32) -> (r: Result<u32, HostError>)
    ensures
        !idx_ok(old(a)@.groups.len(), obj) ==> r == Err::<u32, HostError>(
            HostError::InvalidHandle { slab: Slab::Groups, handle: obj },
        ) && final(a)@ == old(a)@,
        idx_ok(old(a)@.groups.len(), obj) && !can_push(old(a)@.strings.len()) ==> r == Err::<
            u32,
            HostError,
        >(HostError::SlabFull { slab: Slab::Strings }) && final(a)@ == old(a)@,
        idx_ok(old(a)@.groups.len(), obj) && can_push(old(a)@.strings.len()) ==> r == Ok::<
            u32,
            HostError,
        >(old(a)@.strings.len() as u32) && final(a)@ == (ArenaV {
            strings: old(a)@.strings.push(debug_group(old(a)@.groups[obj as int])),
            ..old(a)@
        }),
{
    let scope = a.scope;
    let text = match slab_get(&a.groups, scope, Handle { index: obj, scope }, Slab::Groups) {
        Ok(x) => x.debug_string(),
        Err(e) => return Err(e),
    };
    proof {
        lemma_seq_views_push(a.strings@, text);
    }
    match slab_push(&mut a.strings, scope, text, Slab::Strings) {
        Ok(h) => Ok(h.index),
        Err(e) => Err(e),
    }
}

/// A fresh string handle holding the debug form of the identifier.
pub fn ident_debug(a: &mut Arena, obj: u32) -> (r: Result<u32, HostError>)
    ensures
        !idx_ok(old(a)@.idents.len(), obj) ==> r == Err::<u32, HostError>(
            HostError::InvalidHandle { slab: Slab::Idents, handle: obj },
        ) && final(a)@ == old(a)@,
        idx_ok(old(a)@.idents.len(), obj) && !can_push(old(a)@.strings.len()) ==> r == Err::<
            u32,
            HostError,
        >(HostError::SlabFull { slab: Slab::Strings }) && final(a)@ == old(a)@,
        idx_ok(old(a)@.idents.len(), obj) && can_push(old(a)@.strings.len()) ==> r == Ok::<
            u32,
            HostError,
        >(old(a)@.strings.len() as u32) && final(a)@ == (ArenaV {
            strings: old(a)@.strings.push(debug_ident(old(a)@.idents[obj as int])),
            ..old(a)@
        }),
{
    let scope = a.scope;
    let text = match slab_get(&a.idents, scope, Handle { index: obj, scope }, Slab::Idents) {
        Ok(x) => x.debug_string(),
        Err(e) => return Err(e),
    };
    proof {
        lemma_seq_views_push(a.strings@, text);
    }
    match slab_push(&mut a.strings, scope, text, Slab::Strings) {
        Ok(h) => Ok(h.index),
        Err(e) => Err(e),
    }
}

/// A fresh string handle holding the debug form of the punctuation token.
pub fn punct_debug(a: &mut Arena, obj: u32) -> (r: Result<u32, HostError>)
    ensures
        !idx_ok(old(a)@.puncts.len(), obj) ==> r == Err::<u32, HostError>(
            HostError::InvalidHandle { slab: Slab::Puncts, handle: obj },
        ) && final(a)@ == old(a)@,
        idx_ok(old(a)@.puncts.len(), obj) && !can_push(old(a)@.strings.len()) ==> r == Err::<
            u32,
            HostError,
        >(HostError::SlabFull { slab: Slab::Strings }) && final(a)@ == old(a)@,
        idx_ok(old(a)@.puncts.len(), obj) && can_push(old(a)@.strings.len()) ==> r == Ok::<
            u32,
            HostError,
        >(old(a)@.strings.len() as u32) && final(a)@ == (ArenaV {
            strings: old(a)@.strings.push(debug_punct(old(a)@.puncts[obj as int])),
            ..old(a)@
        }),
{
    let scope = a.scope;
    let text = match slab_get(&a.puncts, scope, Handle { index: obj, scope }, Slab::Puncts) {
        Ok(x) => x.debug_string(),
        Err(e) => return Err(e),
    };
    proof {
        lemma_seq_views_push(a.strings@, text);
    }
    match slab_push(&mut a.strings, scope, text, Slab::Strings) {
        Ok(h) => Ok(h.index),
        Err(e) => Err(e),
    }
}

/// A fresh string handle holding the debug form of the literal.
pub fn literal_debug(a: &mut Arena, obj: u32) -> (r: Result<u32, HostError>)
    ensures
        !idx_ok(old(a)@.literals.len(), obj) ==> r == Err::<u32, HostError>(
            HostError::InvalidHandle { slab: Slab::Literals, handle: obj },
        ) && final(a)@ == old(a)@,
        idx_ok(old(a)@.literals.len(), obj) && !can_push(old(a)@.strings.len()) ==> r == Err::<
            u32,
            HostError,
        >(HostError::SlabFull { slab: Slab::Strings }) && final(a)@ == old(a)@,
        idx_ok(old(a)@.literals.len(), obj) && can_push(old(a)@.strings.len()) ==> r == Ok::<
            u32,
            HostError,
        >(old(a)@.strings.len() as u32) && final(a)@ == (ArenaV {
            strings: old(a)@.strings.push(debug_literal(old(a)@.literals[obj as int])),
            ..old(a)@
        }),
{
    let scope = a.scope;
    let text = match slab_get(&a.literals, scope, Handle { index: obj, scope }, Slab::Literals) {
        Ok(x) => x.debug_string(),
        Err(e) => return Err(e),
    };
    proof {
        lemma_seq_views_push(a.strings@, text);
    }
    match slab_push(&mut a.strings, scope, text, Slab::Strings) {
        Ok(h) => Ok(h.index),
        Err(e) => Err(e),
    }
}

/// A fresh string handle holding the debug form of the span.
pub fn span_debug(a: &mut Arena, obj: u32) -> (r: Result<u32, HostError>)
    ensures
        !idx_ok(old(a)@.spans.len(), obj) ==> r == Err::<u32, HostError>(
            HostError::InvalidHandle { slab: Slab::Spans, handle: obj },
        ) && final(a)@ == old(a)@,
        idx_ok(old(a)@.spans.len(), obj) && !can_push(old(a)@.strings.len()) ==> r == Err::<
            u32,
            HostError,
        >(HostError::SlabFull { slab: Slab::Strings }) && final(a)@ == old(a)@,
        idx_ok(old(a)@.spans.len(), obj) && can_push(old(a)@.strings.len()) ==> r == Ok::<
            u32,
            HostError,
        >(old(a)@.strings.len() as u32) && final(a)@ == (ArenaV {
            strings: old(a)@.strings.push(debug_span(old(a)@.spans[obj as int])),
            ..old(a)@
        }),
{
    let scope = a.scope;
    let text = match slab_get(&a.spans, scope, Handle { index: obj, scope }, Slab::Spans) {
        Ok(x) => x.debug_string(),
        Err(e) => return Err(e),
    };
    proof {
        lemma_seq_views_push(a.strings@, text);
    }
    match slab_push(&mut a.strings, scope, text, Slab::Strings) {
        Ok(h) => Ok(h.index),
        Err(e) => Err(e),
    }
}

// ---------------------------------------------------------------------------
// Scratch buffers and the panic bridge.
// ---------------------------------------------------------------------------

/// A fresh empty scratch text buffer; the capacity is only a hint.
pub fn watt_string_with_capacity(a: &mut Arena, cap: u32) -> (r: Result<u32, HostError>)
    ensures
        !can_push(old(a)@.strings.len()) ==> r == Err::<u32, HostError>(
            HostError::SlabFull { slab: Slab::Strings },
        ) && final(a)@ == old(a)@,
        can_push(old(a)@.strings.len()) ==> r == Ok::<u32, HostError>(
            old(a)@.strings.len() as u32,
        ) && final(a)@ == (ArenaV {
            strings: old(a)@.strings.push(Seq::empty()),
            ..old(a)@
        }),
{
    let _ = cap;
    let scope = a.scope;
    let text = String::new();
    proof {
        lemma_seq_views_push(a.strings@, text);
    }
    match slab_push(&mut a.strings, scope, text, Slab::Strings) {
        Ok(h) => Ok(h.index),
        Err(e) => Err(e),
    }
}

/// Appends one code point to the scratch text buffer.
pub fn watt_string_push_char(a: &mut Arena, string: u32, ch: u32) -> (r: Result<(), HostError>)
    ensures
        !idx_ok(old(a)@.strings.len(), string) ==> r == Err::<(), HostError>(
            HostError::InvalidHandle { slab: Slab::Strings, handle: string },
        ) && final(a)@ == old(a)@,
        idx_ok(old(a)@.strings.len(), string) && !is_unicode_scalar(ch) ==> r == Err::<
            (),
            HostError,
        >(HostError::InvalidScalar { value: ch }) && final(a)@ == old(a)@,
        idx_ok(old(a)@.strings.len(), string) && is_unicode_scalar(ch) ==> r == Ok::<
            (),
            HostError,
        >(()) && final(a)@ == (ArenaV {
            strings: old(a)@.strings.update(
                string as int,
                old(a)@.strings[string as int].push(ch as char),
            ),
            ..old(a)@
        }),
{
    let scope = a.scope;
    let _ = scope;
    if !((string as usize) < a.strings.len()) {
        return Err(HostError::InvalidHandle { slab: Slab::Strings, handle: string });
    }
    let c = match char_from_u32(ch) {
        Some(c) => c,
        None => {
            return Err(HostError::InvalidScalar { value: ch });
        },
    };
    proof {
        vstd::utf8::char_u32_cast(c, ch);
    }
    let text = &mut a.strings[string as usize];
    push_char(text, c);
    proof {
        lemma_seq_views_update(old(a).strings@, string as int, a.strings@[string as int]);
    }
    Ok(())
}

/// The byte length of a character sequence under UTF-8, as the machine
/// measures it.
pub open spec fn byte_len(s: Seq<char>) -> int {
    (vstd::utf8::encode_utf8(s).len() as usize) as int
}

/// The length of the scratch text buffer in UTF-8 bytes, reduced to the
/// 32-bit scalar the wire carries; valid offsets for the code-point read
/// derive from it.
pub fn watt_string_len(a: &mut Arena, string: u32) -> (r: Result<u32, HostError>)
    ensures
        final(a)@ == old(a)@,
        !idx_ok(old(a)@.strings.len(), string) ==> r == Err::<u32, HostError>(
            HostError::InvalidHandle { slab: Slab::Strings, handle: string },
        ),
        idx_ok(old(a)@.strings.len(), string) ==> r == Ok::<u32, HostError>(
            byte_len(old(a)@.strings[string as int]) as u32,
        ),
        (idx_ok(old(a)@.strings.len(), string) && vstd::utf8::encode_utf8(
            old(a)@.strings[string as int],
        ).len() < 0x100000000) ==> r == Ok::<u32, HostError>(
            vstd::utf8::encode_utf8(old(a)@.strings[string as int]).len() as u32,
        ),
{
    let scope = a.scope;
    let text = match slab_get(&a.strings, scope, Handle { index: string, scope }, Slab::Strings) {
        Ok(x) => x,
        Err(e) => return Err(e),
    };
    let len = text.as_str().len();
    Ok(#[verifier::truncate] (len as u32))
}

/// The code point of the character starting at the given byte offset of
/// the scratch text buffer; an offset at or past the end, or off a
/// character boundary, is a protocol violation.
pub fn watt_string_char_at(a: &mut Arena, string: u32, pos: u32) -> (r: Result<u32, HostError>)
    ensures
        final(a)@ == old(a)@,
        !idx_ok(old(a)@.strings.len(), string) ==> r == Err::<u32, HostError>(
            HostError::InvalidHandle { slab: Slab::Strings, handle: string },
        ),
        (idx_ok(old(a)@.strings.len(), string) && !(pos < byte_len(
            old(a)@.strings[string as int],
        ))) ==> r == Err::<u32, HostError>(HostError::InvalidScalar { value: pos }),
        (idx_ok(old(a)@.strings.len(), string) && pos < byte_len(old(a)@.strings[string as int])
            && !vstd::utf8::is_char_boundary(
            vstd::utf8::encode_utf8(old(a)@.strings[string as int]),
            pos as int,
        )) ==> r == Err::<u32, HostError>(HostError::InvalidScalar { value: pos }),
        (idx_ok(old(a)@.strings.len(), string) && pos < byte_len(old(a)@.strings[string as int])
            && vstd::utf8::is_char_boundary(
            vstd::utf8::encode_utf8(old(a)@.strings[string as int]),
            pos as int,
        )) ==> r == Ok::<u32, HostError>(
            vstd::utf8::decode_first_scalar(
                vstd::utf8::encode_utf8(old(a)@.strings[string as int]).skip(pos as int),
            ),
        ),
{
    let scope = a.scope;
    let text = match slab_get(&a.strings, scope, Handle { index: string, scope }, Slab::Strings) {
        Ok(x) => x,
        Err(e) => return Err(e),
    };
    let s = text.as_str();
    let blen = s.len();
    if !((pos as usize) < blen) {
        return Err(HostError::InvalidScalar { value: pos });
    }
    if !s.is_char_boundary(pos as usize) {
        return Err(HostError::InvalidScalar { value: pos });
    }
    let ghost sb = vstd::utf8::encode_utf8(text@);
    proof {
        assert((pos as nat) < sb.len()) by {
            vstd::arithmetic::div_mod::lemma_mod_decreases(sb.len(), 0x10000000000000000);
        };
    }
    let (_, suffix) = s.split_at(pos as usize);
    proof {
        assert(suffix.spec_bytes() =~= sb.skip(pos as int));
        if suffix@.len() == 0 {
            assert(vstd::utf8::encode_utf8(suffix@) =~= Seq::<u8>::empty());
            assert(sb.skip(pos as int).len() > 0);
            assert(false);
        }
        vstd::utf8::encode_utf8_first_scalar(suffix@);
    }
    let c = suffix.get_char(0);
    Ok(c as u32)
}

/// A fresh empty scratch byte buffer; the capacity is only a hint.
pub fn watt_bytes_with_capacity(a: &mut Arena, cap: u32) -> (r: Result<u32, HostError>)
    ensures
        !can_push(old(a)@.byte_bufs.len()) ==> r == Err::<u32, HostError>(
            HostError::SlabFull { slab: Slab::ByteBufs },
        ) && final(a)@ == old(a)@,
        can_push(old(a)@.byte_bufs.len()) ==> r == Ok::<u32, HostError>(
            old(a)@.byte_bufs.len() as u32,
        ) && final(a)@ == (ArenaV {
            byte_bufs: old(a)@.byte_bufs.push(Seq::empty()),
            ..old(a)@
        }),
{
    let _ = cap;
    let scope = a.scope;
    let bytes: Vec<u8> = Vec::new();
    proof {
        lemma_seq_views_push(a.byte_bufs@, bytes);
    }
    match slab_push(&mut a.byte_bufs, scope, bytes, Slab::ByteBufs) {
        Ok(h) => Ok(h.index),
        Err(e) => Err(e),
    }
}

/// Appends the low byte of the scalar to the scratch byte buffer.
pub fn watt_bytes_push(a: &mut Arena, bytes: u32, byte: u32) -> (r: Result<(), HostError>)
    ensures
        !idx_ok(old(a)@.byte_bufs.len(), bytes) ==> r == Err::<(), HostError>(
            HostError::InvalidHandle { slab: Slab::ByteBufs, handle: bytes },
        ) && final(a)@ == old(a)@,
        idx_ok(old(a)@.byte_bufs.len(), bytes) ==> r == Ok::<(), HostError>(()) && final(a)@
            == (ArenaV {
            byte_bufs: old(a)@.byte_bufs.update(
                bytes as int,
                old(a)@.byte_bufs[bytes as int].push(byte as u8),
            ),
            ..old(a)@
        }),
{
    if !((bytes as usize) < a.byte_bufs.len()) {
        return Err(HostError::InvalidHandle { slab: Slab::ByteBufs, handle: bytes });
    }
    let buf = &mut a.byte_bufs[bytes as usize];
    buf.push(#[verifier::truncate] (byte as u8));
    proof {
        lemma_seq_views_update(old(a).byte_bufs@, bytes as int, a.byte_bufs@[bytes as int]);
    }
    Ok(())
}

/// The panic bridge: the guest reports a fatal failure whose message is the
/// text at `string`. Never returns success; the message is carried out
/// verbatim as an error.
pub fn watt_print_panic(a: &mut Arena, string: u32) -> (r: Result<(), HostError>)
    ensures
        final(a)@ == old(a)@,
        r is Err,
        !idx_ok(old(a)@.strings.len(), string) ==> r == Err::<(), HostError>(
            HostError::InvalidHandle { slab: Slab::Strings, handle: string },
        ),
        idx_ok(old(a)@.strings.len(), string) ==> (r matches Err(e) && e matches
            HostError::GuestPanic { message } && message@ == old(a)@.strings[string as int]),
{
    let scope = a.scope;
    let text = match slab_get(&a.strings, scope, Handle { index: string, scope }, Slab::Strings) {
        Ok(x) => x.clone(),
        Err(e) => return Err(e),
    };
    Err(HostError::GuestPanic { message: text })
}

} // verus!
