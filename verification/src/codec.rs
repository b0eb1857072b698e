//! The binary wire codec: a whole token stream as a self-contained byte
//! blob, and back.
//!
//! Depth-first pre-order; one tag byte per tree (1 group, 2 identifier,
//! 3 punctuation, 4 and above literal; 0 ends a stream); 4-byte
//! little-endian integers; strings length-prefixed UTF-8 with no
//! terminator. A span travels as the handle of a slot in the span slab:
//! encoding pushes the span and writes the new slot's index, decoding looks
//! the index up on the same side. A literal's text is re-lexed on decode
//! and must form exactly one literal token; decoding checks that every
//! input byte is consumed.

use vstd::prelude::*;
use crate::error::{HostError, Slab};
use crate::lex::{literal_text_ok, parse_literal};
use crate::strext::{char_from_u32, is_unicode_scalar, string_from_utf8};
use crate::token::{Delimiter, Group, GroupV, Ident, IdentV, LitV, Literal, Punct, PunctV, Spacing, Span, TokenStream, TokenTree, TreeV, check_ident_text, ident_text_valid, lemma_trees_view, tree_view};
use crate::render::render_ident;
use vstd::utf8::{decode_utf8, encode_utf8, valid_utf8};

verus! {

broadcast use vstd::seq::axiom_seq_index_decreases, vstd::std_specs::vec::axiom_vec_decreases_to_view;

/// Four little-endian bytes of `n` (reduced modulo `2^32`).
pub open spec fn le32(n0: nat) -> Seq<u8> {
    let n = n0 % 0x100000000;
    seq![
        (n % 256) as u8,
        ((n / 256) % 256) as u8,
        ((n / 65536) % 256) as u8,
        ((n / 16777216) % 256) as u8,
    ]
}

/// The low 32 bits of a length.
fn trunc32(n: usize) -> (r: u32)
    ensures
        r as nat == (n as nat) % 0x100000000,
{
    let r = #[verifier::truncate] (n as u32);
    proof {
        assert(r as nat == (n as nat) % 0x100000000) by (bit_vector)
            requires
                r == (n as u32),
        ;
    }
    r
}

/// The value of four little-endian bytes starting at `pos`.
pub open spec fn rd32(bytes: Seq<u8>, pos: int) -> nat
    recommends
        0 <= pos,
        pos + 4 <= bytes.len(),
{
    (bytes[pos] as nat) + 256 * (bytes[pos + 1] as nat) + 65536 * (bytes[pos + 2] as nat)
        + 16777216 * (bytes[pos + 3] as nat)
}

pub open spec fn delim_byte(d: Delimiter) -> u8 {
    match d {
        Delimiter::Parenthesis => 0u8,
        Delimiter::Brace => 1u8,
        Delimiter::Bracket => 2u8,
        Delimiter::NoDelim => 3u8,
    }
}

pub open spec fn byte_delim(b: u8) -> Delimiter {
    if b == 0 {
        Delimiter::Parenthesis
    } else if b == 1 {
        Delimiter::Brace
    } else if b == 2 {
        Delimiter::Bracket
    } else {
        Delimiter::NoDelim
    }
}

pub open spec fn spacing_byte(sp: Spacing) -> u8 {
    match sp {
        Spacing::Alone => 0u8,
        Spacing::Joint => 1u8,
    }
}

/// A length-prefixed UTF-8 string: four little-endian bytes of the byte
/// length, then the bytes.
pub open spec fn enc_str(s: Seq<char>) -> Seq<u8> {
    le32(encode_utf8(s).len()) + encode_utf8(s)
}

/// One encoded tree and the span slab after it: each span met is pushed
/// and travels as its new slot index.
pub open spec fn enc_tree(t: TreeV, spans: Seq<Span>) -> (Seq<u8>, Seq<Span>)
    decreases t, 0int, 0int,
{
    match t {
        TreeV::Group(g) => {
            let sp2 = spans.push(g.span);
            let inner = enc_trees(g.stream, 0, sp2);
            (
                seq![1u8, delim_byte(g.delimiter)] + le32(spans.len()) + inner.0 + seq![0u8],
                inner.1,
            )
        },
        TreeV::Ident(i) => (
            seq![2u8] + le32(spans.len()) + enc_str(render_ident(i)),
            spans.push(i.span),
        ),
        TreeV::Punct(p) => (
            seq![3u8] + le32(p.op as nat) + seq![spacing_byte(p.spacing)] + le32(spans.len()),
            spans.push(p.span),
        ),
        TreeV::Literal(l) => (seq![4u8] + le32(spans.len()) + enc_str(l.text), spans.push(l.span)),
    }
}

/// The encoded trees of a stream from index `i` on, without the
/// terminator, and the span slab after them.
pub open spec fn enc_trees(ts: Seq<TreeV>, i: int, spans: Seq<Span>) -> (Seq<u8>, Seq<Span>)
    decreases ts, 0int, ts.len() - i,
{
    if 0 <= i < ts.len() {
        let head = enc_tree(ts[i], spans);
        let rest = enc_trees(ts, i + 1, head.1);
        (head.0 + rest.0, rest.1)
    } else {
        (Seq::empty(), spans)
    }
}

/// A whole encoded stream: its trees, then the terminator byte.
pub open spec fn enc_stream(ts: Seq<TreeV>, spans: Seq<Span>) -> (Seq<u8>, Seq<Span>) {
    let body = enc_trees(ts, 0, spans);
    (body.0 + seq![0u8], body.1)
}

// ---------------------------------------------------------------------------
// Spec-level decoding.
// ---------------------------------------------------------------------------

/// One decoded tree starting at the tag byte `pos`, with the index just
/// past it; `None` on any malformation.
pub open spec fn dec_tree(bytes: Seq<u8>, pos: int, spans: Seq<Span>) -> Option<(TreeV, int)>
    decreases bytes.len() - pos, 0int,
{
    if !(0 <= pos < bytes.len()) {
        None
    } else {
        let tag = bytes[pos];
        if tag == 0 {
            None
        } else if tag == 1 {
            if pos + 6 <= bytes.len() {
                let d = byte_delim(bytes[pos + 1]);
                let h = rd32(bytes, pos + 2);
                if h < spans.len() {
                    match dec_trees(bytes, pos + 6, spans) {
                        Some(p) => Some(
                            (
                                TreeV::Group(
                                    GroupV { delimiter: d, stream: p.0, span: spans[h as int] },
                                ),
                                p.1,
                            ),
                        ),
                        None => None,
                    }
                } else {
                    None
                }
            } else {
                None
            }
        } else if tag == 2 {
            if pos + 9 <= bytes.len() {
                let h = rd32(bytes, pos + 1);
                let n = rd32(bytes, pos + 5);
                if h < spans.len() && pos + 9 + n <= bytes.len() {
                    let content = bytes.subrange(pos + 9, pos + 9 + n);
                    if valid_utf8(content) {
                        let text = decode_utf8(content);
                        if text.len() >= 2 && text[0] == 'r' && text[1] == '#' {
                            let sym = text.skip(2);
                            if ident_text_valid(sym) {
                                Some(
                                    (
                                        TreeV::Ident(
                                            IdentV { sym, span: spans[h as int], raw: true },
                                        ),
                                        pos + 9 + n,
                                    ),
                                )
                            } else {
                                None
                            }
                        } else {
                            if ident_text_valid(text) {
                                Some(
                                    (
                                        TreeV::Ident(
                                            IdentV { sym: text, span: spans[h as int], raw: false },
                                        ),
                                        pos + 9 + n,
                                    ),
                                )
                            } else {
                                None
                            }
                        }
                    } else {
                        None
                    }
                } else {
                    None
                }
            } else {
                None
            }
        } else if tag == 3 {
            if pos + 10 <= bytes.len() {
                let op = rd32(bytes, pos + 1);
                let h = rd32(bytes, pos + 6);
                if is_unicode_scalar(op as u32) && h < spans.len() {
                    let sp = if bytes[pos + 5] == 0 {
                        Spacing::Alone
                    } else {
                        Spacing::Joint
                    };
                    Some(
                        (
                            TreeV::Punct(
                                PunctV {
                                    op: (op as u32) as char,
                                    spacing: sp,
                                    span: spans[h as int],
                                },
                            ),
                            pos + 10,
                        ),
                    )
                } else {
                    None
                }
            } else {
                None
            }
        } else {
            if pos + 9 <= bytes.len() {
                let h = rd32(bytes, pos + 1);
                let n = rd32(bytes, pos + 5);
                if h < spans.len() && pos + 9 + n <= bytes.len() {
                    let content = bytes.subrange(pos + 9, pos + 9 + n);
                    if valid_utf8(content) {
                        let text = decode_utf8(content);
                        if literal_text_ok(text) {
                            Some(
                                (
                                    TreeV::Literal(LitV { text, span: spans[h as int] }),
                                    pos + 9 + n,
                                ),
                            )
                        } else {
                            None
                        }
                    } else {
                        None
                    }
                } else {
                    None
                }
            } else {
                None
            }
        }
    }
}

/// The decoded trees from `pos` up to and including a terminator byte.
pub open spec fn dec_trees(bytes: Seq<u8>, pos: int, spans: Seq<Span>) -> Option<(Seq<TreeV>, int)>
    decreases bytes.len() - pos, 1int,
{
    if !(0 <= pos < bytes.len()) {
        None
    } else if bytes[pos] == 0 {
        Some((Seq::empty(), pos + 1))
    } else {
        match dec_tree(bytes, pos, spans) {
            None => None,
            Some(p) => {
                if p.1 <= pos || p.1 > bytes.len() {
                    None
                } else {
                    match dec_trees(bytes, p.1, spans) {
                        None => None,
                        Some(q) => Some((seq![p.0] + q.0, q.1)),
                    }
                }
            },
        }
    }
}

/// A whole blob as one stream: every byte must be consumed.
pub open spec fn spec_decode(bytes: Seq<u8>, spans: Seq<Span>) -> Option<Seq<TreeV>> {
    match dec_trees(bytes, 0, spans) {
        None => None,
        Some(p) => if p.1 == bytes.len() {
            Some(p.0)
        } else {
            None
        },
    }
}

// ---------------------------------------------------------------------------
// Executable encoding.
// ---------------------------------------------------------------------------

fn push_le32(out: &mut Vec<u8>, n: u32)
    ensures
        final(out)@ == old(out)@ + le32(n as nat),
{
    out.push((n % 256) as u8);
    out.push(((n / 256) % 256) as u8);
    out.push(((n / 65536) % 256) as u8);
    out.push(((n / 16777216) % 256) as u8);
    proof {
        assert(final(out)@ =~= old(out)@ + le32(n as nat));
    }
}

fn push_str_bytes(out: &mut Vec<u8>, s: &str)
    ensures
        final(out)@ == old(out)@ + enc_str(s@),
{
    let bs = s.as_bytes();
    let n32 = trunc32(bs.len());
    proof {
        assert(le32(n32 as nat) == le32(encode_utf8(s@).len()));
    }
    push_le32(out, n32);
    out.extend_from_slice(bs);
    proof {
        assert(final(out)@ =~= old(out)@ + enc_str(s@));
    }
}

#[verifier::rlimit(60)]
fn enc_tree_exec(out: &mut Vec<u8>, t: &TokenTree, spans: &mut Vec<Span>)
    ensures
        final(out)@ == old(out)@ + enc_tree(t@, old(spans)@).0,
        final(spans)@ == enc_tree(t@, old(spans)@).1,
    decreases *t, 0int, 0int,
{
    match t {
        TokenTree::Group(g) => {
            out.push(1u8);
            out.push(
                match g.delimiter {
                    Delimiter::Parenthesis => 0u8,
                    Delimiter::Brace => 1u8,
                    Delimiter::Bracket => 2u8,
                    Delimiter::NoDelim => 3u8,
                },
            );
            let h32 = trunc32(spans.len());
            proof {
                assert(le32(h32 as nat) == le32(spans@.len()));
            }
            push_le32(out, h32);
            spans.push(g.span);
            enc_trees_exec(out, &g.stream, 0, spans);
            out.push(0u8);
            proof {
                assert(final(out)@ =~= old(out)@ + enc_tree(t@, old(spans)@).0);
            }
        },
        TokenTree::Ident(i) => {
            out.push(2u8);
            let h32 = trunc32(spans.len());
            proof {
                assert(le32(h32 as nat) == le32(spans@.len()));
            }
            push_le32(out, h32);
            let rendered = i.display_string();
            push_str_bytes(out, rendered.as_str());
            spans.push(i.span);
            proof {
                assert(final(out)@ =~= old(out)@ + enc_tree(t@, old(spans)@).0);
            }
        },
        TokenTree::Punct(p) => {
            out.push(3u8);
            push_le32(out, p.op as u32);
            out.push(
                match p.spacing {
                    Spacing::Alone => 0u8,
                    Spacing::Joint => 1u8,
                },
            );
            let h32 = trunc32(spans.len());
            proof {
                assert(le32(h32 as nat) == le32(spans@.len()));
            }
            push_le32(out, h32);
            spans.push(p.span);
            proof {
                assert(final(out)@ =~= old(out)@ + enc_tree(t@, old(spans)@).0);
            }
        },
        TokenTree::Literal(l) => {
            out.push(4u8);
            let h32 = trunc32(spans.len());
            proof {
                assert(le32(h32 as nat) == le32(spans@.len()));
            }
            push_le32(out, h32);
            push_str_bytes(out, l.text.as_str());
            spans.push(l.span);
            proof {
                assert(final(out)@ =~= old(out)@ + enc_tree(t@, old(spans)@).0);
            }
        },
    }
}

fn enc_trees_exec(out: &mut Vec<u8>, ts: &TokenStream, i: usize, spans: &mut Vec<Span>)
    requires
        i <= ts.trees@.len(),
    ensures
        final(out)@ == old(out)@ + enc_trees(ts@, i as int, old(spans)@).0,
        final(spans)@ == enc_trees(ts@, i as int, old(spans)@).1,
    decreases *ts, 0int, ts.trees@.len() - i,
{
    proof {
        lemma_trees_view(ts.trees@);
    }
    if i < ts.trees.len() {
        enc_tree_exec(out, &ts.trees[i], spans);
        enc_trees_exec(out, ts, i + 1, spans);
        proof {
            assert(final(out)@ =~= old(out)@ + enc_trees(ts@, i as int, old(spans)@).0);
        }
    }
}

/// Encodes a whole stream; every span met is pushed onto `spans` and
/// travels as its slot index.
pub fn encode(stream: &TokenStream, spans: &mut Vec<Span>) -> (r: Vec<u8>)
    ensures
        r@ == enc_stream(stream@, old(spans)@).0,
        final(spans)@ == enc_stream(stream@, old(spans)@).1,
{
    let mut out: Vec<u8> = Vec::new();
    enc_trees_exec(&mut out, stream, 0, spans);
    out.push(0u8);
    proof {
        assert(out@ =~= enc_stream(stream@, old(spans)@).0);
    }
    out
}

// ---------------------------------------------------------------------------
// Executable decoding.
// ---------------------------------------------------------------------------

fn rd32_exec(bytes: &[u8], pos: usize) -> (r: u32)
    requires
        pos + 4 <= bytes@.len(),
    ensures
        r as nat == rd32(bytes@, pos as int),
{
    let b0 = bytes[pos] as u32;
    let b1 = bytes[pos + 1] as u32;
    let b2 = bytes[pos + 2] as u32;
    let b3 = bytes[pos + 3] as u32;
    b0 + 256 * b1 + 65536 * b2 + 16777216 * b3
}

/// Copies the bytes `[from, to)` into a fresh vector.
fn take_bytes(bytes: &[u8], from: usize, to: usize) -> (r: Vec<u8>)
    requires
        from <= to <= bytes@.len(),
    ensures
        r@ == bytes@.subrange(from as int, to as int),
    decreases to - from,
{
    if from < to {
        let mut r = take_bytes(bytes, from, to - 1);
        r.push(bytes[to - 1]);
        proof {
            assert(r@ =~= bytes@.subrange(from as int, to as int));
        }
        r
    } else {
        let r: Vec<u8> = Vec::new();
        proof {
            assert(r@ =~= bytes@.subrange(from as int, to as int));
        }
        r
    }
}

fn dec_tree_exec(bytes: &[u8], pos: usize, len: usize, spans: &Vec<Span>) -> (r: Result<
    (TokenTree, usize),
    HostError,
>)
    requires
        len == bytes@.len(),
        pos < len,
    ensures
        r is Ok <==> dec_tree(bytes@, pos as int, spans@) is Some,
        (r matches Ok(p) ==> (dec_tree(bytes@, pos as int, spans@) matches Some(q) && p.0@ == q.0
            && p.1 == q.1 && pos < p.1 <= len)),
    decreases len - pos, 0int,
{
    let tag = bytes[pos];
    if tag == 0 {
        Err(HostError::Truncated)
    } else if tag == 1 {
        if !(len - pos >= 6) {
            return Err(HostError::Truncated);
        }
        let db = bytes[pos + 1];
        let d = if db == 0 {
            Delimiter::Parenthesis
        } else if db == 1 {
            Delimiter::Brace
        } else if db == 2 {
            Delimiter::Bracket
        } else {
            Delimiter::NoDelim
        };
        let h = rd32_exec(bytes, pos + 2);
        if !((h as usize) < spans.len()) {
            return Err(HostError::InvalidHandle { slab: Slab::Spans, handle: h });
        }
        let span = spans[h as usize];
        match dec_trees_exec(bytes, pos + 6, len, spans) {
            Ok(p) => {
                let mut g = Group::new(d, p.0);
                g.set_span(span);
                Ok((TokenTree::Group(g), p.1))
            },
            Err(e) => Err(e),
        }
    } else if tag == 2 {
        if !(len - pos >= 9) {
            return Err(HostError::Truncated);
        }
        let h = rd32_exec(bytes, pos + 1);
        let n = rd32_exec(bytes, pos + 5);
        if !((h as usize) < spans.len()) {
            return Err(HostError::InvalidHandle { slab: Slab::Spans, handle: h });
        }
        let span = spans[h as usize];
        if !((n as usize) <= len - (pos + 9)) {
            return Err(HostError::Truncated);
        }
        let content = take_bytes(bytes, pos + 9, pos + 9 + (n as usize));
        let text = match string_from_utf8(content.as_slice()) {
            Some(t) => t,
            Option::None => {
                return Err(HostError::MalformedUtf8);
            },
        };
        let tlen = text.as_str().unicode_len();
        let is_raw = tlen >= 2 && text.as_str().get_char(0) == 'r' && text.as_str().get_char(1)
            == '#';
        if is_raw {
            let sym = text.as_str().substring_char(2, tlen);
            proof {
                assert(sym@ =~= text@.skip(2));
            }
            if !check_ident_text(sym) {
                return Err(HostError::InvalidIdent);
            }
            let id = Ident::make(String::from_str(sym), true, span);
            Ok((TokenTree::Ident(id), pos + 9 + (n as usize)))
        } else {
            if !check_ident_text(text.as_str()) {
                return Err(HostError::InvalidIdent);
            }
            let id = Ident::make(text, false, span);
            Ok((TokenTree::Ident(id), pos + 9 + (n as usize)))
        }
    } else if tag == 3 {
        if !(len - pos >= 10) {
            return Err(HostError::Truncated);
        }
        let op = rd32_exec(bytes, pos + 1);
        let h = rd32_exec(bytes, pos + 6);
        let c = match char_from_u32(op) {
            Some(c) => c,
            Option::None => {
                return Err(HostError::InvalidScalar { value: op });
            },
        };
        proof {
            vstd::utf8::char_u32_cast(c, op);
        }
        if !((h as usize) < spans.len()) {
            return Err(HostError::InvalidHandle { slab: Slab::Spans, handle: h });
        }
        let span = spans[h as usize];
        let sp = if bytes[pos + 5] == 0 {
            Spacing::Alone
        } else {
            Spacing::Joint
        };
        let mut p = Punct::new(c, sp);
        p.set_span(span);
        Ok((TokenTree::Punct(p), pos + 10))
    } else {
        if !(len - pos >= 9) {
            return Err(HostError::Truncated);
        }
        let h = rd32_exec(bytes, pos + 1);
        let n = rd32_exec(bytes, pos + 5);
        if !((h as usize) < spans.len()) {
            return Err(HostError::InvalidHandle { slab: Slab::Spans, handle: h });
        }
        let span = spans[h as usize];
        if !((n as usize) <= len - (pos + 9)) {
            return Err(HostError::Truncated);
        }
        let content = take_bytes(bytes, pos + 9, pos + 9 + (n as usize));
        let text = match string_from_utf8(content.as_slice()) {
            Some(t) => t,
            Option::None => {
                return Err(HostError::MalformedUtf8);
            },
        };
        match parse_literal(text.as_str()) {
            Some(l) => {
                let mut lit = l;
                lit.set_span(span);
                Ok((TokenTree::Literal(lit), pos + 9 + (n as usize)))
            },
            Option::None => Err(HostError::MalformedLiteral),
        }
    }
}

fn dec_trees_exec(bytes: &[u8], pos: usize, len: usize, spans: &Vec<Span>) -> (r: Result<
    (TokenStream, usize),
    HostError,
>)
    requires
        len == bytes@.len(),
        pos <= len,
    ensures
        r is Ok <==> dec_trees(bytes@, pos as int, spans@) is Some,
        (r matches Ok(p) ==> (dec_trees(bytes@, pos as int, spans@) matches Some(q) && p.0@ == q.0
            && p.1 == q.1 && pos < p.1 <= len)),
    decreases len - pos, 1int,
{
    if pos >= len {
        return Err(HostError::Truncated);
    }
    if bytes[pos] == 0 {
        return Ok((TokenStream::new(), pos + 1));
    }
    match dec_tree_exec(bytes, pos, len, spans) {
        Err(e) => Err(e),
        Ok(p) => {
            match dec_trees_exec(bytes, p.1, len, spans) {
                Err(e) => Err(e),
                Ok(q) => {
                    let (head, _k) = p;
                    let (rest, end) = q;
                    let mut out = TokenStream::from_tree(head);
                    out.extend_stream(&rest);
                    proof {
                        assert(out@ =~= seq![tree_view(head)] + rest@);
                    }
                    Ok((out, end))
                },
            }
        },
    }
}

/// Decodes a whole blob against the span slab; every byte must be
/// consumed.
pub fn decode(bytes: &[u8], spans: &Vec<Span>) -> (r: Result<TokenStream, HostError>)
    ensures
        r is Ok <==> spec_decode(bytes@, spans@) is Some,
        (r matches Ok(ts) ==> spec_decode(bytes@, spans@) == Some(ts@)),
{
    let len = bytes.len();
    match dec_trees_exec(bytes, 0, len, spans) {
        Err(e) => Err(e),
        Ok(p) => {
            if p.1 == len {
                Ok(p.0)
            } else {
                Err(HostError::TrailingBytes)
            }
        },
    }
}

// ---------------------------------------------------------------------------
// The round trip: decoding an encoded stream gives the stream back.
// ---------------------------------------------------------------------------

/// What the codec preserves of one tree: identifiers well-formed, literal
/// texts that re-lex, and string payloads whose byte length the 4-byte
/// prefix can carry.
pub open spec fn tree_wf(t: TreeV) -> bool
    decreases t, 1int,
{
    match t {
        TreeV::Group(g) => stream_wf_from(g.stream, 0),
        TreeV::Ident(i) => ident_text_valid(i.sym) && encode_utf8(render_ident(i)).len()
            < 0x100000000,
        TreeV::Punct(_) => true,
        TreeV::Literal(l) => literal_text_ok(l.text) && encode_utf8(l.text).len() < 0x100000000,
    }
}

pub open spec fn stream_wf_from(ts: Seq<TreeV>, i: int) -> bool
    decreases ts, 0int, ts.len() - i,
{
    if 0 <= i < ts.len() {
        tree_wf(ts[i]) && stream_wf_from(ts, i + 1)
    } else {
        true
    }
}

/// Every tree of the stream is codec-preservable.
pub open spec fn stream_wf(ts: Seq<TreeV>) -> bool {
    stream_wf_from(ts, 0)
}

/// Reading back four little-endian bytes gives the written value, reduced
/// modulo `2^32`.
proof fn lemma_rd32_le32(n: nat, bytes: Seq<u8>, pos: int)
    requires
        0 <= pos,
        pos + 4 <= bytes.len(),
        bytes.subrange(pos, pos + 4) == le32(n),
    ensures
        rd32(bytes, pos) == n % 0x100000000,
{
    let m = n % 0x100000000;
    let x: u32 = m as u32;
    assert(bytes[pos] == le32(n)[0]);
    assert(bytes[pos + 1] == le32(n)[1]);
    assert(bytes[pos + 2] == le32(n)[2]);
    assert(bytes[pos + 3] == le32(n)[3]);
    assert(x as nat == m);
    assert(x == x % 256 + 256 * ((x / 256) % 256) + 65536 * ((x / 65536) % 256) + 16777216 * ((x
        / 16777216) % 256)) by (bit_vector);
}

/// Splitting a known concatenation of two parts out of a byte sequence.
proof fn lemma_concat_parts(bytes: Seq<u8>, pos: int, a: Seq<u8>, b: Seq<u8>)
    requires
        0 <= pos,
        pos + a.len() + b.len() <= bytes.len(),
        bytes.subrange(pos, pos + a.len() + b.len()) == a + b,
    ensures
        bytes.subrange(pos, pos + a.len()) == a,
        bytes.subrange(pos + a.len(), pos + a.len() + b.len()) == b,
{
    assert forall|j: int| 0 <= j < a.len() implies bytes.subrange(pos, pos + a.len())[j]
        == a[j] by {
        assert(bytes.subrange(pos, pos + a.len() + b.len())[j] == (a + b)[j]);
    };
    assert(bytes.subrange(pos, pos + a.len()) =~= a);
    assert forall|j: int|
        0 <= j < b.len() implies bytes.subrange(pos + a.len(), pos + a.len() + b.len())[j]
        == b[j] by {
        assert(bytes.subrange(pos + a.len(), pos + a.len() + b.len())[j] == bytes[pos + a.len()
            + j]);
        assert(bytes.subrange(pos, pos + a.len() + b.len())[a.len() + j] == bytes[pos + (a.len()
            + j)]);
        assert(bytes.subrange(pos, pos + a.len() + b.len())[a.len() + j] == (a + b)[a.len() + j]);
        assert((a + b)[a.len() + j] == b[j]);
    };
    assert(bytes.subrange(pos + a.len(), pos + a.len() + b.len()) =~= b);
}

/// Encoding only appends to the span slab.
proof fn lemma_enc_tree_extends(t: TreeV, spans: Seq<Span>)
    ensures
        spans.is_prefix_of(enc_tree(t, spans).1),
        enc_tree(t, spans).1.len() > spans.len(),
        enc_tree(t, spans).0.len() > 0,
    decreases t, 0int, 0int,
{
    match t {
        TreeV::Group(g) => {
            lemma_enc_trees_extends(g.stream, 0, spans.push(g.span));
            assert(spans.is_prefix_of(spans.push(g.span)));
            assert(spans.is_prefix_of(enc_tree(t, spans).1));
        },
        TreeV::Ident(_) => {
            assert(spans.is_prefix_of(enc_tree(t, spans).1));
        },
        TreeV::Punct(_) => {
            assert(spans.is_prefix_of(enc_tree(t, spans).1));
        },
        TreeV::Literal(_) => {
            assert(spans.is_prefix_of(enc_tree(t, spans).1));
        },
    }
}

proof fn lemma_enc_trees_extends(ts: Seq<TreeV>, i: int, spans: Seq<Span>)
    ensures
        spans.is_prefix_of(enc_trees(ts, i, spans).1),
        enc_trees(ts, i, spans).1.len() >= spans.len(),
    decreases ts, 0int, ts.len() - i,
{
    if 0 <= i < ts.len() {
        lemma_enc_tree_extends(ts[i], spans);
        lemma_enc_trees_extends(ts, i + 1, enc_tree(ts[i], spans).1);
        assert(spans.is_prefix_of(enc_trees(ts, i, spans).1));
    } else {
        assert(spans.is_prefix_of(spans));
    }
}

/// A prefix determines its elements in the longer sequence.
proof fn lemma_prefix_index(a: Seq<Span>, b: Seq<Span>, i: int)
    requires
        a.is_prefix_of(b),
        0 <= i < a.len(),
    ensures
        b[i] == a[i],
{
    assert(b.subrange(0, a.len() as int)[i] == b[i]);
}

proof fn lemma_prefix_trans(a: Seq<Span>, b: Seq<Span>, c: Seq<Span>)
    requires
        a.is_prefix_of(b),
        b.is_prefix_of(c),
    ensures
        a.is_prefix_of(c),
{
    assert(a =~= c.subrange(0, a.len() as int)) by {
        assert(forall|i: int|
            0 <= i < a.len() ==> a[i] == #[trigger] b.subrange(0, a.len() as int)[i]);
        assert(forall|i: int|
            0 <= i < b.len() ==> b[i] == #[trigger] c.subrange(0, b.len() as int)[i]);
    };
}

/// One encoded group decodes to itself.
#[verifier::rlimit(60)]
proof fn lemma_rt_group(g: GroupV, sp0: Seq<Span>, bytes: Seq<u8>, pos: int, spans_full: Seq<Span>)
    requires
        tree_wf(TreeV::Group(g)),
        0 <= pos,
        pos + enc_tree(TreeV::Group(g), sp0).0.len() <= bytes.len(),
        bytes.subrange(pos, pos + enc_tree(TreeV::Group(g), sp0).0.len()) == enc_tree(
            TreeV::Group(g),
            sp0,
        ).0,
        enc_tree(TreeV::Group(g), sp0).1.is_prefix_of(spans_full),
        spans_full.len() < 0x100000000,
    ensures
        dec_tree(bytes, pos, spans_full) == Some(
            (TreeV::Group(g), pos + enc_tree(TreeV::Group(g), sp0).0.len()),
        ),
    decreases TreeV::Group(g), 0int, 0int,
{
    let t = TreeV::Group(g);
    lemma_enc_tree_extends(t, sp0);
    let enc = enc_tree(t, sp0).0;
    let end = pos + enc.len();
    let sp2 = sp0.push(g.span);
    let inner = enc_trees(g.stream, 0, sp2);
    lemma_enc_trees_extends(g.stream, 0, sp2);
    let head: Seq<u8> = seq![1u8, delim_byte(g.delimiter)];
    let mid: Seq<u8> = le32(sp0.len());
    let tail: Seq<u8> = inner.0 + seq![0u8];
    assert(enc =~= head + (mid + tail));
    lemma_concat_parts(bytes, pos, head, mid + tail);
    lemma_concat_parts(bytes, pos + 2, mid, tail);
    assert(bytes.subrange(pos, pos + 2)[0] == bytes[pos]);
    assert(bytes.subrange(pos, pos + 2)[1] == bytes[pos + 1]);
    assert(bytes[pos] == 1u8);
    assert(bytes[pos + 1] == delim_byte(g.delimiter));
    lemma_rd32_le32(sp0.len(), bytes, pos + 2);
    assert(rd32(bytes, pos + 2) == sp0.len());
    assert(sp2.is_prefix_of(inner.1));
    lemma_prefix_trans(sp2, inner.1, spans_full);
    lemma_prefix_index(sp2, spans_full, sp0.len() as int);
    assert(spans_full[sp0.len() as int] == g.span);
    assert(byte_delim(delim_byte(g.delimiter)) == g.delimiter);
    assert(bytes.subrange(pos + 6, pos + 6 + inner.0.len() + 1 as int) =~= inner.0 + seq![0u8]);
    lemma_rt_trees(g.stream, 0, sp2, bytes, pos + 6, spans_full);
    assert(g.stream.skip(0) =~= g.stream);
    assert(dec_trees(bytes, pos + 6, spans_full) == Some((g.stream, end)));
    assert(dec_tree(bytes, pos, spans_full) == Some((t, end)));
}

/// One encoded identifier decodes to itself.
#[verifier::rlimit(60)]
proof fn lemma_rt_ident(i: IdentV, sp0: Seq<Span>, bytes: Seq<u8>, pos: int, spans_full: Seq<Span>)
    requires
        tree_wf(TreeV::Ident(i)),
        0 <= pos,
        pos + enc_tree(TreeV::Ident(i), sp0).0.len() <= bytes.len(),
        bytes.subrange(pos, pos + enc_tree(TreeV::Ident(i), sp0).0.len()) == enc_tree(
            TreeV::Ident(i),
            sp0,
        ).0,
        enc_tree(TreeV::Ident(i), sp0).1.is_prefix_of(spans_full),
        spans_full.len() < 0x100000000,
    ensures
        dec_tree(bytes, pos, spans_full) == Some(
            (TreeV::Ident(i), pos + enc_tree(TreeV::Ident(i), sp0).0.len()),
        ),
{
    let t = TreeV::Ident(i);
    lemma_enc_tree_extends(t, sp0);
    let enc = enc_tree(t, sp0).0;
    let end = pos + enc.len();
    let payload = encode_utf8(render_ident(i));
    assert(enc =~= seq![2u8] + (le32(sp0.len()) + (le32(payload.len()) + payload)));
    lemma_concat_parts(bytes, pos, seq![2u8], le32(sp0.len()) + (le32(payload.len()) + payload));
    lemma_concat_parts(bytes, pos + 1, le32(sp0.len()), le32(payload.len()) + payload);
    lemma_concat_parts(bytes, pos + 5, le32(payload.len()), payload);
    assert(bytes.subrange(pos, pos + 1)[0] == bytes[pos]);
    assert(bytes[pos] == 2u8);
    lemma_rd32_le32(sp0.len(), bytes, pos + 1);
    lemma_rd32_le32(payload.len(), bytes, pos + 5);
    assert(rd32(bytes, pos + 1) == sp0.len());
    assert(rd32(bytes, pos + 5) == payload.len());
    lemma_prefix_index(sp0.push(i.span), spans_full, sp0.len() as int);
    assert(spans_full[sp0.len() as int] == i.span);
    let content = bytes.subrange(pos + 9, pos + 9 + payload.len());
    assert(content == payload);
    vstd::utf8::encode_utf8_valid_utf8(render_ident(i));
    vstd::utf8::encode_utf8_decode_utf8(render_ident(i));
    assert(valid_utf8(content));
    let text = decode_utf8(content);
    assert(text == render_ident(i));
    if i.raw {
        assert(text.len() >= 2 && text[0] == 'r' && text[1] == '#');
        assert(text.skip(2) =~= i.sym);
        assert(dec_tree(bytes, pos, spans_full) == Some((t, end)));
    } else {
        assert(text == i.sym);
        if text.len() >= 2 && text[0] == 'r' && text[1] == '#' {
            assert(crate::token::is_ident_continue(i.sym[1]));
            assert(false);
        }
        assert(dec_tree(bytes, pos, spans_full) == Some((t, end)));
    }
}

/// One encoded punctuation token decodes to itself.
#[verifier::rlimit(60)]
proof fn lemma_rt_punct(p: PunctV, sp0: Seq<Span>, bytes: Seq<u8>, pos: int, spans_full: Seq<Span>)
    requires
        0 <= pos,
        pos + enc_tree(TreeV::Punct(p), sp0).0.len() <= bytes.len(),
        bytes.subrange(pos, pos + enc_tree(TreeV::Punct(p), sp0).0.len()) == enc_tree(
            TreeV::Punct(p),
            sp0,
        ).0,
        enc_tree(TreeV::Punct(p), sp0).1.is_prefix_of(spans_full),
        spans_full.len() < 0x100000000,
    ensures
        dec_tree(bytes, pos, spans_full) == Some(
            (TreeV::Punct(p), pos + enc_tree(TreeV::Punct(p), sp0).0.len()),
        ),
{
    let t = TreeV::Punct(p);
    lemma_enc_tree_extends(t, sp0);
    let enc = enc_tree(t, sp0).0;
    let end = pos + enc.len();
    assert(enc =~= seq![3u8] + (le32(p.op as nat) + (seq![spacing_byte(p.spacing)] + le32(
        sp0.len(),
    ))));
    lemma_concat_parts(
        bytes,
        pos,
        seq![3u8],
        le32(p.op as nat) + (seq![spacing_byte(p.spacing)] + le32(sp0.len())),
    );
    lemma_concat_parts(
        bytes,
        pos + 1,
        le32(p.op as nat),
        seq![spacing_byte(p.spacing)] + le32(sp0.len()),
    );
    lemma_concat_parts(bytes, pos + 5, seq![spacing_byte(p.spacing)], le32(sp0.len()));
    assert(bytes.subrange(pos, pos + 1)[0] == bytes[pos]);
    assert(bytes[pos] == 3u8);
    assert(bytes.subrange(pos + 5, pos + 6)[0] == bytes[pos + 5]);
    assert(bytes[pos + 5] == spacing_byte(p.spacing));
    vstd::utf8::char_is_scalar(p.op);
    lemma_rd32_le32(p.op as nat, bytes, pos + 1);
    assert(rd32(bytes, pos + 1) == p.op as nat);
    lemma_rd32_le32(sp0.len(), bytes, pos + 6);
    assert(rd32(bytes, pos + 6) == sp0.len());
    lemma_prefix_index(sp0.push(p.span), spans_full, sp0.len() as int);
    assert(spans_full[sp0.len() as int] == p.span);
    assert(is_unicode_scalar((p.op as nat) as u32));
    vstd::utf8::char_u32_cast(p.op, p.op as u32);
    assert(((p.op as nat) as u32) as char == p.op);
    match p.spacing {
        Spacing::Alone => {
            assert(dec_tree(bytes, pos, spans_full) == Some((t, end)));
        },
        Spacing::Joint => {
            assert(dec_tree(bytes, pos, spans_full) == Some((t, end)));
        },
    }
}

/// One encoded literal decodes to itself.
#[verifier::rlimit(60)]
proof fn lemma_rt_literal(l: LitV, sp0: Seq<Span>, bytes: Seq<u8>, pos: int, spans_full: Seq<Span>)
    requires
        tree_wf(TreeV::Literal(l)),
        0 <= pos,
        pos + enc_tree(TreeV::Literal(l), sp0).0.len() <= bytes.len(),
        bytes.subrange(pos, pos + enc_tree(TreeV::Literal(l), sp0).0.len()) == enc_tree(
            TreeV::Literal(l),
            sp0,
        ).0,
        enc_tree(TreeV::Literal(l), sp0).1.is_prefix_of(spans_full),
        spans_full.len() < 0x100000000,
    ensures
        dec_tree(bytes, pos, spans_full) == Some(
            (TreeV::Literal(l), pos + enc_tree(TreeV::Literal(l), sp0).0.len()),
        ),
{
    let t = TreeV::Literal(l);
    lemma_enc_tree_extends(t, sp0);
    let enc = enc_tree(t, sp0).0;
    let end = pos + enc.len();
    let payload = encode_utf8(l.text);
    assert(enc =~= seq![4u8] + (le32(sp0.len()) + (le32(payload.len()) + payload)));
    lemma_concat_parts(bytes, pos, seq![4u8], le32(sp0.len()) + (le32(payload.len()) + payload));
    lemma_concat_parts(bytes, pos + 1, le32(sp0.len()), le32(payload.len()) + payload);
    lemma_concat_parts(bytes, pos + 5, le32(payload.len()), payload);
    assert(bytes.subrange(pos, pos + 1)[0] == bytes[pos]);
    assert(bytes[pos] == 4u8);
    lemma_rd32_le32(sp0.len(), bytes, pos + 1);
    lemma_rd32_le32(payload.len(), bytes, pos + 5);
    assert(rd32(bytes, pos + 1) == sp0.len());
    assert(rd32(bytes, pos + 5) == payload.len());
    lemma_prefix_index(sp0.push(l.span), spans_full, sp0.len() as int);
    assert(spans_full[sp0.len() as int] == l.span);
    let content = bytes.subrange(pos + 9, pos + 9 + payload.len());
    assert(content == payload);
    vstd::utf8::encode_utf8_valid_utf8(l.text);
    vstd::utf8::encode_utf8_decode_utf8(l.text);
    assert(valid_utf8(content));
    assert(decode_utf8(content) == l.text);
    assert(dec_tree(bytes, pos, spans_full) == Some((t, end)));
}

/// One encoded tree decodes to itself, wherever it stands in a larger
/// blob, against any span slab that extends the one encoding built.
proof fn lemma_rt_tree(t: TreeV, sp0: Seq<Span>, bytes: Seq<u8>, pos: int, spans_full: Seq<Span>)
    requires
        tree_wf(t),
        0 <= pos,
        pos + enc_tree(t, sp0).0.len() <= bytes.len(),
        bytes.subrange(pos, pos + enc_tree(t, sp0).0.len()) == enc_tree(t, sp0).0,
        enc_tree(t, sp0).1.is_prefix_of(spans_full),
        spans_full.len() < 0x100000000,
    ensures
        dec_tree(bytes, pos, spans_full) == Some((t, pos + enc_tree(t, sp0).0.len())),
    decreases t, 1int, 0int,
{
    match t {
        TreeV::Group(g) => lemma_rt_group(g, sp0, bytes, pos, spans_full),
        TreeV::Ident(i) => lemma_rt_ident(i, sp0, bytes, pos, spans_full),
        TreeV::Punct(p) => lemma_rt_punct(p, sp0, bytes, pos, spans_full),
        TreeV::Literal(l) => lemma_rt_literal(l, sp0, bytes, pos, spans_full),
    }
}

/// The encoded suffix of a stream, terminator included, decodes to that
/// suffix.
#[verifier::rlimit(60)]
proof fn lemma_rt_trees(
    ts: Seq<TreeV>,
    i: int,
    sp0: Seq<Span>,
    bytes: Seq<u8>,
    pos: int,
    spans_full: Seq<Span>,
)
    requires
        0 <= i <= ts.len(),
        stream_wf_from(ts, i),
        0 <= pos,
        pos + enc_trees(ts, i, sp0).0.len() + 1 <= bytes.len(),
        bytes.subrange(pos, pos + enc_trees(ts, i, sp0).0.len() + 1 as int) == enc_trees(
            ts,
            i,
            sp0,
        ).0 + seq![0u8],
        enc_trees(ts, i, sp0).1.is_prefix_of(spans_full),
        spans_full.len() < 0x100000000,
    ensures
        dec_trees(bytes, pos, spans_full) == Some(
            (ts.skip(i), pos + enc_trees(ts, i, sp0).0.len() + 1),
        ),
    decreases ts, 2int, ts.len() - i,
{
    if i == ts.len() {
        assert(enc_trees(ts, i, sp0).0 =~= Seq::<u8>::empty());
        assert(enc_trees(ts, i, sp0).0 + seq![0u8] =~= seq![0u8]);
        assert(bytes.subrange(pos, pos + 1)[0] == bytes[pos]);
        assert(bytes[pos] == 0u8);
        assert(ts.skip(i) =~= Seq::<TreeV>::empty());
        assert(dec_trees(bytes, pos, spans_full) == Some((Seq::<TreeV>::empty(), pos + 1)));
    } else {
        let head = enc_tree(ts[i], sp0);
        let rest = enc_trees(ts, i + 1, head.1);
        lemma_enc_tree_extends(ts[i], sp0);
        lemma_enc_trees_extends(ts, i + 1, head.1);
        assert(enc_trees(ts, i, sp0).0 + seq![0u8] =~= head.0 + (rest.0 + seq![0u8]));
        lemma_concat_parts(bytes, pos, head.0, rest.0 + seq![0u8]);
        assert(head.1.is_prefix_of(rest.1));
        lemma_prefix_trans(head.1, rest.1, spans_full);
        lemma_rt_tree(ts[i], sp0, bytes, pos, spans_full);
        let mid = pos + head.0.len();
        assert(dec_tree(bytes, pos, spans_full) == Some((ts[i], mid)));
        assert(bytes.subrange(pos, pos + head.0.len() as int)[0] == bytes[pos]);
        assert(bytes[pos] == head.0[0]);
        assert(bytes[pos] != 0u8) by {
            match ts[i] {
                TreeV::Group(g) => {
                    assert(head.0[0] == 1u8);
                },
                TreeV::Ident(_) => {
                    assert(head.0[0] == 2u8);
                },
                TreeV::Punct(_) => {
                    assert(head.0[0] == 3u8);
                },
                TreeV::Literal(_) => {
                    assert(head.0[0] == 4u8);
                },
            }
        };
        lemma_rt_trees(ts, i + 1, head.1, bytes, mid, spans_full);
        assert(ts.skip(i) =~= seq![ts[i]] + ts.skip(i + 1));
        assert(dec_trees(bytes, pos, spans_full) == Some(
            (ts.skip(i), pos + enc_trees(ts, i, sp0).0.len() + 1),
        ));
    }
}

/// The round trip: a well-formed stream, encoded against any span slab,
/// decodes back to itself against the slab the encoding left behind,
/// so long as that slab's indices still fit the 4-byte wire handles.
pub proof fn lemma_codec_round_trip(ts: Seq<TreeV>, spans: Seq<Span>)
    requires
        stream_wf(ts),
        enc_stream(ts, spans).1.len() < 0x100000000,
    ensures
        spec_decode(enc_stream(ts, spans).0, enc_stream(ts, spans).1) == Some(ts),
{
    let blob = enc_stream(ts, spans).0;
    let body = enc_trees(ts, 0, spans);
    assert(blob.subrange(0, body.0.len() + 1 as int) =~= body.0 + seq![0u8]);
    lemma_rt_trees(ts, 0, spans, blob, 0, body.1);
    assert(ts.skip(0) =~= ts);
}

// ---------------------------------------------------------------------------
// What the factories build meets the round-trip condition.
// ---------------------------------------------------------------------------

/// An ASCII literal text that re-lexes and fits the 4-byte length prefix is
/// codec-preservable.
pub proof fn lemma_literal_tree_wf(l: LitV)
    requires
        literal_text_ok(l.text),
        vstd::utf8::is_ascii_chars(l.text),
        l.text.len() < 0x100000000,
    ensures
        tree_wf(TreeV::Literal(l)),
{
    vstd::utf8::is_ascii_chars_encode_utf8(l.text);
}

/// A well-formed identifier of wire-representable length is
/// codec-preservable.
pub proof fn lemma_ident_tree_wf(i: IdentV)
    requires
        ident_text_valid(i.sym),
        i.sym.len() + 2 < 0x100000000,
    ensures
        tree_wf(TreeV::Ident(i)),
{
    let r = render_ident(i);
    assert(vstd::utf8::is_ascii_chars(r)) by {
        assert forall|k: int| 0 <= k < r.len() implies '\0' <= #[trigger] r[k] <= '\u{7f}' by {
            if i.raw {
                if k >= 2 {
                    assert(r[k] == i.sym[k - 2]);
                    if k == 2 {
                        assert(crate::token::is_ident_start(i.sym[0]));
                    } else {
                        assert(crate::token::is_ident_continue(i.sym[k - 2]));
                    }
                }
            } else {
                assert(r[k] == i.sym[k]);
                if k == 0 {
                    assert(crate::token::is_ident_start(i.sym[0]));
                } else {
                    assert(crate::token::is_ident_continue(i.sym[k]));
                }
            }
        };
    };
    vstd::utf8::is_ascii_chars_encode_utf8(r);
}

/// Punctuation is always codec-preservable.
pub proof fn lemma_punct_tree_wf(p: PunctV)
    ensures
        tree_wf(TreeV::Punct(p)),
{
}

/// An unsigned decimal literal with an identifier-shaped suffix, as the
/// integer factories build, is codec-preservable.
pub proof fn lemma_unsigned_literal_tree_wf(n: nat, suffix: Seq<char>, span: Span)
    requires
        n < 0x100000000000000000000000000000000,
        forall|k: int|
            0 <= k < suffix.len() ==> crate::token::is_ident_continue(#[trigger] suffix[k]),
        suffix.len() <= 8,
    ensures
        tree_wf(TreeV::Literal(LitV { text: crate::numfmt::dec_digits(n) + suffix, span })),
{
    let text = crate::numfmt::dec_digits(n) + suffix;
    crate::lex::lemma_unsigned_literal_text_ok(n, suffix);
    crate::numfmt::lemma_dec_digits_ascii(n);
    crate::numfmt::lemma_dec_digits_len_u128(n);
    assert(vstd::utf8::is_ascii_chars(text)) by {
        assert forall|k: int| 0 <= k < text.len() implies '\0' <= #[trigger] text[k]
            <= '\u{7f}' by {
            if k < crate::numfmt::dec_digits(n).len() {
                assert(text[k] == crate::numfmt::dec_digits(n)[k]);
            } else {
                assert(text[k] == suffix[k - crate::numfmt::dec_digits(n).len()]);
                assert(crate::token::is_ident_continue(text[k]));
            }
        };
    };
    lemma_literal_tree_wf(LitV { text, span });
}

/// A signed decimal literal with an identifier-shaped suffix is
/// codec-preservable.
pub proof fn lemma_signed_literal_tree_wf(n: int, suffix: Seq<char>, span: Span)
    requires
        -0x100000000000000000000000000000000 < n < 0x100000000000000000000000000000000,
        forall|k: int|
            0 <= k < suffix.len() ==> crate::token::is_ident_continue(#[trigger] suffix[k]),
        suffix.len() <= 8,
    ensures
        tree_wf(TreeV::Literal(LitV { text: crate::numfmt::dec_int(n) + suffix, span })),
{
    let text = crate::numfmt::dec_int(n) + suffix;
    crate::lex::lemma_signed_literal_text_ok(n, suffix);
    crate::numfmt::lemma_dec_int_ascii(n);
    if n >= 0 {
        crate::numfmt::lemma_dec_digits_len_u128(n as nat);
    } else {
        crate::numfmt::lemma_dec_digits_len_u128((-n) as nat);
    }
    assert(vstd::utf8::is_ascii_chars(text)) by {
        assert forall|k: int| 0 <= k < text.len() implies '\0' <= #[trigger] text[k]
            <= '\u{7f}' by {
            if k < crate::numfmt::dec_int(n).len() {
                assert(text[k] == crate::numfmt::dec_int(n)[k]);
            } else {
                assert(text[k] == suffix[k - crate::numfmt::dec_int(n).len()]);
                assert(crate::token::is_ident_continue(text[k]));
            }
        };
    };
    lemma_literal_tree_wf(LitV { text, span });
}

/// A string literal built with the defined escaping is codec-preservable
/// whenever its rendered text fits the 4-byte length prefix.
pub proof fn lemma_string_literal_tree_wf(s: Seq<char>, span: Span)
    requires
        crate::escape::string_lit_text(s).len() < 0x100000000,
    ensures
        tree_wf(TreeV::Literal(LitV { text: crate::escape::string_lit_text(s), span })),
{
    crate::lex::lemma_string_literal_text_ok(s);
    crate::escape::lemma_string_lit_text_ascii(s);
    lemma_literal_tree_wf(LitV { text: crate::escape::string_lit_text(s), span });
}

/// A character literal built with the defined escaping is
/// codec-preservable.
pub proof fn lemma_char_literal_tree_wf(c: char, span: Span)
    ensures
        tree_wf(TreeV::Literal(LitV { text: crate::escape::char_lit_text(c), span })),
{
    crate::lex::lemma_char_literal_text_ok(c);
    crate::escape::lemma_char_lit_text_ascii(c);
    crate::escape::lemma_escape_char_len(c);
    assert(crate::escape::char_lit_text(c).len() < 0x100000000);
    lemma_literal_tree_wf(LitV { text: crate::escape::char_lit_text(c), span });
}

/// A byte-string literal built with the defined escaping is
/// codec-preservable whenever its rendered text fits the 4-byte length
/// prefix.
pub proof fn lemma_byte_string_literal_tree_wf(bs: Seq<u8>, span: Span)
    requires
        crate::escape::byte_string_lit_text(bs).len() < 0x100000000,
    ensures
        tree_wf(TreeV::Literal(LitV { text: crate::escape::byte_string_lit_text(bs), span })),
{
    crate::lex::lemma_byte_string_literal_text_ok(bs);
    crate::escape::lemma_byte_string_lit_text_ascii(bs);
    lemma_literal_tree_wf(LitV { text: crate::escape::byte_string_lit_text(bs), span });
}

} // verus!
