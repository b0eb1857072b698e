//! Host side of a handle-based bridge for procedural macro execution.
//!
//! A guest module transforms token trees but never holds them: every tree
//! value lives in a per-invocation [`arena::Arena`], and the guest refers to
//! values only through integer handles. The crate provides the token-tree
//! data model ([`token`]), its textual rendering ([`render`]), the literal
//! factories and their escaping ([`literal`], [`escape`], [`numfmt`]), the
//! lexical grammar of stream text ([`lex`]), the dispatch operations the
//! guest may invoke by name ([`dispatch`]), a binary wire codec for bulk
//! transfers with a proved round trip ([`codec`]), and the pure steps of
//! the execution driver ([`driver`]).

pub mod arena;
pub mod codec;
pub mod dispatch;
pub mod driver;
pub mod error;
pub mod escape;
pub mod lex;
pub mod literal;
pub mod numfmt;
pub mod render;
pub mod strext;
pub mod token;

use vstd::prelude::*;

verus! {

/// Reserved handle value meaning "absent": parse failure, iterator
/// exhaustion. Never a real arena index.
pub const SENTINEL: u32 = 0xffff_ffff;

} // verus!
