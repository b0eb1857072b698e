//! The per-invocation handle arena.
//!
//! Every tree value the guest can reach lives in exactly one typed slab; a
//! handle is the value's index in that slab, tagged with the scope that
//! issued it. Pushing always appends; values are never removed one by one;
//! ending the scope clears every slab and retires every handle at once. A
//! handle from an ended scope never reads another scope's data: lookups
//! check the scope tag and fail with `InvalidHandle`.

use vstd::prelude::*;
use crate::error::{HostError, Slab};
use crate::token::{Group, GroupV, Ident, IdentV, IntoIter, LitV, Literal, Punct, PunctV, Span, TokenStream, TokenTree, TreeV};
use crate::SENTINEL;

verus! {

/// A typed slot address: the index in one slab, valid only while `scope` is
/// the arena's current scope.
#[derive(Clone, Copy, PartialEq, Eq, Structural, Debug)]
pub struct Handle {
    pub index: u32,
    pub scope: u64,
}

/// Whether a handle addresses a live slot of a slab of length `len` under
/// the current `scope`.
pub open spec fn handle_ok(scope: u64, len: nat, h: Handle) -> bool {
    h.scope == scope && (h.index as nat) < len
}

/// The elementwise view of a sequence of viewable values.
pub open spec fn seq_views<T: View>(v: Seq<T>) -> Seq<T::V> {
    Seq::new(v.len(), |i: int| v[i]@)
}

pub proof fn lemma_seq_views_push<T: View>(v: Seq<T>, x: T)
    ensures
        seq_views(v.push(x)) == seq_views(v).push(x@),
{
    assert(seq_views(v.push(x)) =~= seq_views(v).push(x@));
}

pub proof fn lemma_seq_views_update<T: View>(v: Seq<T>, i: int, x: T)
    requires
        0 <= i < v.len(),
    ensures
        seq_views(v.update(i, x)) == seq_views(v).update(i, x@),
{
    assert(seq_views(v.update(i, x)) =~= seq_views(v).update(i, x@));
}

/// Appends `value`; the new handle is the previous length. Fails only when
/// the slab has reached the sentinel index.
pub fn slab_push<T>(v: &mut Vec<T>, scope: u64, value: T, slab: Slab) -> (r: Result<
    Handle,
    HostError,
>)
    ensures
        r is Ok <==> old(v)@.len() < SENTINEL as nat,
        (r matches Ok(h) ==> final(v)@ == old(v)@.push(value) && h == (Handle {
            index: old(v)@.len() as u32,
            scope,
        })),
        r is Err ==> final(v)@ == old(v)@ && r == Err::<Handle, HostError>(
            HostError::SlabFull { slab },
        ),
{
    if v.len() < (SENTINEL as usize) {
        let index = v.len() as u32;
        v.push(value);
        Ok(Handle { index, scope })
    } else {
        Err(HostError::SlabFull { slab })
    }
}

/// Reads the slot a handle addresses; a handle from another scope or past
/// the end fails with `InvalidHandle`.
pub fn slab_get<'a, T>(v: &'a Vec<T>, scope: u64, h: Handle, slab: Slab) -> (r: Result<
    &'a T,
    HostError,
>)
    ensures
        r is Ok <==> handle_ok(scope, v@.len(), h),
        (r matches Ok(t) ==> *t == v@[h.index as int]),
        r is Err ==> r == Err::<&'a T, HostError>(
            HostError::InvalidHandle { slab, handle: h.index },
        ),
{
    if h.scope == scope && (h.index as usize) < v.len() {
        Ok(&v[h.index as usize])
    } else {
        Err(HostError::InvalidHandle { slab, handle: h.index })
    }
}

/// The arena: one typed slab per tree type, plus the scratch string and byte
/// buffers, all owned here and nowhere else during a scope.
pub struct Arena {
    pub scope: u64,
    pub streams: Vec<TokenStream>,
    pub trees: Vec<TokenTree>,
    pub groups: Vec<Group>,
    pub idents: Vec<Ident>,
    pub puncts: Vec<Punct>,
    pub literals: Vec<Literal>,
    pub spans: Vec<Span>,
    pub strings: Vec<String>,
    pub byte_bufs: Vec<Vec<u8>>,
    pub cursors: Vec<IntoIter>,
}

#[verifier::ext_equal]
pub struct ArenaV {
    pub scope: u64,
    pub streams: Seq<Seq<TreeV>>,
    pub trees: Seq<TreeV>,
    pub groups: Seq<GroupV>,
    pub idents: Seq<IdentV>,
    pub puncts: Seq<PunctV>,
    pub literals: Seq<LitV>,
    pub spans: Seq<Span>,
    pub strings: Seq<Seq<char>>,
    pub byte_bufs: Seq<Seq<u8>>,
    pub cursors: Seq<Seq<TreeV>>,
}

impl View for Arena {
    type V = ArenaV;

    open spec fn view(&self) -> ArenaV {
        ArenaV {
            scope: self.scope,
            streams: seq_views(self.streams@),
            trees: seq_views(self.trees@),
            groups: seq_views(self.groups@),
            idents: seq_views(self.idents@),
            puncts: seq_views(self.puncts@),
            literals: seq_views(self.literals@),
            spans: self.spans@,
            strings: seq_views(self.strings@),
            byte_bufs: seq_views(self.byte_bufs@),
            cursors: seq_views(self.cursors@),
        }
    }
}

/// An arena whose every slab is empty.
pub open spec fn arena_empty(a: ArenaV) -> bool {
    &&& a.streams.len() == 0
    &&& a.trees.len() == 0
    &&& a.groups.len() == 0
    &&& a.idents.len() == 0
    &&& a.puncts.len() == 0
    &&& a.literals.len() == 0
    &&& a.spans.len() == 0
    &&& a.strings.len() == 0
    &&& a.byte_bufs.len() == 0
    &&& a.cursors.len() == 0
}

impl Arena {
    /// A fresh arena opening its first scope.
    pub fn new() -> (a: Arena)
        ensures
            arena_empty(a@),
            a@.scope == 0,
    {
        let a = Arena {
            scope: 0,
            streams: Vec::new(),
            trees: Vec::new(),
            groups: Vec::new(),
            idents: Vec::new(),
            puncts: Vec::new(),
            literals: Vec::new(),
            spans: Vec::new(),
            strings: Vec::new(),
            byte_bufs: Vec::new(),
            cursors: Vec::new(),
        };
        proof {
            assert(seq_views(a.streams@) =~= Seq::<Seq<TreeV>>::empty());
        }
        a
    }

    /// Ends the current scope: every slab is cleared in one stroke, and the
    /// scope counter moves on, so every handle issued so far is retired.
    pub fn end_scope(&mut self)
        requires
            old(self).scope < u64::MAX,
        ensures
            arena_empty(final(self)@),
            final(self)@.scope == old(self)@.scope + 1,
    {
        self.scope = self.scope + 1;
        self.streams.clear();
        self.trees.clear();
        self.groups.clear();
        self.idents.clear();
        self.puncts.clear();
        self.literals.clear();
        self.spans.clear();
        self.strings.clear();
        self.byte_bufs.clear();
        self.cursors.clear();
    }
}

/// Scope isolation: a handle issued under an earlier scope is dead in every
/// later scope, for any slab length the later scope may have reached; a
/// lookup with it fails rather than aliasing other data.
pub proof fn lemma_scope_isolation(old_scope: u64, old_len: nat, h: Handle, new_scope: u64, new_len: nat)
    requires
        handle_ok(old_scope, old_len, h),
        new_scope != old_scope,
    ensures
        !handle_ok(new_scope, new_len, h),
{
}

} // verus!
