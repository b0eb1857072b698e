//! The single error type of the bridge.
//!
//! Invalid handles, protocol-breaking scalars and malformed wire data are
//! defects of the guest/host exchange and abort the invocation; a guest
//! panic carries its message; unresolved names are reported with the name.

use vstd::prelude::*;

verus! {

/// The typed slabs of the arena, named in handle errors.
#[derive(Clone, Copy, PartialEq, Eq, Structural, Debug)]
pub enum Slab {
    TokenStreams,
    TokenTrees,
    Groups,
    Idents,
    Puncts,
    Literals,
    Spans,
    Strings,
    ByteBufs,
    Cursors,
}

#[derive(Debug)]
pub enum HostError {
    /// A handle that is not an index of the addressed slab in the current
    /// scope.
    InvalidHandle { slab: Slab, handle: u32 },
    /// The slab has reached the sentinel index; no further handle exists.
    SlabFull { slab: Slab },
    /// A scalar outside its protocol range: a delimiter or spacing code, an
    /// ordering, or a code point that is no Unicode scalar value.
    InvalidScalar { value: u32 },
    /// An identifier text the data model refuses: empty, all digits, or not
    /// an identifier shape.
    InvalidIdent,
    /// The guest reported a fatal failure carrying this message.
    GuestPanic { message: String },
    /// The wire blob ended before the structure it promised.
    Truncated,
    /// Bytes left over after the decoded stream's terminator.
    TrailingBytes,
    /// A wire string that is not valid UTF-8.
    MalformedUtf8,
    /// A wire literal text that does not re-lex as one literal token.
    MalformedLiteral,
    /// An import under the wrong namespace or with no dispatch entry.
    UnresolvedImport { name: String },
    /// No export of the module carries the entry point's name.
    UnresolvedMacro { name: String },
    /// The export returned something besides a single handle.
    BadReturn,
}

} // verus!
