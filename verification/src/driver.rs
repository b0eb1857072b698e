//! The pure steps of the execution driver.
//!
//! A loaded module declares imports; each must name one dispatch operation
//! under the fixed namespace, or the invocation is aborted before it
//! starts. The driver then pushes the caller's input trees into the arena,
//! calls the module's export under the entry point's name with those
//! handles, and reads the single returned handle back out of the stream
//! slab. The execution engine that actually runs the module's instructions
//! stands outside this crate; everything it needs decided is decided here.

use vstd::prelude::*;
use crate::arena::{Arena, ArenaV, Handle, lemma_seq_views_push, seq_views, slab_get, slab_push};
use crate::error::{HostError, Slab};
use crate::token::{TokenStream, TreeV};
use crate::strext::str_eq;
use crate::SENTINEL;

verus! {

/// The import namespace every guest module must use.
pub open spec fn abi_namespace() -> Seq<char> {
    "env"@
}

/// One guest-callable operation, named by its import string.
#[derive(Clone, Copy, PartialEq, Eq, Structural, Debug)]
pub enum Op {
    TokenStreamNew,
    TokenStreamIsEmpty,
    TokenStreamFromStr,
    TokenStreamIntoIter,
    TokenStreamIterNext,
    TokenStreamFromGroup,
    TokenStreamFromIdent,
    TokenStreamFromPunct,
    TokenStreamFromLiteral,
    TokenStreamPushGroup,
    TokenStreamPushIdent,
    TokenStreamPushPunct,
    TokenStreamPushLiteral,
    TokenStreamExtend,
    TokenTreeKind,
    TokenTreeUnwrapGroup,
    TokenTreeUnwrapIdent,
    TokenTreeUnwrapPunct,
    TokenTreeUnwrapLiteral,
    SpanCallSite,
    GroupNew,
    GroupDelimiter,
    GroupStream,
    GroupSpan,
    GroupSetSpan,
    PunctNew,
    PunctAsChar,
    PunctSpacing,
    PunctSpan,
    PunctSetSpan,
    IdentNew,
    IdentSpan,
    IdentSetSpan,
    IdentEq,
    IdentEqStr,
    IdentCmp,
    LiteralU8Suffixed,
    LiteralU16Suffixed,
    LiteralU32Suffixed,
    LiteralU64Suffixed,
    LiteralU128Suffixed,
    LiteralUsizeSuffixed,
    LiteralI8Suffixed,
    LiteralI16Suffixed,
    LiteralI32Suffixed,
    LiteralI64Suffixed,
    LiteralI128Suffixed,
    LiteralIsizeSuffixed,
    LiteralU8Unsuffixed,
    LiteralU16Unsuffixed,
    LiteralU32Unsuffixed,
    LiteralU64Unsuffixed,
    LiteralU128Unsuffixed,
    LiteralUsizeUnsuffixed,
    LiteralI8Unsuffixed,
    LiteralI16Unsuffixed,
    LiteralI32Unsuffixed,
    LiteralI64Unsuffixed,
    LiteralI128Unsuffixed,
    LiteralIsizeUnsuffixed,
    LiteralF64Unsuffixed,
    LiteralF64Suffixed,
    LiteralF32Unsuffixed,
    LiteralF32Suffixed,
    LiteralString,
    LiteralCharacter,
    LiteralByteString,
    LiteralSpan,
    LiteralSetSpan,
    TokenStreamClone,
    GroupClone,
    IdentClone,
    PunctClone,
    LiteralClone,
    TokenStreamIterClone,
    TokenStreamToString,
    GroupToString,
    IdentToString,
    PunctToString,
    LiteralToString,
    TokenStreamDebug,
    GroupDebug,
    IdentDebug,
    PunctDebug,
    LiteralDebug,
    SpanDebug,
    WattStringWithCapacity,
    WattStringPushChar,
    WattStringLen,
    WattStringCharAt,
    WattBytesWithCapacity,
    WattBytesPush,
    WattPrintPanic,
}

/// The operation an import name denotes, if any; the namespace must be the
/// fixed ABI namespace.
pub open spec fn spec_resolve(module: Seq<char>, name: Seq<char>) -> Option<Op> {
    if module != abi_namespace() {
        Option::None
    } else if name == "token_stream_new"@ {
        Some(Op::TokenStreamNew)
    } else if name == "token_stream_is_empty"@ {
        Some(Op::TokenStreamIsEmpty)
    } else if name == "token_stream_from_str"@ {
        Some(Op::TokenStreamFromStr)
    } else if name == "token_stream_into_iter"@ {
        Some(Op::TokenStreamIntoIter)
    } else if name == "token_stream_iter_next"@ {
        Some(Op::TokenStreamIterNext)
    } else if name == "token_stream_from_group"@ {
        Some(Op::TokenStreamFromGroup)
    } else if name == "token_stream_from_ident"@ {
        Some(Op::TokenStreamFromIdent)
    } else if name == "token_stream_from_punct"@ {
        Some(Op::TokenStreamFromPunct)
    } else if name == "token_stream_from_literal"@ {
        Some(Op::TokenStreamFromLiteral)
    } else if name == "token_stream_push_group"@ {
        Some(Op::TokenStreamPushGroup)
    } else if name == "token_stream_push_ident"@ {
        Some(Op::TokenStreamPushIdent)
    } else if name == "token_stream_push_punct"@ {
        Some(Op::TokenStreamPushPunct)
    } else if name == "token_stream_push_literal"@ {
        Some(Op::TokenStreamPushLiteral)
    } else if name == "token_stream_extend"@ {
        Some(Op::TokenStreamExtend)
    } else if name == "token_tree_kind"@ {
        Some(Op::TokenTreeKind)
    } else if name == "token_tree_unwrap_group"@ {
        Some(Op::TokenTreeUnwrapGroup)
    } else if name == "token_tree_unwrap_ident"@ {
        Some(Op::TokenTreeUnwrapIdent)
    } else if name == "token_tree_unwrap_punct"@ {
        Some(Op::TokenTreeUnwrapPunct)
    } else if name == "token_tree_unwrap_literal"@ {
        Some(Op::TokenTreeUnwrapLiteral)
    } else if name == "span_call_site"@ {
        Some(Op::SpanCallSite)
    } else if name == "group_new"@ {
        Some(Op::GroupNew)
    } else if name == "group_delimiter"@ {
        Some(Op::GroupDelimiter)
    } else if name == "group_stream"@ {
        Some(Op::GroupStream)
    } else if name == "group_span"@ {
        Some(Op::GroupSpan)
    } else if name == "group_set_span"@ {
        Some(Op::GroupSetSpan)
    } else if name == "punct_new"@ {
        Some(Op::PunctNew)
    } else if name == "punct_as_char"@ {
        Some(Op::PunctAsChar)
    } else if name == "punct_spacing"@ {
        Some(Op::PunctSpacing)
    } else if name == "punct_span"@ {
        Some(Op::PunctSpan)
    } else if name == "punct_set_span"@ {
        Some(Op::PunctSetSpan)
    } else if name == "ident_new"@ {
        Some(Op::IdentNew)
    } else if name == "ident_span"@ {
        Some(Op::IdentSpan)
    } else if name == "ident_set_span"@ {
        Some(Op::IdentSetSpan)
    } else if name == "ident_eq"@ {
        Some(Op::IdentEq)
    } else if name == "ident_eq_str"@ {
        Some(Op::IdentEqStr)
    } else if name == "ident_cmp"@ {
        Some(Op::IdentCmp)
    } else if name == "literal_u8_suffixed"@ {
        Some(Op::LiteralU8Suffixed)
    } else if name == "literal_u16_suffixed"@ {
        Some(Op::LiteralU16Suffixed)
    } else if name == "literal_u32_suffixed"@ {
        Some(Op::LiteralU32Suffixed)
    } else if name == "literal_u64_suffixed"@ {
        Some(Op::LiteralU64Suffixed)
    } else if name == "literal_u128_suffixed"@ {
        Some(Op::LiteralU128Suffixed)
    } else if name == "literal_usize_suffixed"@ {
        Some(Op::LiteralUsizeSuffixed)
    } else if name == "literal_i8_suffixed"@ {
        Some(Op::LiteralI8Suffixed)
    } else if name == "literal_i16_suffixed"@ {
        Some(Op::LiteralI16Suffixed)
    } else if name == "literal_i32_suffixed"@ {
        Some(Op::LiteralI32Suffixed)
    } else if name == "literal_i64_suffixed"@ {
        Some(Op::LiteralI64Suffixed)
    } else if name == "literal_i128_suffixed"@ {
        Some(Op::LiteralI128Suffixed)
    } else if name == "literal_isize_suffixed"@ {
        Some(Op::LiteralIsizeSuffixed)
    } else if name == "literal_u8_unsuffixed"@ {
        Some(Op::LiteralU8Unsuffixed)
    } else if name == "literal_u16_unsuffixed"@ {
        Some(Op::LiteralU16Unsuffixed)
    } else if name == "literal_u32_unsuffixed"@ {
        Some(Op::LiteralU32Unsuffixed)
    } else if name == "literal_u64_unsuffixed"@ {
        Some(Op::LiteralU64Unsuffixed)
    } else if name == "literal_u128_unsuffixed"@ {
        Some(Op::LiteralU128Unsuffixed)
    } else if name == "literal_usize_unsuffixed"@ {
        Some(Op::LiteralUsizeUnsuffixed)
    } else if name == "literal_i8_unsuffixed"@ {
        Some(Op::LiteralI8Unsuffixed)
    } else if name == "literal_i16_unsuffixed"@ {
        Some(Op::LiteralI16Unsuffixed)
    } else if name == "literal_i32_unsuffixed"@ {
        Some(Op::LiteralI32Unsuffixed)
    } else if name == "literal_i64_unsuffixed"@ {
        Some(Op::LiteralI64Unsuffixed)
    } else if name == "literal_i128_unsuffixed"@ {
        Some(Op::LiteralI128Unsuffixed)
    } else if name == "literal_isize_unsuffixed"@ {
        Some(Op::LiteralIsizeUnsuffixed)
    } else if name == "literal_f64_unsuffixed"@ {
        Some(Op::LiteralF64Unsuffixed)
    } else if name == "literal_f64_suffixed"@ {
        Some(Op::LiteralF64Suffixed)
    } else if name == "literal_f32_unsuffixed"@ {
        Some(Op::LiteralF32Unsuffixed)
    } else if name == "literal_f32_suffixed"@ {
        Some(Op::LiteralF32Suffixed)
    } else if name == "literal_string"@ {
        Some(Op::LiteralString)
    } else if name == "literal_character"@ {
        Some(Op::LiteralCharacter)
    } else if name == "literal_byte_string"@ {
        Some(Op::LiteralByteString)
    } else if name == "literal_span"@ {
        Some(Op::LiteralSpan)
    } else if name == "literal_set_span"@ {
        Some(Op::LiteralSetSpan)
    } else if name == "token_stream_clone"@ {
        Some(Op::TokenStreamClone)
    } else if name == "group_clone"@ {
        Some(Op::GroupClone)
    } else if name == "ident_clone"@ {
        Some(Op::IdentClone)
    } else if name == "punct_clone"@ {
        Some(Op::PunctClone)
    } else if name == "literal_clone"@ {
        Some(Op::LiteralClone)
    } else if name == "token_stream_iter_clone"@ {
        Some(Op::TokenStreamIterClone)
    } else if name == "token_stream_to_string"@ {
        Some(Op::TokenStreamToString)
    } else if name == "group_to_string"@ {
        Some(Op::GroupToString)
    } else if name == "ident_to_string"@ {
        Some(Op::IdentToString)
    } else if name == "punct_to_string"@ {
        Some(Op::PunctToString)
    } else if name == "literal_to_string"@ {
        Some(Op::LiteralToString)
    } else if name == "token_stream_debug"@ {
        Some(Op::TokenStreamDebug)
    } else if name == "group_debug"@ {
        Some(Op::GroupDebug)
    } else if name == "ident_debug"@ {
        Some(Op::IdentDebug)
    } else if name == "punct_debug"@ {
        Some(Op::PunctDebug)
    } else if name == "literal_debug"@ {
        Some(Op::LiteralDebug)
    } else if name == "span_debug"@ {
        Some(Op::SpanDebug)
    } else if name == "watt_string_with_capacity"@ {
        Some(Op::WattStringWithCapacity)
    } else if name == "watt_string_push_char"@ {
        Some(Op::WattStringPushChar)
    } else if name == "watt_string_len"@ {
        Some(Op::WattStringLen)
    } else if name == "watt_string_char_at"@ {
        Some(Op::WattStringCharAt)
    } else if name == "watt_bytes_with_capacity"@ {
        Some(Op::WattBytesWithCapacity)
    } else if name == "watt_bytes_push"@ {
        Some(Op::WattBytesPush)
    } else if name == "watt_print_panic"@ {
        Some(Op::WattPrintPanic)
    } else {
        Option::None
    }
}

/// Resolves one declared import against the dispatch table by exact
/// namespace and name; anything else is fatal to the invocation.
pub fn resolve(module: &str, name: &str) -> (r: Result<Op, HostError>)
    ensures
        r is Ok <==> spec_resolve(module@, name@) is Some,
        (r matches Ok(op) ==> spec_resolve(module@, name@) == Some(op)),
        (r matches Err(e) ==> (e matches HostError::UnresolvedImport { name: nm } && nm@
            == name@)),
{
    if !str_eq(module, "env") {
        return Err(HostError::UnresolvedImport { name: String::from_str(name) });
    }
    if str_eq(name, "token_stream_new") {
        Ok(Op::TokenStreamNew)
    } else if str_eq(name, "token_stream_is_empty") {
        Ok(Op::TokenStreamIsEmpty)
    } else if str_eq(name, "token_stream_from_str") {
        Ok(Op::TokenStreamFromStr)
    } else if str_eq(name, "token_stream_into_iter") {
        Ok(Op::TokenStreamIntoIter)
    } else if str_eq(name, "token_stream_iter_next") {
        Ok(Op::TokenStreamIterNext)
    } else if str_eq(name, "token_stream_from_group") {
        Ok(Op::TokenStreamFromGroup)
    } else if str_eq(name, "token_stream_from_ident") {
        Ok(Op::TokenStreamFromIdent)
    } else if str_eq(name, "token_stream_from_punct") {
        Ok(Op::TokenStreamFromPunct)
    } else if str_eq(name, "token_stream_from_literal") {
        Ok(Op::TokenStreamFromLiteral)
    } else if str_eq(name, "token_stream_push_group") {
        Ok(Op::TokenStreamPushGroup)
    } else if str_eq(name, "token_stream_push_ident") {
        Ok(Op::TokenStreamPushIdent)
    } else if str_eq(name, "token_stream_push_punct") {
        Ok(Op::TokenStreamPushPunct)
    } else if str_eq(name, "token_stream_push_literal") {
        Ok(Op::TokenStreamPushLiteral)
    } else if str_eq(name, "token_stream_extend") {
        Ok(Op::TokenStreamExtend)
    } else if str_eq(name, "token_tree_kind") {
        Ok(Op::TokenTreeKind)
    } else if str_eq(name, "token_tree_unwrap_group") {
        Ok(Op::TokenTreeUnwrapGroup)
    } else if str_eq(name, "token_tree_unwrap_ident") {
        Ok(Op::TokenTreeUnwrapIdent)
    } else if str_eq(name, "token_tree_unwrap_punct") {
        Ok(Op::TokenTreeUnwrapPunct)
    } else if str_eq(name, "token_tree_unwrap_literal") {
        Ok(Op::TokenTreeUnwrapLiteral)
    } else if str_eq(name, "span_call_site") {
        Ok(Op::SpanCallSite)
    } else if str_eq(name, "group_new") {
        Ok(Op::GroupNew)
    } else if str_eq(name, "group_delimiter") {
        Ok(Op::GroupDelimiter)
    } else if str_eq(name, "group_stream") {
        Ok(Op::GroupStream)
    } else if str_eq(name, "group_span") {
        Ok(Op::GroupSpan)
    } else if str_eq(name, "group_set_span") {
        Ok(Op::GroupSetSpan)
    } else if str_eq(name, "punct_new") {
        Ok(Op::PunctNew)
    } else if str_eq(name, "punct_as_char") {
        Ok(Op::PunctAsChar)
    } else if str_eq(name, "punct_spacing") {
        Ok(Op::PunctSpacing)
    } else if str_eq(name, "punct_span") {
        Ok(Op::PunctSpan)
    } else if str_eq(name, "punct_set_span") {
        Ok(Op::PunctSetSpan)
    } else if str_eq(name, "ident_new") {
        Ok(Op::IdentNew)
    } else if str_eq(name, "ident_span") {
        Ok(Op::IdentSpan)
    } else if str_eq(name, "ident_set_span") {
        Ok(Op::IdentSetSpan)
    } else if str_eq(name, "ident_eq") {
        Ok(Op::IdentEq)
    } else if str_eq(name, "ident_eq_str") {
        Ok(Op::IdentEqStr)
    } else if str_eq(name, "ident_cmp") {
        Ok(Op::IdentCmp)
    } else if str_eq(name, "literal_u8_suffixed") {
        Ok(Op::LiteralU8Suffixed)
    } else if str_eq(name, "literal_u16_suffixed") {
        Ok(Op::LiteralU16Suffixed)
    } else if str_eq(name, "literal_u32_suffixed") {
        Ok(Op::LiteralU32Suffixed)
    } else if str_eq(name, "literal_u64_suffixed") {
        Ok(Op::LiteralU64Suffixed)
    } else if str_eq(name, "literal_u128_suffixed") {
        Ok(Op::LiteralU128Suffixed)
    } else if str_eq(name, "literal_usize_suffixed") {
        Ok(Op::LiteralUsizeSuffixed)
    } else if str_eq(name, "literal_i8_suffixed") {
        Ok(Op::LiteralI8Suffixed)
    } else if str_eq(name, "literal_i16_suffixed") {
        Ok(Op::LiteralI16Suffixed)
    } else if str_eq(name, "literal_i32_suffixed") {
        Ok(Op::LiteralI32Suffixed)
    } else if str_eq(name, "literal_i64_suffixed") {
        Ok(Op::LiteralI64Suffixed)
    } else if str_eq(name, "literal_i128_suffixed") {
        Ok(Op::LiteralI128Suffixed)
    } else if str_eq(name, "literal_isize_suffixed") {
        Ok(Op::LiteralIsizeSuffixed)
    } else if str_eq(name, "literal_u8_unsuffixed") {
        Ok(Op::LiteralU8Unsuffixed)
    } else if str_eq(name, "literal_u16_unsuffixed") {
        Ok(Op::LiteralU16Unsuffixed)
    } else if str_eq(name, "literal_u32_unsuffixed") {
        Ok(Op::LiteralU32Unsuffixed)
    } else if str_eq(name, "literal_u64_unsuffixed") {
        Ok(Op::LiteralU64Unsuffixed)
    } else if str_eq(name, "literal_u128_unsuffixed") {
        Ok(Op::LiteralU128Unsuffixed)
    } else if str_eq(name, "literal_usize_unsuffixed") {
        Ok(Op::LiteralUsizeUnsuffixed)
    } else if str_eq(name, "literal_i8_unsuffixed") {
        Ok(Op::LiteralI8Unsuffixed)
    } else if str_eq(name, "literal_i16_unsuffixed") {
        Ok(Op::LiteralI16Unsuffixed)
    } else if str_eq(name, "literal_i32_unsuffixed") {
        Ok(Op::LiteralI32Unsuffixed)
    } else if str_eq(name, "literal_i64_unsuffixed") {
        Ok(Op::LiteralI64Unsuffixed)
    } else if str_eq(name, "literal_i128_unsuffixed") {
        Ok(Op::LiteralI128Unsuffixed)
    } else if str_eq(name, "literal_isize_unsuffixed") {
        Ok(Op::LiteralIsizeUnsuffixed)
    } else if str_eq(name, "literal_f64_unsuffixed") {
        Ok(Op::LiteralF64Unsuffixed)
    } else if str_eq(name, "literal_f64_suffixed") {
        Ok(Op::LiteralF64Suffixed)
    } else if str_eq(name, "literal_f32_unsuffixed") {
        Ok(Op::LiteralF32Unsuffixed)
    } else if str_eq(name, "literal_f32_suffixed") {
        Ok(Op::LiteralF32Suffixed)
    } else if str_eq(name, "literal_string") {
        Ok(Op::LiteralString)
    } else if str_eq(name, "literal_character") {
        Ok(Op::LiteralCharacter)
    } else if str_eq(name, "literal_byte_string") {
        Ok(Op::LiteralByteString)
    } else if str_eq(name, "literal_span") {
        Ok(Op::LiteralSpan)
    } else if str_eq(name, "literal_set_span") {
        Ok(Op::LiteralSetSpan)
    } else if str_eq(name, "token_stream_clone") {
        Ok(Op::TokenStreamClone)
    } else if str_eq(name, "group_clone") {
        Ok(Op::GroupClone)
    } else if str_eq(name, "ident_clone") {
        Ok(Op::IdentClone)
    } else if str_eq(name, "punct_clone") {
        Ok(Op::PunctClone)
    } else if str_eq(name, "literal_clone") {
        Ok(Op::LiteralClone)
    } else if str_eq(name, "token_stream_iter_clone") {
        Ok(Op::TokenStreamIterClone)
    } else if str_eq(name, "token_stream_to_string") {
        Ok(Op::TokenStreamToString)
    } else if str_eq(name, "group_to_string") {
        Ok(Op::GroupToString)
    } else if str_eq(name, "ident_to_string") {
        Ok(Op::IdentToString)
    } else if str_eq(name, "punct_to_string") {
        Ok(Op::PunctToString)
    } else if str_eq(name, "literal_to_string") {
        Ok(Op::LiteralToString)
    } else if str_eq(name, "token_stream_debug") {
        Ok(Op::TokenStreamDebug)
    } else if str_eq(name, "group_debug") {
        Ok(Op::GroupDebug)
    } else if str_eq(name, "ident_debug") {
        Ok(Op::IdentDebug)
    } else if str_eq(name, "punct_debug") {
        Ok(Op::PunctDebug)
    } else if str_eq(name, "literal_debug") {
        Ok(Op::LiteralDebug)
    } else if str_eq(name, "span_debug") {
        Ok(Op::SpanDebug)
    } else if str_eq(name, "watt_string_with_capacity") {
        Ok(Op::WattStringWithCapacity)
    } else if str_eq(name, "watt_string_push_char") {
        Ok(Op::WattStringPushChar)
    } else if str_eq(name, "watt_string_len") {
        Ok(Op::WattStringLen)
    } else if str_eq(name, "watt_string_char_at") {
        Ok(Op::WattStringCharAt)
    } else if str_eq(name, "watt_bytes_with_capacity") {
        Ok(Op::WattBytesWithCapacity)
    } else if str_eq(name, "watt_bytes_push") {
        Ok(Op::WattBytesPush)
    } else if str_eq(name, "watt_print_panic") {
        Ok(Op::WattPrintPanic)
    } else {
        Err(HostError::UnresolvedImport { name: String::from_str(name) })
    }
}

/// Resolves every declared import, in order; the first unresolved one
/// aborts.
pub fn resolve_imports(imports: &Vec<(String, String)>) -> (r: Result<Vec<Op>, HostError>)
    ensures
        r is Ok <==> (forall|k: int|
            0 <= k < imports@.len() ==> spec_resolve(
                #[trigger] imports@[k].0@,
                imports@[k].1@,
            ) is Some),
        (r matches Ok(ops) ==> ops@.len() == imports@.len() && (forall|k: int|
            0 <= k < imports@.len() ==> Some(#[trigger] ops@[k]) == spec_resolve(
                imports@[k].0@,
                imports@[k].1@,
            ))),
{
    let mut ops: Vec<Op> = Vec::new();
    let n = imports.len();
    let mut i: usize = 0;
    while i < n
        invariant
            n == imports@.len(),
            i <= n,
            ops@.len() == i,
            forall|k: int|
                0 <= k < i ==> spec_resolve(#[trigger] imports@[k].0@, imports@[k].1@) is Some,
            forall|k: int|
                0 <= k < i ==> Some(#[trigger] ops@[k]) == spec_resolve(
                    imports@[k].0@,
                    imports@[k].1@,
                ),
        decreases n - i,
    {
        let (m, nm) = &imports[i];
        match resolve(m.as_str(), nm.as_str()) {
            Ok(op) => ops.push(op),
            Err(e) => return Err(e),
        }
        i += 1;
    }
    Ok(ops)
}

/// The position of the export carrying the entry point's name; its absence
/// is the fatal unresolved-macro condition, raised before anything touches
/// the arena.
pub fn find_export(exports: &Vec<String>, entry: &str) -> (r: Result<usize, HostError>)
    ensures
        r is Ok <==> (exists|k: int| 0 <= k < exports@.len() && #[trigger] exports@[k]@ == entry@),
        (r matches Ok(i) ==> i < exports@.len() && exports@[i as int]@ == entry@ && (forall|k: int|
            0 <= k < i ==> #[trigger] exports@[k]@ != entry@)),
        (r matches Err(e) ==> (e matches HostError::UnresolvedMacro { name } && name@ == entry@)),
{
    let n = exports.len();
    let mut i: usize = 0;
    while i < n
        invariant
            n == exports@.len(),
            i <= n,
            forall|k: int| 0 <= k < i ==> #[trigger] exports@[k]@ != entry@,
        decreases n - i,
    {
        if str_eq(exports[i].as_str(), entry) {
            return Ok(i);
        }
        i += 1;
    }
    Err(HostError::UnresolvedMacro { name: String::from_str(entry) })
}

/// Pushes the caller's input trees into the arena, one handle per input, in
/// order; the handles are the arguments of the export call.
pub fn push_inputs(a: &mut Arena, inputs: &Vec<TokenStream>) -> (r: Result<Vec<u32>, HostError>)
    ensures
        inputs@.len() == 0 ==> r is Ok,
        inputs@.len() > 0 ==> (r is Ok <==> old(a)@.streams.len() + inputs@.len() <= SENTINEL
            as nat),
        (r matches Ok(hs) ==> hs@.len() == inputs@.len() && (forall|k: int|
            0 <= k < hs@.len() ==> #[trigger] hs@[k] == old(a)@.streams.len() + k) && final(a)@
            == (ArenaV { streams: old(a)@.streams + seq_views(inputs@), ..old(a)@ })),
        r is Err ==> r == Err::<Vec<u32>, HostError>(
            HostError::SlabFull { slab: Slab::TokenStreams },
        ),
{
    let scope = a.scope;
    let n = inputs.len();
    let mut handles: Vec<u32> = Vec::new();
    let mut i: usize = 0;
    proof {
        assert(seq_views(inputs@.subrange(0, 0)) =~= Seq::<Seq<TreeV>>::empty());
        assert(a@ =~= (ArenaV {
            streams: old(a)@.streams + seq_views(inputs@.subrange(0, 0)),
            ..old(a)@
        }));
    }
    while i < n
        invariant
            n == inputs@.len(),
            i <= n,
            scope == a.scope,
            handles@.len() == i,
            i > 0 ==> old(a)@.streams.len() + i <= SENTINEL as nat,
            forall|k: int| 0 <= k < i ==> #[trigger] handles@[k] == old(a)@.streams.len() + k,
            a@ == (ArenaV {
                streams: old(a)@.streams + seq_views(inputs@.subrange(0, i as int)),
                ..old(a)@
            }),
        decreases n - i,
    {
        let ts = inputs[i].deep_clone();
        proof {
            lemma_seq_views_push(a.streams@, ts);
            assert(seq_views(inputs@.subrange(0, i + 1 as int)) =~= seq_views(
                inputs@.subrange(0, i as int),
            ).push(inputs@[i as int]@));
            assert(old(a)@.streams + seq_views(inputs@.subrange(0, i + 1 as int)) =~= (old(
                a,
            )@.streams + seq_views(inputs@.subrange(0, i as int))).push(ts@));
        }
        let ghost pre = a.streams@;
        proof {
            assert(seq_views(pre).len() == pre.len());
        }
        match slab_push(&mut a.streams, scope, ts, Slab::TokenStreams) {
            Ok(h) => {
                handles.push(h.index);
                proof {
                    assert(a@ =~= (ArenaV {
                        streams: old(a)@.streams + seq_views(inputs@.subrange(0, i + 1 as int)),
                        ..old(a)@
                    }));
                }
            },
            Err(e) => {
                return Err(e);
            },
        }
        i += 1;
    }
    proof {
        assert(inputs@.subrange(0, n as int) =~= inputs@);
        assert(seq_views(inputs@.subrange(0, n as int)) =~= seq_views(inputs@));
    }
    Ok(handles)
}

/// Reads the invocation's result: exactly one handle, pointing into the
/// stream slab, whose stream is copied out so it survives the scope's end.
/// Any other shape is the fatal wrong-return condition; `None` stands for a
/// value of a non-handle type.
pub fn extract_result(a: &Arena, results: &Vec<Option<u32>>) -> (r: Result<
    TokenStream,
    HostError,
>)
    ensures
        results@.len() != 1 || results@[0] is None ==> r == Err::<TokenStream, HostError>(
            HostError::BadReturn,
        ),
        (results@.len() == 1 && results@[0] is Some && !(((results@[0]->Some_0) as nat)
            < a@.streams.len())) ==> r == Err::<TokenStream, HostError>(
            HostError::InvalidHandle { slab: Slab::TokenStreams, handle: results@[0]->Some_0 },
        ),
        (results@.len() == 1 && results@[0] is Some && ((results@[0]->Some_0) as nat)
            < a@.streams.len()) ==> (r matches Ok(ts) && ts@ == a@.streams[
            (results@[0]->Some_0) as int
        ]),
{
    if results.len() != 1 {
        return Err(HostError::BadReturn);
    }
    let h = match results[0] {
        Some(h) => h,
        Option::None => {
            return Err(HostError::BadReturn);
        },
    };
    let scope = a.scope;
    match slab_get(&a.streams, scope, Handle { index: h, scope }, Slab::TokenStreams) {
        Ok(ts) => Ok(ts.deep_clone()),
        Err(e) => Err(e),
    }
}

} // verus!
