use watt::arena::{slab_get, Arena, Handle};
use watt::dispatch::{
    group_delimiter, group_new, group_to_string, ident_cmp, ident_eq, ident_eq_str, ident_new,
    literal_i32_unsuffixed, literal_to_string, literal_u128_suffixed, punct_new, punct_spacing,
    span_call_site, token_stream_extend, token_stream_from_ident, token_stream_from_str,
    token_stream_into_iter, token_stream_is_empty, token_stream_iter_next, token_stream_new,
    token_stream_push_punct, token_stream_to_string, token_tree_kind, token_tree_unwrap_ident,
    watt_bytes_push, watt_bytes_with_capacity, watt_print_panic, watt_string_char_at,
    watt_string_len, watt_string_push_char, watt_string_with_capacity, DELIMITER_BRACE,
    ORDERING_EQUAL, ORDERING_GREATER, ORDERING_LESS, SPACING_JOINT, TOKEN_IDENT,
};
use watt::error::{HostError, Slab};
use watt::SENTINEL;

/// Builds a scratch string in the arena holding `text`.
fn intern(a: &mut Arena, text: &str) -> u32 {
    let h = watt_string_with_capacity(a, text.len() as u32).unwrap();
    for c in text.chars() {
        watt_string_push_char(a, h, c as u32).unwrap();
    }
    h
}

fn string_at(a: &mut Arena, h: u32) -> String {
    let mut out = String::new();
    let len = watt_string_len(a, h).unwrap();
    let mut i = 0u32;
    while i < len {
        let c = char::from_u32(watt_string_char_at(a, h, i).unwrap()).unwrap();
        out.push(c);
        i += c.len_utf8() as u32;
    }
    out
}

#[test]
fn empty_stream_reports_empty() {
    let mut a = Arena::new();
    let ts = token_stream_new(&mut a).unwrap();
    assert_eq!(token_stream_is_empty(&mut a, ts).unwrap(), 1);
}

#[test]
fn from_str_returns_sentinel_on_malformed_input() {
    let mut a = Arena::new();
    let empty = intern(&mut a, "");
    assert_eq!(token_stream_from_str(&mut a, empty).unwrap(), SENTINEL);
    let bad = intern(&mut a, "(");
    assert_eq!(token_stream_from_str(&mut a, bad).unwrap(), SENTINEL);
    let good = intern(&mut a, "a b c");
    let ts = token_stream_from_str(&mut a, good).unwrap();
    assert_ne!(ts, SENTINEL);
    let s = token_stream_to_string(&mut a, ts).unwrap();
    assert_eq!(string_at(&mut a, s), "a b c");
}

#[test]
fn iterator_reaches_sentinel_and_stays_there() {
    let mut a = Arena::new();
    let text = intern(&mut a, "x y");
    let ts = token_stream_from_str(&mut a, text).unwrap();
    let it = token_stream_into_iter(&mut a, ts).unwrap();
    let first = token_stream_iter_next(&mut a, it).unwrap();
    assert_ne!(first, SENTINEL);
    let second = token_stream_iter_next(&mut a, it).unwrap();
    assert_ne!(second, SENTINEL);
    assert_eq!(token_stream_iter_next(&mut a, it).unwrap(), SENTINEL);
    // exhausted cursors stay exhausted, call after call
    assert_eq!(token_stream_iter_next(&mut a, it).unwrap(), SENTINEL);
    assert_eq!(token_tree_kind(&mut a, first).unwrap(), TOKEN_IDENT);
}

#[test]
fn ident_equality_follows_rendered_text() {
    let mut a = Arena::new();
    let sp = span_call_site(&mut a).unwrap();
    let s1 = intern(&mut a, "foo");
    let s2 = intern(&mut a, "foo");
    let s3 = intern(&mut a, "bar");
    let i1 = ident_new(&mut a, s1, sp).unwrap();
    let i2 = ident_new(&mut a, s2, sp).unwrap();
    let i3 = ident_new(&mut a, s3, sp).unwrap();
    assert_eq!(ident_eq(&mut a, i1, i2).unwrap(), 1);
    assert_eq!(ident_eq(&mut a, i1, i3).unwrap(), 0);
    assert_eq!(ident_cmp(&mut a, i1, i2).unwrap(), ORDERING_EQUAL);
    assert_eq!(ident_cmp(&mut a, i3, i1).unwrap(), ORDERING_LESS);
    assert_eq!(ident_cmp(&mut a, i1, i3).unwrap(), ORDERING_GREATER);
}

#[test]
fn raw_ident_matches_only_its_prefixed_text() {
    let mut a = Arena::new();
    // a raw identifier enters the arena through parsing
    let text = intern(&mut a, "r#foo");
    let ts = token_stream_from_str(&mut a, text).unwrap();
    let it = token_stream_into_iter(&mut a, ts).unwrap();
    let tree = token_stream_iter_next(&mut a, it).unwrap();
    let raw = token_tree_unwrap_ident(&mut a, tree).unwrap();
    let with_prefix = intern(&mut a, "r#foo");
    let without = intern(&mut a, "foo");
    assert_eq!(ident_eq_str(&mut a, raw, with_prefix).unwrap(), 1);
    assert_eq!(ident_eq_str(&mut a, raw, without).unwrap(), 0);
}

#[test]
fn invalid_ident_text_is_refused() {
    let mut a = Arena::new();
    let sp = span_call_site(&mut a).unwrap();
    let digits = intern(&mut a, "123");
    match ident_new(&mut a, digits, sp) {
        Err(HostError::InvalidIdent) => {}
        other => panic!("expected invalid ident, got {:?}", other.is_ok()),
    }
    let empty = intern(&mut a, "");
    assert!(matches!(ident_new(&mut a, empty, sp), Err(HostError::InvalidIdent)));
}

#[test]
fn invalid_handle_is_reported_with_slab_and_value() {
    let mut a = Arena::new();
    match token_stream_is_empty(&mut a, 5) {
        Err(HostError::InvalidHandle { slab, handle }) => {
            assert_eq!(slab, Slab::TokenStreams);
            assert_eq!(handle, 5);
        }
        other => panic!("expected invalid handle, got {:?}", other.is_ok()),
    }
}

#[test]
fn invalid_delimiter_code_is_refused() {
    let mut a = Arena::new();
    let ts = token_stream_new(&mut a).unwrap();
    match group_new(&mut a, 9, ts) {
        Err(HostError::InvalidScalar { value }) => assert_eq!(value, 9),
        other => panic!("expected invalid scalar, got {:?}", other.is_ok()),
    }
    let g = group_new(&mut a, DELIMITER_BRACE, ts).unwrap();
    assert_eq!(group_delimiter(&mut a, g).unwrap(), DELIMITER_BRACE);
    let s = group_to_string(&mut a, g).unwrap();
    assert_eq!(string_at(&mut a, s), "{ }");
}

#[test]
fn invalid_code_point_is_refused() {
    let mut a = Arena::new();
    match punct_new(&mut a, 0xD800, 0) {
        Err(HostError::InvalidScalar { value }) => assert_eq!(value, 0xD800),
        other => panic!("expected invalid scalar, got {:?}", other.is_ok()),
    }
    let p = punct_new(&mut a, '+' as u32, SPACING_JOINT).unwrap();
    assert_eq!(punct_spacing(&mut a, p).unwrap(), SPACING_JOINT);
}

#[test]
fn wrong_kind_unwrap_is_refused() {
    let mut a = Arena::new();
    let text = intern(&mut a, "( )");
    let ts = token_stream_from_str(&mut a, text).unwrap();
    let it = token_stream_into_iter(&mut a, ts).unwrap();
    let tree = token_stream_iter_next(&mut a, it).unwrap();
    match token_tree_unwrap_ident(&mut a, tree) {
        Err(HostError::InvalidScalar { value }) => assert_eq!(value, 0),
        other => panic!("expected wrong-kind failure, got {:?}", other.is_ok()),
    }
}

#[test]
fn literal_factories_through_the_table() {
    let mut a = Arena::new();
    let l = literal_u128_suffixed(&mut a, 1, 0).unwrap();
    let s = literal_to_string(&mut a, l).unwrap();
    assert_eq!(string_at(&mut a, s), "1u128");
    let l = literal_i32_unsuffixed(&mut a, -5).unwrap();
    let s = literal_to_string(&mut a, l).unwrap();
    assert_eq!(string_at(&mut a, s), "-5");
}

#[test]
fn streams_extend_in_place() {
    let mut a = Arena::new();
    let sp = span_call_site(&mut a).unwrap();
    let name = intern(&mut a, "x");
    let i = ident_new(&mut a, name, sp).unwrap();
    let left = token_stream_from_ident(&mut a, i).unwrap();
    let right = token_stream_from_ident(&mut a, i).unwrap();
    token_stream_extend(&mut a, left, right).unwrap();
    let p = punct_new(&mut a, ';' as u32, 0).unwrap();
    token_stream_push_punct(&mut a, left, p).unwrap();
    let s = token_stream_to_string(&mut a, left).unwrap();
    assert_eq!(string_at(&mut a, s), "x x ;");
}

#[test]
fn byte_buffers_accumulate() {
    let mut a = Arena::new();
    let b = watt_bytes_with_capacity(&mut a, 4).unwrap();
    watt_bytes_push(&mut a, b, 0x41).unwrap();
    watt_bytes_push(&mut a, b, 0x42).unwrap();
    let l = watt::dispatch::literal_byte_string(&mut a, b).unwrap();
    let s = literal_to_string(&mut a, l).unwrap();
    assert_eq!(string_at(&mut a, s), "b\"AB\"");
}

#[test]
fn guest_panic_carries_its_message() {
    let mut a = Arena::new();
    let msg = intern(&mut a, "boom");
    match watt_print_panic(&mut a, msg) {
        Err(HostError::GuestPanic { message }) => assert_eq!(message, "boom"),
        other => panic!("expected guest panic, got {:?}", other.is_ok()),
    }
}

#[test]
fn handles_die_with_their_scope() {
    let mut a = Arena::new();
    let ts = token_stream_new(&mut a).unwrap();
    let h = Handle { index: ts, scope: a.scope };
    assert!(slab_get(&a.streams, a.scope, h, Slab::TokenStreams).is_ok());
    a.end_scope();
    // the new scope refills the slab to the same length
    let _fresh = token_stream_new(&mut a).unwrap();
    // the old handle still fails: its scope tag is dead
    match slab_get(&a.streams, a.scope, h, Slab::TokenStreams) {
        Err(HostError::InvalidHandle { slab, handle }) => {
            assert_eq!(slab, Slab::TokenStreams);
            assert_eq!(handle, 0);
        }
        Ok(_) => panic!("stale handle must not alias new data"),
        Err(_) => panic!("unexpected error kind"),
    }
}
