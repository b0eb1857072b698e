use watt::arena::Arena;
use watt::dispatch::{
    group_debug, group_new, group_set_span, group_span, group_stream, ident_debug, ident_new,
    ident_set_span, ident_span, literal_set_span, literal_span, literal_u8_suffixed, punct_new,
    punct_set_span, punct_span, span_call_site, span_debug, token_stream_debug,
    token_stream_from_str, token_stream_into_iter, token_stream_iter_clone,
    token_stream_iter_next, watt_string_char_at, watt_string_len, watt_string_push_char,
    watt_string_with_capacity, DELIMITER_PARENTHESIS,
};
use watt::error::HostError;
use watt::token::{Literal, Span};
use watt::SENTINEL;

fn intern(a: &mut Arena, text: &str) -> u32 {
    let h = watt_string_with_capacity(a, text.len() as u32).unwrap();
    for c in text.chars() {
        watt_string_push_char(a, h, c as u32).unwrap();
    }
    h
}

fn string_at(a: &mut Arena, h: u32) -> String {
    let mut out = String::new();
    let len = watt_string_len(a, h).unwrap();
    let mut i = 0u32;
    while i < len {
        let c = char::from_u32(watt_string_char_at(a, h, i).unwrap()).unwrap();
        out.push(c);
        i += c.len_utf8() as u32;
    }
    out
}

#[test]
fn join_and_subspan_are_unsupported() {
    let a = Span::call_site();
    let b = Span { handle: 3 };
    assert!(a.join(b).is_none());
    let l = Literal::u8_suffixed(1);
    assert!(l.subspan(0, 1).is_none());
}

#[test]
fn span_handles_move_between_values() {
    let mut a = Arena::new();
    let sp = span_call_site(&mut a).unwrap();
    let l = literal_u8_suffixed(&mut a, 3).unwrap();
    literal_set_span(&mut a, l, sp).unwrap();
    let got = literal_span(&mut a, l).unwrap();
    // the span slot read back holds the same value that was set
    assert_eq!(a.spans[got as usize], a.spans[sp as usize]);
}

#[test]
fn group_spans_are_settable() {
    let mut a = Arena::new();
    let text = intern(&mut a, "x");
    let ts = token_stream_from_str(&mut a, text).unwrap();
    let g = group_new(&mut a, DELIMITER_PARENTHESIS, ts).unwrap();
    let sp = span_call_site(&mut a).unwrap();
    group_set_span(&mut a, g, sp).unwrap();
    let back = group_span(&mut a, g).unwrap();
    assert_eq!(a.spans[back as usize], a.spans[sp as usize]);
    let inner = group_stream(&mut a, g).unwrap();
    assert_ne!(inner, SENTINEL);
}

#[test]
fn punct_and_ident_spans_are_settable() {
    let mut a = Arena::new();
    let sp = span_call_site(&mut a).unwrap();
    let p = punct_new(&mut a, '+' as u32, 0).unwrap();
    punct_set_span(&mut a, p, sp).unwrap();
    let got = punct_span(&mut a, p).unwrap();
    assert_eq!(a.spans[got as usize], a.spans[sp as usize]);

    let name = intern(&mut a, "x");
    let i = ident_new(&mut a, name, sp).unwrap();
    ident_set_span(&mut a, i, sp).unwrap();
    let got = ident_span(&mut a, i).unwrap();
    assert_eq!(a.spans[got as usize], a.spans[sp as usize]);
}

#[test]
fn cursor_clones_advance_independently() {
    let mut a = Arena::new();
    let text = intern(&mut a, "a b");
    let ts = token_stream_from_str(&mut a, text).unwrap();
    let it = token_stream_into_iter(&mut a, ts).unwrap();
    // advance the original past its first token
    assert_ne!(token_stream_iter_next(&mut a, it).unwrap(), SENTINEL);
    // the clone starts where the original stood, then runs on its own
    let dup = token_stream_iter_clone(&mut a, it).unwrap();
    assert_ne!(token_stream_iter_next(&mut a, dup).unwrap(), SENTINEL);
    assert_eq!(token_stream_iter_next(&mut a, dup).unwrap(), SENTINEL);
    // the original is unaffected by the clone's progress
    assert_ne!(token_stream_iter_next(&mut a, it).unwrap(), SENTINEL);
    assert_eq!(token_stream_iter_next(&mut a, it).unwrap(), SENTINEL);
}

#[test]
fn debug_ops_render_structurally() {
    let mut a = Arena::new();
    let sp = span_call_site(&mut a).unwrap();
    let s = span_debug(&mut a, sp).unwrap();
    assert_eq!(string_at(&mut a, s), "Span { handle: 0 }");

    let text = intern(&mut a, "x");
    let ts = token_stream_from_str(&mut a, text).unwrap();
    let d = token_stream_debug(&mut a, ts).unwrap();
    assert_eq!(
        string_at(&mut a, d),
        "TokenStream [Ident { sym: x, span: Span { handle: 0 } }]"
    );

    let g = group_new(&mut a, DELIMITER_PARENTHESIS, ts).unwrap();
    let d = group_debug(&mut a, g).unwrap();
    assert_eq!(
        string_at(&mut a, d),
        "Group { delimiter: Parenthesis, stream: TokenStream [Ident { sym: x, span: Span { handle: 0 } }], span: Span { handle: 0 } }"
    );

    let name = intern(&mut a, "y");
    let i = ident_new(&mut a, name, sp).unwrap();
    let d = ident_debug(&mut a, i).unwrap();
    assert_eq!(string_at(&mut a, d), "Ident { sym: y, span: Span { handle: 0 } }");
}

#[test]
fn string_offset_out_of_range_is_refused() {
    let mut a = Arena::new();
    let h = intern(&mut a, "ab");
    assert_eq!(watt_string_len(&mut a, h).unwrap(), 2);
    assert_eq!(watt_string_char_at(&mut a, h, 1).unwrap(), 'b' as u32);
    match watt_string_char_at(&mut a, h, 2) {
        Err(HostError::InvalidScalar { value }) => assert_eq!(value, 2),
        other => panic!("expected out-of-range failure, got {:?}", other.is_ok()),
    }
}

#[test]
fn string_reads_are_byte_addressed() {
    let mut a = Arena::new();
    let h = intern(&mut a, "\u{e9}a");
    // one two-byte character, then one one-byte character
    assert_eq!(watt_string_len(&mut a, h).unwrap(), 3);
    assert_eq!(watt_string_char_at(&mut a, h, 0).unwrap(), 0xE9);
    // offset 1 falls inside the first character's encoding
    match watt_string_char_at(&mut a, h, 1) {
        Err(HostError::InvalidScalar { value }) => assert_eq!(value, 1),
        other => panic!("expected boundary failure, got {:?}", other.is_ok()),
    }
    assert_eq!(watt_string_char_at(&mut a, h, 2).unwrap(), 'a' as u32);
    assert!(watt_string_char_at(&mut a, h, 3).is_err());
    assert_eq!(string_at(&mut a, h), "\u{e9}a");
}

#[test]
fn escaping_keeps_rendered_literals_ascii() {
    let mut a = Arena::new();
    // a guest-built string may hold any character; its literal form escapes
    // everything beyond printable ASCII
    let h = intern(&mut a, "\u{e9}");
    let l = watt::dispatch::literal_string(&mut a, h).unwrap();
    let s = watt::dispatch::literal_to_string(&mut a, l).unwrap();
    assert_eq!(string_at(&mut a, s), "\"\\u{e9}\"");
    assert_eq!(watt_string_len(&mut a, s).unwrap(), 8);
}
