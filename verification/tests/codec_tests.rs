use watt::codec::{decode, encode};
use watt::error::HostError;
use watt::token::{Delimiter, Group, Ident, Literal, Punct, Spacing, Span, TokenStream, TokenTree};

fn sample_stream() -> TokenStream {
    let mut inner = TokenStream::new();
    inner.push_tree(TokenTree::Literal(Literal::i32_unsuffixed(-5)));
    inner.push_tree(TokenTree::Punct(Punct::new(',', Spacing::Alone)));
    inner.push_tree(TokenTree::Literal(Literal::string("hi \"there\"")));
    let mut ts = TokenStream::new();
    ts.push_tree(TokenTree::Ident(Ident::new("f", Span::call_site())));
    ts.push_tree(TokenTree::Punct(Punct::new(':', Spacing::Joint)));
    ts.push_tree(TokenTree::Punct(Punct::new(':', Spacing::Alone)));
    ts.push_tree(TokenTree::Ident(Ident::make(String::from("type"), true, Span::call_site())));
    ts.push_tree(TokenTree::Group(Group::new(Delimiter::Bracket, inner)));
    ts.push_tree(TokenTree::Literal(Literal::u128_suffixed(1)));
    ts.push_tree(TokenTree::Literal(Literal::character('\n')));
    ts.push_tree(TokenTree::Literal(Literal::byte_string(b"\x00ok")));
    ts
}

#[test]
fn round_trip_preserves_structure() {
    let ts = sample_stream();
    let mut spans: Vec<Span> = Vec::new();
    spans.push(Span::call_site());
    let blob = encode(&ts, &mut spans);
    let back = decode(blob.as_slice(), &spans).unwrap();
    assert_eq!(back.debug_string(), ts.debug_string());
    assert_eq!(back.display_string(), ts.display_string());
}

#[test]
fn round_trip_of_empty_stream() {
    let ts = TokenStream::new();
    let mut spans: Vec<Span> = Vec::new();
    let blob = encode(&ts, &mut spans);
    assert_eq!(blob, vec![0u8]);
    let back = decode(blob.as_slice(), &spans).unwrap();
    assert!(back.is_empty());
}

#[test]
fn encode_writes_span_handles_in_order() {
    let mut ts = TokenStream::new();
    ts.push_tree(TokenTree::Ident(Ident::new("a", Span::call_site())));
    let mut spans: Vec<Span> = Vec::new();
    let blob = encode(&ts, &mut spans);
    // tag 2, then the handle of the span pushed during encoding: slot 0
    assert_eq!(blob[0], 2);
    assert_eq!(&blob[1..5], &[0, 0, 0, 0]);
    assert_eq!(spans.len(), 1);
}

#[test]
fn truncated_blob_is_refused() {
    let ts = sample_stream();
    let mut spans: Vec<Span> = Vec::new();
    let blob = encode(&ts, &mut spans);
    let short = &blob[..blob.len() - 1];
    assert!(decode(short, &spans).is_err());
}

#[test]
fn trailing_bytes_are_refused() {
    let ts = TokenStream::new();
    let mut spans: Vec<Span> = Vec::new();
    let mut blob = encode(&ts, &mut spans);
    blob.push(0);
    match decode(blob.as_slice(), &spans) {
        Err(HostError::TrailingBytes) => {}
        other => panic!("expected trailing-bytes failure, got {:?}", other.is_ok()),
    }
}

#[test]
fn bad_span_handle_is_refused() {
    // tag 2 (ident), span handle 9 against an empty slab
    let blob = vec![2u8, 9, 0, 0, 0, 1, 0, 0, 0, b'a', 0u8];
    let spans: Vec<Span> = Vec::new();
    match decode(blob.as_slice(), &spans) {
        Err(HostError::InvalidHandle { handle, .. }) => assert_eq!(handle, 9),
        other => panic!("expected invalid handle, got {:?}", other.is_ok()),
    }
}

#[test]
fn malformed_utf8_is_refused() {
    let spans = vec![Span::call_site()];
    // tag 2 (ident), span 0, length 1, invalid byte
    let blob = vec![2u8, 0, 0, 0, 0, 1, 0, 0, 0, 0xff, 0u8];
    match decode(blob.as_slice(), &spans) {
        Err(HostError::MalformedUtf8) => {}
        other => panic!("expected utf-8 failure, got {:?}", other.is_ok()),
    }
}

#[test]
fn literal_that_does_not_relex_is_refused() {
    let spans = vec![Span::call_site()];
    // tag 4 (literal), span 0, text "@@" which is no literal token
    let blob = vec![4u8, 0, 0, 0, 0, 2, 0, 0, 0, b'@', b'@', 0u8];
    match decode(blob.as_slice(), &spans) {
        Err(HostError::MalformedLiteral) => {}
        other => panic!("expected literal failure, got {:?}", other.is_ok()),
    }
}

#[test]
fn ident_that_is_no_ident_is_refused() {
    let spans = vec![Span::call_site()];
    // tag 2 (ident), span 0, text "1"
    let blob = vec![2u8, 0, 0, 0, 0, 1, 0, 0, 0, b'1', 0u8];
    match decode(blob.as_slice(), &spans) {
        Err(HostError::InvalidIdent) => {}
        other => panic!("expected ident failure, got {:?}", other.is_ok()),
    }
}

#[test]
fn negative_literal_text_relexes_as_one_token() {
    let mut ts = TokenStream::new();
    ts.push_tree(TokenTree::Literal(Literal::i32_unsuffixed(-5)));
    let mut spans: Vec<Span> = Vec::new();
    let blob = encode(&ts, &mut spans);
    let back = decode(blob.as_slice(), &spans).unwrap();
    assert_eq!(back.display_string(), "-5");
    assert_eq!(back.len(), 1);
}
