use watt::token::{Delimiter, Group, Ident, Punct, Spacing, Span, TokenStream, TokenTree};

fn ident(name: &str) -> Ident {
    Ident::new(name, Span::call_site())
}

#[test]
fn empty_paren_group_renders_with_inner_space() {
    let g = Group::new(Delimiter::Parenthesis, TokenStream::new());
    assert_eq!(g.display_string(), "( )");
}

#[test]
fn one_token_group_renders_padded() {
    let mut inner = TokenStream::new();
    inner.push_tree(TokenTree::Ident(ident("x")));
    let g = Group::new(Delimiter::Parenthesis, inner);
    assert_eq!(g.display_string(), "( x )");
}

#[test]
fn brace_and_bracket_groups() {
    let g = Group::new(Delimiter::Brace, TokenStream::new());
    assert_eq!(g.display_string(), "{ }");
    let g = Group::new(Delimiter::Bracket, TokenStream::new());
    assert_eq!(g.display_string(), "[ ]");
}

#[test]
fn joint_puncts_attach_while_alone_separate() {
    let mut joined = TokenStream::new();
    joined.push_tree(TokenTree::Punct(Punct::new('+', Spacing::Joint)));
    joined.push_tree(TokenTree::Punct(Punct::new('=', Spacing::Joint)));
    joined.push_tree(TokenTree::Ident(ident("x")));
    assert_eq!(joined.display_string(), "+=x");

    let mut apart = TokenStream::new();
    apart.push_tree(TokenTree::Punct(Punct::new('+', Spacing::Alone)));
    apart.push_tree(TokenTree::Punct(Punct::new('=', Spacing::Alone)));
    apart.push_tree(TokenTree::Ident(ident("x")));
    assert_eq!(apart.display_string(), "+ = x");
}

#[test]
fn adjacent_tokens_space_separated() {
    let mut ts = TokenStream::new();
    ts.push_tree(TokenTree::Ident(ident("a")));
    ts.push_tree(TokenTree::Ident(ident("b")));
    ts.push_tree(TokenTree::Ident(ident("c")));
    assert_eq!(ts.display_string(), "a b c");
}

#[test]
fn raw_ident_renders_with_prefix() {
    let raw = Ident::make(String::from("foo"), true, Span::call_site());
    assert_eq!(raw.display_string(), "r#foo");
    assert_eq!(ident("foo").display_string(), "foo");
}

#[test]
fn nested_group_renders_recursively() {
    let mut inner = TokenStream::new();
    inner.push_tree(TokenTree::Ident(ident("x")));
    let mut outer = TokenStream::new();
    outer.push_tree(TokenTree::Ident(ident("f")));
    outer.push_tree(TokenTree::Group(Group::new(Delimiter::Parenthesis, inner)));
    assert_eq!(outer.display_string(), "f ( x )");
}

#[test]
fn undelimited_group_renders_bare() {
    let mut inner = TokenStream::new();
    inner.push_tree(TokenTree::Ident(ident("x")));
    let g = Group::new(Delimiter::NoDelim, inner);
    assert_eq!(g.display_string(), "x");
}

#[test]
fn span_debug_form() {
    let sp = Span { handle: 7 };
    assert_eq!(sp.debug_string(), "Span { handle: 7 }");
}

#[test]
fn ident_debug_form() {
    let i = ident("foo");
    assert_eq!(i.debug_string(), "Ident { sym: foo, span: Span { handle: 0 } }");
}

#[test]
fn punct_debug_form() {
    let p = Punct::new('+', Spacing::Alone);
    assert_eq!(
        p.debug_string(),
        "Punct { op: '+', spacing: Alone, span: Span { handle: 0 } }"
    );
}

#[test]
fn stream_debug_form() {
    let mut ts = TokenStream::new();
    ts.push_tree(TokenTree::Ident(ident("a")));
    assert_eq!(
        ts.debug_string(),
        "TokenStream [Ident { sym: a, span: Span { handle: 0 } }]"
    );
    assert_eq!(TokenStream::new().debug_string(), "TokenStream []");
}

#[test]
fn stream_to_empty_is_empty() {
    assert!(TokenStream::new().is_empty());
    assert_eq!(TokenStream::new().display_string(), "");
}
