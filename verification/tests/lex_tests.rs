use watt::token::TokenStream;

#[test]
fn empty_input_is_rejected() {
    assert!(TokenStream::from_str("").is_err());
    assert!(TokenStream::from_str("   ").is_err());
}

#[test]
fn unbalanced_delimiters_are_rejected() {
    assert!(TokenStream::from_str("(").is_err());
    assert!(TokenStream::from_str(")").is_err());
    assert!(TokenStream::from_str("( ]").is_err());
    assert!(TokenStream::from_str("\"unterminated").is_err());
}

#[test]
fn idents_parse_and_render() {
    let ts = TokenStream::from_str("a b c").unwrap();
    assert_eq!(ts.display_string(), "a b c");
    assert_eq!(ts.len(), 3);
}

#[test]
fn raw_ident_parses() {
    let ts = TokenStream::from_str("r#match").unwrap();
    assert_eq!(ts.display_string(), "r#match");
    assert_eq!(ts.len(), 1);
}

#[test]
fn nested_groups_parse() {
    let ts = TokenStream::from_str("f ( x , [ 1 ] ) { y }").unwrap();
    assert_eq!(ts.display_string(), "f ( x , [ 1 ] ) { y }");
}

#[test]
fn joint_punct_spacing_detected() {
    let ts = TokenStream::from_str("a+=b").unwrap();
    assert_eq!(ts.display_string(), "a += b");
    let ts = TokenStream::from_str("+ =").unwrap();
    assert_eq!(ts.display_string(), "+ =");
}

#[test]
fn numeric_literals_parse_with_suffix() {
    let ts = TokenStream::from_str("1u128 2.5 0x0").unwrap();
    assert_eq!(ts.len(), 3);
    assert_eq!(ts.display_string(), "1u128 2.5 0x0");
}

#[test]
fn string_and_char_literals_parse() {
    let ts = TokenStream::from_str("\"a b\" 'c' b\"z\"").unwrap();
    assert_eq!(ts.len(), 3);
    assert_eq!(ts.display_string(), "\"a b\" 'c' b\"z\"");
}

#[test]
fn whitespace_shapes_do_not_matter() {
    let ts = TokenStream::from_str("  a\t(b)\n").unwrap();
    assert_eq!(ts.display_string(), "a ( b )");
}

#[test]
fn lifetime_like_quote_is_a_joint_punct() {
    let ts = TokenStream::from_str("'a").unwrap();
    assert_eq!(ts.len(), 2);
    assert_eq!(ts.display_string(), "'a");
}

#[test]
fn bare_b_and_r_are_plain_idents() {
    let ts = TokenStream::from_str("b r").unwrap();
    assert_eq!(ts.display_string(), "b r");
}

#[test]
fn parse_render_parse_is_stable() {
    let ts = TokenStream::from_str("f ( 1u8 , \"s\" ) ;").unwrap();
    let rendered = ts.display_string();
    let again = TokenStream::from_str(&rendered).unwrap();
    assert_eq!(again.display_string(), rendered);
}

#[test]
fn comments_are_trivia() {
    let ts = TokenStream::from_str("a // one\n b /* two /* nested */ */ c").unwrap();
    assert_eq!(ts.display_string(), "a b c");
}

#[test]
fn line_comment_may_end_the_input() {
    let ts = TokenStream::from_str("a // tail").unwrap();
    assert_eq!(ts.display_string(), "a");
}

#[test]
fn unterminated_block_comment_is_rejected() {
    assert!(TokenStream::from_str("a /* x").is_err());
    assert!(TokenStream::from_str("( /* ) */").is_err());
}

#[test]
fn comment_only_input_is_still_empty() {
    assert!(TokenStream::from_str("/* quiet */").is_err());
    assert!(TokenStream::from_str("// quiet").is_err());
}

#[test]
fn exponent_signs_stay_inside_the_literal() {
    let ts = TokenStream::from_str("1e+3 2E-5").unwrap();
    assert_eq!(ts.len(), 2);
    assert_eq!(ts.display_string(), "1e+3 2E-5");
}

#[test]
fn division_still_lexes_as_punctuation() {
    let ts = TokenStream::from_str("a / b /= c").unwrap();
    assert_eq!(ts.display_string(), "a / b /= c");
}
