use watt::token::Literal;

#[test]
fn unsigned_suffixed_factories() {
    assert_eq!(Literal::u8_suffixed(255).display_string(), "255u8");
    assert_eq!(Literal::u16_suffixed(7).display_string(), "7u16");
    assert_eq!(Literal::u32_suffixed(0).display_string(), "0u32");
    assert_eq!(Literal::u64_suffixed(123456789).display_string(), "123456789u64");
    assert_eq!(Literal::usize_suffixed(3).display_string(), "3usize");
    assert_eq!(Literal::u128_suffixed(1).display_string(), "1u128");
    assert_eq!(
        Literal::u128_suffixed(u128::MAX).display_string(),
        "340282366920938463463374607431768211455u128"
    );
}

#[test]
fn signed_suffixed_factories() {
    assert_eq!(Literal::i8_suffixed(-128).display_string(), "-128i8");
    assert_eq!(Literal::i32_suffixed(42).display_string(), "42i32");
    assert_eq!(Literal::i64_suffixed(-1).display_string(), "-1i64");
    assert_eq!(Literal::isize_suffixed(-9).display_string(), "-9isize");
    assert_eq!(Literal::i128_suffixed(i128::MIN).display_string(),
        "-170141183460469231731687303715884105728i128");
}

#[test]
fn unsuffixed_factories() {
    assert_eq!(Literal::u8_unsuffixed(0).display_string(), "0");
    assert_eq!(Literal::i32_unsuffixed(-5).display_string(), "-5");
    assert_eq!(Literal::u128_unsuffixed(10).display_string(), "10");
    assert_eq!(Literal::i128_unsuffixed(-10).display_string(), "-10");
}

#[test]
fn float_literals_keep_a_decimal_point() {
    let rendered = format!("{}", 2.0_f64);
    let lit = Literal::float_unsuffixed_from_text(&rendered);
    assert_eq!(lit.display_string(), "2.0");
    assert!(lit.display_string().contains('.'));

    let rendered = format!("{}", 2.5_f64);
    let lit = Literal::float_unsuffixed_from_text(&rendered);
    assert_eq!(lit.display_string(), "2.5");

    let rendered = format!("{}", 1.0_f32);
    assert_eq!(Literal::f32_suffixed_from_text(&rendered).display_string(), "1f32");
    let rendered = format!("{}", 3.25_f64);
    assert_eq!(Literal::f64_suffixed_from_text(&rendered).display_string(), "3.25f64");
}

#[test]
fn string_literal_escaping() {
    assert_eq!(Literal::string("abc").display_string(), "\"abc\"");
    assert_eq!(Literal::string("a\"b").display_string(), "\"a\\\"b\"");
    assert_eq!(Literal::string("a\\b").display_string(), "\"a\\\\b\"");
    assert_eq!(Literal::string("a\nb").display_string(), "\"a\\nb\"");
    // a single quote stays raw inside a string literal
    assert_eq!(Literal::string("a'b").display_string(), "\"a'b\"");
    // non-printable characters take the braced escape, lowercase hex
    assert_eq!(Literal::string("\u{7f}").display_string(), "\"\\u{7f}\"");
}

#[test]
fn character_literal_escaping() {
    assert_eq!(Literal::character('x').display_string(), "'x'");
    assert_eq!(Literal::character('\'').display_string(), "'\\''");
    // a double quote stays raw inside a character literal
    assert_eq!(Literal::character('"').display_string(), "'\"'");
    assert_eq!(Literal::character('\n').display_string(), "'\\n'");
}

#[test]
fn byte_string_literal_escaping() {
    assert_eq!(Literal::byte_string(b"abc").display_string(), "b\"abc\"");
    assert_eq!(Literal::byte_string(b"\0\t\n\r").display_string(), "b\"\\0\\t\\n\\r\"");
    assert_eq!(Literal::byte_string(b"\"\\").display_string(), "b\"\\\"\\\\\"");
    // non-printable bytes take a two-digit uppercase hex escape
    assert_eq!(Literal::byte_string(&[0x01, 0xff]).display_string(), "b\"\\x01\\xFF\"");
}

#[test]
fn literal_debug_form() {
    let l = Literal::u8_suffixed(3);
    assert_eq!(
        l.debug_string(),
        "Literal { text: \"3u8\", span: Span { handle: 0 } }"
    );
}
