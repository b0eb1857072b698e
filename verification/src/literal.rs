//! Typed factories for literals: integers of every width, suffixed or not,
//! floats from their pre-rendered decimal text, and quoted strings, characters
//! and byte strings.

use vstd::prelude::*;
use crate::escape::{byte_string_lit, byte_string_lit_text, char_lit, char_lit_text, string_lit, string_lit_text};
use crate::numfmt::{dec_digits, dec_int, push_dec_i128, push_dec_u128};
use crate::token::{LitV, Literal, Span};
use crate::strext::push_char;

verus! {

/// The decimal digits of `n` followed by `suffix`.
fn dec_with_suffix(n: u128, suffix: &str) -> (r: String)
    ensures
        r@ == dec_digits(n as nat) + suffix@,
{
    let mut t = String::new();
    push_dec_u128(&mut t, n);
    t.append(suffix);
    proof {
        assert(t@ =~= dec_digits(n as nat) + suffix@);
    }
    t
}

/// The signed decimal rendering of `n` followed by `suffix`.
fn dec_int_with_suffix(n: i128, suffix: &str) -> (r: String)
    ensures
        r@ == dec_int(n as int) + suffix@,
{
    let mut t = String::new();
    push_dec_i128(&mut t, n);
    t.append(suffix);
    proof {
        assert(t@ =~= dec_int(n as int) + suffix@);
    }
    t
}

/// What an unsigned suffixed factory renders: digits then the suffix.
pub open spec fn unsigned_suffixed_text(n: nat, suffix: Seq<char>) -> Seq<char> {
    dec_digits(n) + suffix
}

/// What a signed suffixed factory renders: the signed decimal then the
/// suffix.
pub open spec fn signed_suffixed_text(n: int, suffix: Seq<char>) -> Seq<char> {
    dec_int(n) + suffix
}

impl Literal {
    pub fn u8_suffixed(n: u8) -> (r: Literal)
        ensures
            r@ == (LitV { text: unsigned_suffixed_text(n as nat, seq!['u', '8']), span: Span { handle: 0u32 } }),
    {
        proof {
            reveal_strlit("u8");
            assert("u8"@ =~= seq!['u', '8']);
        }
        Literal::from_text(dec_with_suffix(n as u128, "u8"))
    }

    pub fn u16_suffixed(n: u16) -> (r: Literal)
        ensures
            r@ == (LitV { text: unsigned_suffixed_text(n as nat, seq!['u', '1', '6']), span: Span { handle: 0u32 } }),
    {
        proof {
            reveal_strlit("u16");
            assert("u16"@ =~= seq!['u', '1', '6']);
        }
        Literal::from_text(dec_with_suffix(n as u128, "u16"))
    }

    pub fn u32_suffixed(n: u32) -> (r: Literal)
        ensures
            r@ == (LitV { text: unsigned_suffixed_text(n as nat, seq!['u', '3', '2']), span: Span { handle: 0u32 } }),
    {
        proof {
            reveal_strlit("u32");
            assert("u32"@ =~= seq!['u', '3', '2']);
        }
        Literal::from_text(dec_with_suffix(n as u128, "u32"))
    }

    pub fn u64_suffixed(n: u64) -> (r: Literal)
        ensures
            r@ == (LitV { text: unsigned_suffixed_text(n as nat, seq!['u', '6', '4']), span: Span { handle: 0u32 } }),
    {
        proof {
            reveal_strlit("u64");
            assert("u64"@ =~= seq!['u', '6', '4']);
        }
        Literal::from_text(dec_with_suffix(n as u128, "u64"))
    }

    pub fn u128_suffixed(n: u128) -> (r: Literal)
        ensures
            r@ == (LitV { text: unsigned_suffixed_text(n as nat, seq!['u', '1', '2', '8']), span: Span { handle: 0u32 } }),
    {
        proof {
            reveal_strlit("u128");
            assert("u128"@ =~= seq!['u', '1', '2', '8']);
        }
        Literal::from_text(dec_with_suffix(n, "u128"))
    }

    pub fn usize_suffixed(n: usize) -> (r: Literal)
        ensures
            r@ == (LitV { text: unsigned_suffixed_text(n as nat, seq!['u', 's', 'i', 'z', 'e']), span: Span { handle: 0u32 } }),
    {
        proof {
            reveal_strlit("usize");
            assert("usize"@ =~= seq!['u', 's', 'i', 'z', 'e']);
        }
        Literal::from_text(dec_with_suffix(n as u128, "usize"))
    }

    pub fn i8_suffixed(n: i8) -> (r: Literal)
        ensures
            r@ == (LitV { text: signed_suffixed_text(n as int, seq!['i', '8']), span: Span { handle: 0u32 } }),
    {
        proof {
            reveal_strlit("i8");
            assert("i8"@ =~= seq!['i', '8']);
        }
        Literal::from_text(dec_int_with_suffix(n as i128, "i8"))
    }

    pub fn i16_suffixed(n: i16) -> (r: Literal)
        ensures
            r@ == (LitV { text: signed_suffixed_text(n as int, seq!['i', '1', '6']), span: Span { handle: 0u32 } }),
    {
        proof {
            reveal_strlit("i16");
            assert("i16"@ =~= seq!['i', '1', '6']);
        }
        Literal::from_text(dec_int_with_suffix(n as i128, "i16"))
    }

    pub fn i32_suffixed(n: i32) -> (r: Literal)
        ensures
            r@ == (LitV { text: signed_suffixed_text(n as int, seq!['i', '3', '2']), span: Span { handle: 0u32 } }),
    {
        proof {
            reveal_strlit("i32");
            assert("i32"@ =~= seq!['i', '3', '2']);
        }
        Literal::from_text(dec_int_with_suffix(n as i128, "i32"))
    }

    pub fn i64_suffixed(n: i64) -> (r: Literal)
        ensures
            r@ == (LitV { text: signed_suffixed_text(n as int, seq!['i', '6', '4']), span: Span { handle: 0u32 } }),
    {
        proof {
            reveal_strlit("i64");
            assert("i64"@ =~= seq!['i', '6', '4']);
        }
        Literal::from_text(dec_int_with_suffix(n as i128, "i64"))
    }

    pub fn i128_suffixed(n: i128) -> (r: Literal)
        ensures
            r@ == (LitV { text: signed_suffixed_text(n as int, seq!['i', '1', '2', '8']), span: Span { handle: 0u32 } }),
    {
        proof {
            reveal_strlit("i128");
            assert("i128"@ =~= seq!['i', '1', '2', '8']);
        }
        Literal::from_text(dec_int_with_suffix(n, "i128"))
    }

    pub fn isize_suffixed(n: isize) -> (r: Literal)
        ensures
            r@ == (LitV { text: signed_suffixed_text(n as int, seq!['i', 's', 'i', 'z', 'e']), span: Span { handle: 0u32 } }),
    {
        proof {
            reveal_strlit("isize");
            assert("isize"@ =~= seq!['i', 's', 'i', 'z', 'e']);
        }
        Literal::from_text(dec_int_with_suffix(n as i128, "isize"))
    }

    pub fn u8_unsuffixed(n: u8) -> (r: Literal)
        ensures
            r@ == (LitV { text: dec_digits(n as nat), span: Span { handle: 0u32 } }),
    {
        let mut t = String::new();
        push_dec_u128(&mut t, n as u128);
        proof {
            assert(t@ =~= dec_digits(n as nat));
        }
        Literal::from_text(t)
    }

    pub fn u16_unsuffixed(n: u16) -> (r: Literal)
        ensures
            r@ == (LitV { text: dec_digits(n as nat), span: Span { handle: 0u32 } }),
    {
        let mut t = String::new();
        push_dec_u128(&mut t, n as u128);
        proof {
            assert(t@ =~= dec_digits(n as nat));
        }
        Literal::from_text(t)
    }

    pub fn u32_unsuffixed(n: u32) -> (r: Literal)
        ensures
            r@ == (LitV { text: dec_digits(n as nat), span: Span { handle: 0u32 } }),
    {
        let mut t = String::new();
        push_dec_u128(&mut t, n as u128);
        proof {
            assert(t@ =~= dec_digits(n as nat));
        }
        Literal::from_text(t)
    }

    pub fn u64_unsuffixed(n: u64) -> (r: Literal)
        ensures
            r@ == (LitV { text: dec_digits(n as nat), span: Span { handle: 0u32 } }),
    {
        let mut t = String::new();
        push_dec_u128(&mut t, n as u128);
        proof {
            assert(t@ =~= dec_digits(n as nat));
        }
        Literal::from_text(t)
    }

    pub fn u128_unsuffixed(n: u128) -> (r: Literal)
        ensures
            r@ == (LitV { text: dec_digits(n as nat), span: Span { handle: 0u32 } }),
    {
        let mut t = String::new();
        push_dec_u128(&mut t, n);
        proof {
            assert(t@ =~= dec_digits(n as nat));
        }
        Literal::from_text(t)
    }

    pub fn usize_unsuffixed(n: usize) -> (r: Literal)
        ensures
            r@ == (LitV { text: dec_digits(n as nat), span: Span { handle: 0u32 } }),
    {
        let mut t = String::new();
        push_dec_u128(&mut t, n as u128);
        proof {
            assert(t@ =~= dec_digits(n as nat));
        }
        Literal::from_text(t)
    }

    pub fn i8_unsuffixed(n: i8) -> (r: Literal)
        ensures
            r@ == (LitV { text: dec_int(n as int), span: Span { handle: 0u32 } }),
    {
        let mut t = String::new();
        push_dec_i128(&mut t, n as i128);
        proof {
            assert(t@ =~= dec_int(n as int));
        }
        Literal::from_text(t)
    }

    pub fn i16_unsuffixed(n: i16) -> (r: Literal)
        ensures
            r@ == (LitV { text: dec_int(n as int), span: Span { handle: 0u32 } }),
    {
        let mut t = String::new();
        push_dec_i128(&mut t, n as i128);
        proof {
            assert(t@ =~= dec_int(n as int));
        }
        Literal::from_text(t)
    }

    pub fn i32_unsuffixed(n: i32) -> (r: Literal)
        ensures
            r@ == (LitV { text: dec_int(n as int), span: Span { handle: 0u32 } }),
    {
        let mut t = String::new();
        push_dec_i128(&mut t, n as i128);
        proof {
            assert(t@ =~= dec_int(n as int));
        }
        Literal::from_text(t)
    }

    pub fn i64_unsuffixed(n: i64) -> (r: Literal)
        ensures
            r@ == (LitV { text: dec_int(n as int), span: Span { handle: 0u32 } }),
    {
        let mut t = String::new();
        push_dec_i128(&mut t, n as i128);
        proof {
            assert(t@ =~= dec_int(n as int));
        }
        Literal::from_text(t)
    }

    pub fn i128_unsuffixed(n: i128) -> (r: Literal)
        ensures
            r@ == (LitV { text: dec_int(n as int), span: Span { handle: 0u32 } }),
    {
        let mut t = String::new();
        push_dec_i128(&mut t, n);
        proof {
            assert(t@ =~= dec_int(n as int));
        }
        Literal::from_text(t)
    }

    pub fn isize_unsuffixed(n: isize) -> (r: Literal)
        ensures
            r@ == (LitV { text: dec_int(n as int), span: Span { handle: 0u32 } }),
    {
        let mut t = String::new();
        push_dec_i128(&mut t, n as i128);
        proof {
            assert(t@ =~= dec_int(n as int));
        }
        Literal::from_text(t)
    }

    /// An unsuffixed float literal from the pre-rendered decimal text of the
    /// value. A decimal point is guaranteed: one is appended when the text
    /// has none.
    pub fn float_unsuffixed_from_text(s: &str) -> (r: Literal)
        ensures
            r@ == (LitV {
                text: if s@.contains('.') {
                    s@
                } else {
                    s@ + seq!['.', '0']
                },
                span: Span { handle: 0u32 },
            }),
            r@.text.contains('.'),
    {
        let mut t = String::from_str(s);
        let has_dot = str_contains_dot(s);
        if !has_dot {
            push_char(&mut t, '.');
            push_char(&mut t, '0');
            proof {
                assert(t@ =~= s@ + seq!['.', '0']);
                assert(t@[t@.len() - 2] == '.');
            }
        }
        Literal::from_text(t)
    }

    /// A suffixed 32-bit float literal from the pre-rendered decimal text of
    /// the value.
    pub fn f32_suffixed_from_text(s: &str) -> (r: Literal)
        ensures
            r@ == (LitV { text: s@ + seq!['f', '3', '2'], span: Span { handle: 0u32 } }),
    {
        let mut t = String::from_str(s);
        t.append("f32");
        proof {
            reveal_strlit("f32");
            assert(t@ =~= s@ + seq!['f', '3', '2']);
        }
        Literal::from_text(t)
    }

    /// A suffixed 64-bit float literal from the pre-rendered decimal text of
    /// the value.
    pub fn f64_suffixed_from_text(s: &str) -> (r: Literal)
        ensures
            r@ == (LitV { text: s@ + seq!['f', '6', '4'], span: Span { handle: 0u32 } }),
    {
        let mut t = String::from_str(s);
        t.append("f64");
        proof {
            reveal_strlit("f64");
            assert(t@ =~= s@ + seq!['f', '6', '4']);
        }
        Literal::from_text(t)
    }

    /// A double-quoted string literal with the defined escaping.
    pub fn string(t: &str) -> (r: Literal)
        ensures
            r@ == (LitV { text: string_lit_text(t@), span: Span { handle: 0u32 } }),
    {
        Literal::from_text(string_lit(t))
    }

    /// A single-quoted character literal with the defined escaping.
    pub fn character(t: char) -> (r: Literal)
        ensures
            r@ == (LitV { text: char_lit_text(t), span: Span { handle: 0u32 } }),
    {
        Literal::from_text(char_lit(t))
    }

    /// A byte-string literal with the defined escaping.
    pub fn byte_string(bytes: &[u8]) -> (r: Literal)
        ensures
            r@ == (LitV { text: byte_string_lit_text(bytes@), span: Span { handle: 0u32 } }),
    {
        Literal::from_text(byte_string_lit(bytes))
    }
}

/// Whether the text holds a `'.'` character.
fn str_contains_dot(s: &str) -> (r: bool)
    ensures
        r == s@.contains('.'),
{
    let len = s.unicode_len();
    let mut i: usize = 0;
    while i < len
        invariant
            len == s@.len(),
            i <= len,
            forall|j: int| 0 <= j < i ==> s@[j] != '.',
        decreases len - i,
    {
        if s.get_char(i) == '.' {
            assert(s@.contains('.'));
            return true;
        }
        i += 1;
    }
    proof {
        assert(!s@.contains('.')) by {
            if s@.contains('.') {
                let j = choose|j: int| 0 <= j < s@.len() && s@[j] == '.';
                assert(s@[j] != '.');
            }
        }
    }
    false
}

} // verus!
