//! Escaping rules for string, character and byte-string literals.
//!
//! Printable ASCII passes through; quotes and backslashes are escaped; the
//! short control escapes are used where they exist; anything else becomes a
//! `\u{...}` escape (for text) or a `\xHH` escape (for bytes).

use vstd::prelude::*;
use crate::strext::push_char;

verus! {

pub open spec fn hex_char_lower(d: nat) -> char
    recommends
        d < 16,
{
    if d < 10 {
        ((d + 48) as u8) as char
    } else {
        ((d + 87) as u8) as char
    }
}

pub open spec fn hex_char_upper(d: nat) -> char
    recommends
        d < 16,
{
    if d < 10 {
        ((d + 48) as u8) as char
    } else {
        ((d + 55) as u8) as char
    }
}

/// Lowercase hex digits of `n`, most significant first, no leading zeros.
pub open spec fn hex_digits_lower(n: nat) -> Seq<char>
    decreases n,
{
    if n < 16 {
        seq![hex_char_lower(n)]
    } else {
        hex_digits_lower(n / 16).push(hex_char_lower(n % 16))
    }
}

/// The default escape of one character, as in a double-quoted literal.
pub open spec fn escape_char_default(c: char) -> Seq<char> {
    if c == '\t' {
        seq!['\\', 't']
    } else if c == '\r' {
        seq!['\\', 'r']
    } else if c == '\n' {
        seq!['\\', 'n']
    } else if c == '\\' {
        seq!['\\', '\\']
    } else if c == '\'' {
        seq!['\\', '\'']
    } else if c == '"' {
        seq!['\\', '"']
    } else if ' ' <= c && c <= '~' {
        seq![c]
    } else {
        seq!['\\', 'u', '{'] + hex_digits_lower(c as u32 as nat) + seq!['}']
    }
}

/// The body of a string literal: every character escaped, except that a
/// single quote stays raw (its escape would be redundant there).
pub open spec fn string_lit_body(s: Seq<char>) -> Seq<char>
    decreases s.len(),
{
    if s.len() == 0 {
        Seq::empty()
    } else {
        (if s[0] == '\'' {
            seq![s[0]]
        } else {
            escape_char_default(s[0])
        }) + string_lit_body(s.drop_first())
    }
}

/// The full rendered text of a string literal.
pub open spec fn string_lit_text(s: Seq<char>) -> Seq<char> {
    seq!['"'] + string_lit_body(s) + seq!['"']
}

/// The full rendered text of a character literal: a double quote stays raw
/// (its escape would be redundant there).
pub open spec fn char_lit_text(c: char) -> Seq<char> {
    seq!['\''] + (if c == '"' {
        seq![c]
    } else {
        escape_char_default(c)
    }) + seq!['\'']
}

/// The escape of one byte inside a byte-string literal.
pub open spec fn byte_escape(b: u8) -> Seq<char> {
    if b == 0 {
        seq!['\\', '0']
    } else if b == 9 {
        seq!['\\', 't']
    } else if b == 10 {
        seq!['\\', 'n']
    } else if b == 13 {
        seq!['\\', 'r']
    } else if b == 34 {
        seq!['\\', '"']
    } else if b == 92 {
        seq!['\\', '\\']
    } else if 0x20 <= b && b <= 0x7E {
        seq![b as char]
    } else {
        seq!['\\', 'x', hex_char_upper((b / 16) as nat), hex_char_upper((b % 16) as nat)]
    }
}

pub open spec fn byte_string_lit_body(bs: Seq<u8>) -> Seq<char>
    decreases bs.len(),
{
    if bs.len() == 0 {
        Seq::empty()
    } else {
        byte_escape(bs[0]) + byte_string_lit_body(bs.drop_first())
    }
}

/// The full rendered text of a byte-string literal.
pub open spec fn byte_string_lit_text(bs: Seq<u8>) -> Seq<char> {
    seq!['b', '"'] + byte_string_lit_body(bs) + seq!['"']
}

// ---------------------------------------------------------------------------
// Executable builders.
// ---------------------------------------------------------------------------

/// Appends the lowercase hex digits of `n`.
pub fn push_hex_lower(out: &mut String, n: u32)
    ensures
        final(out)@ == old(out)@ + hex_digits_lower(n as nat),
    decreases n,
{
    if n >= 16 {
        push_hex_lower(out, n / 16);
    }
    let d: u8 = (n % 16) as u8;
    let c: char = if d < 10 {
        (48u8 + d) as char
    } else {
        (87u8 + d) as char
    };
    proof {
        assert(c == hex_char_lower((n % 16) as nat));
    }
    push_char(out, c);
    proof {
        if n < 16 {
            assert(old(out)@ + hex_digits_lower(n as nat) =~= old(out)@.push(c));
        } else {
            assert(old(out)@ + hex_digits_lower(n as nat) =~= (old(out)@ + hex_digits_lower(
                (n / 16) as nat,
            )).push(c));
        }
    }
}

/// Appends the default escape of `c`.
pub fn push_escape_char_default(out: &mut String, c: char)
    ensures
        final(out)@ == old(out)@ + escape_char_default(c),
{
    if c == '\t' {
        push_char(out, '\\');
        push_char(out, 't');
    } else if c == '\r' {
        push_char(out, '\\');
        push_char(out, 'r');
    } else if c == '\n' {
        push_char(out, '\\');
        push_char(out, 'n');
    } else if c == '\\' {
        push_char(out, '\\');
        push_char(out, '\\');
    } else if c == '\'' {
        push_char(out, '\\');
        push_char(out, '\'');
    } else if c == '"' {
        push_char(out, '\\');
        push_char(out, '"');
    } else if ' ' <= c && c <= '~' {
        push_char(out, c);
    } else {
        push_char(out, '\\');
        push_char(out, 'u');
        push_char(out, '{');
        push_hex_lower(out, c as u32);
        push_char(out, '}');
    }
    proof {
        assert(final(out)@ =~= old(out)@ + escape_char_default(c));
    }
}

/// Appends the escape of one byte-string byte.
pub fn push_byte_escape(out: &mut String, b: u8)
    ensures
        final(out)@ == old(out)@ + byte_escape(b),
{
    if b == 0 {
        push_char(out, '\\');
        push_char(out, '0');
    } else if b == 9 {
        push_char(out, '\\');
        push_char(out, 't');
    } else if b == 10 {
        push_char(out, '\\');
        push_char(out, 'n');
    } else if b == 13 {
        push_char(out, '\\');
        push_char(out, 'r');
    } else if b == 34 {
        push_char(out, '\\');
        push_char(out, '"');
    } else if b == 92 {
        push_char(out, '\\');
        push_char(out, '\\');
    } else if 0x20 <= b && b <= 0x7E {
        push_char(out, b as char);
    } else {
        let hi: u8 = b / 16;
        let lo: u8 = b % 16;
        let chi: char = if hi < 10 {
            (48u8 + hi) as char
        } else {
            (55u8 + hi) as char
        };
        let clo: char = if lo < 10 {
            (48u8 + lo) as char
        } else {
            (55u8 + lo) as char
        };
        push_char(out, '\\');
        push_char(out, 'x');
        push_char(out, chi);
        push_char(out, clo);
    }
    proof {
        assert(final(out)@ =~= old(out)@ + byte_escape(b));
    }
}

/// Appends the body of a string literal for the text `s`, starting at
/// character `from`.
fn push_string_lit_body(out: &mut String, s: &str, from: usize, len: usize)
    requires
        from <= len,
        len == s@.len(),
    ensures
        final(out)@ == old(out)@ + string_lit_body(s@.skip(from as int)),
    decreases len - from,
{
    if from < len {
        let c = s.get_char(from);
        if c == '\'' {
            push_char(out, c);
        } else {
            push_escape_char_default(out, c);
        }
        push_string_lit_body(out, s, from + 1, len);
        proof {
            assert(s@.skip(from as int).drop_first() =~= s@.skip(from + 1 as int));
            assert(final(out)@ =~= old(out)@ + string_lit_body(s@.skip(from as int)));
        }
    } else {
        proof {
            assert(s@.skip(from as int) =~= Seq::<char>::empty());
            assert(final(out)@ =~= old(out)@ + string_lit_body(s@.skip(from as int)));
        }
    }
}

/// Appends the body of a string literal for the whole text `s`.
pub fn push_string_lit_body_pub(out: &mut String, s: &str)
    ensures
        final(out)@ == old(out)@ + string_lit_body(s@),
{
    let len = s.unicode_len();
    push_string_lit_body(out, s, 0, len);
    proof {
        assert(s@.skip(0) =~= s@);
    }
}

/// The rendered text of a string literal for `s`.
pub fn string_lit(s: &str) -> (r: String)
    ensures
        r@ == string_lit_text(s@),
{
    let mut out = String::new();
    push_char(&mut out, '"');
    let len = s.unicode_len();
    push_string_lit_body(&mut out, s, 0, len);
    push_char(&mut out, '"');
    proof {
        assert(s@.skip(0) =~= s@);
        assert(out@ =~= string_lit_text(s@));
    }
    out
}

/// The rendered text of a character literal for `c`.
pub fn char_lit(c: char) -> (r: String)
    ensures
        r@ == char_lit_text(c),
{
    let mut out = String::new();
    push_char(&mut out, '\'');
    if c == '"' {
        push_char(&mut out, c);
    } else {
        push_escape_char_default(&mut out, c);
    }
    push_char(&mut out, '\'');
    proof {
        assert(out@ =~= char_lit_text(c));
    }
    out
}

/// The rendered text of a byte-string literal for `bs`.
pub fn byte_string_lit(bs: &[u8]) -> (r: String)
    ensures
        r@ == byte_string_lit_text(bs@),
{
    let mut out = String::new();
    push_char(&mut out, 'b');
    push_char(&mut out, '"');
    let len = bs.len();
    let mut i: usize = 0;
    while i < len
        invariant
            len == bs@.len(),
            i <= len,
            out@ == seq!['b', '"'] + byte_string_lit_body(bs@.subrange(0, i as int)),
        decreases len - i,
    {
        push_byte_escape(&mut out, bs[i]);
        proof {
            lemma_byte_string_body_push(bs@.subrange(0, i as int), bs@[i as int]);
            assert(bs@.subrange(0, i + 1 as int) =~= bs@.subrange(0, i as int).push(
                bs@[i as int],
            ));
        }
        i += 1;
    }
    push_char(&mut out, '"');
    proof {
        assert(bs@.subrange(0, len as int) =~= bs@);
        assert(out@ =~= byte_string_lit_text(bs@));
    }
    out
}

proof fn lemma_byte_string_body_push(bs: Seq<u8>, b: u8)
    ensures
        byte_string_lit_body(bs.push(b)) == byte_string_lit_body(bs) + byte_escape(b),
    decreases bs.len(),
{
    if bs.len() == 0 {
        assert(bs.push(b)[0] == b);
        assert(bs.push(b).drop_first() =~= Seq::<u8>::empty());
        assert(byte_string_lit_body(bs.push(b)) == byte_escape(b) + byte_string_lit_body(
            Seq::<u8>::empty(),
        ));
        assert(byte_string_lit_body(bs.push(b)) =~= byte_string_lit_body(bs) + byte_escape(b));
    } else {
        assert(bs.push(b)[0] == bs[0]);
        assert(bs.push(b).drop_first() =~= bs.drop_first().push(b));
        lemma_byte_string_body_push(bs.drop_first(), b);
        assert(byte_string_lit_body(bs.push(b)) == byte_escape(bs[0]) + byte_string_lit_body(
            bs.drop_first().push(b),
        ));
        assert(byte_string_lit_body(bs) == byte_escape(bs[0]) + byte_string_lit_body(
            bs.drop_first(),
        ));
        assert(byte_string_lit_body(bs.push(b)) =~= byte_string_lit_body(bs) + byte_escape(b));
    }
}

// ---------------------------------------------------------------------------
// Escaped text is plain ASCII.
// ---------------------------------------------------------------------------

proof fn lemma_ascii_chars_concat(a: Seq<char>, b: Seq<char>)
    requires
        vstd::utf8::is_ascii_chars(a),
        vstd::utf8::is_ascii_chars(b),
    ensures
        vstd::utf8::is_ascii_chars(a + b),
{
    assert forall|k: int| 0 <= k < (a + b).len() implies '\0' <= #[trigger] (a + b)[k]
        <= '\u{7f}' by {
        if k < a.len() {
            assert((a + b)[k] == a[k]);
        } else {
            assert((a + b)[k] == b[k - a.len()]);
        }
    };
}

proof fn lemma_hex_lower_ascii(n: nat)
    ensures
        vstd::utf8::is_ascii_chars(hex_digits_lower(n)),
    decreases n,
{
    if n >= 16 {
        lemma_hex_lower_ascii(n / 16);
        assert forall|k: int|
            0 <= k < hex_digits_lower(n).len() implies '\0' <= #[trigger] hex_digits_lower(n)[k]
            <= '\u{7f}' by {
            if k < hex_digits_lower(n / 16).len() {
                assert(hex_digits_lower(n)[k] == hex_digits_lower(n / 16)[k]);
            } else {
                assert(hex_digits_lower(n)[k] == hex_char_lower(n % 16));
            }
        };
    } else {
        assert('\0' <= hex_char_lower(n) <= '\u{7f}');
    }
}

/// The default escape of any character is ASCII text.
pub proof fn lemma_escape_char_ascii(c: char)
    ensures
        vstd::utf8::is_ascii_chars(escape_char_default(c)),
{
    if c == '\t' || c == '\r' || c == '\n' || c == '\\' || c == '\'' || c == '"' {
    } else if ' ' <= c && c <= '~' {
    } else {
        lemma_hex_lower_ascii(c as u32 as nat);
        lemma_ascii_chars_concat(seq!['\\', 'u', '{'], hex_digits_lower(c as u32 as nat));
        lemma_ascii_chars_concat(
            seq!['\\', 'u', '{'] + hex_digits_lower(c as u32 as nat),
            seq!['}'],
        );
    }
}

/// The rendered text of a string literal is ASCII.
pub proof fn lemma_string_lit_text_ascii(s: Seq<char>)
    ensures
        vstd::utf8::is_ascii_chars(string_lit_text(s)),
{
    lemma_string_lit_body_ascii(s);
    lemma_ascii_chars_concat(seq!['"'], string_lit_body(s));
    lemma_ascii_chars_concat(seq!['"'] + string_lit_body(s), seq!['"']);
    assert(string_lit_text(s) =~= (seq!['"'] + string_lit_body(s)) + seq!['"']);
}

proof fn lemma_string_lit_body_ascii(s: Seq<char>)
    ensures
        vstd::utf8::is_ascii_chars(string_lit_body(s)),
    decreases s.len(),
{
    if s.len() > 0 {
        lemma_string_lit_body_ascii(s.drop_first());
        let head: Seq<char> = if s[0] == '\'' {
            seq![s[0]]
        } else {
            escape_char_default(s[0])
        };
        if s[0] != '\'' {
            lemma_escape_char_ascii(s[0]);
        }
        lemma_ascii_chars_concat(head, string_lit_body(s.drop_first()));
    }
}

/// The rendered text of a character literal is ASCII.
pub proof fn lemma_char_lit_text_ascii(c: char)
    ensures
        vstd::utf8::is_ascii_chars(char_lit_text(c)),
{
    let body: Seq<char> = if c == '"' {
        seq![c]
    } else {
        escape_char_default(c)
    };
    if c != '"' {
        lemma_escape_char_ascii(c);
    }
    lemma_ascii_chars_concat(seq!['\''], body);
    lemma_ascii_chars_concat(seq!['\''] + body, seq!['\'']);
    assert(char_lit_text(c) =~= (seq!['\''] + body) + seq!['\'']);
}

/// The rendered text of a byte-string literal is ASCII.
pub proof fn lemma_byte_string_lit_text_ascii(bs: Seq<u8>)
    ensures
        vstd::utf8::is_ascii_chars(byte_string_lit_text(bs)),
{
    lemma_byte_string_lit_body_ascii(bs);
    lemma_ascii_chars_concat(seq!['b', '"'], byte_string_lit_body(bs));
    lemma_ascii_chars_concat(seq!['b', '"'] + byte_string_lit_body(bs), seq!['"']);
    assert(byte_string_lit_text(bs) =~= (seq!['b', '"'] + byte_string_lit_body(bs)) + seq!['"']);
}

proof fn lemma_byte_string_lit_body_ascii(bs: Seq<u8>)
    ensures
        vstd::utf8::is_ascii_chars(byte_string_lit_body(bs)),
    decreases bs.len(),
{
    if bs.len() > 0 {
        lemma_byte_string_lit_body_ascii(bs.drop_first());
        assert(vstd::utf8::is_ascii_chars(byte_escape(bs[0]))) by {
            let b = bs[0];
            if b == 0 || b == 9 || b == 10 || b == 13 || b == 34 || b == 92 {
            } else if 0x20 <= b && b <= 0x7E {
                assert('\0' <= (b as char) <= '\u{7f}');
            } else {
                assert('\0' <= hex_char_upper((b / 16) as nat) <= '\u{7f}');
                assert('\0' <= hex_char_upper((b % 16) as nat) <= '\u{7f}');
            }
        };
        lemma_ascii_chars_concat(byte_escape(bs[0]), byte_string_lit_body(bs.drop_first()));
    }
}

/// Sixteen to the `k`-th power.
pub open spec fn sixteen_to(k: nat) -> nat
    decreases k,
{
    if k == 0 {
        1
    } else {
        16 * sixteen_to((k - 1) as nat)
    }
}

/// A value below `16^k` has at most `k` hex digits.
pub proof fn lemma_hex_lower_len(n: nat, k: nat)
    requires
        1 <= k,
        n < sixteen_to(k),
    ensures
        hex_digits_lower(n).len() <= k,
    decreases k,
{
    if n < 16 {
    } else {
        if k == 1 {
            assert(sixteen_to(1) == 16);
            assert(false);
        }
        assert(sixteen_to(k) == 16 * sixteen_to((k - 1) as nat));
        assert(n / 16 < sixteen_to((k - 1) as nat)) by (nonlinear_arith)
            requires
                n < 16 * sixteen_to((k - 1) as nat),
        ;
        lemma_hex_lower_len(n / 16, (k - 1) as nat);
    }
}

/// The default escape of one character is at most ten characters long.
pub proof fn lemma_escape_char_len(c: char)
    ensures
        escape_char_default(c).len() <= 10,
{
    if c == '\t' || c == '\r' || c == '\n' || c == '\\' || c == '\'' || c == '"' {
    } else if ' ' <= c && c <= '~' {
    } else {
        vstd::utf8::char_is_scalar(c);
        assert((c as u32 as nat) < sixteen_to(6)) by {
            reveal_with_fuel(sixteen_to, 7);
        };
        lemma_hex_lower_len(c as u32 as nat, 6);
    }
}

} // verus!
