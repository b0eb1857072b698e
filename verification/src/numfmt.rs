//! Decimal rendering of the integer values literal factories accept.

use vstd::prelude::*;
use crate::strext::push_char;

verus! {

/// The character for one decimal digit value.
pub open spec fn digit_char(d: nat) -> char
    recommends
        d < 10,
{
    ((d + 48) as u8) as char
}

/// The decimal digits of `n`, most significant first, no leading zeros
/// (a single `'0'` for zero).
pub open spec fn dec_digits(n: nat) -> Seq<char>
    decreases n,
{
    if n < 10 {
        seq![digit_char(n)]
    } else {
        dec_digits(n / 10).push(digit_char(n % 10))
    }
}

/// The decimal rendering of a signed value: a `'-'` before the digits of the
/// magnitude when negative.
pub open spec fn dec_int(n: int) -> Seq<char> {
    if n >= 0 {
        dec_digits(n as nat)
    } else {
        seq!['-'] + dec_digits((-n) as nat)
    }
}

/// Appends the decimal digits of `n`.
pub fn push_dec_u128(out: &mut String, n: u128)
    ensures
        final(out)@ == old(out)@ + dec_digits(n as nat),
    decreases n,
{
    if n >= 10 {
        push_dec_u128(out, n / 10);
    }
    let d: u8 = (n % 10) as u8;
    let c: char = (48u8 + d) as char;
    proof {
        assert(48u8 + d == ((n % 10) as nat + 48) as u8);
    }
    push_char(out, c);
    proof {
        if n < 10 {
            assert(old(out)@ + dec_digits(n as nat) =~= old(out)@.push(c));
        } else {
            assert(old(out)@ + dec_digits(n as nat) =~= (old(out)@ + dec_digits(
                (n / 10) as nat,
            )).push(c));
        }
    }
}

/// The signed value that a 128-bit pattern denotes in two's complement.
pub open spec fn i128_val(n: nat) -> int {
    if n < 0x80000000000000000000000000000000 {
        n as int
    } else {
        n - 0x100000000000000000000000000000000
    }
}

/// Appends the signed decimal rendering of a 128-bit pattern read in two's
/// complement.
pub fn push_dec_i128_pattern(out: &mut String, n: u128)
    ensures
        final(out)@ == old(out)@ + dec_int(i128_val(n as nat)),
{
    if n < 0x80000000000000000000000000000000u128 {
        push_dec_u128(out, n);
    } else {
        push_char(out, '-');
        let m: u128 = (u128::MAX - n) + 1;
        proof {
            assert(m as int == -(i128_val(n as nat)));
        }
        push_dec_u128(out, m);
        proof {
            assert(old(out)@ + dec_int(i128_val(n as nat)) =~= old(out)@.push('-') + dec_digits(
                m as nat,
            ));
        }
    }
}

/// Appends the decimal rendering of a signed value.
pub fn push_dec_i128(out: &mut String, n: i128)
    ensures
        final(out)@ == old(out)@ + dec_int(n as int),
{
    if n >= 0 {
        push_dec_u128(out, n as u128);
    } else {
        push_char(out, '-');
        let m: u128 = ((-(n + 1)) as u128) + 1;
        assert(m == -(n as int));
        push_dec_u128(out, m);
        proof {
            assert(old(out)@ + dec_int(n as int) =~= old(out)@.push('-') + dec_digits(m as nat));
        }
    }
}

/// Ten to the `k`-th power.
pub open spec fn ten_to(k: nat) -> nat
    decreases k,
{
    if k == 0 {
        1
    } else {
        10 * ten_to((k - 1) as nat)
    }
}

/// A value below `10^k` has at most `k` decimal digits.
pub proof fn lemma_dec_digits_len(n: nat, k: nat)
    requires
        1 <= k,
        n < ten_to(k),
    ensures
        dec_digits(n).len() <= k,
    decreases k,
{
    if n < 10 {
    } else {
        if k == 1 {
            assert(ten_to(1) == 10);
            assert(false);
        }
        assert(ten_to(k) == 10 * ten_to((k - 1) as nat));
        assert(n / 10 < ten_to((k - 1) as nat)) by (nonlinear_arith)
            requires
                n < 10 * ten_to((k - 1) as nat),
        ;
        lemma_dec_digits_len(n / 10, (k - 1) as nat);
    }
}

/// A 128-bit value renders in at most 39 decimal digits.
pub proof fn lemma_dec_digits_len_u128(n: nat)
    requires
        n < 0x100000000000000000000000000000000,
    ensures
        dec_digits(n).len() <= 39,
{
    assert(n < ten_to(39)) by {
        reveal_with_fuel(ten_to, 40);
    };
    lemma_dec_digits_len(n, 39);
}

/// Decimal renderings are plain ASCII text.
pub proof fn lemma_dec_digits_ascii(n: nat)
    ensures
        vstd::utf8::is_ascii_chars(dec_digits(n)),
    decreases n,
{
    if n >= 10 {
        lemma_dec_digits_ascii(n / 10);
        assert forall|k: int|
            0 <= k < dec_digits(n).len() implies '\0' <= #[trigger] dec_digits(n)[k]
            <= '\u{7f}' by {
            if k < dec_digits(n / 10).len() {
                assert(dec_digits(n)[k] == dec_digits(n / 10)[k]);
            } else {
                assert(dec_digits(n)[k] == digit_char(n % 10));
            }
        };
    } else {
        assert('\0' <= digit_char(n) <= '\u{7f}');
    }
}

/// Signed decimal renderings are plain ASCII text.
pub proof fn lemma_dec_int_ascii(n: int)
    ensures
        vstd::utf8::is_ascii_chars(dec_int(n)),
{
    if n >= 0 {
        lemma_dec_digits_ascii(n as nat);
    } else {
        lemma_dec_digits_ascii((-n) as nat);
        assert forall|k: int| 0 <= k < dec_int(n).len() implies '\0' <= #[trigger] dec_int(n)[k]
            <= '\u{7f}' by {
            if k == 0 {
                assert(dec_int(n)[0] == '-');
            } else {
                assert(dec_int(n)[k] == dec_digits((-n) as nat)[k - 1]);
            }
        };
    }
}

} // verus!
