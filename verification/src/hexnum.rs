//! Fixed-width hexadecimal and decimal text, as the kernel's TCP tables and
//! `/proc` names use it: spec-level readings of digit strings, executable
//! parsers proved against them, and the uppercase hex encoder that the
//! round-trip facts are stated over.

use vstd::prelude::*;

verus! {

/// `b` is an ASCII hex digit, either case.
pub open spec fn is_hex_digit(b: u8) -> bool {
    (48 <= b <= 57) || (97 <= b <= 102) || (65 <= b <= 70)
}

/// `b` is an ASCII digit or an uppercase hex letter, the form the kernel
/// tables print.
pub open spec fn is_upper_hex_digit(b: u8) -> bool {
    (48 <= b <= 57) || (65 <= b <= 70)
}

/// Numeric value of one hex digit.
pub open spec fn hex_digit_value(b: u8) -> nat {
    if 48 <= b <= 57 {
        (b - 48) as nat
    } else if 97 <= b <= 102 {
        (b - 87) as nat
    } else if 65 <= b <= 70 {
        (b - 55) as nat
    } else {
        0
    }
}

/// Every byte of `s` is a hex digit.
pub open spec fn all_hex(s: Seq<u8>) -> bool {
    forall|i: int| 0 <= i < s.len() ==> is_hex_digit(s[i])
}

/// Every byte of `s` is a digit or uppercase hex letter.
pub open spec fn all_upper_hex(s: Seq<u8>) -> bool {
    forall|i: int| 0 <= i < s.len() ==> is_upper_hex_digit(s[i])
}

/// Value of `s` read as big-endian hex digits.
pub open spec fn hex_value(s: Seq<u8>) -> nat
    decreases s.len(),
{
    if s.len() == 0 {
        0
    } else {
        hex_value(s.drop_last()) * 16 + hex_digit_value(s.last())
    }
}

/// 16 to the power `n`.
pub open spec fn pow16(n: nat) -> nat
    decreases n,
{
    if n == 0 {
        1
    } else {
        16 * pow16((n - 1) as nat)
    }
}

/// A string of `n` hex digits reads as a value below `pow16(n)`.
pub proof fn lemma_hex_value_bound(s: Seq<u8>)
    ensures
        hex_value(s) < pow16(s.len()),
    decreases s.len(),
{
    if s.len() > 0 {
        lemma_hex_value_bound(s.drop_last());
        assert(hex_digit_value(s.last()) < 16);
    }
}

/// `pow16` is monotone.
pub proof fn lemma_pow16_monotone(a: nat, b: nat)
    requires
        a <= b,
    ensures
        pow16(a) <= pow16(b),
    decreases b,
{
    if a < b {
        lemma_pow16_monotone(a, (b - 1) as nat);
        assert(pow16(b) == 16 * pow16((b - 1) as nat));
    }
}

/// `b` is an ASCII decimal digit.
pub open spec fn is_dec_digit(b: u8) -> bool {
    48 <= b <= 57
}

/// Every byte of `s` is a decimal digit.
pub open spec fn all_dec(s: Seq<u8>) -> bool {
    forall|i: int| 0 <= i < s.len() ==> is_dec_digit(s[i])
}

/// Value of `s` read as big-endian decimal digits.
pub open spec fn dec_value(s: Seq<u8>) -> nat
    decreases s.len(),
{
    if s.len() == 0 {
        0
    } else {
        dec_value(s.drop_last()) * 10 + (if is_dec_digit(s.last()) {
            (s.last() - 48) as nat
        } else {
            0
        })
    }
}

/// A decimal reading never shrinks when digits are appended.
pub proof fn lemma_dec_value_prefix(s: Seq<u8>, j: int)
    requires
        0 <= j <= s.len(),
    ensures
        dec_value(s.take(j)) <= dec_value(s),
    decreases s.len(),
{
    if j < s.len() {
        assert(s.drop_last().take(j) =~= s.take(j));
        lemma_dec_value_prefix(s.drop_last(), j);
    } else {
        assert(s.take(j) =~= s);
    }
}

/// Reads one hex digit; `None` exactly on a byte that is no hex digit.
pub fn hex_digit(b: u8) -> (r: Option<u8>)
    ensures
        r is Some <==> is_hex_digit(b),
        r is Some ==> r->0 == hex_digit_value(b) && r->0 < 16,
{
    if 48 <= b && b <= 57 {
        Some(b - 48)
    } else if 97 <= b && b <= 102 {
        Some(b - 87)
    } else if 65 <= b && b <= 70 {
        Some(b - 55)
    } else {
        None
    }
}

/// Reads up to 32 hex digits, big-endian; `None` exactly when some byte is
/// no hex digit.
pub fn parse_hex_u128(s: &[u8]) -> (r: Option<u128>)
    requires
        s@.len() <= 32,
    ensures
        r is Some <==> all_hex(s@),
        r is Some ==> r->0 == hex_value(s@),
{
    let mut acc: u128 = 0;
    let mut i: usize = 0;
    while i < s.len()
        invariant
            0 <= i <= s@.len() <= 32,
            all_hex(s@.take(i as int)),
            acc == hex_value(s@.take(i as int)),
        decreases s@.len() - i,
    {
        let d: Option<u8> = hex_digit(s[i]);
        match d {
            None => {
                assert(!is_hex_digit(s@[i as int]));
                return None;
            },
            Some(v) => {
                proof {
                    lemma_hex_value_bound(s@.take(i as int));
                    lemma_pow16_monotone((i as nat) + 1, 32);
                    assert(pow16(32) == 0x1_0000_0000_0000_0000_0000_0000_0000_0000) by {
                        reveal_with_fuel(pow16, 33);
                    };
                    assert(s@.take(i + 1).drop_last() =~= s@.take(i as int));
                    assert(s@.take(i + 1).last() == s@[i as int]);
                }
                acc = acc * 16 + (v as u128);
                i = i + 1;
            },
        }
    }
    proof {
        assert(s@.take(i as int) =~= s@);
    }
    Some(acc)
}

/// Reads a non-empty run of decimal digits as a `u64`; `None` exactly when
/// `s` is empty, holds a non-digit, or reads over `u64::MAX`.
pub fn parse_dec_u64(s: &[u8]) -> (r: Option<u64>)
    ensures
        r is Some <==> (s@.len() > 0 && all_dec(s@) && dec_value(s@) <= u64::MAX),
        r is Some ==> r->0 == dec_value(s@),
{
    if s.len() == 0 {
        return None;
    }
    let mut acc: u64 = 0;
    let mut i: usize = 0;
    while i < s.len()
        invariant
            0 <= i <= s@.len(),
            s@.len() > 0,
            all_dec(s@.take(i as int)),
            acc == dec_value(s@.take(i as int)),
        decreases s@.len() - i,
    {
        let b: u8 = s[i];
        if !(48 <= b && b <= 57) {
            assert(!is_dec_digit(s@[i as int]));
            return None;
        }
        let d: u64 = (b - 48) as u64;
        proof {
            assert(s@.take(i + 1).drop_last() =~= s@.take(i as int));
            assert(s@.take(i + 1).last() == s@[i as int]);
        }
        if acc > (u64::MAX - d) / 10 {
            proof {
                assert(dec_value(s@.take(i + 1)) == acc * 10 + d);
                assert(acc * 10 + d > u64::MAX) by {
                    assert(acc >= (u64::MAX - d) / 10 + 1);
                    assert(((u64::MAX - d) / 10 + 1) * 10 + d > u64::MAX) by (nonlinear_arith)
                        requires
                            d <= 9,
                    ;
                    assert(acc * 10 >= ((u64::MAX - d) / 10 + 1) * 10) by (nonlinear_arith)
                        requires
                            acc >= (u64::MAX - d) / 10 + 1,
                    ;
                };
                lemma_dec_value_prefix(s@, i + 1);
            }
            return None;
        }
        proof {
            assert(acc * 10 + d <= u64::MAX) by (nonlinear_arith)
                requires
                    acc <= (u64::MAX - d) / 10,
                    d <= 9,
            ;
        }
        acc = acc * 10 + d;
        i = i + 1;
    }
    proof {
        assert(s@.take(i as int) =~= s@);
    }
    Some(acc)
}

/// The uppercase hex digit standing for `v`.
pub open spec fn upper_hex_digit_of(v: nat) -> u8 {
    if v < 10 {
        (48 + v) as u8
    } else {
        (55 + v) as u8
    }
}

/// The `n` big-endian uppercase hex digits of `v mod pow16(n)`.
pub open spec fn hex_encode(v: nat, n: nat) -> Seq<u8>
    decreases n,
{
    if n == 0 {
        Seq::empty()
    } else {
        hex_encode(v / 16, (n - 1) as nat).push(upper_hex_digit_of(v % 16))
    }
}

/// An encoding has exactly `n` digits.
pub proof fn lemma_hex_encode_len(v: nat, n: nat)
    ensures
        hex_encode(v, n).len() == n,
    decreases n,
{
    if n > 0 {
        lemma_hex_encode_len(v / 16, (n - 1) as nat);
    }
}

/// Every byte of an encoding is a digit or uppercase hex letter.
pub proof fn lemma_hex_encode_upper(v: nat, n: nat)
    ensures
        all_upper_hex(hex_encode(v, n)),
        all_hex(hex_encode(v, n)),
    decreases n,
{
    lemma_hex_encode_len(v, n);
    if n > 0 {
        lemma_hex_encode_upper(v / 16, (n - 1) as nat);
        let s = hex_encode(v, n);
        assert(forall|i: int| 0 <= i < n - 1 ==> s[i] == hex_encode(v / 16, (n - 1) as nat)[i]);
        assert(is_upper_hex_digit(upper_hex_digit_of(v % 16)));
    }
}

/// Reading an encoding back gives the value: decode of encode.
pub proof fn lemma_hex_value_of_encode(v: nat, n: nat)
    requires
        v < pow16(n),
    ensures
        hex_value(hex_encode(v, n)) == v,
    decreases n,
{
    if n == 0 {
        assert(v == 0);
    } else {
        lemma_hex_encode_len(v / 16, (n - 1) as nat);
        assert(v / 16 < pow16((n - 1) as nat)) by {
            assert(pow16(n) == 16 * pow16((n - 1) as nat));
        };
        lemma_hex_value_of_encode(v / 16, (n - 1) as nat);
        let s = hex_encode(v, n);
        assert(s.drop_last() =~= hex_encode(v / 16, (n - 1) as nat));
        assert(hex_digit_value(upper_hex_digit_of(v % 16)) == v % 16);
    }
}

/// Encoding a reading gives the text back, digit for digit, whenever the
/// text is uppercase hex: encode of decode.
pub proof fn lemma_hex_encode_of_value(s: Seq<u8>)
    requires
        all_upper_hex(s),
    ensures
        hex_encode(hex_value(s), s.len()) == s,
    decreases s.len(),
{
    if s.len() > 0 {
        let s0 = s.drop_last();
        assert(all_upper_hex(s0)) by {
            assert(forall|i: int| 0 <= i < s0.len() ==> s0[i] == s[i]);
        };
        lemma_hex_encode_of_value(s0);
        let v = hex_value(s);
        assert(v == hex_value(s0) * 16 + hex_digit_value(s.last()));
        assert(hex_digit_value(s.last()) < 16);
        assert(v / 16 == hex_value(s0) && v % 16 == hex_digit_value(s.last())) by (nonlinear_arith)
            requires
                v == hex_value(s0) * 16 + hex_digit_value(s.last()),
                hex_digit_value(s.last()) < 16,
        ;
        assert(upper_hex_digit_of(hex_digit_value(s.last())) == s.last()) by {
            assert(is_upper_hex_digit(s.last()));
        };
        assert(hex_encode(v, s.len()) =~= s);
    }
}

/// Appends the `n` big-endian uppercase hex digits of `v` to `out`.
pub fn hex_push(v: u128, n: usize, out: &mut Vec<u8>)
    requires
        n <= 32,
    ensures
        final(out)@ == old(out)@ + hex_encode(v as nat, n as nat),
    decreases n,
{
    if n == 0 {
        assert(out@ =~= old(out)@ + hex_encode(v as nat, 0));
    } else {
        hex_push(v / 16, n - 1, out);
        let d: u128 = v % 16;
        let c: u8 = if d < 10 {
            48 + (d as u8)
        } else {
            55 + (d as u8)
        };
        assert(c == upper_hex_digit_of((v as nat) % 16));
        out.push(c);
        assert(out@ =~= old(out)@ + hex_encode(v as nat, n as nat));
    }
}

} // verus!
