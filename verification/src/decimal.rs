//! Fixed-width decimal text, as used by the container footer.

use vstd::prelude::*;

verus! {

/// ASCII code of the digit `0`.
pub const ASCII_ZERO: u8 = 48;

/// ASCII code of the digit `9`.
pub const ASCII_NINE: u8 = 57;

/// Ten to the power `k`.
pub open spec fn pow10(k: nat) -> nat
    decreases k,
{
    if k == 0 {
        1
    } else {
        10 * pow10((k - 1) as nat)
    }
}

/// The `width` lowest decimal digits of `n` in ASCII, most significant digit
/// first, padded with zeros on the left.
pub open spec fn decimal(n: nat, width: nat) -> Seq<u8>
    decreases width,
{
    if width == 0 {
        Seq::empty()
    } else {
        decimal(n / 10, (width - 1) as nat).push((ASCII_ZERO + n % 10) as u8)
    }
}

/// Whether `b` is an ASCII decimal digit.
pub open spec fn is_digit(b: u8) -> bool {
    ASCII_ZERO <= b <= ASCII_NINE
}

/// Whether every byte of `s` is an ASCII decimal digit.
pub open spec fn all_digits(s: Seq<u8>) -> bool {
    forall|i: int| 0 <= i < s.len() ==> is_digit(#[trigger] s[i])
}

/// The number that the decimal digits `s` spell. Meaningful where
/// `all_digits(s)` holds.
pub open spec fn digits_value(s: Seq<u8>) -> nat
    decreases s.len(),
{
    if s.len() == 0 {
        0
    } else {
        digits_value(s.drop_last()) * 10 + (s.last() - ASCII_ZERO) as nat
    }
}

/// `decimal(n, width)` has exactly `width` bytes, all of them digits.
pub proof fn lemma_decimal_shape(n: nat, width: nat)
    ensures
        decimal(n, width).len() == width,
        all_digits(decimal(n, width)),
    decreases width,
{
    if width > 0 {
        lemma_decimal_shape(n / 10, (width - 1) as nat);
    }
}

/// A number below `10^width` is read back unchanged from its `width` digits.
pub proof fn lemma_decimal_round_trip(n: nat, width: nat)
    requires
        n < pow10(width),
    ensures
        digits_value(decimal(n, width)) == n,
    decreases width,
{
    if width > 0 {
        let w = (width - 1) as nat;
        let d = decimal(n, width);
        assert(n / 10 < pow10(w));
        lemma_decimal_round_trip(n / 10, w);
        assert(d.drop_last() =~= decimal(n / 10, w));
        assert(d.last() == (ASCII_ZERO + n % 10) as u8);
    }
}

/// A string of digits spells a number below `10^len`, and writing that number
/// with `len` digits gives the string back.
pub proof fn lemma_digits_round_trip(s: Seq<u8>)
    requires
        all_digits(s),
    ensures
        digits_value(s) < pow10(s.len()),
        decimal(digits_value(s), s.len()) == s,
    decreases s.len(),
{
    if s.len() > 0 {
        let init = s.drop_last();
        lemma_digits_round_trip(init);
        let v = digits_value(init);
        let d = (s.last() - ASCII_ZERO) as nat;
        assert(is_digit(s[s.len() - 1]));
        assert(d < 10);
        assert((v * 10 + d) / 10 == v && (v * 10 + d) % 10 == d);
        assert(decimal(digits_value(s), s.len()) =~= s);
    } else {
        assert(decimal(digits_value(s), s.len()) =~= s);
    }
}

/// A prefix of a digit string spells a number no larger than the whole string.
pub proof fn lemma_digits_value_prefix(s: Seq<u8>, k: int)
    requires
        all_digits(s),
        0 <= k <= s.len(),
    ensures
        digits_value(s.take(k)) <= digits_value(s),
    decreases s.len() - k,
{
    if k == s.len() {
        assert(s.take(k) =~= s);
    } else {
        lemma_digits_value_prefix(s, k + 1);
        let t = s.take(k + 1);
        assert(t.drop_last() =~= s.take(k));
        assert(is_digit(s[k]));
    }
}

/// Appends `decimal(n, width)` to `out`.
pub fn push_decimal(out: &mut Vec<u8>, n: u64, width: usize)
    ensures
        final(out)@ == old(out)@ + decimal(n as nat, width as nat),
    decreases width,
{
    if width > 0 {
        push_decimal(out, n / 10, width - 1);
        let digit: u8 = (n % 10) as u8;
        out.push(ASCII_ZERO + digit);
        assert(final(out)@ =~= old(out)@ + decimal(n as nat, width as nat));
    } else {
        assert(final(out)@ =~= old(out)@ + decimal(n as nat, width as nat));
    }
}

/// Reads an unsigned decimal number. Succeeds exactly when every byte is a
/// digit and the number fits in 64 bits; the empty string reads as zero.
pub fn parse_decimal(bytes: &[u8]) -> (r: Option<u64>)
    ensures
        r is Some <==> all_digits(bytes@) && digits_value(bytes@) <= u64::MAX,
        r is Some ==> r->0 == digits_value(bytes@),
{
    let mut value: u64 = 0;
    let mut i: usize = 0;
    while i < bytes.len()
        invariant
            0 <= i <= bytes.len(),
            all_digits(bytes@.take(i as int)),
            value == digits_value(bytes@.take(i as int)),
        decreases bytes.len() - i,
    {
        let b = bytes[i];
        let ghost next = bytes@.take(i + 1);
        proof {
            assert(next.drop_last() =~= bytes@.take(i as int));
            assert(next.last() == b);
        }
        if b < ASCII_ZERO || b > ASCII_NINE {
            proof {
                assert(!is_digit(bytes@[i as int]));
            }
            return None;
        }
        let d: u64 = (b - ASCII_ZERO) as u64;
        if value > (u64::MAX - d) / 10 {
            proof {
                assert(digits_value(next) > u64::MAX);
                if all_digits(bytes@) {
                    lemma_digits_value_prefix(bytes@, i + 1);
                }
            }
            return None;
        }
        value = value * 10 + d;
        i = i + 1;
        proof {
            assert forall|j: int| 0 <= j < next.len() implies is_digit(#[trigger] next[j]) by {
                if j < i - 1 {
                    assert(next[j] == bytes@.take(i - 1)[j]);
                }
            }
        }
    }
    proof {
        assert(bytes@.take(i as int) =~= bytes@);
    }
    Some(value)
}

} // verus!
