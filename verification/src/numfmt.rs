//! Decimal text for 64-bit integers: parsing register input and rendering
//! register output as bytes.

use vstd::prelude::*;

verus! {

/// An ASCII decimal digit.
pub open spec fn is_digit(b: u8) -> bool {
    48 <= b <= 57
}

/// Every byte of `s` is a decimal digit.
pub open spec fn all_digits(s: Seq<u8>) -> bool {
    forall|i: int| 0 <= i < s.len() ==> is_digit(#[trigger] s[i])
}

/// The value of the digit string `s`, most significant digit first.
pub open spec fn digits_val(s: Seq<u8>) -> int
    decreases s.len(),
{
    if s.len() == 0 {
        0
    } else {
        digits_val(s.drop_last()) * 10 + (s.last() - 48)
    }
}

/// `s` is a decimal integer literal: one or more digits, optionally behind
/// a single leading minus sign.
pub open spec fn is_int_literal(s: Seq<u8>) -> bool {
    if s.len() > 0 && s[0] == 45 {
        s.len() > 1 && all_digits(s.skip(1))
    } else {
        s.len() > 0 && all_digits(s)
    }
}

/// The mathematical value of the literal `s`.
pub open spec fn int_literal_val(s: Seq<u8>) -> int {
    if s.len() > 0 && s[0] == 45 {
        -digits_val(s.skip(1))
    } else {
        digits_val(s)
    }
}

/// The decimal digits of `n`, most significant first; empty for zero.
pub open spec fn u_dec(n: nat) -> Seq<u8>
    decreases n,
{
    if n == 0 {
        Seq::empty()
    } else {
        u_dec(n / 10) + seq![(48 + n % 10) as u8]
    }
}

/// The decimal rendering of `v`: digits behind a minus sign when negative,
/// and the single digit `0` for zero.
pub open spec fn dec_repr(v: int) -> Seq<u8> {
    if v == 0 {
        seq![48u8]
    } else if v > 0 {
        u_dec(v as nat)
    } else {
        seq![45u8] + u_dec((-v) as nat)
    }
}

proof fn lemma_digits_val_nonneg(s: Seq<u8>)
    requires
        all_digits(s),
    ensures
        digits_val(s) >= 0,
    decreases s.len(),
{
    if s.len() > 0 {
        assert(all_digits(s.drop_last()));
        lemma_digits_val_nonneg(s.drop_last());
    }
}

/// Extending a digit string cannot decrease its value.
proof fn lemma_digits_val_step_monotone(s: Seq<u8>, k: int)
    requires
        all_digits(s),
        0 <= k < s.len(),
    ensures
        digits_val(s.take(k + 1)) >= digits_val(s.take(k)),
{
    assert(s.take(k + 1).drop_last() =~= s.take(k));
    assert(all_digits(s.take(k)));
    lemma_digits_val_nonneg(s.take(k));
}

/// A digit string's value never falls as the prefix lengthens.
pub proof fn lemma_digits_val_monotone(s: Seq<u8>, k: int, j: int)
    requires
        all_digits(s),
        0 <= k <= j <= s.len(),
    ensures
        digits_val(s.take(j)) >= digits_val(s.take(k)),
    decreases j - k,
{
    if k < j {
        lemma_digits_val_monotone(s, k, j - 1);
        lemma_digits_val_step_monotone(s, j - 1);
    }
}

/// How a literal relates to its digit part `s.skip(start)`, where `start`
/// is 1 exactly when a minus sign leads.
proof fn lemma_literal_digits(s: Seq<u8>, start: int)
    requires
        0 <= start <= 1,
        start <= s.len(),
        (start == 1) <==> (s.len() > 0 && s[0] == 45),
    ensures
        is_int_literal(s) <==> (s.len() > start && all_digits(s.skip(start))),
        int_literal_val(s) == if start == 1 {
            -digits_val(s.skip(start))
        } else {
            digits_val(s.skip(start))
        },
{
    if start == 0 {
        assert(s.skip(0) =~= s);
    }
}

/// A digit prefix whose value already exceeds the magnitude limit rules the
/// whole literal out of the representable range.
proof fn lemma_too_big(s: Seq<u8>, digits: Seq<u8>, start: int, k: int, v: int, limit: int)
    requires
        0 <= start <= 1,
        start <= s.len(),
        (start == 1) <==> (s.len() > 0 && s[0] == 45),
        digits == s.skip(start),
        0 < k <= digits.len(),
        all_digits(digits.take(k)),
        digits_val(digits.take(k)) == v,
        v > limit,
        limit == if start == 1 {
            0x8000000000000000int
        } else {
            0x7fffffffffffffffint
        },
    ensures
        !(is_int_literal(s) && i64::MIN <= int_literal_val(s) <= i64::MAX),
{
    lemma_literal_digits(s, start);
    if is_int_literal(s) {
        assert(all_digits(digits));
        lemma_digits_val_monotone(digits, k, digits.len() as int);
        assert(digits.take(digits.len() as int) =~= digits);
        assert(digits_val(digits) >= v);
    }
}

/// Parses `s` as a decimal 64-bit integer.  It succeeds exactly on the
/// well-formed literals whose value fits in an `i64`, and then returns that
/// value.
pub fn parse_i64(s: &[u8]) -> (r: Option<i64>)
    ensures
        r is Some <==> is_int_literal(s@) && i64::MIN <= int_literal_val(s@) <= i64::MAX,
        r is Some ==> r->0 == int_literal_val(s@),
{
    let n: usize = s.len();
    if n == 0 {
        return None;
    }
    let neg: bool = *vstd::slice::slice_index_get(s, 0) == 45;
    let start: usize = if neg {
        1
    } else {
        0
    };
    if start == n {
        return None;
    }
    let ghost digits = s@.skip(start as int);
    let limit: u64 = if neg {
        9223372036854775808
    } else {
        9223372036854775807
    };
    let mut acc: u64 = 0;
    let mut i: usize = start;
    while i < n
        invariant
            start <= i <= n,
            n == s@.len(),
            start < n,
            start <= 1,
            neg == (start == 1),
            neg == (s@.len() > 0 && s@[0] == 45),
            digits == s@.skip(start as int),
            all_digits(digits.take(i - start)),
            acc == digits_val(digits.take(i - start)),
            acc <= limit,
            limit == if neg {
                9223372036854775808u64
            } else {
                9223372036854775807u64
            },
        decreases n - i,
    {
        let b = *vstd::slice::slice_index_get(s, i);
        proof {
            assert(digits[i - start] == s@[i as int]);
        }
        if b < 48 || b > 57 {
            proof {
                assert(!is_digit(digits[i - start]));
                lemma_literal_digits(s@, start as int);
            }
            return None;
        }
        let d: u64 = (b - 48) as u64;
        proof {
            assert(digits.take(i - start + 1).drop_last() =~= digits.take(i - start));
            assert(all_digits(digits.take(i - start + 1)));
            assert(digits_val(digits.take(i - start + 1)) == acc * 10 + d);
        }
        if acc > limit / 10 {
            proof {
                lemma_too_big(s@, digits, start as int, i - start + 1, acc * 10 + d, limit as int);
            }
            return None;
        }
        let acc10: u64 = acc * 10;
        if d > limit - acc10 {
            proof {
                lemma_too_big(s@, digits, start as int, i - start + 1, acc * 10 + d, limit as int);
            }
            return None;
        }
        acc = acc10 + d;
        i += 1;
    }
    proof {
        assert(digits.take(digits.len() as int) =~= digits);
        lemma_literal_digits(s@, start as int);
        lemma_digits_val_nonneg(digits);
    }
    if neg {
        if acc == 9223372036854775808 {
            Some(i64::MIN)
        } else {
            Some(-(acc as i64))
        }
    } else {
        Some(acc as i64)
    }
}

/// Renders `v` as decimal bytes: the exact text a user expects to see for
/// the register value, e.g. `-12` as the bytes `b"-12"`.
pub fn dec_bytes(v: i64) -> (r: Vec<u8>)
    ensures
        r@ == dec_repr(v as int),
{
    if v == 0 {
        let mut r: Vec<u8> = Vec::new();
        r.push(48);
        proof {
            assert(r@ =~= dec_repr(0));
        }
        return r;
    }
    let neg: bool = v < 0;
    let mut mag: u64 = if v >= 0 {
        v as u64
    } else {
        ((-(v + 1)) as u64) + 1
    };
    let ghost mag0 = mag as nat;
    proof {
        assert(mag0 == if v >= 0 {
            v as int
        } else {
            -(v as int)
        });
    }
    let mut tmp: Vec<u8> = Vec::new();
    while mag > 0
        invariant
            u_dec(mag0) =~= u_dec(mag as nat) + tmp@.reverse(),
            mag == 0 ==> tmp@.len() > 0,
            mag0 > 0,
        decreases mag,
    {
        let d: u8 = (mag % 10) as u8 + 48;
        let ghost prev = tmp@;
        let ghost prev_mag = mag as nat;
        tmp.push(d);
        mag = mag / 10;
        proof {
            assert(tmp@ =~= prev.push(d));
            assert(tmp@.reverse() =~= seq![d] + prev.reverse());
            assert(u_dec(prev_mag) =~= u_dec(prev_mag / 10) + seq![d]);
            assert(u_dec(mag as nat) + tmp@.reverse() =~= (u_dec(prev_mag / 10) + seq![d])
                + prev.reverse());
            assert((u_dec(prev_mag / 10) + seq![d]) + prev.reverse() =~= u_dec(prev_mag)
                + prev.reverse());
        }
    }
    let ghost digits = tmp@;
    proof {
        assert(u_dec(mag0) =~= digits.reverse());
    }
    let mut r: Vec<u8> = Vec::new();
    if neg {
        r.push(45);
    }
    let ghost sign = r@;
    let k: usize = tmp.len();
    let mut i: usize = k;
    while i > 0
        invariant
            i <= k,
            k == tmp@.len(),
            tmp@ == digits,
            sign == if neg {
                seq![45u8]
            } else {
                Seq::<u8>::empty()
            },
            r@ =~= sign + digits.reverse().take(k - i),
        decreases i,
    {
        i -= 1;
        let b = tmp[i];
        r.push(b);
        proof {
            assert(digits.reverse()[k - i - 1] == digits[i as int]);
            assert(r@ =~= sign + digits.reverse().take(k - i));
        }
    }
    proof {
        assert(digits.reverse().take(k as int) =~= digits.reverse());
        assert(r@ =~= dec_repr(v as int));
    }
    r
}

} // verus!
