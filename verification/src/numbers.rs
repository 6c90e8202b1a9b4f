//! Decimal reading and writing of unsigned 64-bit identifiers.
//!
//! A catalog field carries the record identifier as decimal text, optionally
//! preceded by a plus sign; entry names inside a per-book archive start with
//! the identifier written back out in decimal.

use vstd::prelude::*;

verus! {

/// ASCII digit.
pub open spec fn is_ascii_digit(b: u8) -> bool {
    48 <= b && b <= 57
}

pub open spec fn all_digits(s: Seq<u8>) -> bool {
    forall|i: int| 0 <= i < s.len() ==> is_ascii_digit(#[trigger] s[i])
}

/// Value of a string of ASCII digits, most significant first.
pub open spec fn dec_value(s: Seq<u8>) -> nat
    decreases s.len(),
{
    if s.len() == 0 {
        0
    } else {
        dec_value(s.drop_last()) * 10 + (s.last() - 48) as nat
    }
}

/// The input with one leading plus sign, if any, removed: the sign accepted
/// before the digits of an unsigned decimal number.
pub open spec fn strip_plus(s: Seq<u8>) -> Seq<u8> {
    if s.len() > 0 && s[0] == 43 {
        s.drop_first()
    } else {
        s
    }
}

/// Whether `s` reads as an unsigned 64-bit decimal number: an optional plus
/// sign, then at least one digit, with a value that fits in 64 bits.
pub open spec fn u64_parseable(s: Seq<u8>) -> bool {
    let d = strip_plus(s);
    d.len() >= 1 && all_digits(d) && dec_value(d) <= u64::MAX
}

/// The number `s` reads as.
pub open spec fn u64_value(s: Seq<u8>) -> nat {
    dec_value(strip_plus(s))
}

/// Appending digits never decreases the value.
pub proof fn lemma_dec_value_extend(s: Seq<u8>, t: Seq<u8>)
    ensures
        dec_value(s) <= dec_value(s + t),
    decreases t.len(),
{
    if t.len() == 0 {
        assert(s + t =~= s);
    } else {
        lemma_dec_value_extend(s, t.drop_last());
        assert((s + t).drop_last() =~= s + t.drop_last());
        assert(dec_value(s + t) == dec_value(s + t.drop_last()) * 10 + ((s + t).last() - 48) as nat);
        assert(dec_value(s + t.drop_last()) * 10 >= dec_value(s + t.drop_last())) by (nonlinear_arith);
    }
}

/// Reads `s` as an unsigned 64-bit decimal number; `None` exactly on inputs
/// that are not such a number.
pub fn parse_u64(s: &[u8]) -> (r: Option<u64>)
    ensures
        match r {
            Some(v) => u64_parseable(s@) && v as nat == u64_value(s@),
            None => !u64_parseable(s@),
        },
{
    let n = s.len();
    let start: usize = if n > 0 && s[0] == 43 {
        1
    } else {
        0
    };
    proof {
        assert(strip_plus(s@) =~= s@.subrange(start as int, n as int));
    }
    if start == n {
        return None;
    }
    let mut acc: u64 = 0;
    let mut i: usize = start;
    while i < n
        invariant
            start <= i <= n,
            n == s@.len(),
            strip_plus(s@) == s@.subrange(start as int, n as int),
            forall|j: int| start <= j < i ==> is_ascii_digit(#[trigger] s@[j]),
            acc as nat == dec_value(s@.subrange(start as int, i as int)),
        decreases n - i,
    {
        let b = s[i];
        if b < 48 || b > 57 {
            proof {
                assert(!is_ascii_digit(strip_plus(s@)[i - start]));
            }
            return None;
        }
        let wide: u128 = acc as u128 * 10 + (b - 48) as u128;
        proof {
            assert(s@.subrange(start as int, i + 1).drop_last() =~= s@.subrange(
                start as int,
                i as int,
            ));
            assert(dec_value(s@.subrange(start as int, i + 1)) == acc as nat * 10 + (b
                - 48) as nat);
        }
        if wide > u64::MAX as u128 {
            proof {
                let pre = s@.subrange(start as int, i + 1);
                let whole = strip_plus(s@);
                assert(pre + whole.subrange(i + 1 - start, whole.len() as int) =~= whole);
                lemma_dec_value_extend(pre, whole.subrange(i + 1 - start, whole.len() as int));
            }
            return None;
        }
        acc = wide as u64;
        i = i + 1;
    }
    proof {
        assert(s@.subrange(start as int, n as int) =~= strip_plus(s@));
    }
    Some(acc)
}

/// The decimal digits of `n`, most significant first, no leading zero except
/// for zero itself.
pub open spec fn dec_digits(n: nat) -> Seq<u8>
    decreases n,
{
    if n < 10 {
        seq![(48 + n) as u8]
    } else {
        dec_digits(n / 10) + seq![(48 + n % 10) as u8]
    }
}

/// Writes `x` in decimal.
pub fn u64_to_dec(x: u64) -> (r: Vec<u8>)
    ensures
        r@ == dec_digits(x as nat),
    decreases x,
{
    if x < 10 {
        let mut v: Vec<u8> = Vec::new();
        v.push(48 + x as u8);
        proof {
            assert(v@ =~= dec_digits(x as nat));
        }
        v
    } else {
        let mut v = u64_to_dec(x / 10);
        v.push(48 + (x % 10) as u8);
        proof {
            assert(v@ =~= dec_digits(x as nat));
        }
        v
    }
}

/// Writing a number in decimal and reading it back gives the number itself,
/// and the written form is all digits.
pub proof fn lemma_dec_digits_value(n: nat)
    ensures
        all_digits(dec_digits(n)),
        dec_digits(n).len() >= 1,
        dec_value(dec_digits(n)) == n,
    decreases n,
{
    if n < 10 {
        assert(dec_digits(n).drop_last() =~= Seq::<u8>::empty());
        assert(dec_value(dec_digits(n)) == dec_value(Seq::<u8>::empty()) * 10 + n);
    } else {
        lemma_dec_digits_value(n / 10);
        assert(dec_digits(n).drop_last() =~= dec_digits(n / 10));
        assert(dec_value(dec_digits(n)) == (n / 10) * 10 + n % 10);
        assert((n / 10) * 10 + n % 10 == n) by (nonlinear_arith);
    }
}

} // verus!
