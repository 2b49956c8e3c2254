//! Decimal integers: the syntax `str::parse` accepts for integer types, and
//! the text that `to_string` produces for them.
use vstd::prelude::*;
use crate::text::push_char;

verus! {

pub open spec fn is_digit(c: char) -> bool {
    '0' <= c && c <= '9'
}

pub open spec fn digit_val(c: char) -> nat {
    ((c as int) - ('0' as int)) as nat
}

pub open spec fn all_digits(s: Seq<char>) -> bool {
    forall|i: int| 0 <= i < s.len() ==> is_digit(#[trigger] s[i])
}

/// The number written by the decimal digits `s`.
pub open spec fn digits_value(s: Seq<char>) -> nat
    decreases s.len(),
{
    if s.len() == 0 {
        0
    } else {
        digits_value(s.drop_last()) * 10 + digit_val(s.last())
    }
}

/// The value of `s` under the grammar that `str::parse` accepts for signed
/// integers: an optional `+` or `-`, then one or more ASCII digits.
pub open spec fn signed_decimal(s: Seq<char>) -> Option<int> {
    if s.len() > 0 && (s[0] == '+' || s[0] == '-') {
        let d = s.drop_first();
        if d.len() > 0 && all_digits(d) {
            Some(if s[0] == '-' { -digits_value(d) } else { digits_value(d) as int })
        } else {
            None
        }
    } else if s.len() > 0 && all_digits(s) {
        Some(digits_value(s) as int)
    } else {
        None
    }
}

/// The value of `s` under the grammar that `str::parse` accepts for unsigned
/// integers: an optional `+`, then one or more ASCII digits.
pub open spec fn unsigned_decimal(s: Seq<char>) -> Option<int> {
    if s.len() > 0 && s[0] == '-' {
        None
    } else {
        signed_decimal(s)
    }
}

/// `Some(v)` when `s` denotes `v` and `lo <= v <= hi`.
pub open spec fn decimal_in(s: Seq<char>, lo: int, hi: int) -> Option<int> {
    match signed_decimal(s) {
        Some(v) => if lo <= v && v <= hi { Some(v) } else { None },
        None => None,
    }
}

pub open spec fn unsigned_in(s: Seq<char>, hi: int) -> Option<int> {
    match unsigned_decimal(s) {
        Some(v) => if v <= hi { Some(v) } else { None },
        None => None,
    }
}

pub proof fn lemma_digits_value_prefix(s: Seq<char>, k: int)
    requires
        0 <= k <= s.len(),
    ensures
        digits_value(s.take(k)) <= digits_value(s),
    decreases s.len(),
{
    if k < s.len() {
        lemma_digits_value_prefix(s.drop_last(), k);
        assert(s.drop_last().take(k) =~= s.take(k));
    } else {
        assert(s.take(k) =~= s);
    }
}

/// Reads the digits `cs[from..to]`; `None` when one is not a digit or the
/// number does not fit in `u128`.
fn digits_u128(cs: &Vec<char>, from: usize, to: usize) -> (r: Option<u128>)
    requires
        from <= to <= cs.len(),
    ensures
        match r {
            Some(v) => all_digits(cs@.subrange(from as int, to as int))
                && v == digits_value(cs@.subrange(from as int, to as int)),
            None => !all_digits(cs@.subrange(from as int, to as int))
                || digits_value(cs@.subrange(from as int, to as int)) > u128::MAX,
        },
{
    let ghost s = cs@.subrange(from as int, to as int);
    let mut v: u128 = 0;
    let mut i = from;
    while i < to
        invariant
            from <= i <= to <= cs.len(),
            s == cs@.subrange(from as int, to as int),
            all_digits(s.take(i - from)),
            v == digits_value(s.take(i - from)),
        decreases to - i,
    {
        let c = cs[i];
        if !('0' <= c && c <= '9') {
            assert(s[i - from] == c);
            return None;
        }
        let d = (c as u32 - '0' as u32) as u128;
        assert(s.take(i - from + 1).drop_last() =~= s.take(i - from));
        assert(s.take(i - from + 1).last() == c);
        if v > (u128::MAX - d) / 10 {
            proof {
                assert(digits_value(s.take(i - from + 1)) == v * 10 + d);
                assert(v * 10 + d > u128::MAX) by (nonlinear_arith)
                    requires v > (u128::MAX - d) / 10, d <= 9;
                if all_digits(s) {
                    lemma_digits_value_prefix(s, i - from + 1);
                }
            }
            return None;
        }
        assert(v * 10 + d <= u128::MAX) by (nonlinear_arith)
            requires v <= (u128::MAX - d) / 10, d <= 9;
        v = v * 10 + d;
        i += 1;
        assert(all_digits(s.take(i - from))) by {
            assert forall|j: int| 0 <= j < s.take(i - from).len() implies is_digit(#[trigger] s.take(i - from)[j]) by {
                if j < i - from - 1 {
                    assert(s.take(i - from)[j] == s.take(i - from - 1)[j]);
                }
            }
        }
    }
    assert(s.take(to - from) =~= s);
    Some(v)
}

/// Parses `cs[from..to]` as `str::parse::<i128>` does.
pub fn parse_i128(cs: &Vec<char>, from: usize, to: usize) -> (r: Option<i128>)
    requires
        from <= to <= cs.len(),
    ensures
        match decimal_in(cs@.subrange(from as int, to as int), i128::MIN as int, i128::MAX as int) {
            Some(v) => r == Some(v as i128),
            None => r is None,
        },
{
    let ghost s = cs@.subrange(from as int, to as int);
    if from == to {
        return None;
    }
    let c = cs[from];
    let neg = c == '-';
    let start = if c == '+' || c == '-' { from + 1 } else { from };
    if start == to {
        return None;
    }
    proof {
        if c == '+' || c == '-' {
            assert(s.drop_first() =~= cs@.subrange(start as int, to as int));
        } else {
            assert(s =~= cs@.subrange(start as int, to as int));
        }
    }
    match digits_u128(cs, start, to) {
        None => None,
        Some(m) => {
            if neg {
                if m <= 0x8000_0000_0000_0000_0000_0000_0000_0000u128 {
                    if m == 0x8000_0000_0000_0000_0000_0000_0000_0000u128 {
                        Some(i128::MIN)
                    } else {
                        Some(-(m as i128))
                    }
                } else {
                    None
                }
            } else {
                if m <= i128::MAX as u128 {
                    Some(m as i128)
                } else {
                    None
                }
            }
        },
    }
}

/// Parses `cs[from..to]` as `str::parse::<u64>` does.
pub fn parse_u64(cs: &Vec<char>, from: usize, to: usize) -> (r: Option<u64>)
    requires
        from <= to <= cs.len(),
    ensures
        match unsigned_in(cs@.subrange(from as int, to as int), u64::MAX as int) {
            Some(v) => r == Some(v as u64),
            None => r is None,
        },
{
    let ghost s = cs@.subrange(from as int, to as int);
    if from == to {
        return None;
    }
    let c = cs[from];
    if c == '-' {
        return None;
    }
    let start = if c == '+' { from + 1 } else { from };
    if start == to {
        return None;
    }
    proof {
        if c == '+' {
            assert(s.drop_first() =~= cs@.subrange(start as int, to as int));
        } else {
            assert(s =~= cs@.subrange(start as int, to as int));
        }
    }
    match digits_u128(cs, start, to) {
        None => None,
        Some(m) => if m <= u64::MAX as u128 { Some(m as u64) } else { None },
    }
}

// ── formatting ───────────────────────────────────────────────────────────────

/// The digits of `n` are digits, and they denote `n`.
pub proof fn lemma_digits_of_value(n: nat)
    ensures
        all_digits(digits_of(n)),
        digits_of(n).len() > 0,
        digits_value(digits_of(n)) == n,
    decreases n,
{
    let d = n % 10;
    assert(digit_val(digit_char(d)) == d) by {
        assert(((d + 48) as u8) as int == d + 48);
    }
    if n < 10 {
        assert(digits_of(n).drop_last() =~= Seq::<char>::empty());
        assert(digits_value(digits_of(n)) == digits_value(Seq::<char>::empty()) * 10 + digit_val(digit_char(n)));
    } else {
        lemma_digits_of_value(n / 10);
        let s = digits_of(n);
        assert(s.drop_last() =~= digits_of(n / 10));
        assert(s.last() == digit_char(d));
        assert(digits_value(s) == digits_value(digits_of(n / 10)) * 10 + digit_val(digit_char(d)));
        assert((n / 10) * 10 + n % 10 == n) by (nonlinear_arith);
        assert forall|i: int| 0 <= i < s.len() implies is_digit(#[trigger] s[i]) by {
            if i < s.len() - 1 {
                assert(s[i] == digits_of(n / 10)[i]);
            }
        }
    }
}

/// Integer text reads back: the decimal text of `n` denotes `n`.
pub proof fn lemma_decimal_reads_back(n: int)
    ensures
        signed_decimal(decimal(n)) == Some(n),
{
    if n < 0 {
        let m = (-n) as nat;
        lemma_digits_of_value(m);
        let s = decimal(n);
        assert(s.drop_first() =~= digits_of(m));
    } else {
        lemma_digits_of_value(n as nat);
        let s = decimal(n);
        assert(is_digit(s[0]));
    }
}


pub open spec fn digit_char(d: nat) -> char {
    ((d + 48) as u8) as char
}

/// The bit pattern of an IEEE 754 double that is a NaN.
pub open spec fn nan_bits(b: u64) -> bool {
    (b & 0x7ff0_0000_0000_0000u64) == 0x7ff0_0000_0000_0000u64 && (b & 0x000f_ffff_ffff_ffffu64) != 0
}

/// The bit pattern of an IEEE 754 double that is a zero, of either sign.
pub open spec fn zero_bits(b: u64) -> bool {
    (b & 0x7fff_ffff_ffff_ffffu64) == 0
}

/// Two doubles, by bit pattern, are equal as numbers: a NaN equals
/// nothing, the two zeros are equal, and otherwise equal numbers have
/// equal bits.
pub open spec fn float_bits_eq(a: u64, b: u64) -> bool {
    !nan_bits(a) && !nan_bits(b) && (a == b || (zero_bits(a) && zero_bits(b)))
}

/// Whether two doubles, by bit pattern, are equal as numbers.
pub fn float_eq(a: u64, b: u64) -> (r: bool)
    ensures
        r == float_bits_eq(a, b),
{
    let a_nan = (a & 0x7ff0_0000_0000_0000u64) == 0x7ff0_0000_0000_0000u64 && (a & 0x000f_ffff_ffff_ffffu64) != 0;
    let b_nan = (b & 0x7ff0_0000_0000_0000u64) == 0x7ff0_0000_0000_0000u64 && (b & 0x000f_ffff_ffff_ffffu64) != 0;
    let zeros = (a & 0x7fff_ffff_ffff_ffffu64) == 0 && (b & 0x7fff_ffff_ffff_ffffu64) == 0;
    !a_nan && !b_nan && (a == b || zeros)
}

/// The decimal digits of `n`, most significant first.
pub open spec fn digits_of(n: nat) -> Seq<char>
    decreases n,
{
    if n < 10 {
        seq![digit_char(n)]
    } else {
        digits_of(n / 10).push(digit_char(n % 10))
    }
}

/// `n.to_string()` for an integer `n`.
pub open spec fn decimal(n: int) -> Seq<char> {
    if n < 0 {
        seq!['-'] + digits_of((-n) as nat)
    } else {
        digits_of(n as nat)
    }
}

fn push_digits(s: &mut String, n: u128)
    ensures
        final(s)@ == old(s)@ + digits_of(n as nat),
    decreases n,
{
    if n >= 10 {
        push_digits(s, n / 10);
    }
    let d = (n % 10) as u8;
    push_char(s, (d + 48) as char);
    assert(final(s)@ =~= old(s)@ + digits_of(n as nat)) by {
        if n >= 10 {
            assert(digits_of(n as nat) == digits_of((n / 10) as nat).push(digit_char((n % 10) as nat)));
        }
    }
}

/// Appends the decimal text of `n`.
pub fn push_decimal(s: &mut String, n: i128)
    ensures
        final(s)@ == old(s)@ + decimal(n as int),
{
    if n < 0 {
        push_char(s, '-');
        let m: u128 = ((-(n + 1)) as u128) + 1;
        push_digits(s, m);
        assert(final(s)@ =~= old(s)@ + decimal(n as int));
    } else {
        push_digits(s, n as u128);
    }
}

/// Appends the decimal text of an unsigned `n`.
pub fn push_unsigned(s: &mut String, n: u128)
    ensures
        final(s)@ == old(s)@ + decimal(n as int),
{
    push_digits(s, n);
}

}
