//! Decimal numbers: reading an unsigned 32-bit value from text the way
//! `u32::from_str` does (an optional `+` followed by decimal digits).
use vstd::prelude::*;
use vstd::string::StringSliceAdditionalSpecFns;
use crate::text::{ByteClass, in_class};

verus! {

/// The plus sign.
pub const PLUS: u8 = 0x2b;

/// Every byte of `d` is a decimal digit.
pub open spec fn all_digits(d: Seq<u8>) -> bool {
    forall|i: int| 0 <= i < d.len() ==> in_class(ByteClass::Digit, #[trigger] d[i])
}

/// The value of the decimal numeral `d` (most significant digit first).
pub open spec fn decimal(d: Seq<u8>) -> int
    decreases d.len(),
{
    if d.len() == 0 {
        0
    } else {
        decimal(d.drop_last()) * 10 + (d.last() - 0x30)
    }
}

/// The digits that `u32::from_str` reads from `b`: all of it, or all but a
/// leading `+` when there is something after it.
pub open spec fn unsigned_digits(b: Seq<u8>) -> Seq<u8> {
    if b.len() > 1 && b[0] == PLUS {
        b.drop_first()
    } else {
        b
    }
}

/// What `u32::from_str` gives for the text with bytes `b`: the value of an
/// optional `+` followed by at least one decimal digit, when it fits in a
/// `u32`; nothing otherwise.
pub open spec fn spec_parse_u32(b: Seq<u8>) -> Option<u32> {
    let d = unsigned_digits(b);
    if d.len() > 0 && all_digits(d) && decimal(d) <= u32::MAX {
        Some(decimal(d) as u32)
    } else {
        None
    }
}

/// The decimal numeral of `n`, without leading zeros.
pub open spec fn decimal_text(n: nat) -> Seq<u8>
    decreases n,
{
    if n < 10 {
        seq![(0x30 + n) as u8]
    } else {
        decimal_text(n / 10).push((0x30 + n % 10) as u8)
    }
}

/// The numeral of `n` is made of digits and has value `n`.
pub proof fn lemma_decimal_text(n: nat)
    ensures
        decimal_text(n).len() > 0,
        all_digits(decimal_text(n)),
        decimal(decimal_text(n)) == n,
    decreases n,
{
    if n < 10 {
        assert(decimal_text(n).drop_last() =~= Seq::<u8>::empty());
        assert(decimal_text(n).last() - 0x30 == n);
        assert(decimal(decimal_text(n).drop_last()) == 0);
    } else {
        lemma_decimal_text(n / 10);
        let d = decimal_text(n);
        assert(d.drop_last() =~= decimal_text(n / 10));
        assert((n / 10) * 10 + n % 10 == n) by (nonlinear_arith);
        assert(0 <= n % 10 < 10);
        assert(d.last() == (0x30 + n % 10) as u8);
        assert(d.last() - 0x30 == n % 10);
        assert(decimal(d) == decimal(decimal_text(n / 10)) * 10 + (d.last() - 0x30));
        assert(all_digits(d)) by {
            assert forall|i: int| 0 <= i < d.len() implies in_class(ByteClass::Digit, #[trigger] d[i]) by {
                if i < d.len() - 1 {
                    assert(d[i] == decimal_text(n / 10)[i]);
                }
            }
        }
    }
}

/// A numeral made of digits has a non-negative value.
pub proof fn lemma_decimal_nonneg(d: Seq<u8>)
    requires
        all_digits(d),
    ensures
        decimal(d) >= 0,
    decreases d.len(),
{
    if d.len() > 0 {
        assert(in_class(ByteClass::Digit, d[d.len() - 1]));
        lemma_decimal_nonneg(d.drop_last());
    }
}

/// Dropping digits from the end of a numeral never makes it larger.
pub proof fn lemma_decimal_prefix_le(d: Seq<u8>, k: int)
    requires
        all_digits(d),
        0 <= k <= d.len(),
    ensures
        decimal(d.take(k)) <= decimal(d),
    decreases d.len(),
{
    if k < d.len() {
        let p = d.drop_last();
        assert(in_class(ByteClass::Digit, d[d.len() - 1]));
        assert(p.take(k) =~= d.take(k));
        lemma_decimal_prefix_le(p, k);
        lemma_decimal_nonneg(p);
    } else {
        assert(d.take(k) =~= d);
    }
}

/// `k` zero digits.
pub open spec fn zeros(k: nat) -> Seq<u8> {
    Seq::new(k, |i: int| 0x30u8)
}

/// Leading zeros do not change the value of a numeral.
proof fn lemma_decimal_after_zeros(k: nat, x: Seq<u8>)
    ensures
        decimal(zeros(k) + x) == decimal(x),
    decreases k + x.len(),
{
    if x.len() == 0 {
        assert(zeros(k) + x =~= zeros(k));
        if k > 0 {
            let p = (k - 1) as nat;
            assert(zeros(k).drop_last() =~= zeros(p) + Seq::<u8>::empty());
            lemma_decimal_after_zeros(p, Seq::<u8>::empty());
            assert(decimal(Seq::<u8>::empty()) == 0);
        }
    } else {
        assert((zeros(k) + x).drop_last() =~= zeros(k) + x.drop_last());
        assert((zeros(k) + x).last() == x.last());
        lemma_decimal_after_zeros(k, x.drop_last());
    }
}

/// Every numeral is some zeros followed by the numeral of its value.
proof fn lemma_numeral_shape(d: Seq<u8>) -> (k: nat)
    requires
        d.len() > 0,
        all_digits(d),
    ensures
        decimal(d) >= 0,
        d == zeros(k) + decimal_text(decimal(d) as nat),
    decreases d.len(),
{
    let c = d.last();
    assert(in_class(ByteClass::Digit, d[d.len() - 1]));
    let e: int = c - 0x30;
    if d.len() == 1 {
        assert(d.drop_last() =~= Seq::<u8>::empty());
        assert(decimal(d.drop_last()) == 0);
        assert(decimal(d) == e);
        assert(d =~= zeros(0) + decimal_text(e as nat));
        0
    } else {
        let p = d.drop_last();
        assert(all_digits(p)) by {
            assert forall|i: int| 0 <= i < p.len() implies in_class(ByteClass::Digit, #[trigger] p[i]) by {
                assert(p[i] == d[i]);
            }
        }
        let k0 = lemma_numeral_shape(p);
        let m: int = decimal(p);
        assert(decimal(d) == m * 10 + e);
        if m == 0 {
            reveal_with_fuel(decimal_text, 2);
            assert(decimal_text(0) =~= seq![0x30u8]);
            assert(p =~= zeros(k0 + 1));
            assert(decimal(d) == e);
            assert(decimal_text(e as nat) =~= seq![c]);
            assert(d =~= zeros(k0 + 1) + decimal_text(e as nat));
            k0 + 1
        } else {
            let n: nat = (m * 10 + e) as nat;
            assert(n / 10 == m && n % 10 == e) by (nonlinear_arith)
                requires
                    n == m * 10 + e,
                    0 <= e < 10,
                    m > 0,
            ;
            assert(decimal_text(n) == decimal_text(m as nat).push(c));
            assert(d =~= p.push(c));
            assert(zeros(k0) + decimal_text(m as nat).push(c) =~= (zeros(k0) + decimal_text(
                m as nat,
            )).push(c));
            assert(d =~= zeros(k0) + decimal_text(n));
            k0
        }
    }
}

/// Zeros followed by digits are digits.
proof fn lemma_zeros_then_digits(k: nat, x: Seq<u8>)
    requires
        all_digits(x),
    ensures
        all_digits(zeros(k) + x),
{
    let z = zeros(k) + x;
    assert forall|i: int| 0 <= i < z.len() implies in_class(ByteClass::Digit, #[trigger] z[i]) by {
        if i >= k {
            assert(z[i] == x[i - k]);
        }
    }
}

/// A value is read only from the numeral of that value, possibly after a
/// `+` and leading zeros: nothing else converts to it.
pub proof fn law_u32_read_only_from_its_numeral(b: Seq<u8>)
    ensures
        spec_parse_u32(b) matches Some(n) ==> exists|k: nat|
            b == zeros(k) + decimal_text(n as nat) || b == seq![PLUS] + zeros(k) + decimal_text(
                n as nat,
            ),
{
    if let Some(n) = spec_parse_u32(b) {
        let d = unsigned_digits(b);
        let k = lemma_numeral_shape(d);
        if b.len() > 1 && b[0] == PLUS {
            assert(b =~= seq![PLUS] + d);
            assert(b == seq![PLUS] + zeros(k) + decimal_text(n as nat));
        } else {
            assert(b == zeros(k) + decimal_text(n as nat));
        }
    }
}

/// The numeral of a value, after any number of leading zeros and with or
/// without a `+` before them, reads back as that value.
pub proof fn law_u32_numeral_reads_back(n: u32, k: nat)
    ensures
        spec_parse_u32(zeros(k) + decimal_text(n as nat)) == Some(n),
        spec_parse_u32(seq![PLUS] + zeros(k) + decimal_text(n as nat)) == Some(n),
{
    let x = decimal_text(n as nat);
    lemma_decimal_text(n as nat);
    lemma_decimal_after_zeros(k, x);
    lemma_zeros_then_digits(k, x);
    let d = zeros(k) + x;
    assert(d.len() > 0);
    assert(d[0] != PLUS) by {
        if k == 0 {
            assert(d[0] == x[0]);
            assert(in_class(ByteClass::Digit, x[0]));
        }
    }
    assert(unsigned_digits(d) == d);
    let b = seq![PLUS] + d;
    assert(seq![PLUS] + zeros(k) + x =~= b);
    assert(b.drop_first() =~= d);
    assert(unsigned_digits(b) == d);
}

/// Read an unsigned 32-bit value from `s` as `u32::from_str` does.
pub fn parse_u32(s: &str) -> (r: Option<u32>)
    ensures
        r == spec_parse_u32(s.spec_bytes()),
{
    let b = s.as_bytes();
    let start: usize = if b.len() > 1 && b[0] == PLUS { 1 } else { 0 };
    let ghost d = unsigned_digits(b@);
    assert(d =~= b@.skip(start as int));
    if start >= b.len() {
        return None;
    }
    let mut v: u64 = 0;
    let mut i = start;
    while i < b.len()
        invariant
            b@ == s.spec_bytes(),
            d == unsigned_digits(b@),
            start < b@.len(),
            d == b@.skip(start as int),
            start <= i <= b@.len(),
            v == decimal(b@.subrange(start as int, i as int)),
            v <= u32::MAX,
            forall|j: int| start <= j < i ==> in_class(ByteClass::Digit, #[trigger] b@[j]),
        decreases b@.len() - i,
    {
        let x = b[i];
        if !(0x30 <= x && x <= 0x39) {
            assert(!in_class(ByteClass::Digit, d[i - start]));
            return None;
        }
        assert(b@.subrange(start as int, i + 1).drop_last() =~= b@.subrange(start as int, i as int));
        v = v * 10 + (x - 0x30) as u64;
        if v > 0xffff_ffff {
            proof {
                if all_digits(d) {
                    assert(d.take(i + 1 - start) =~= b@.subrange(start as int, i + 1));
                    lemma_decimal_prefix_le(d, i + 1 - start);
                }
            }
            return None;
        }
        i = i + 1;
    }
    assert(b@.subrange(start as int, i as int) =~= d);
    Some(v as u32)
}

} // verus!
