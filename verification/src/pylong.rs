//! The digit layout of arbitrary-precision integers as the interpreter stores
//! them: a tag word holding the sign and the digit count, and little-endian
//! base-2^30 digits.
use vstd::prelude::*;

verus! {

/// The base of one digit: 2^30.
pub open spec fn digit_base() -> nat {
    1073741824
}

/// `digit_base()` raised to the power `k`.
pub open spec fn base_pow(k: nat) -> nat
    decreases k,
{
    if k == 0 {
        1
    } else {
        1073741824 * base_pow((k - 1) as nat)
    }
}

/// The magnitude that little-endian base-2^30 digits stand for.
pub open spec fn digits_value(d: Seq<u32>) -> nat
    decreases d.len(),
{
    if d.len() == 0 {
        0
    } else {
        d[0] as nat + 1073741824 * digits_value(d.drop_first())
    }
}

/// The normalized digits of a magnitude: least significant first, no
/// leading zero digit, and none at all for zero.
pub open spec fn digits_of(n: nat) -> Seq<u32>
    decreases n,
{
    if n == 0 {
        Seq::empty()
    } else {
        seq![(n % 1073741824) as u32] + digits_of(n / 1073741824)
    }
}

/// Digits that are each below the base, with a nonzero most significant one.
pub open spec fn normalized_digits(d: Seq<u32>) -> bool {
    &&& forall|i: int| 0 <= i < d.len() ==> #[trigger] d[i] < 1073741824
    &&& d.len() > 0 ==> d.last() != 0
}

/// An integer as the interpreter lays it out: `tag` holds the sign in its two
/// low bits (0 positive, 1 zero, 2 negative), a flag in bit 2 that says nothing
/// of the value, and the digit count from bit 3 up.
#[derive(Clone, Debug)]
pub struct PyLongParts {
    pub tag: usize,
    pub digits: Vec<u32>,
}

impl PyLongParts {
    /// The two low bits of the tag.
    pub open spec fn sign_code(&self) -> nat {
        (self.tag % 4) as nat
    }

    /// The tag from bit 3 up.
    pub open spec fn digit_count(&self) -> nat {
        (self.tag / 8) as nat
    }

    /// A consistent layout: a known sign, no digits exactly for zero, as many
    /// digits as the tag counts, and normalized digits. The flag bit is free.
    pub open spec fn wf(&self) -> bool {
        &&& self.sign_code() <= 2
        &&& (self.sign_code() == 1 <==> self.digit_count() == 0)
        &&& self.digits@.len() == self.digit_count()
        &&& normalized_digits(self.digits@)
    }

    /// Tests `wf`, for callers that read a layout out of an object.
    pub fn is_well_formed(&self) -> (res: bool)
        ensures
            res == self.wf(),
    {
        proof {
            lemma_tag_bits(self.tag);
        }
        let sign = self.tag & 3;
        let count = self.tag >> 3;
        if sign > 2 || (sign == 1) != (count == 0) || self.digits.len() != count {
            return false;
        }
        let mut i: usize = 0;
        while i < self.digits.len()
            invariant
                i <= self.digits@.len(),
                forall|j: int| 0 <= j < i ==> #[trigger] self.digits@[j] < 1073741824,
            decreases self.digits@.len() - i,
        {
            if self.digits[i] >= 1073741824 {
                return false;
            }
            i += 1;
        }
        if self.digits.len() > 0 && self.digits[self.digits.len() - 1] == 0 {
            return false;
        }
        true
    }

    pub open spec fn is_negative(&self) -> bool {
        self.sign_code() == 2
    }

    /// The integer that the layout stands for.
    pub open spec fn value(&self) -> int {
        if self.is_negative() {
            -digits_value(self.digits@)
        } else {
            digits_value(self.digits@) as int
        }
    }
}

/// The value of an integer when it is a valid 128-bit UUID value.
pub open spec fn u128_value_of(v: int) -> Option<u128> {
    if 0 <= v < 0x1_0000_0000_0000_0000_0000_0000_0000_0000 {
        Some(v as u128)
    } else {
        None
    }
}

pub proof fn lemma_tag_bits(tag: usize)
    ensures
        tag & 3 == tag % 4,
        tag >> 3 == tag / 8,
{
    assert(tag & 3 == tag % 4) by (bit_vector);
    assert(tag >> 3 == tag / 8) by (bit_vector);
}

/// Reads an integer's layout as a 128-bit value; `None` for a negative value
/// or one of 128 bits or more.
pub fn pylong_to_u128(parts: &PyLongParts) -> (res: Option<u128>)
    requires
        parts.wf(),
    ensures
        res == u128_value_of(parts.value()),
{
    proof {
        lemma_tag_bits(parts.tag);
    }
    let tag = parts.tag;
    let sign = tag & 3;
    if sign == 2 {
        proof {
            lemma_digits_value_lower(parts.digits@);
        }
        return None;
    }
    if sign == 1 {
        return Some(0);
    }
    let ndigits = tag >> 3;
    let d = &parts.digits;
    let ghost s = d@;
    assert(s.len() > 0 ==> s[s.len() - 1] < 1073741824);
    if ndigits == 1 {
        let d0 = d[0];
        proof {
            lemma_unfold_digits(s, 1);
        }
        Some(d0 as u128)
    } else if ndigits == 2 {
        let d0 = d[0];
        let d1 = d[1];
        assert(d0 < 1073741824 && d1 < 1073741824);
        proof {
            lemma_two_digits(d0, d1);
            lemma_unfold_digits(s, 2);
        }
        Some((d1 as u128) << 30 | d0 as u128)
    } else if ndigits == 3 {
        let d0 = d[0];
        let d1 = d[1];
        let d2 = d[2];
        assert(d0 < 1073741824 && d1 < 1073741824 && d2 < 1073741824);
        proof {
            lemma_three_digits(d0, d1, d2);
            lemma_unfold_digits(s, 3);
        }
        Some((d2 as u128) << 60 | (d1 as u128) << 30 | d0 as u128)
    } else if ndigits == 4 {
        let d0 = d[0];
        let d1 = d[1];
        let d2 = d[2];
        let d3 = d[3];
        assert(d0 < 1073741824 && d1 < 1073741824 && d2 < 1073741824 && d3 < 1073741824);
        proof {
            lemma_four_digits(d0, d1, d2, d3);
            lemma_unfold_digits(s, 4);
        }
        Some((d3 as u128) << 90 | (d2 as u128) << 60 | (d1 as u128) << 30 | d0 as u128)
    } else if ndigits == 5 {
        let d0 = d[0];
        let d1 = d[1];
        let d2 = d[2];
        let d3 = d[3];
        let high = d[4];
        assert(d0 < 1073741824 && d1 < 1073741824 && d2 < 1073741824 && d3 < 1073741824);
        proof {
            lemma_unfold_digits(s, 5);
        }
        if high > 0xff {
            return None;
        }
        proof {
            lemma_five_digits(d0, d1, d2, d3, high);
        }
        Some(
            (high as u128) << 120 | (d3 as u128) << 90 | (d2 as u128) << 60 | (d1 as u128) << 30
                | d0 as u128,
        )
    } else {
        proof {
            lemma_digits_value_lower(s);
            lemma_base_pow_monotone(5, (s.len() - 1) as nat);
            lemma_base_pow_five();
        }
        None
    }
}

proof fn lemma_two_digits(d0: u32, d1: u32)
    requires
        d0 < 1073741824,
        d1 < 1073741824,
    ensures
        ((d1 as u128) << 30 | d0 as u128) == d0 + 1073741824 * d1,
{
    assert(d0 < 1073741824 && d1 < 1073741824 ==> ((d1 as u128) << 30 | d0 as u128) == d0 + 1073741824 * d1) by (bit_vector);
}

proof fn lemma_three_digits(d0: u32, d1: u32, d2: u32)
    requires
        d0 < 1073741824,
        d1 < 1073741824,
        d2 < 1073741824,
    ensures
        ((d2 as u128) << 60 | (d1 as u128) << 30 | d0 as u128) == d0 + 1073741824 * d1
            + 1152921504606846976 * d2,
{
    assert(d0 < 1073741824 && d1 < 1073741824 && d2 < 1073741824 ==> ((d2 as u128) << 60 | (d1 as u128) << 30 | d0 as u128) == d0 + 1073741824 * d1
            + 1152921504606846976 * d2) by (bit_vector);
}

proof fn lemma_four_digits(d0: u32, d1: u32, d2: u32, d3: u32)
    requires
        d0 < 1073741824,
        d1 < 1073741824,
        d2 < 1073741824,
        d3 < 1073741824,
    ensures
        ((d3 as u128) << 90 | (d2 as u128) << 60 | (d1 as u128) << 30 | d0 as u128) == d0
            + 1073741824 * d1 + 1152921504606846976 * d2 + 1237940039285380274899124224 * d3,
{
    assert(d0 < 1073741824 && d1 < 1073741824 && d2 < 1073741824 && d3 < 1073741824 ==> ((d3 as u128) << 90 | (d2 as u128) << 60 | (d1 as u128) << 30 | d0 as u128) == d0
            + 1073741824 * d1 + 1152921504606846976 * d2 + 1237940039285380274899124224 * d3) by (bit_vector);
}

proof fn lemma_five_digits(d0: u32, d1: u32, d2: u32, d3: u32, d4: u32)
    requires
        d0 < 1073741824,
        d1 < 1073741824,
        d2 < 1073741824,
        d3 < 1073741824,
        d4 <= 0xff,
    ensures
        ((d4 as u128) << 120 | (d3 as u128) << 90 | (d2 as u128) << 60 | (d1 as u128) << 30
            | d0 as u128) == d0 + 1073741824 * d1 + 1152921504606846976 * d2
            + 1237940039285380274899124224 * d3 + 1329227995784915872903807060280344576 * d4,
{
    assert(d0 < 1073741824 && d1 < 1073741824 && d2 < 1073741824 && d3 < 1073741824 && d4 <= 0xff ==> ((d4 as u128) << 120 | (d3 as u128) << 90 | (d2 as u128) << 60 | (d1 as u128) << 30
            | d0 as u128) == d0 + 1073741824 * d1 + 1152921504606846976 * d2
            + 1237940039285380274899124224 * d3 + 1329227995784915872903807060280344576 * d4) by (bit_vector);
}

/// Unfolds the value of up to five digits into an explicit sum.
proof fn lemma_unfold_digits(s: Seq<u32>, n: nat)
    requires
        s.len() == n,
        1 <= n <= 5,
    ensures
        n == 1 ==> digits_value(s) == s[0],
        n == 2 ==> digits_value(s) == s[0] + 1073741824 * s[1],
        n == 3 ==> digits_value(s) == s[0] + 1073741824 * s[1] + 1152921504606846976 * s[2],
        n == 4 ==> digits_value(s) == s[0] + 1073741824 * s[1] + 1152921504606846976 * s[2]
            + 1237940039285380274899124224 * s[3],
        n == 5 ==> digits_value(s) == s[0] + 1073741824 * s[1] + 1152921504606846976 * s[2]
            + 1237940039285380274899124224 * s[3] + 1329227995784915872903807060280344576 * s[4],
    decreases n,
{
    let t = s.drop_first();
    if n == 1 {
        assert(t.len() == 0);
        assert(digits_value(t) == 0);
        assert(digits_value(s) == s[0] + 1073741824 * digits_value(t));
    } else {
        lemma_unfold_digits(t, (n - 1) as nat);
        assert(t[0] == s[1]);
        if n >= 3 {
            assert(t[1] == s[2]);
        }
        if n >= 4 {
            assert(t[2] == s[3]);
        }
        if n >= 5 {
            assert(t[3] == s[4]);
        }
    }
}

/// Digits below the base stand for less than `base_pow(len)`.
pub proof fn lemma_digits_value_upper(d: Seq<u32>)
    requires
        forall|i: int| 0 <= i < d.len() ==> #[trigger] d[i] < 1073741824,
    ensures
        digits_value(d) < base_pow(d.len()),
    decreases d.len(),
{
    if d.len() > 0 {
        let t = d.drop_first();
        assert forall|i: int| 0 <= i < t.len() implies #[trigger] t[i] < 1073741824 by {
            assert(t[i] == d[i + 1]);
        }
        lemma_digits_value_upper(t);
        assert(d[0] < 1073741824);
    }
}

/// Normalized nonempty digits stand for at least `base_pow(len - 1)`.
pub proof fn lemma_digits_value_lower(d: Seq<u32>)
    requires
        normalized_digits(d),
    ensures
        d.len() > 0 ==> digits_value(d) >= base_pow((d.len() - 1) as nat),
        d.len() > 0 ==> digits_value(d) > 0,
    decreases d.len(),
{
    if d.len() > 1 {
        let t = d.drop_first();
        assert(t.last() == d.last());
        assert forall|i: int| 0 <= i < t.len() implies #[trigger] t[i] < 1073741824 by {
            assert(t[i] == d[i + 1]);
        }
        lemma_digits_value_lower(t);
    } else if d.len() == 1 {
        assert(d.drop_first().len() == 0);
        assert(d.last() == d[0]);
    }
}

pub proof fn lemma_base_pow_positive(k: nat)
    ensures
        base_pow(k) >= 1,
    decreases k,
{
    if k > 0 {
        lemma_base_pow_positive((k - 1) as nat);
    }
}

pub proof fn lemma_base_pow_monotone(a: nat, b: nat)
    requires
        a <= b,
    ensures
        base_pow(a) <= base_pow(b),
    decreases b,
{
    if a < b {
        lemma_base_pow_monotone(a, (b - 1) as nat);
        lemma_base_pow_positive((b - 1) as nat);
    }
}

proof fn lemma_base_pow_five()
    ensures
        base_pow(4) == 1329227995784915872903807060280344576,
        base_pow(5) == 1427247692705959881058285969449495136382746624,
{
    reveal_with_fuel(base_pow, 6);
}

/// The normalized digits of a magnitude stand for it.
pub proof fn lemma_digits_of(n: nat)
    ensures
        digits_value(digits_of(n)) == n,
        normalized_digits(digits_of(n)),
    decreases n,
{
    if n > 0 {
        let q = n / 1073741824;
        let r = n % 1073741824;
        lemma_digits_of(q);
        let d = digits_of(n);
        let rest = digits_of(q);
        assert(d == seq![r as u32] + rest);
        assert(d.drop_first() =~= rest);
        assert(d[0] == r as u32);
        assert forall|i: int| 0 <= i < d.len() implies #[trigger] d[i] < 1073741824 by {
            if i > 0 {
                assert(d[i] == rest[i - 1]);
            }
        }
        if rest.len() == 0 {
            assert(q == 0) by {
                if q > 0 {
                    assert(digits_of(q).len() > 0);
                }
            }
            assert(d.last() == r as u32);
        } else {
            assert(d.last() == rest.last());
        }
    }
}

/// A magnitude below `base_pow(k)` has at most `k` digits.
pub proof fn lemma_digits_of_len(n: nat, k: nat)
    requires
        n < base_pow(k),
    ensures
        digits_of(n).len() <= k,
    decreases k,
{
    if n > 0 {
        assert(k > 0);
        lemma_digits_of_len(n / 1073741824, (k - 1) as nat);
    }
}

/// Lays out a 128-bit value the way the interpreter stores it.
pub fn u128_to_pylong_parts(value: u128) -> (parts: PyLongParts)
    ensures
        parts.wf(),
        parts.value() == value,
        parts.digits@ == digits_of(value as nat),
        parts.tag == if value == 0 {
            1
        } else {
            parts.digits@.len() * 8
        },
{
    let mut digits: Vec<u32> = Vec::new();
    let mut remaining: u128 = value;
    while remaining != 0
        invariant
            digits@ + digits_of(remaining as nat) == digits_of(value as nat),
        decreases remaining,
    {
        let digit = (remaining & 0x3fff_ffff) as u32;
        let next = remaining >> 30;
        proof {
            assert(remaining & 0x3fff_ffff == remaining % 1073741824) by (bit_vector);
            assert(remaining >> 30 == remaining / 1073741824) by (bit_vector);
            let ghost old_digits = digits@;
            assert(digits_of(remaining as nat) == seq![digit] + digits_of(next as nat));
            assert(old_digits.push(digit) + digits_of(next as nat) =~= old_digits + (seq![digit]
                + digits_of(next as nat)));
        }
        digits.push(digit);
        remaining = next;
    }
    proof {
        assert(digits_of(0) == Seq::<u32>::empty());
        assert(digits@ =~= digits_of(value as nat));
        lemma_digits_of(value as nat);
        lemma_base_pow_five();
        lemma_digits_of_len(value as nat, 5);
    }
    let count = digits.len();
    let tag: usize = if count == 0 {
        1
    } else {
        assert(count << 3 == count * 8) by (bit_vector)
            requires
                count <= 5,
        ;
        count << 3
    };
    PyLongParts { tag, digits }
}

/// Two equally long digit strings that agree above index `i` and differ
/// there are ordered by that digit.
pub proof fn lemma_digits_differ_at(a: Seq<u32>, b: Seq<u32>, i: int)
    requires
        a.len() == b.len(),
        0 <= i < a.len(),
        forall|j: int| 0 <= j < a.len() ==> #[trigger] a[j] < 1073741824,
        forall|j: int| 0 <= j < b.len() ==> #[trigger] b[j] < 1073741824,
        a.skip(i + 1) == b.skip(i + 1),
        a[i] < b[i],
    ensures
        digits_value(a) < digits_value(b),
    decreases i,
{
    let ta = a.drop_first();
    let tb = b.drop_first();
    if i == 0 {
        assert(ta =~= a.skip(1));
        assert(tb =~= b.skip(1));
    } else {
        assert(ta.skip(i) =~= a.skip(i + 1));
        assert(tb.skip(i) =~= b.skip(i + 1));
        assert(ta[i - 1] == a[i]);
        assert(tb[i - 1] == b[i]);
        assert forall|j: int| 0 <= j < ta.len() implies #[trigger] ta[j] < 1073741824 by {
            assert(ta[j] == a[j + 1]);
        }
        assert forall|j: int| 0 <= j < tb.len() implies #[trigger] tb[j] < 1073741824 by {
            assert(tb[j] == b[j + 1]);
        }
        lemma_digits_differ_at(ta, tb, i - 1);
        assert(a[0] < 1073741824);
    }
}

/// A normalized digit string with fewer digits stands for a smaller magnitude.
pub proof fn lemma_fewer_digits_smaller(a: Seq<u32>, b: Seq<u32>)
    requires
        normalized_digits(a),
        normalized_digits(b),
        a.len() < b.len(),
    ensures
        digits_value(a) < digits_value(b),
{
    lemma_digits_value_upper(a);
    lemma_digits_value_lower(b);
    lemma_base_pow_monotone(a.len(), (b.len() - 1) as nat);
}

/// The digits from index `i` upward.
pub open spec fn digits_from(s: Seq<u32>, i: usize) -> Seq<u32> {
    s.skip(i as int)
}

/// The digits strictly above index `i`.
pub open spec fn digits_above(s: Seq<u32>, i: usize) -> Seq<u32> {
    s.skip(i + 1)
}

/// Stepping the agreeing upper part of two digit strings down by one index.
pub proof fn lemma_digits_from_step(sa: Seq<u32>, sb: Seq<u32>, i: usize)
    requires
        i < sa.len(),
        i < sb.len(),
        digits_above(sa, i) == digits_above(sb, i),
        sa[i as int] == sb[i as int],
    ensures
        digits_from(sa, i) == digits_from(sb, i),
{
    assert(sa.skip(i as int) =~= seq![sa[i as int]] + sa.skip(i + 1));
    assert(sb.skip(i as int) =~= seq![sb[i as int]] + sb.skip(i + 1));
}

/// The agreeing upper part covering everything makes the strings equal.
pub proof fn lemma_digits_from_zero(sa: Seq<u32>, sb: Seq<u32>)
    requires
        digits_from(sa, 0) == digits_from(sb, 0),
    ensures
        sa == sb,
{
    assert(sa =~= sa.skip(0));
    assert(sb =~= sb.skip(0));
}

/// Strings agreeing above `i` and smaller at `i` stand for a smaller value.
pub proof fn lemma_digits_smaller_at(sa: Seq<u32>, sb: Seq<u32>, i: usize)
    requires
        sa.len() == sb.len(),
        i < sa.len(),
        normalized_digits(sa),
        normalized_digits(sb),
        digits_above(sa, i) == digits_above(sb, i),
        sa[i as int] < sb[i as int],
    ensures
        digits_value(sa) < digits_value(sb),
{
    lemma_digits_differ_at(sa, sb, i as int);
}

/// A valid layout of a value below 2^128 is non-negative with at most five
/// digits.
pub proof fn lemma_uuid_value_digit_count(p: PyLongParts)
    requires
        p.wf(),
        0 <= p.value() < 0x1_0000_0000_0000_0000_0000_0000_0000_0000,
    ensures
        !p.is_negative(),
        p.digit_count() <= 5,
{
    lemma_digits_value_lower(p.digits@);
    if p.digits@.len() > 5 {
        lemma_base_pow_monotone(5, (p.digits@.len() - 1) as nat);
        lemma_base_pow_five();
    }
}

/// Laying out a 128-bit value and reading the layout back gives the value.
pub proof fn lemma_layout_roundtrip(v: u128)
    ensures
        normalized_digits(digits_of(v as nat)),
        u128_value_of(digits_value(digits_of(v as nat)) as int) == Some(v),
{
    lemma_digits_of(v as nat);
}

} // verus!
