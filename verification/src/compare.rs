//! Ordering of UUID integer values straight from their digit layout.
use vstd::prelude::*;
use crate::pylong::{
    PyLongParts, lemma_tag_bits, lemma_fewer_digits_smaller, digits_from, digits_above, lemma_digits_from_step,
    lemma_digits_from_zero, lemma_digits_smaller_at, lemma_uuid_value_digit_count,
};
use core::cmp::Ordering;

verus! {

/// How two integers are ordered.
pub open spec fn order_of(a: int, b: int) -> Ordering {
    if a < b {
        Ordering::Less
    } else if a == b {
        Ordering::Equal
    } else {
        Ordering::Greater
    }
}

/// Whether the digit-level comparison cannot decide: a negative operand, or
/// two operands with the same digit count of more than five digits.
pub open spec fn unsigned_compare_undecided(a: PyLongParts, b: PyLongParts) -> bool {
    ||| a.is_negative()
    ||| b.is_negative()
    ||| (a.digit_count() == b.digit_count() && a.digit_count() > 5)
}

/// Compares two non-negative integers by their digits.
pub fn pylong_cmp_unsigned(a: &PyLongParts, b: &PyLongParts) -> (res: Option<Ordering>)
    requires
        a.wf(),
        b.wf(),
    ensures
        res is None <==> unsigned_compare_undecided(*a, *b),
        res matches Some(o) ==> o == order_of(a.value(), b.value()),
{
    proof {
        lemma_tag_bits(a.tag);
        lemma_tag_bits(b.tag);
    }
    let tag_a = a.tag;
    let tag_b = b.tag;
    if (tag_a & 3) == 2 || (tag_b & 3) == 2 {
        return None;
    }
    let na = if (tag_a & 3) == 1 {
        0
    } else {
        tag_a >> 3
    };
    let nb = if (tag_b & 3) == 1 {
        0
    } else {
        tag_b >> 3
    };
    let ghost sa = a.digits@;
    let ghost sb = b.digits@;
    if na != nb {
        if na < nb {
            proof {
                lemma_fewer_digits_smaller(sa, sb);
            }
            return Some(Ordering::Less);
        } else {
            proof {
                lemma_fewer_digits_smaller(sb, sa);
            }
            return Some(Ordering::Greater);
        }
    }
    if na == 0 || na > 5 {
        return if na == 0 {
            Some(Ordering::Equal)
        } else {
            None
        };
    }
    let mut i = na;
    while i > 0
        invariant
            i <= na,
            na == sa.len(),
            na == sb.len(),
            sa == a.digits@,
            sb == b.digits@,
            a.wf(),
            b.wf(),
            !a.is_negative(),
            !b.is_negative(),
            na <= 5,
            a.digit_count() == na,
            b.digit_count() == na,
            digits_from(sa, i) == digits_from(sb, i),
        decreases i,
    {
        let ghost prev = i;
        i -= 1;
        assert(digits_above(sa, i) == digits_from(sa, prev));
        assert(digits_above(sb, i) == digits_from(sb, prev));
        let ad = a.digits[i];
        let bd = b.digits[i];
        if ad != bd {
            if ad < bd {
                proof {
                    lemma_digits_smaller_at(sa, sb, i);
                }
                return Some(Ordering::Less);
            } else {
                proof {
                    lemma_digits_smaller_at(sb, sa, i);
                }
                return Some(Ordering::Greater);
            }
        }
        proof {
            lemma_digits_from_step(sa, sb, i);
        }
    }
    proof {
        lemma_digits_from_zero(sa, sb);
    }
    Some(Ordering::Equal)
}

/// The rich comparisons of UUIDs.
#[derive(Clone, Copy, Debug, PartialEq, Eq, Structural)]
pub enum CompareOp {
    Eq,
    Lt,
    Gt,
    Le,
    Ge,
}

/// What a comparison says of an ordering.
pub open spec fn op_holds(op: CompareOp, o: Ordering) -> bool {
    match op {
        CompareOp::Eq => o == Ordering::Equal,
        CompareOp::Lt => o == Ordering::Less,
        CompareOp::Gt => o == Ordering::Greater,
        CompareOp::Le => o != Ordering::Greater,
        CompareOp::Ge => o != Ordering::Less,
    }
}

/// The outcome of comparing two UUIDs by their `int` slots: the same integer
/// object compares as equal; otherwise the digit comparison decides, and
/// when it cannot the call goes to the unpatched function (`None`).
pub open spec fn compare_outcome(op: CompareOp, same_object: bool, a: PyLongParts, b: PyLongParts) -> Option<
    bool,
> {
    if same_object {
        Some(op_holds(op, Ordering::Equal))
    } else if unsigned_compare_undecided(a, b) {
        None
    } else {
        Some(op_holds(op, order_of(a.value(), b.value())))
    }
}

/// Compares two UUIDs by their `int` slots; `same_object` says whether both
/// slots hold the very same integer object.
pub fn compare_uuid_ints(op: CompareOp, same_object: bool, a: &PyLongParts, b: &PyLongParts) -> (res:
    Option<bool>)
    requires
        a.wf(),
        b.wf(),
    ensures
        res == compare_outcome(op, same_object, *a, *b),
{
    if same_object {
        return Some(
            match op {
                CompareOp::Lt | CompareOp::Gt => false,
                _ => true,
            },
        );
    }
    let ordering = match pylong_cmp_unsigned(a, b) {
        Some(ordering) => ordering,
        None => {
            return None;
        },
    };
    let is_eq = match ordering {
        Ordering::Equal => true,
        _ => false,
    };
    let is_lt = match ordering {
        Ordering::Less => true,
        _ => false,
    };
    let is_gt = match ordering {
        Ordering::Greater => true,
        _ => false,
    };
    Some(
        match op {
            CompareOp::Eq => is_eq,
            CompareOp::Lt => is_lt,
            CompareOp::Gt => is_gt,
            CompareOp::Le => !is_gt,
            CompareOp::Ge => !is_lt,
        },
    )
}

/// For UUID values (non-negative and below 2^128) the comparison is the
/// comparison of the integers.
pub proof fn lemma_compare_matches_values(op: CompareOp, a: PyLongParts, b: PyLongParts)
    requires
        a.wf(),
        b.wf(),
        0 <= a.value() < 0x1_0000_0000_0000_0000_0000_0000_0000_0000,
        0 <= b.value() < 0x1_0000_0000_0000_0000_0000_0000_0000_0000,
    ensures
        compare_outcome(op, false, a, b) == Some(
            match op {
                CompareOp::Eq => a.value() == b.value(),
                CompareOp::Lt => a.value() < b.value(),
                CompareOp::Gt => a.value() > b.value(),
                CompareOp::Le => a.value() <= b.value(),
                CompareOp::Ge => a.value() >= b.value(),
            },
        ),
{
    lemma_uuid_value_digit_count(a);
    lemma_uuid_value_digit_count(b);
}

} // verus!
