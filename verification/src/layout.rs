//! The byte and field layout of a UUID value: big-endian bytes, the
//! mixed-endian `bytes_le` form, the six RFC fields and the derived time,
//! clock sequence and node, the variant and version bits, and stamping a
//! version onto a value.
use vstd::prelude::*;
use crate::pylong::{PyLongParts, pylong_to_u128};
use crate::version::{version_of, uuid_version};

verus! {

/// The `i`-th byte of a value, most significant first.
pub open spec fn byte_at(v: u128, i: int) -> u8 {
    ((v >> ((120 - 8 * i) as u128)) & 0xff) as u8
}

/// The 16 big-endian bytes of a value.
pub open spec fn be_bytes(v: u128) -> Seq<u8> {
    Seq::new(16, |i: int| byte_at(v, i))
}

/// The mixed-endian order of the first three fields: the 4-byte, 2-byte and
/// 2-byte fields reversed in place, the last 8 bytes kept.
pub open spec fn le_field_order(b: Seq<u8>) -> Seq<u8> {
    seq![b[3], b[2], b[1], b[0], b[5], b[4], b[7], b[6]] + b.subrange(8, 16)
}

/// The 16 mixed-endian bytes of a value.
pub open spec fn le_bytes(v: u128) -> Seq<u8> {
    le_field_order(be_bytes(v))
}

/// Bytes read as a big-endian magnitude.
pub open spec fn be_value(s: Seq<u8>) -> nat
    decreases s.len(),
{
    if s.len() == 0 {
        0
    } else {
        be_value(s.drop_last()) * 256 + s.last() as nat
    }
}

/// The value that 16 bytes stand for, read big-endian; `None` for any other
/// length.
pub open spec fn bytes_value(b: Seq<u8>) -> Option<u128> {
    if b.len() == 16 {
        Some(be_value(b) as u128)
    } else {
        None
    }
}

/// The value that 16 mixed-endian bytes stand for; `None` for any other
/// length.
pub open spec fn bytes_le_value(b: Seq<u8>) -> Option<u128> {
    if b.len() == 16 {
        Some(be_value(le_field_order(b)) as u128)
    } else {
        None
    }
}

/// `uuid::Uuid::from_slice`, read as a 128-bit value: a UUID exactly when
/// the slice is 16 bytes long, taken as its big-endian bytes.
#[verifier::external_body]
fn uuid_from_slice(bytes: &[u8]) -> (res: Option<u128>)
    ensures
        res == bytes_value(bytes@),
{
    match uuid::Uuid::from_slice(bytes) {
        Ok(uuid) => Some(uuid.as_u128()),
        Err(_) => None,
    }
}

/// `uuid::Uuid::from_slice_le`, read as a 128-bit value: a UUID exactly when
/// the slice is 16 bytes long; the first three fields are byte-reversed.
#[verifier::external_body]
fn uuid_from_slice_le(bytes: &[u8]) -> (res: Option<u128>)
    ensures
        res == bytes_le_value(bytes@),
{
    match uuid::Uuid::from_slice_le(bytes) {
        Ok(uuid) => Some(uuid.as_u128()),
        Err(_) => None,
    }
}

/// The value of a 16-byte `bytes` or `bytes_le` argument; `None` for any
/// other length.
pub fn bytes_to_uuid_int(bytes: &[u8], little_endian: bool) -> (res: Option<u128>)
    ensures
        res == if little_endian {
            bytes_le_value(bytes@)
        } else {
            bytes_value(bytes@)
        },
{
    if bytes.len() != 16 {
        return None;
    }
    if little_endian {
        uuid_from_slice_le(bytes)
    } else {
        uuid_from_slice(bytes)
    }
}

/// The 16 big-endian bytes of `value`.
pub fn uuid_bytes(value: u128) -> (res: Vec<u8>)
    ensures
        res@ == be_bytes(value),
{
    let mut bytes: Vec<u8> = Vec::new();
    let mut i: usize = 0;
    while i < 16
        invariant
            i <= 16,
            bytes@.len() == i,
            forall|j: int| 0 <= j < i ==> #[trigger] bytes@[j] == byte_at(value, j),
        decreases 16 - i,
    {
        let shift: u128 = (120 - 8 * i) as u128;
        bytes.push(((value >> shift) & 0xff) as u8);
        i += 1;
    }
    assert(bytes@ =~= be_bytes(value));
    bytes
}

/// The 16 mixed-endian bytes of `value`: the first three fields
/// little-endian, the last eight bytes as they are.
pub fn uuid_bytes_le(value: u128) -> (res: Vec<u8>)
    ensures
        res@ == le_bytes(value),
{
    let be = uuid_bytes(value);
    let mut bytes: Vec<u8> = vec![be[3], be[2], be[1], be[0], be[5], be[4], be[7], be[6]];
    let mut i: usize = 8;
    while i < 16
        invariant
            8 <= i <= 16,
            be@ == be_bytes(value),
            bytes@.len() == i,
            bytes@.subrange(0, 8) == seq![be@[3], be@[2], be@[1], be@[0], be@[5], be@[4], be@[7], be@[6]],
            forall|j: int| 8 <= j < i ==> #[trigger] bytes@[j] == be@[j],
        decreases 16 - i,
    {
        bytes.push(be[i]);
        i += 1;
        assert(bytes@.subrange(0, 8) =~= bytes@.subrange(0, 8));
    }
    assert(bytes@ =~= le_bytes(value));
    bytes
}

proof fn lemma_byte_step(v: u128, s: u128, t: u128)
    requires
        s <= 120,
        t == s + 8,
    ensures
        (v >> t) * 256 + ((v >> s) & 0xff) == v >> s,
{
    assert((v >> t) * 256 + ((v >> s) & 0xff) == v >> s) by (bit_vector)
        requires
            s <= 120,
            t == s + 8,
    ;
}

proof fn lemma_be_bytes_prefix(v: u128, k: nat)
    requires
        1 <= k <= 16,
    ensures
        be_value(be_bytes(v).take(k as int)) == (v >> ((128 - 8 * k) as u128)) as nat,
    decreases k,
{
    let t = be_bytes(v).take(k as int);
    assert(t.drop_last() =~= be_bytes(v).take(k - 1));
    let s = (128 - 8 * k) as u128;
    assert(((v >> s) & 0xff) < 256) by (bit_vector);
    assert(t.last() == ((v >> s) & 0xff) as u8);
    assert(t.last() as nat == ((v >> s) & 0xff) as nat);
    assert(be_value(t) == be_value(t.drop_last()) * 256 + t.last() as nat);
    if k == 1 {
        assert(be_bytes(v).take(0).len() == 0);
        assert(be_value(t.drop_last()) == 0);
        assert((v >> 120u128) & 0xff == v >> 120u128) by (bit_vector);
    } else {
        lemma_be_bytes_prefix(v, (k - 1) as nat);
        lemma_byte_step(v, s, (136 - 8 * k) as u128);
        assert(be_value(t.drop_last()) == (v >> ((136 - 8 * k) as u128)) as nat);
    }
}

/// The big-endian bytes of a value read back give the value.
pub proof fn lemma_be_bytes_value(v: u128)
    ensures
        be_value(be_bytes(v)) == v,
{
    lemma_be_bytes_prefix(v, 16);
    assert(be_bytes(v).take(16) =~= be_bytes(v));
    assert(v >> 0u128 == v) by (bit_vector);
}

/// The `bytes` form of a value is read back as that value.
pub proof fn lemma_bytes_roundtrip(v: u128)
    ensures
        bytes_value(be_bytes(v)) == Some(v),
{
    lemma_be_bytes_value(v);
}

/// The `bytes_le` form of a value is read back as that value.
pub proof fn lemma_bytes_le_roundtrip(v: u128)
    ensures
        bytes_le_value(le_bytes(v)) == Some(v),
{
    lemma_be_bytes_value(v);
    assert(le_field_order(le_bytes(v)) =~= be_bytes(v));
}

/// The fields of a UUID value that are read as integers.
#[derive(Clone, Copy, Debug, PartialEq, Eq, Structural)]
pub enum UuidField {
    TimeLow,
    TimeMid,
    TimeHiVersion,
    ClockSeqHiVariant,
    ClockSeqLow,
    Time,
    ClockSeq,
    Node,
}

/// The integer value of one field of a UUID value.
pub open spec fn field_value(field: UuidField, v: u128) -> u128 {
    match field {
        UuidField::TimeLow => v >> 96,
        UuidField::TimeMid => (v >> 80) & 0xffff,
        UuidField::TimeHiVersion => (v >> 64) & 0xffff,
        UuidField::ClockSeqHiVariant => (v >> 56) & 0xff,
        UuidField::ClockSeqLow => (v >> 48) & 0xff,
        UuidField::Time => ((v >> 64) & 0x0fff) << 48 | (((v >> 80) & 0xffff) << 32) | (v >> 96),
        UuidField::ClockSeq => (((v >> 56) & 0x3f) << 8) | ((v >> 48) & 0xff),
        UuidField::Node => v & 0xffff_ffff_ffff,
    }
}

/// The 60-bit timestamp of a version 6 value, whose ticks stand most
/// significant first.
pub open spec fn sorted_time(v: u128) -> u128 {
    ((v >> 96) << 28) | (((v >> 80) & 0xffff) << 12) | ((v >> 64) & 0x0fff)
}

/// The `time` of a value as an interpreter that tells versions apart reads
/// it: a version 6 value by its sorted layout, a version 7 value as its
/// 48-bit Unix milliseconds, any other value by the version 1 layout.
pub open spec fn versioned_time(v: u128) -> u128 {
    if version_of(v) == Some(6u8) {
        sorted_time(v)
    } else if version_of(v) == Some(7u8) {
        v >> 80
    } else {
        field_value(UuidField::Time, v)
    }
}

/// The `time` of `value`: by its version when `by_version` (interpreters
/// whose `UUID.time` reads versions 6 and 7 in their own layouts), else by
/// the version 1 layout.
pub fn uuid_time(value: u128, by_version: bool) -> (res: u128)
    ensures
        res == if by_version {
            versioned_time(value)
        } else {
            field_value(UuidField::Time, value)
        },
{
    if by_version {
        let version = uuid_version(value);
        if version == Some(6u8) {
            return ((value >> 96) << 28) | (((value >> 80) & 0xffff) << 12) | ((value >> 64) & 0x0fff);
        }
        if version == Some(7u8) {
            return value >> 80;
        }
    }
    uuid_field_value(UuidField::Time, value)
}

/// The six RFC fields of a value: time_low, time_mid, time_hi_version,
/// clock_seq_hi_variant, clock_seq_low, node.
pub open spec fn fields_of(v: u128) -> Seq<u128> {
    seq![
        field_value(UuidField::TimeLow, v),
        field_value(UuidField::TimeMid, v),
        field_value(UuidField::TimeHiVersion, v),
        field_value(UuidField::ClockSeqHiVariant, v),
        field_value(UuidField::ClockSeqLow, v),
        field_value(UuidField::Node, v),
    ]
}

/// The integer value of one field of `value`.
pub fn uuid_field_value(field: UuidField, value: u128) -> (res: u128)
    ensures
        res == field_value(field, value),
{
    match field {
        UuidField::TimeLow => value >> 96,
        UuidField::TimeMid => (value >> 80) & 0xffff,
        UuidField::TimeHiVersion => (value >> 64) & 0xffff,
        UuidField::ClockSeqHiVariant => (value >> 56) & 0xff,
        UuidField::ClockSeqLow => (value >> 48) & 0xff,
        UuidField::Time => ((value >> 64) & 0x0fff) << 48 | (((value >> 80) & 0xffff) << 32) | (
        value >> 96),
        UuidField::ClockSeq => (((value >> 56) & 0x3f) << 8) | ((value >> 48) & 0xff),
        UuidField::Node => value & 0xffff_ffff_ffff,
    }
}

/// The six RFC fields of `value`.
pub fn uuid_fields(value: u128) -> (res: Vec<u128>)
    ensures
        res@ == fields_of(value),
{
    let res = vec![
        uuid_field_value(UuidField::TimeLow, value),
        uuid_field_value(UuidField::TimeMid, value),
        uuid_field_value(UuidField::TimeHiVersion, value),
        uuid_field_value(UuidField::ClockSeqHiVariant, value),
        uuid_field_value(UuidField::ClockSeqLow, value),
        uuid_field_value(UuidField::Node, value),
    ];
    assert(res@ =~= fields_of(value));
    res
}

/// The exclusive upper bound of each of the six fields: 32, 16, 16, 8, 8 and
/// 48 bits.
pub open spec fn field_limit(i: int) -> int {
    if i == 0 {
        0x1_0000_0000
    } else if i == 1 || i == 2 {
        0x1_0000
    } else if i == 3 || i == 4 {
        0x100
    } else {
        0x1_0000_0000_0000
    }
}

/// Six integers, each within its field's width.
pub open spec fn fields_in_range(vals: Seq<int>) -> bool {
    &&& vals.len() == 6
    &&& forall|i: int| 0 <= i < 6 ==> 0 <= #[trigger] vals[i] < field_limit(i)
}

/// The value that six fields stand for.
pub open spec fn fields_combined(vals: Seq<int>) -> int {
    vals[0] * 0x1_0000_0000_0000_0000_0000_0000 + vals[1] * 0x1_0000_0000_0000_0000_0000 + vals[2]
        * 0x1_0000_0000_0000_0000 + vals[3] * 0x100_0000_0000_0000 + vals[4] * 0x1_0000_0000_0000
        + vals[5]
}

/// The value of a `fields` argument: six integers within their widths; `None`
/// for any other.
pub open spec fn fields_uuid_value(vals: Seq<int>) -> Option<u128> {
    if fields_in_range(vals) {
        Some(fields_combined(vals) as u128)
    } else {
        None
    }
}

/// The integers of a sequence of integer layouts.
pub open spec fn parts_values(items: Seq<PyLongParts>) -> Seq<int> {
    items.map_values(|p: PyLongParts| p.value())
}

proof fn lemma_combine_fields(a: u128, b: u128, c: u128, d: u128, e: u128, f: u128)
    requires
        a < 0x1_0000_0000,
        b < 0x1_0000,
        c < 0x1_0000,
        d < 0x100,
        e < 0x100,
        f < 0x1_0000_0000_0000,
    ensures
        (a << 96) | (b << 80) | (c << 64) | (d << 56) | (e << 48) | f == a
            * 0x1_0000_0000_0000_0000_0000_0000 + b * 0x1_0000_0000_0000_0000_0000 + c
            * 0x1_0000_0000_0000_0000 + d * 0x100_0000_0000_0000 + e * 0x1_0000_0000_0000 + f,
{
    assert((a << 96) | (b << 80) | (c << 64) | (d << 56) | (e << 48) | f == a
        * 0x1_0000_0000_0000_0000_0000_0000 + b * 0x1_0000_0000_0000_0000_0000 + c
        * 0x1_0000_0000_0000_0000 + d * 0x100_0000_0000_0000 + e * 0x1_0000_0000_0000 + f)
        by (bit_vector)
        requires
            a < 0x1_0000_0000,
            b < 0x1_0000,
            c < 0x1_0000,
            d < 0x100,
            e < 0x100,
            f < 0x1_0000_0000_0000,
    ;
}

/// The value of a `fields` argument given as six integer layouts.
pub fn fields_to_uuid_int(items: &Vec<PyLongParts>) -> (res: Option<u128>)
    requires
        forall|i: int| 0 <= i < items@.len() ==> (#[trigger] items@[i]).wf(),
    ensures
        res == fields_uuid_value(parts_values(items@)),
{
    let ghost vals = parts_values(items@);
    if items.len() != 6 {
        return None;
    }
    let mut values: Vec<u128> = Vec::new();
    let mut index: usize = 0;
    while index < 6
        invariant
            items@.len() == 6,
            vals == parts_values(items@),
            forall|i: int| 0 <= i < items@.len() ==> (#[trigger] items@[i]).wf(),
            index <= 6,
            values@.len() == index,
            forall|j: int| 0 <= j < index ==> #[trigger] values@[j] == vals[j],
        decreases 6 - index,
    {
        match pylong_to_u128(&items[index]) {
            Some(value) => {
                values.push(value);
            },
            None => {
                assert(!(0 <= vals[index as int] < field_limit(index as int)));
                return None;
            },
        }
        index += 1;
    }
    if values[0] >= (1u128 << 32) || values[1] >= (1u128 << 16) || values[2] >= (1u128 << 16)
        || values[3] >= (1u128 << 8) || values[4] >= (1u128 << 8) || values[5] >= (1u128 << 48) {
        assert(1u128 << 32 == 0x1_0000_0000 && 1u128 << 16 == 0x1_0000 && 1u128 << 8 == 0x100
            && 1u128 << 48 == 0x1_0000_0000_0000) by (bit_vector);
        return None;
    }
    assert(1u128 << 32 == 0x1_0000_0000 && 1u128 << 16 == 0x1_0000 && 1u128 << 8 == 0x100 && 1u128
        << 48 == 0x1_0000_0000_0000) by (bit_vector);
    proof {
        lemma_combine_fields(values[0], values[1], values[2], values[3], values[4], values[5]);
    }
    Some(
        (values[0] << 96) | (values[1] << 80) | (values[2] << 64) | (values[3] << 56) | (values[4]
            << 48) | values[5],
    )
}

/// The six fields of a value are within their widths and combine back to
/// the value.
pub proof fn lemma_fields_roundtrip(v: u128)
    ensures
        fields_uuid_value(fields_of(v).map_values(|x: u128| x as int)) == Some(v),
{
    let vals = fields_of(v).map_values(|x: u128| x as int);
    let a = v >> 96;
    let b = (v >> 80) & 0xffff;
    let c = (v >> 64) & 0xffff;
    let d = (v >> 56) & 0xff;
    let e = (v >> 48) & 0xff;
    let f = v & 0xffff_ffff_ffff;
    assert(a < 0x1_0000_0000 && b < 0x1_0000 && c < 0x1_0000 && d < 0x100 && e < 0x100 && f
        < 0x1_0000_0000_0000) by (bit_vector)
        requires
            a == v >> 96,
            b == (v >> 80) & 0xffff,
            c == (v >> 64) & 0xffff,
            d == (v >> 56) & 0xff,
            e == (v >> 48) & 0xff,
            f == v & 0xffff_ffff_ffff,
    ;
    assert((a << 96) | (b << 80) | (c << 64) | (d << 56) | (e << 48) | f == v) by (bit_vector)
        requires
            a == v >> 96,
            b == (v >> 80) & 0xffff,
            c == (v >> 64) & 0xffff,
            d == (v >> 56) & 0xff,
            e == (v >> 48) & 0xff,
            f == v & 0xffff_ffff_ffff,
    ;
    lemma_combine_fields(a, b, c, d, e, f);
    assert(vals[0] == a && vals[1] == b && vals[2] == c && vals[3] == d && vals[4] == e && vals[5]
        == f);
}

/// The six bytes of a 48-bit node, most significant first.
pub open spec fn node_bytes(node: u128) -> Seq<u8> {
    seq![
        ((node >> 40) & 0xff) as u8,
        ((node >> 32) & 0xff) as u8,
        ((node >> 24) & 0xff) as u8,
        ((node >> 16) & 0xff) as u8,
        ((node >> 8) & 0xff) as u8,
        (node & 0xff) as u8,
    ]
}

/// The six bytes of the low 48 bits of `node`, most significant first.
pub fn node_to_bytes(node: u128) -> (res: [u8; 6])
    ensures
        res@ == node_bytes(node),
{
    let res = [
        ((node >> 40) & 0xff) as u8,
        ((node >> 32) & 0xff) as u8,
        ((node >> 24) & 0xff) as u8,
        ((node >> 16) & 0xff) as u8,
        ((node >> 8) & 0xff) as u8,
        (node & 0xff) as u8,
    ];
    assert(res@ =~= node_bytes(node));
    res
}

/// `256` raised to the power `n`.
spec fn byte_pow(n: nat) -> nat
    decreases n,
{
    if n == 0 {
        1
    } else {
        256 * byte_pow((n - 1) as nat)
    }
}

/// `n` bytes stand for less than `256^n`.
proof fn lemma_be_value_bound(s: Seq<u8>)
    ensures
        be_value(s) < byte_pow(s.len()),
    decreases s.len(),
{
    if s.len() > 0 {
        lemma_be_value_bound(s.drop_last());
        assert(be_value(s) == be_value(s.drop_last()) * 256 + s.last() as nat);
        assert(be_value(s.drop_last()) + 1 <= byte_pow(s.drop_last().len()));
        assert(be_value(s.drop_last()) * 256 + 256 <= byte_pow(s.drop_last().len()) * 256)
            by (nonlinear_arith)
            requires
                be_value(s.drop_last()) + 1 <= byte_pow(s.drop_last().len()),
        ;
    }
}

/// Equally long byte strings with the same big-endian value are equal.
proof fn lemma_be_value_injective(s: Seq<u8>, t: Seq<u8>)
    requires
        s.len() == t.len(),
        be_value(s) == be_value(t),
    ensures
        s == t,
    decreases s.len(),
{
    if s.len() > 0 {
        let x = be_value(s.drop_last());
        let y = be_value(t.drop_last());
        let a = s.last() as nat;
        let c = t.last() as nat;
        assert(x * 256 + a == y * 256 + c);
        assert(a == c && x == y) by (nonlinear_arith)
            requires
                x * 256 + a == y * 256 + c,
                a < 256,
                c < 256,
        ;
        lemma_be_value_injective(s.drop_last(), t.drop_last());
        assert(s =~= s.drop_last().push(s.last()));
        assert(t =~= t.drop_last().push(t.last()));
    }
}

/// A 16-byte `bytes` argument is exactly the big-endian bytes of the value
/// it is read as: reading and writing bytes undo each other.
pub proof fn lemma_bytes_value_is_be_bytes(b: Seq<u8>)
    requires
        b.len() == 16,
    ensures
        bytes_value(b) matches Some(w) && be_bytes(w) == b,
{
    lemma_be_value_bound(b);
    reveal_with_fuel(byte_pow, 17);
    let w = be_value(b) as u128;
    lemma_be_bytes_value(w);
    lemma_be_value_injective(be_bytes(w), b);
}

/// A 16-byte `bytes_le` argument is exactly the mixed-endian bytes of the
/// value it is read as: the first three fields are little-endian.
pub proof fn lemma_bytes_le_value_is_le_bytes(b: Seq<u8>)
    requires
        b.len() == 16,
    ensures
        bytes_le_value(b) matches Some(w) && le_bytes(w) == b,
{
    let f = le_field_order(b);
    assert(f.len() == 16);
    lemma_bytes_value_is_be_bytes(f);
    let w = be_value(f) as u128;
    assert(be_bytes(w) == f);
    assert(le_field_order(f) =~= b);
}

/// A `fields` argument within the field widths is exactly the six fields of
/// the value it is read as.
pub proof fn lemma_fields_value_is_fields(vals: Seq<int>)
    requires
        fields_in_range(vals),
    ensures
        fields_uuid_value(vals) matches Some(w) && forall|i: int|
            0 <= i < 6 ==> #[trigger] fields_of(w)[i] as int == vals[i],
{
    assert(0 <= vals[0] < field_limit(0) && 0 <= vals[1] < field_limit(1) && 0 <= vals[2]
        < field_limit(2) && 0 <= vals[3] < field_limit(3) && 0 <= vals[4] < field_limit(4) && 0
        <= vals[5] < field_limit(5));
    let a = vals[0] as u128;
    let b = vals[1] as u128;
    let c = vals[2] as u128;
    let d = vals[3] as u128;
    let e = vals[4] as u128;
    let f = vals[5] as u128;
    lemma_combine_fields(a, b, c, d, e, f);
    let w = (a << 96) | (b << 80) | (c << 64) | (d << 56) | (e << 48) | f;
    assert(fields_combined(vals) == w);
    assert(w >> 96 == a && (w >> 80) & 0xffff == b && (w >> 64) & 0xffff == c && (w >> 56) & 0xff
        == d && (w >> 48) & 0xff == e && w & 0xffff_ffff_ffff == f) by (bit_vector)
        requires
            a < 0x1_0000_0000,
            b < 0x1_0000,
            c < 0x1_0000,
            d < 0x100,
            e < 0x100,
            f < 0x1_0000_0000_0000,
            w == (a << 96) | (b << 80) | (c << 64) | (d << 56) | (e << 48) | f,
    ;
}

} // verus!
