//! Generating UUID values: random (version 4), name-based (versions 3 and
//! 5), time-ordered random (version 7), and time-and-node based (versions 1
//! and 6), with the node and clock sequence resolved from the arguments.
use vstd::prelude::*;
use crate::layout::{be_value, node_bytes, field_value, sorted_time, versioned_time, UuidField};
use crate::pylong::{PyLongParts, pylong_to_u128, u128_value_of};
use crate::version::{has_version, version_of, variant_of, UuidVariant};

verus! {

/// The low 48 bits of a value: the node.
pub open spec fn node_bits(v: u128) -> u128 {
    v & 0xffff_ffff_ffff
}

/// `uuid::Uuid::new_v4`, read as a 128-bit value. Its 122 payload bits are
/// random; the crate masks in version 4 and the RFC variant.
#[verifier::external_body]
fn uuid_new_v4() -> (res: u128)
    ensures
        has_version(res, 4),
{
    uuid::Uuid::new_v4().as_u128()
}

/// `uuid::Uuid::now_v7`, read as a 128-bit value. It depends on the clock
/// and on random bits; the crate always sets version 7 and the RFC variant.
#[verifier::external_body]
fn uuid_now_v7() -> (res: u128)
    ensures
        has_version(res, 7),
{
    uuid::Uuid::now_v7().as_u128()
}

/// `uuid::Uuid::now_v1` for a node, read as a 128-bit value. Its timestamp
/// and clock sequence come from the clock and a shared counter; the crate
/// sets version 1, the RFC variant and the node as the low 48 bits.
#[verifier::external_body]
fn uuid_now_v1(node: &[u8; 6]) -> (res: u128)
    ensures
        has_version(res, 1),
        node_bits(res) == be_value(node@),
{
    uuid::Uuid::now_v1(node).as_u128()
}

/// `uuid::Uuid::now_v6` for a node, read as a 128-bit value; as `now_v1`
/// with version 6.
#[verifier::external_body]
fn uuid_now_v6(node: &[u8; 6]) -> (res: u128)
    ensures
        has_version(res, 6),
        node_bits(res) == be_value(node@),
{
    uuid::Uuid::now_v6(node).as_u128()
}

/// What `uuid::Uuid::new_v3` gives for a namespace and a name: the MD5
/// digest of the namespace bytes and the name, stamped as version 3.
pub uninterp spec fn md5_name_uuid(namespace: u128, name: Seq<u8>) -> u128;

/// What `uuid::Uuid::new_v5` gives for a namespace and a name: the leading
/// bytes of the SHA-1 digest of the namespace bytes and the name, stamped as
/// version 5.
pub uninterp spec fn sha1_name_uuid(namespace: u128, name: Seq<u8>) -> u128;

/// `uuid::Uuid::new_v3(&Uuid::from_u128(namespace), name)`, read as a
/// 128-bit value; the crate stamps version 3 and the RFC variant on the
/// digest.
#[verifier::external_body]
fn uuid_new_v3(namespace: u128, name: &[u8]) -> (res: u128)
    ensures
        res == md5_name_uuid(namespace, name@),
        has_version(res, 3),
{
    uuid::Uuid::new_v3(&uuid::Uuid::from_u128(namespace), name).as_u128()
}

/// `uuid::Uuid::new_v5(&Uuid::from_u128(namespace), name)`, read as a
/// 128-bit value; the crate stamps version 5 and the RFC variant on the
/// digest.
#[verifier::external_body]
fn uuid_new_v5(namespace: u128, name: &[u8]) -> (res: u128)
    ensures
        res == sha1_name_uuid(namespace, name@),
        has_version(res, 5),
{
    uuid::Uuid::new_v5(&uuid::Uuid::from_u128(namespace), name).as_u128()
}

/// The 100-nanosecond ticks since 1582-10-15 of a Unix time, wrapping at
/// 64 bits.
pub open spec fn gregorian_ticks_of(seconds: u64, nanos: u32) -> u64 {
    ((0x01B2_1DD2_1381_4000 + seconds * 10_000_000 + nanos / 100) % 0x1_0000_0000_0000_0000) as u64
}

/// `uuid::Timestamp::from_unix(ContextV1::new_random(), seconds, nanos)`
/// then `.to_gregorian().0`: the crate adds the ticks between the epochs to
/// `seconds * 10_000_000 + nanos / 100`, wrapping at 64 bits. The random
/// context only feeds the counter, which is not used.
#[verifier::external_body]
fn uuid_gregorian_ticks(seconds: u64, nanos: u32) -> (res: u64)
    ensures
        res == gregorian_ticks_of(seconds, nanos),
{
    uuid::Timestamp::from_unix(uuid::ContextV1::new_random(), seconds, nanos).to_gregorian().0
}

/// The low part shared by versions 1 and 6: the RFC variant, the 14-bit
/// clock sequence and the node.
pub open spec fn clock_seq_and_node(counter: u16, node: Seq<u8>) -> u128 {
    (((((counter as u128) & 0x3F00) >> 8) | 0x80) << 56) | (((counter as u128) & 0xFF) << 48) | (
    be_value(node) as u128)
}

/// A version 1 value for ticks, a clock sequence and a node.
pub open spec fn gregorian_uuid(ticks: u64, counter: u16, node: Seq<u8>) -> u128 {
    (((ticks as u128) & 0xFFFF_FFFF) << 96) | ((((ticks as u128) >> 32) & 0xFFFF) << 80) | (((((
    ticks as u128) >> 48) & 0x0FFF) | 0x1000) << 64) | clock_seq_and_node(counter, node)
}

/// A version 6 value for ticks, a clock sequence and a node.
pub open spec fn sorted_gregorian_uuid(ticks: u64, counter: u16, node: Seq<u8>) -> u128 {
    ((((ticks as u128) >> 28) & 0xFFFF_FFFF) << 96) | ((((ticks as u128) >> 12) & 0xFFFF) << 80) | (
    (((ticks as u128) & 0x0FFF) | 0x6000) << 64) | clock_seq_and_node(counter, node)
}

/// `uuid::Builder::from_gregorian_timestamp`, read as a 128-bit value: the
/// crate lays out time_low, time_mid and time_hi with version 1, then the
/// variant with the clock sequence, then the node.
#[verifier::external_body]
fn builder_gregorian(ticks: u64, counter: u16, node: &[u8; 6]) -> (res: u128)
    ensures
        res == gregorian_uuid(ticks, counter, node@),
{
    uuid::Builder::from_gregorian_timestamp(ticks, counter, node).into_uuid().as_u128()
}

/// `uuid::Builder::from_sorted_gregorian_timestamp`, read as a 128-bit value:
/// the crate lays out the ticks most significant first with version 6, then
/// the variant with the clock sequence, then the node.
#[verifier::external_body]
fn builder_sorted_gregorian(ticks: u64, counter: u16, node: &[u8; 6]) -> (res: u128)
    ensures
        res == sorted_gregorian_uuid(ticks, counter, node@),
{
    uuid::Builder::from_sorted_gregorian_timestamp(ticks, counter, node).into_uuid().as_u128()
}

/// A random version 4 value.
pub fn generate_uuid4() -> (res: u128)
    ensures
        has_version(res, 4),
{
    uuid_new_v4()
}

/// A time-ordered version 7 value.
pub fn generate_uuid7() -> (res: u128)
    ensures
        has_version(res, 7),
{
    uuid_now_v7()
}

/// A name-based value: version 3 (MD5) when `version` is 3, otherwise
/// version 5 (SHA-1).
pub fn name_based_uuid(version: u8, namespace: u128, name: &[u8]) -> (res: u128)
    ensures
        version == 3 ==> res == md5_name_uuid(namespace, name@) && has_version(res, 3),
        version != 3 ==> res == sha1_name_uuid(namespace, name@) && has_version(res, 5),
{
    if version == 3 {
        uuid_new_v3(namespace, name)
    } else {
        uuid_new_v5(namespace, name)
    }
}

/// A version 1 (or, when `sorted`, version 6) value for the node, with the
/// clock and the shared clock sequence.
pub fn timestamp_uuid_now(node: &[u8; 6], sorted: bool) -> (res: u128)
    ensures
        has_version(res, if sorted { 6u8 } else { 1u8 }),
        node_bits(res) == be_value(node@),
{
    if sorted {
        uuid_now_v6(node)
    } else {
        uuid_now_v1(node)
    }
}

/// The timestamp a time-based UUID uses: the clock's reading, or, when the
/// clock has not moved past the last timestamp used, one tick past that one
/// (which stays put only at the largest 64-bit count).
pub open spec fn next_ticks(last: Option<u64>, now: u64) -> u64 {
    match last {
        Some(l) => if now <= l {
            if l < u64::MAX {
                (l + 1) as u64
            } else {
                l
            }
        } else {
            now
        },
        None => now,
    }
}

/// Picks the timestamp after `last` for a clock reading of `now` ticks.
pub fn next_timestamp(last: Option<u64>, now: u64) -> (res: u64)
    ensures
        res == next_ticks(last, now),
{
    match last {
        Some(l) => if now <= l {
            l.saturating_add(1)
        } else {
            now
        },
        None => now,
    }
}

/// Successive timestamps strictly increase: the one picked after `last` is
/// past it (short of the largest 64-bit count) and never behind the clock.
pub proof fn lemma_timestamps_increase(last: Option<u64>, now: u64)
    ensures
        next_ticks(last, now) >= now,
        last is Some && last->0 < u64::MAX ==> next_ticks(last, now) > last->0,
{
}

/// A version 1 (or, when `sorted`, version 6) value for the node at the
/// given Unix time, with the low 14 bits of `clock_seq` as clock sequence,
/// and its timestamp, which is past `last`, the last one used.
pub fn timestamp_uuid_with_clock_seq(
    node: &[u8; 6],
    clock_seq: u128,
    seconds: u64,
    nanos: u32,
    sorted: bool,
    last: Option<u64>,
) -> (res: (u128, u64))
    ensures
        res.1 == next_ticks(last, gregorian_ticks_of(seconds, nanos)),
        res.0 == if sorted {
            sorted_gregorian_uuid(res.1, (clock_seq & 0x3fff) as u16, node@)
        } else {
            gregorian_uuid(res.1, (clock_seq & 0x3fff) as u16, node@)
        },
{
    let counter = (clock_seq & 0x3fff) as u16;
    let ticks = next_timestamp(last, uuid_gregorian_ticks(seconds, nanos));
    let value = if sorted {
        builder_sorted_gregorian(ticks, counter, node)
    } else {
        builder_gregorian(ticks, counter, node)
    };
    (value, ticks)
}

/// The default node as read from a `getnode` result: its low 48 bits.
pub fn mask_default_node_value(node: u128) -> (res: u128)
    ensures
        res == node_bits(node),
{
    node & 0xffffffffffff
}

/// An explicit node is accepted only below 2^48; `None` stands for the
/// "field 6 out of range (need a 48-bit value)" error.
pub fn validate_explicit_node_value(node: u128) -> (res: Option<u128>)
    ensures
        res == if node < 0x1_0000_0000_0000 {
            Some(node)
        } else {
            None
        },
{
    if node < (1u128 << 48) {
        assert(1u128 << 48 == 0x1_0000_0000_0000) by (bit_vector);
        Some(node)
    } else {
        assert(1u128 << 48 == 0x1_0000_0000_0000) by (bit_vector);
        None
    }
}

/// A `node` or `clock_seq` argument as the interpreter handed it over.
pub enum IntArgument {
    /// Not given, or given as `None`.
    Missing,
    /// An integer.
    Int(PyLongParts),
    /// Anything else.
    Other,
}

/// Whether an argument is well formed: an integer argument holds a valid
/// integer layout.
pub open spec fn int_argument_wf(arg: IntArgument) -> bool {
    match arg {
        IntArgument::Int(parts) => parts.wf(),
        _ => true,
    }
}

/// How the node of a time-based UUID is found.
#[derive(Clone, Copy, Debug, PartialEq, Eq, Structural)]
pub enum NodeChoice {
    /// Use the default node.
    Default,
    /// Use this explicit node.
    Explicit(u128),
    /// Raise "field 6 out of range (need a 48-bit value)".
    OutOfRange,
    /// Hand the call to the unpatched standard-library function.
    CallUnpatched,
}

/// The node choice an argument stands for.
pub open spec fn node_choice_of(arg: IntArgument) -> NodeChoice {
    match arg {
        IntArgument::Missing => NodeChoice::Default,
        IntArgument::Int(parts) => match u128_value_of(parts.value()) {
            None => NodeChoice::CallUnpatched,
            Some(v) => if v < 0x1_0000_0000_0000 {
                NodeChoice::Explicit(v)
            } else {
                NodeChoice::OutOfRange
            },
        },
        IntArgument::Other => NodeChoice::CallUnpatched,
    }
}

/// Decides where the node of a time-based UUID comes from.
pub fn resolve_node(arg: &IntArgument) -> (res: NodeChoice)
    requires
        int_argument_wf(*arg),
    ensures
        res == node_choice_of(*arg),
{
    match arg {
        IntArgument::Missing => NodeChoice::Default,
        IntArgument::Int(parts) => match pylong_to_u128(parts) {
            None => NodeChoice::CallUnpatched,
            Some(value) => match validate_explicit_node_value(value) {
                Some(node) => NodeChoice::Explicit(node),
                None => NodeChoice::OutOfRange,
            },
        },
        IntArgument::Other => NodeChoice::CallUnpatched,
    }
}

/// The node choice an argument stands for when the node is masked to its
/// low 48 bits rather than checked, as version 6 does.
pub open spec fn masked_node_choice_of(arg: IntArgument) -> NodeChoice {
    match arg {
        IntArgument::Missing => NodeChoice::Default,
        IntArgument::Int(parts) => match u128_value_of(parts.value()) {
            None => NodeChoice::CallUnpatched,
            Some(v) => NodeChoice::Explicit(node_bits(v)),
        },
        IntArgument::Other => NodeChoice::CallUnpatched,
    }
}

/// Decides where the node of a version 6 UUID comes from: an explicit node
/// is masked to its low 48 bits.
pub fn resolve_masked_node(arg: &IntArgument) -> (res: NodeChoice)
    requires
        int_argument_wf(*arg),
    ensures
        res == masked_node_choice_of(*arg),
{
    match arg {
        IntArgument::Missing => NodeChoice::Default,
        IntArgument::Int(parts) => match pylong_to_u128(parts) {
            None => NodeChoice::CallUnpatched,
            Some(value) => NodeChoice::Explicit(mask_default_node_value(value)),
        },
        IntArgument::Other => NodeChoice::CallUnpatched,
    }
}

/// How the clock sequence of a time-based UUID is found.
#[derive(Clone, Copy, Debug, PartialEq, Eq, Structural)]
pub enum ClockSeqChoice {
    /// Let the crate take the clock and its shared clock sequence.
    Now,
    /// Take the clock here and use this clock sequence (its low 14 bits).
    Explicit(u128),
    /// Hand the call to the unpatched standard-library function.
    CallUnpatched,
}

/// The clock-sequence choice an argument stands for.
pub open spec fn clock_seq_choice_of(arg: IntArgument) -> ClockSeqChoice {
    match arg {
        IntArgument::Missing => ClockSeqChoice::Now,
        IntArgument::Int(parts) => match u128_value_of(parts.value()) {
            None => ClockSeqChoice::CallUnpatched,
            Some(v) => ClockSeqChoice::Explicit(v),
        },
        IntArgument::Other => ClockSeqChoice::CallUnpatched,
    }
}

/// Decides where the clock sequence of a time-based UUID comes from.
pub fn resolve_clock_seq(arg: &IntArgument) -> (res: ClockSeqChoice)
    requires
        int_argument_wf(*arg),
    ensures
        res == clock_seq_choice_of(*arg),
{
    match arg {
        IntArgument::Missing => ClockSeqChoice::Now,
        IntArgument::Int(parts) => match pylong_to_u128(parts) {
            None => ClockSeqChoice::CallUnpatched,
            Some(value) => ClockSeqChoice::Explicit(value),
        },
        IntArgument::Other => ClockSeqChoice::CallUnpatched,
    }
}

/// Six node bytes read back give the low 48 bits of the node.
pub proof fn lemma_node_bytes_value(n: u128)
    ensures
        be_value(node_bytes(n)) == node_bits(n),
{
    let b = node_bytes(n);
    reveal_with_fuel(be_value, 7);
    assert(b.drop_last().drop_last().drop_last().drop_last().drop_last().drop_last().len() == 0);
    let b0 = (n >> 40) & 0xff;
    let b1 = (n >> 32) & 0xff;
    let b2 = (n >> 24) & 0xff;
    let b3 = (n >> 16) & 0xff;
    let b4 = (n >> 8) & 0xff;
    let b5 = n & 0xff;
    assert(b0 < 256 && b1 < 256 && b2 < 256 && b3 < 256 && b4 < 256 && b5 < 256
        && n & 0xffff_ffff_ffff == ((((b0 * 256 + b1) * 256 + b2) * 256 + b3) * 256 + b4) * 256 + b5)
        by (bit_vector)
        requires
            b0 == (n >> 40) & 0xff,
            b1 == (n >> 32) & 0xff,
            b2 == (n >> 24) & 0xff,
            b3 == (n >> 16) & 0xff,
            b4 == (n >> 8) & 0xff,
            b5 == n & 0xff,
    ;
    assert(b.drop_last().drop_last().drop_last().drop_last().drop_last() =~= seq![b0 as u8]);
    assert(b.drop_last().drop_last().drop_last().drop_last() =~= seq![b0 as u8, b1 as u8]);
    assert(b.drop_last().drop_last().drop_last() =~= seq![b0 as u8, b1 as u8, b2 as u8]);
    assert(b.drop_last().drop_last() =~= seq![b0 as u8, b1 as u8, b2 as u8, b3 as u8]);
    assert(b.drop_last() =~= seq![b0 as u8, b1 as u8, b2 as u8, b3 as u8, b4 as u8]);
}

/// Six bytes stand for less than 2^48.
pub proof fn lemma_six_bytes_bound(node: Seq<u8>)
    requires
        node.len() == 6,
    ensures
        be_value(node) < 0x1_0000_0000_0000,
{
    reveal_with_fuel(be_value, 7);
    let n5 = node.drop_last();
    let n4 = n5.drop_last();
    let n3 = n4.drop_last();
    let n2 = n3.drop_last();
    let n1 = n2.drop_last();
    assert(n1.drop_last().len() == 0);
    assert(be_value(n1) < 256);
    assert(be_value(n2) < 256 * 256);
    assert(be_value(n3) < 256 * 256 * 256);
    assert(be_value(n4) < 256 * 256 * 256 * 256);
    assert(be_value(n5) < 256 * 256 * 256 * 256 * 256);
}

/// A version 1 value reads back as version 1 with its ticks (below 2^60)
/// in the time field, its clock sequence (low 14 bits) in the clock-sequence
/// field and its node in the node field.
pub proof fn lemma_gregorian_uuid_fields(ticks: u64, counter: u16, node: Seq<u8>)
    requires
        node.len() == 6,
    ensures
        has_version(gregorian_uuid(ticks, counter, node), 1),
        field_value(UuidField::Time, gregorian_uuid(ticks, counter, node)) == (ticks as u128)
            & 0x0FFF_FFFF_FFFF_FFFF,
        field_value(UuidField::ClockSeq, gregorian_uuid(ticks, counter, node)) == (counter as u128)
            & 0x3fff,
        field_value(UuidField::Node, gregorian_uuid(ticks, counter, node)) == be_value(node),
{
    lemma_six_bytes_bound(node);
    let v = gregorian_uuid(ticks, counter, node);
    let t = ticks as u128;
    let c = counter as u128;
    let nd = be_value(node) as u128;
    assert(v == ((t & 0xFFFF_FFFF) << 96) | (((t >> 32) & 0xFFFF) << 80) | ((((t >> 48) & 0x0FFF)
        | 0x1000) << 64) | (((((c & 0x3F00) >> 8) | 0x80) << 56) | ((c & 0xFF) << 48) | nd));
    assert(v & 0x8000_0000_0000_0000 != 0 && v & 0x4000_0000_0000_0000 == 0 && (v >> 76) & 0xf == 1
        && (((v >> 64) & 0x0fff) << 48 | (((v >> 80) & 0xffff) << 32) | (v >> 96)) == t
        & 0x0FFF_FFFF_FFFF_FFFF && ((((v >> 56) & 0x3f) << 8) | ((v >> 48) & 0xff)) == c & 0x3fff
        && v & 0xffff_ffff_ffff == nd) by (bit_vector)
        requires
            t < 0x1_0000_0000_0000_0000,
            c < 0x1_0000,
            nd < 0x1_0000_0000_0000,
            v == ((t & 0xFFFF_FFFF) << 96) | (((t >> 32) & 0xFFFF) << 80) | ((((t >> 48) & 0x0FFF)
                | 0x1000) << 64) | (((((c & 0x3F00) >> 8) | 0x80) << 56) | ((c & 0xFF) << 48) | nd),
    ;
    assert(variant_of(v) == UuidVariant::Rfc4122);
    assert(version_of(v) == Some(1u8));
}

/// A version 6 value reads back as version 6 with its ticks (below 2^60)
/// as its version-aware time, its clock sequence (low 14 bits) in the
/// clock-sequence field and its node in the node field.
pub proof fn lemma_sorted_gregorian_uuid_fields(ticks: u64, counter: u16, node: Seq<u8>)
    requires
        node.len() == 6,
    ensures
        has_version(sorted_gregorian_uuid(ticks, counter, node), 6),
        field_value(UuidField::ClockSeq, sorted_gregorian_uuid(ticks, counter, node))
            == (counter as u128) & 0x3fff,
        field_value(UuidField::Node, sorted_gregorian_uuid(ticks, counter, node)) == be_value(node),
        versioned_time(sorted_gregorian_uuid(ticks, counter, node)) == (ticks as u128)
            & 0x0FFF_FFFF_FFFF_FFFF,
{
    lemma_six_bytes_bound(node);
    let v = sorted_gregorian_uuid(ticks, counter, node);
    let t = ticks as u128;
    let c = counter as u128;
    let nd = be_value(node) as u128;
    assert(v == (((t >> 28) & 0xFFFF_FFFF) << 96) | (((t >> 12) & 0xFFFF) << 80) | (((t & 0x0FFF)
        | 0x6000) << 64) | (((((c & 0x3F00) >> 8) | 0x80) << 56) | ((c & 0xFF) << 48) | nd));
    assert(v & 0x8000_0000_0000_0000 != 0 && v & 0x4000_0000_0000_0000 == 0 && (v >> 76) & 0xf == 6
        && ((((v >> 56) & 0x3f) << 8) | ((v >> 48) & 0xff)) == c & 0x3fff && v & 0xffff_ffff_ffff
        == nd && (((v >> 96) << 28) | (((v >> 80) & 0xffff) << 12) | ((v >> 64) & 0x0fff)) == t
        & 0x0FFF_FFFF_FFFF_FFFF) by (bit_vector)
        requires
            t < 0x1_0000_0000_0000_0000,
            c < 0x1_0000,
            nd < 0x1_0000_0000_0000,
            v == (((t >> 28) & 0xFFFF_FFFF) << 96) | (((t >> 12) & 0xFFFF) << 80) | (((t & 0x0FFF)
                | 0x6000) << 64) | (((((c & 0x3F00) >> 8) | 0x80) << 56) | ((c & 0xFF) << 48) | nd),
    ;
    assert(variant_of(v) == UuidVariant::Rfc4122);
    assert(version_of(v) == Some(6u8));
    assert(sorted_time(v) == t & 0x0FFF_FFFF_FFFF_FFFF);
}

/// A version 1 or 6 value made for a 48-bit node reads back that node.
pub proof fn lemma_time_uuid_node(ticks: u64, counter: u16, n: u128)
    requires
        n < 0x1_0000_0000_0000,
    ensures
        field_value(UuidField::Node, gregorian_uuid(ticks, counter, node_bytes(n))) == n,
        field_value(UuidField::Node, sorted_gregorian_uuid(ticks, counter, node_bytes(n))) == n,
{
    lemma_node_bytes_value(n);
    assert(n & 0xffff_ffff_ffff == n) by (bit_vector)
        requires
            n < 0x1_0000_0000_0000,
    ;
    lemma_gregorian_uuid_fields(ticks, counter, node_bytes(n));
    lemma_sorted_gregorian_uuid_fields(ticks, counter, node_bytes(n));
}

} // verus!
