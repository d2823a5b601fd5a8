//! The variant and version bits of a UUID value, and stamping the RFC
//! variant and a version number onto a value.
use vstd::prelude::*;

verus! {

/// The variant a UUID value's high clock-sequence bits select.
#[derive(Clone, Copy, Debug, PartialEq, Eq, Structural)]
pub enum UuidVariant {
    ReservedNcs,
    Rfc4122,
    ReservedMicrosoft,
    ReservedFuture,
}

/// The variant of a value, read from bits 63, 62 and 61.
pub open spec fn variant_of(v: u128) -> UuidVariant {
    if v & 0x8000_0000_0000_0000 == 0 {
        UuidVariant::ReservedNcs
    } else if v & 0x4000_0000_0000_0000 == 0 {
        UuidVariant::Rfc4122
    } else if v & 0x2000_0000_0000_0000 == 0 {
        UuidVariant::ReservedMicrosoft
    } else {
        UuidVariant::ReservedFuture
    }
}

/// The version number of a value: bits 76 to 79, for RFC-variant values
/// only.
pub open spec fn version_of(v: u128) -> Option<u8> {
    if variant_of(v) == UuidVariant::Rfc4122 {
        Some(((v >> 76) & 0xf) as u8)
    } else {
        None
    }
}

/// Whether a value carries the RFC variant and version number `n`.
pub open spec fn has_version(v: u128, n: u8) -> bool {
    version_of(v) == Some(n)
}

/// The variant of `value`.
pub fn uuid_variant(value: u128) -> (res: UuidVariant)
    ensures
        res == variant_of(value),
{
    assert(0x8000u128 << 48 == 0x8000_0000_0000_0000 && 0x4000u128 << 48 == 0x4000_0000_0000_0000
        && 0x2000u128 << 48 == 0x2000_0000_0000_0000) by (bit_vector);
    if value & (0x8000u128 << 48) == 0 {
        UuidVariant::ReservedNcs
    } else if value & (0x4000u128 << 48) == 0 {
        UuidVariant::Rfc4122
    } else if value & (0x2000u128 << 48) == 0 {
        UuidVariant::ReservedMicrosoft
    } else {
        UuidVariant::ReservedFuture
    }
}

/// The version number of `value`; `None` unless it has the RFC variant.
pub fn uuid_version(value: u128) -> (res: Option<u8>)
    ensures
        res == version_of(value),
{
    assert(0x8000u128 << 48 == 0x8000_0000_0000_0000 && 0x4000u128 << 48 == 0x4000_0000_0000_0000
        && 0x2000u128 << 48 == 0x2000_0000_0000_0000) by (bit_vector);
    if value & (0x8000u128 << 48) != 0 && value & (0x4000u128 << 48) == 0 {
        assert((value >> 76) & 0xf < 16) by (bit_vector);
        Some(((value >> 76) & 0xf) as u8)
    } else {
        None
    }
}

/// The version numbers a value can be stamped with.
#[derive(Clone, Copy, Debug, PartialEq, Eq, Structural)]
pub enum UuidVersion {
    Mac,
    Dce,
    Md5,
    Random,
    Sha1,
    SortMac,
    SortRand,
    Custom,
}

/// The number of a version.
pub open spec fn version_number(v: UuidVersion) -> u8 {
    match v {
        UuidVersion::Mac => 1,
        UuidVersion::Dce => 2,
        UuidVersion::Md5 => 3,
        UuidVersion::Random => 4,
        UuidVersion::Sha1 => 5,
        UuidVersion::SortMac => 6,
        UuidVersion::SortRand => 7,
        UuidVersion::Custom => 8,
    }
}

/// A value with its variant bits set to the RFC variant (bits 63..62 = 10)
/// and its version bits (79..76) set to `n`; every other bit kept.
pub open spec fn stamped_value(v: u128, n: u8) -> u128 {
    (v & 0xFFFF_FFFF_FFFF_0FFF_3FFF_FFFF_FFFF_FFFF) | ((n as u128) << 76) | 0x8000_0000_0000_0000
}

/// `uuid::Builder::from_u128`, then `set_variant(Variant::RFC4122)` and
/// `set_version(..)`, read back as a 128-bit value: the crate sets byte 8 to
/// `(byte & 0x3f) | 0x80` and byte 6 to `(byte & 0x0f) | (version << 4)`.
#[verifier::external_body]
fn builder_with_rfc_version(value: u128, version: UuidVersion) -> (res: u128)
    ensures
        res == stamped_value(value, version_number(version)),
{
    let version = match version {
        UuidVersion::Mac => uuid::Version::Mac,
        UuidVersion::Dce => uuid::Version::Dce,
        UuidVersion::Md5 => uuid::Version::Md5,
        UuidVersion::Random => uuid::Version::Random,
        UuidVersion::Sha1 => uuid::Version::Sha1,
        UuidVersion::SortMac => uuid::Version::SortMac,
        UuidVersion::SortRand => uuid::Version::SortRand,
        UuidVersion::Custom => uuid::Version::Custom,
    };
    let mut builder = uuid::Builder::from_u128(value);
    builder.set_variant(uuid::Variant::RFC4122);
    builder.set_version(version);
    builder.into_uuid().as_u128()
}

/// Stamps the RFC variant and `version` onto `value`, for a version from 1
/// to `max_version` (and at most 8); `None` for any other version.
pub fn apply_version_with_max(value: u128, version: u8, max_version: u8) -> (res: Option<u128>)
    ensures
        res == if 1 <= version <= max_version && version <= 8 {
            Some(stamped_value(value, version))
        } else {
            None
        },
{
    if !(1 <= version && version <= max_version) {
        return None;
    }
    let version = if version == 1 {
        UuidVersion::Mac
    } else if version == 2 {
        UuidVersion::Dce
    } else if version == 3 {
        UuidVersion::Md5
    } else if version == 4 {
        UuidVersion::Random
    } else if version == 5 {
        UuidVersion::Sha1
    } else if version == 6 {
        UuidVersion::SortMac
    } else if version == 7 {
        UuidVersion::SortRand
    } else if version == 8 {
        UuidVersion::Custom
    } else {
        return None;
    };
    Some(builder_with_rfc_version(value, version))
}

/// A stamped value reads back as the RFC variant with the stamped version,
/// and keeps every bit outside the version and variant bits.
pub proof fn lemma_stamped_version(v: u128, n: u8)
    requires
        n < 16,
    ensures
        variant_of(stamped_value(v, n)) == UuidVariant::Rfc4122,
        version_of(stamped_value(v, n)) == Some(n),
        stamped_value(v, n) & 0xFFFF_FFFF_FFFF_0FFF_3FFF_FFFF_FFFF_FFFF == v
            & 0xFFFF_FFFF_FFFF_0FFF_3FFF_FFFF_FFFF_FFFF,
{
    let s = stamped_value(v, n);
    let w = n as u128;
    assert(w < 16);
    assert(s == (v & 0xFFFF_FFFF_FFFF_0FFF_3FFF_FFFF_FFFF_FFFF) | (w << 76) | 0x8000_0000_0000_0000);
    assert(s & 0x8000_0000_0000_0000 != 0 && s & 0x4000_0000_0000_0000 == 0 && (s >> 76) & 0xf == w
        && s & 0xFFFF_FFFF_FFFF_0FFF_3FFF_FFFF_FFFF_FFFF == v & 0xFFFF_FFFF_FFFF_0FFF_3FFF_FFFF_FFFF_FFFF)
        by (bit_vector)
        requires
            w < 16,
            s == (v & 0xFFFF_FFFF_FFFF_0FFF_3FFF_FFFF_FFFF_FFFF) | (w << 76) | 0x8000_0000_0000_0000,
    ;
}

/// The variant is read from the top bits of the clock-sequence octet: `0`
/// is the NCS variant, `10` the RFC variant, `110` Microsoft's, `111` the
/// future one; and a value has a version exactly when it has the RFC
/// variant, the version being bits 76 to 79. Every other value, such as a
/// Microsoft GUID or the all-ones value, has none.
pub proof fn lemma_version_needs_rfc_variant(v: u128)
    ensures
        variant_of(v) == UuidVariant::ReservedNcs <==> v & 0x8000_0000_0000_0000 == 0,
        variant_of(v) == UuidVariant::Rfc4122 <==> v & 0xC000_0000_0000_0000
            == 0x8000_0000_0000_0000,
        variant_of(v) == UuidVariant::ReservedMicrosoft <==> v & 0xE000_0000_0000_0000
            == 0xC000_0000_0000_0000,
        variant_of(v) == UuidVariant::ReservedFuture <==> v & 0xE000_0000_0000_0000
            == 0xE000_0000_0000_0000,
        version_of(v) is Some <==> v & 0xC000_0000_0000_0000 == 0x8000_0000_0000_0000,
        version_of(v) is Some <==> variant_of(v) == UuidVariant::Rfc4122,
        version_of(v) matches Some(n) ==> n as u128 == (v >> 76) & 0xf,
{
    assert((v & 0x8000_0000_0000_0000 != 0 && v & 0x4000_0000_0000_0000 == 0 <==> v
        & 0xC000_0000_0000_0000 == 0x8000_0000_0000_0000) && (v & 0x8000_0000_0000_0000 != 0 && v
        & 0x4000_0000_0000_0000 != 0 && v & 0x2000_0000_0000_0000 == 0 <==> v
        & 0xE000_0000_0000_0000 == 0xC000_0000_0000_0000) && (v & 0x8000_0000_0000_0000 != 0 && v
        & 0x4000_0000_0000_0000 != 0 && v & 0x2000_0000_0000_0000 != 0 <==> v
        & 0xE000_0000_0000_0000 == 0xE000_0000_0000_0000) && (v >> 76) & 0xf < 16) by (bit_vector);
}

/// Stamping twice with the same version is stamping once.
pub proof fn lemma_stamp_idempotent(v: u128, n: u8)
    requires
        n < 16,
    ensures
        stamped_value(stamped_value(v, n), n) == stamped_value(v, n),
{
    let w = n as u128;
    let s = stamped_value(v, n);
    assert(s == (v & 0xFFFF_FFFF_FFFF_0FFF_3FFF_FFFF_FFFF_FFFF) | (w << 76) | 0x8000_0000_0000_0000);
    assert((s & 0xFFFF_FFFF_FFFF_0FFF_3FFF_FFFF_FFFF_FFFF) | (w << 76) | 0x8000_0000_0000_0000 == s)
        by (bit_vector)
        requires
            w < 16,
            s == (v & 0xFFFF_FFFF_FFFF_0FFF_3FFF_FFFF_FFFF_FFFF) | (w << 76) | 0x8000_0000_0000_0000,
    ;
}

} // verus!
