use uuideal::compare::{compare_uuid_ints, pylong_cmp_unsigned, CompareOp};
use uuideal::layout::{
    bytes_to_uuid_int, fields_to_uuid_int, node_to_bytes, uuid_bytes, uuid_bytes_le,
    uuid_field_value, uuid_fields, uuid_time, UuidField,
};
use uuideal::pylong::{pylong_to_u128, u128_to_pylong_parts, PyLongParts};
use uuideal::text::{
    parse_uuid_ascii, parse_uuid_utf8, uuid_hex_bytes, uuid_string_bytes, uuid_urn_bytes,
    write_hex_32, write_uuid_string,
};
use uuideal::version::{apply_version_with_max, uuid_variant, uuid_version, UuidVariant};

const EXAMPLE: u128 = 0x000102030405060708090a0b0c0d0e0f;
const NAMESPACE_DNS: u128 = 0x6ba7b8109dad11d180b400c04fd430c8;

#[test]
fn layout_of_zero() {
    let parts = u128_to_pylong_parts(0);
    assert_eq!(parts.tag, 1);
    assert!(parts.digits.is_empty());
    assert_eq!(pylong_to_u128(&parts), Some(0));
}

#[test]
fn layout_of_two_to_the_thirty() {
    let parts = u128_to_pylong_parts(1 << 30);
    assert_eq!(parts.tag, 2 << 3);
    assert_eq!(parts.digits, vec![0, 1]);
    assert_eq!(pylong_to_u128(&parts), Some(1 << 30));
}

#[test]
fn layout_of_max_value() {
    let parts = u128_to_pylong_parts(u128::MAX);
    assert_eq!(parts.tag, 5 << 3);
    assert_eq!(parts.digits.len(), 5);
    assert_eq!(parts.digits[4], 0xff);
    assert_eq!(parts.digits[0], 0x3fff_ffff);
    assert_eq!(pylong_to_u128(&parts), Some(u128::MAX));
}

#[test]
fn layout_roundtrip_of_examples() {
    for v in [1u128, 42, 0x3fff_ffff, 1 << 60, (1 << 90) + 7, EXAMPLE, NAMESPACE_DNS, u128::MAX - 1] {
        assert_eq!(pylong_to_u128(&u128_to_pylong_parts(v)), Some(v));
    }
}

#[test]
fn negative_integers_are_not_uuids() {
    let parts = PyLongParts { tag: (1 << 3) | 2, digits: vec![5] };
    assert_eq!(pylong_to_u128(&parts), None);
}

#[test]
fn integers_of_128_bits_or_more_are_not_uuids() {
    let parts = PyLongParts { tag: 5 << 3, digits: vec![0, 0, 0, 0, 0x100] };
    assert_eq!(pylong_to_u128(&parts), None);
    let six = PyLongParts { tag: 6 << 3, digits: vec![0, 0, 0, 0, 0, 1] };
    assert_eq!(pylong_to_u128(&six), None);
}

#[test]
fn digit_comparison_orders_values() {
    let values = [0u128, 1, 1 << 30, (1 << 30) + 1, 1 << 61, EXAMPLE, NAMESPACE_DNS, u128::MAX];
    for a in values {
        for b in values {
            let pa = u128_to_pylong_parts(a);
            let pb = u128_to_pylong_parts(b);
            assert_eq!(pylong_cmp_unsigned(&pa, &pb), Some(a.cmp(&b)));
            assert_eq!(compare_uuid_ints(CompareOp::Lt, false, &pa, &pb), Some(a < b));
            assert_eq!(compare_uuid_ints(CompareOp::Ge, false, &pa, &pb), Some(a >= b));
            assert_eq!(compare_uuid_ints(CompareOp::Eq, false, &pa, &pb), Some(a == b));
        }
    }
}

#[test]
fn same_int_object_compares_equal() {
    let p = u128_to_pylong_parts(EXAMPLE);
    assert_eq!(compare_uuid_ints(CompareOp::Le, true, &p, &p), Some(true));
    assert_eq!(compare_uuid_ints(CompareOp::Gt, true, &p, &p), Some(false));
}

#[test]
fn comparison_with_negative_is_undecided() {
    let neg = PyLongParts { tag: (1 << 3) | 2, digits: vec![5] };
    let pos = u128_to_pylong_parts(5);
    assert_eq!(pylong_cmp_unsigned(&neg, &pos), None);
    assert_eq!(compare_uuid_ints(CompareOp::Eq, false, &neg, &pos), None);
}

#[test]
fn hyphenated_string_of_example() {
    let text = uuid_string_bytes(EXAMPLE);
    assert_eq!(text, b"00010203-0405-0607-0809-0a0b0c0d0e0f".to_vec());
}

#[test]
fn hex_and_urn_of_example() {
    assert_eq!(uuid_hex_bytes(0x12345678123456781234567812345678), b"12345678123456781234567812345678".to_vec());
    assert_eq!(
        uuid_urn_bytes(0x12345678123456781234567812345678),
        b"urn:uuid:12345678-1234-5678-1234-567812345678".to_vec()
    );
}

#[test]
fn hex_is_lowercase() {
    assert_eq!(uuid_hex_bytes(u128::MAX), b"ffffffffffffffffffffffffffffffff".to_vec());
}

#[test]
fn short_output_gets_leading_digits() {
    let mut out = [b'x'; 5];
    write_hex_32(0xabcdef << 96, &mut out);
    assert_eq!(&out, b"00abc");
    let mut long = [b'x'; 34];
    write_hex_32(EXAMPLE, &mut long);
    assert_eq!(&long[..32], b"000102030405060708090a0b0c0d0e0f");
    assert_eq!(&long[32..], b"xx");
}

#[test]
fn write_uuid_string_fills_36_bytes() {
    let mut out = [0u8; 36];
    write_uuid_string(NAMESPACE_DNS, &mut out);
    assert_eq!(&out, b"6ba7b810-9dad-11d1-80b4-00c04fd430c8");
}

#[test]
fn parses_every_accepted_form() {
    let forms: [&[u8]; 6] = [
        b"00010203-0405-0607-0809-0a0b0c0d0e0f",
        b"{00010203-0405-0607-0809-0a0b0c0d0e0f}",
        b"000102030405060708090a0b0c0d0e0f",
        b"urn:uuid:00010203-0405-0607-0809-0A0B0C0D0E0F",
        b"{00010203-0405-0607-0809-0A0B0C0D0E0F}",
        b"000102030405060708090A0B0C0D0E0F",
    ];
    for form in forms {
        assert_eq!(parse_uuid_ascii(form), Some(EXAMPLE));
        assert_eq!(parse_uuid_utf8(form), Some(EXAMPLE));
    }
}

#[test]
fn rejects_malformed_text() {
    let bad: [&[u8]; 8] = [
        b"URN:UUID:00010203-0405-0607-0809-0a0b0c0d0e0f",
        b"urn:UUID:00010203-0405-0607-0809-0a0b0c0d0e0f",
        b"",
        b"00010203-0405-0607-0809-0a0b0c0d0e0",
        b"00010203x0405-0607-0809-0a0b0c0d0e0f",
        b"g00102030405060708090a0b0c0d0e0f",
        b"urn:uuix:00010203-0405-0607-0809-0a0b0c0d0e0f",
        b"(00010203-0405-0607-0809-0a0b0c0d0e0f)",
    ];
    for text in bad {
        assert_eq!(parse_uuid_ascii(text), None);
        assert_eq!(parse_uuid_utf8(text), None);
    }
    assert_eq!(parse_uuid_utf8("0001020304050607080é0a0b0c0d0e0f".as_bytes()), None);
    assert_eq!(parse_uuid_utf8(&[0xff; 32]), None);
}

#[test]
fn text_roundtrip_of_examples() {
    for v in [0u128, 1, EXAMPLE, NAMESPACE_DNS, u128::MAX, 0xdeadbeef << 64] {
        assert_eq!(parse_uuid_ascii(&uuid_string_bytes(v)), Some(v));
        assert_eq!(parse_uuid_ascii(&uuid_hex_bytes(v)), Some(v));
        assert_eq!(parse_uuid_ascii(&uuid_urn_bytes(v)), Some(v));
    }
}

#[test]
fn bytes_of_example() {
    assert_eq!(uuid_bytes(EXAMPLE), (0u8..16).collect::<Vec<u8>>());
    assert_eq!(
        uuid_bytes_le(EXAMPLE),
        vec![3, 2, 1, 0, 5, 4, 7, 6, 8, 9, 10, 11, 12, 13, 14, 15]
    );
}

#[test]
fn bytes_roundtrip() {
    for v in [0u128, EXAMPLE, NAMESPACE_DNS, u128::MAX] {
        assert_eq!(bytes_to_uuid_int(&uuid_bytes(v), false), Some(v));
        assert_eq!(bytes_to_uuid_int(&uuid_bytes_le(v), true), Some(v));
    }
}

#[test]
fn bytes_le_reads_mixed_endian() {
    let bytes: Vec<u8> = (0u8..16).collect();
    assert_eq!(bytes_to_uuid_int(&bytes, true), Some(0x03020100_0504_0706_08090a0b0c0d0e0f));
}

#[test]
fn bytes_of_wrong_length_are_rejected() {
    assert_eq!(bytes_to_uuid_int(&[0u8; 15], false), None);
    assert_eq!(bytes_to_uuid_int(&[0u8; 17], true), None);
}

#[test]
fn fields_of_example() {
    assert_eq!(uuid_fields(EXAMPLE), vec![0x00010203, 0x0405, 0x0607, 0x08, 0x09, 0x0a0b0c0d0e0f]);
    assert_eq!(uuid_field_value(UuidField::Time, EXAMPLE), 434320308585955843);
    assert_eq!(uuid_field_value(UuidField::ClockSeq, EXAMPLE), 2057);
    assert_eq!(uuid_field_value(UuidField::Node, EXAMPLE), 11042563100175);
    assert_eq!(uuid_field_value(UuidField::TimeLow, EXAMPLE), 66051);
    assert_eq!(uuid_field_value(UuidField::ClockSeqHiVariant, EXAMPLE), 8);
}

#[test]
fn fields_roundtrip() {
    for v in [0u128, EXAMPLE, NAMESPACE_DNS, u128::MAX] {
        let items: Vec<PyLongParts> = uuid_fields(v).into_iter().map(u128_to_pylong_parts).collect();
        assert_eq!(fields_to_uuid_int(&items), Some(v));
    }
}

#[test]
fn fields_out_of_range_are_rejected() {
    let mut items: Vec<PyLongParts> =
        [1u128 << 32, 0, 0, 0, 0, 0].into_iter().map(u128_to_pylong_parts).collect();
    assert_eq!(fields_to_uuid_int(&items), None);
    items[0] = u128_to_pylong_parts(0);
    items[5] = u128_to_pylong_parts(1 << 48);
    assert_eq!(fields_to_uuid_int(&items), None);
    items.pop();
    assert_eq!(fields_to_uuid_int(&items), None);
}

#[test]
fn node_bytes_of_node() {
    assert_eq!(node_to_bytes(0x0123456789ab), [0x01, 0x23, 0x45, 0x67, 0x89, 0xab]);
}

#[test]
fn variant_and_version_of_examples() {
    assert_eq!(uuid_variant(0x6fa459eaee8a3ca4894edb77e160355e), UuidVariant::Rfc4122);
    assert_eq!(uuid_version(0x6fa459eaee8a3ca4894edb77e160355e), Some(3));
    assert_eq!(uuid_variant(0), UuidVariant::ReservedNcs);
    assert_eq!(uuid_version(0), None);
    assert_eq!(uuid_variant(0xc000 << 48), UuidVariant::ReservedMicrosoft);
    assert_eq!(uuid_variant(u128::MAX), UuidVariant::ReservedFuture);
}

#[test]
fn stamping_a_version() {
    let v = apply_version_with_max(0x12345678123456781234567812345678, 4, 5);
    assert_eq!(v, Some(0x12345678123446789234567812345678));
    assert_eq!(uuid_version(v.unwrap()), Some(4));
    assert_eq!(apply_version_with_max(0, 8, 8).map(uuid_version), Some(Some(8)));
    assert_eq!(apply_version_with_max(0, 6, 5), None);
    assert_eq!(apply_version_with_max(0, 0, 8), None);
    assert_eq!(apply_version_with_max(0, 9, 9), None);
}

#[test]
fn stamping_twice_is_stamping_once() {
    for v in [0u128, EXAMPLE, NAMESPACE_DNS, u128::MAX] {
        for n in 1u8..=8 {
            let once = apply_version_with_max(v, n, 8).unwrap();
            assert_eq!(apply_version_with_max(once, n, 8), Some(once));
            assert_eq!(uuid_version(once), Some(n));
            assert_eq!(uuid_variant(once), UuidVariant::Rfc4122);
            let mask: u128 = 0xFFFF_FFFF_FFFF_0FFF_3FFF_FFFF_FFFF_FFFF;
            assert_eq!(once & mask, v & mask);
        }
    }
}

#[test]
fn flagged_small_ints_read_by_their_sign_bits() {
    // Bit 2 of the tag is a flag the interpreter may set on cached small ints.
    let five = PyLongParts { tag: (1 << 3) | 4, digits: vec![5] };
    assert!(five.is_well_formed());
    assert_eq!(pylong_to_u128(&five), Some(5));
    let zero = PyLongParts { tag: 1 | 4, digits: vec![] };
    assert!(zero.is_well_formed());
    assert_eq!(pylong_to_u128(&zero), Some(0));
    let minus_one = PyLongParts { tag: (1 << 3) | 4 | 2, digits: vec![1] };
    assert_eq!(pylong_to_u128(&minus_one), None);
    assert_eq!(pylong_cmp_unsigned(&five, &u128_to_pylong_parts(5)), Some(std::cmp::Ordering::Equal));
    assert_eq!(pylong_cmp_unsigned(&zero, &five), Some(std::cmp::Ordering::Less));
}

#[test]
fn inconsistent_layouts_are_not_well_formed() {
    assert!(!PyLongParts { tag: 3, digits: vec![] }.is_well_formed());
    assert!(!PyLongParts { tag: 1 << 3, digits: vec![] }.is_well_formed());
    assert!(!PyLongParts { tag: 1 << 3, digits: vec![0] }.is_well_formed());
    assert!(!PyLongParts { tag: 1 << 3, digits: vec![1 << 30] }.is_well_formed());
    assert!(!PyLongParts { tag: 1, digits: vec![1] }.is_well_formed());
    assert!(u128_to_pylong_parts(u128::MAX).is_well_formed());
}

#[test]
fn layout_tag_counts_digits() {
    assert_eq!(u128_to_pylong_parts(0).tag, 1);
    assert_eq!(u128_to_pylong_parts(5).tag, 8);
    assert_eq!(u128_to_pylong_parts(1 << 30).tag, 16);
    assert_eq!(u128_to_pylong_parts(u128::MAX).tag, 40);
    assert_eq!(u128_to_pylong_parts(u128::MAX).digits[4], 0xff);
}

#[test]
fn time_by_version() {
    // Version 6: ticks stand most significant first.
    let v6: u128 = 0x1b21dd213814600092340123456789ab;
    assert_eq!(uuid_time(v6, true), 0x01B21DD213814000);
    assert_eq!(uuid_time(v6, false), uuid_field_value(UuidField::Time, v6));
    // Version 7: the 48-bit Unix milliseconds.
    let v7: u128 = 0x0189_7ab3_4c2d_7000_8000_0000_0000_0000;
    assert_eq!(uuid_time(v7, true), 0x0189_7ab3_4c2d);
    // Version 1 is read the same way either way.
    let v1: u128 = 0x138140001dd211b292340123456789ab;
    assert_eq!(uuid_time(v1, true), 0x01B21DD213814000);
    assert_eq!(uuid_time(v1, false), 0x01B21DD213814000);
}
