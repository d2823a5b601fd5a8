//! The text forms of a UUID value: 32 hex digits, the hyphenated form and
//! the URN, and parsing any of the accepted text forms back to a value.
use vstd::prelude::*;
use vstd::string::*;
use vstd::utf8::valid_utf8;

verus! {

/// The lowercase hex digit for a nibble.
pub open spec fn hex_char(n: u8) -> u8 {
    if n < 10 {
        (48 + n) as u8
    } else {
        (87 + n) as u8
    }
}

/// The `i`-th nibble of a value, most significant first.
pub open spec fn nibble_at(v: u128, i: int) -> u8 {
    ((v >> ((124 - 4 * i) as u128)) & 0xf) as u8
}

/// The 32 lowercase hex digits of a value.
pub open spec fn hex_text(v: u128) -> Seq<u8> {
    Seq::new(32, |i: int| hex_char(nibble_at(v, i)))
}

/// The hyphenated 8-4-4-4-12 form of a value.
pub open spec fn hyphenated_text(v: u128) -> Seq<u8> {
    let h = hex_text(v);
    h.subrange(0, 8) + seq![45u8] + h.subrange(8, 12) + seq![45u8] + h.subrange(12, 16) + seq![
        45u8,
    ] + h.subrange(16, 20) + seq![45u8] + h.subrange(20, 32)
}

/// The text `urn:uuid:`.
pub open spec fn urn_prefix() -> Seq<u8> {
    seq![117u8, 114u8, 110u8, 58u8, 117u8, 117u8, 105u8, 100u8, 58u8]
}

/// The URN form of a value.
pub open spec fn urn_text(v: u128) -> Seq<u8> {
    urn_prefix() + hyphenated_text(v)
}

/// The hyphenated form of a value in braces.
pub open spec fn braced_text(v: u128) -> Seq<u8> {
    seq![123u8] + hyphenated_text(v) + seq![125u8]
}

/// ASCII uppercasing of one byte.
pub open spec fn ascii_uppercase(c: u8) -> u8 {
    if 97 <= c <= 122 {
        (c - 32) as u8
    } else {
        c
    }
}

/// A text with its ASCII letters uppercased.
pub open spec fn uppercased(s: Seq<u8>) -> Seq<u8> {
    s.map_values(|c: u8| ascii_uppercase(c))
}

/// The value of one hex digit of either case.
pub open spec fn hex_digit_value(c: u8) -> Option<nat> {
    if 48 <= c <= 57 {
        Some((c - 48) as nat)
    } else if 97 <= c <= 102 {
        Some((c - 87) as nat)
    } else if 65 <= c <= 70 {
        Some((c - 55) as nat)
    } else {
        None
    }
}

/// The value of a run of hex digits, most significant first; `None` when a
/// byte is not a hex digit.
pub open spec fn hex_run_value(s: Seq<u8>) -> Option<nat>
    decreases s.len(),
{
    if s.len() == 0 {
        Some(0)
    } else {
        match (hex_run_value(s.drop_last()), hex_digit_value(s.last())) {
            (Some(high), Some(low)) => Some(high * 16 + low),
            _ => None,
        }
    }
}

/// The value of a 36-byte 8-4-4-4-12 hyphenated group layout.
pub open spec fn hyphenated_value(s: Seq<u8>) -> Option<nat> {
    if s.len() == 36 && s[8] == 45 && s[13] == 45 && s[18] == 45 && s[23] == 45 {
        hex_run_value(
            s.subrange(0, 8) + s.subrange(9, 13) + s.subrange(14, 18) + s.subrange(19, 23)
                + s.subrange(24, 36),
        )
    } else {
        None
    }
}

/// ASCII lowercasing of one byte.
pub open spec fn ascii_lowercase(c: u8) -> u8 {
    if 65 <= c <= 90 {
        (c + 32) as u8
    } else {
        c
    }
}

/// Whether the first nine bytes spell `urn:uuid:` in any case.
pub open spec fn has_urn_prefix_any_case(s: Seq<u8>) -> bool {
    &&& s.len() >= 9
    &&& forall|i: int| 0 <= i < 9 ==> ascii_lowercase(#[trigger] s[i]) == urn_prefix()[i]
}

/// Whether the text starts with `urn:uuid:` exactly, in lowercase.
pub open spec fn has_urn_prefix(s: Seq<u8>) -> bool {
    s.len() >= 9 && s.subrange(0, 9) == urn_prefix()
}

/// The value that the `uuid` crate's parser gives a text: 32 hex digits, the
/// hyphenated form, the hyphenated form in braces, or the hyphenated form
/// behind `urn:uuid:` in any case; hex digits of either case. `None` for
/// every other text.
pub open spec fn crate_text_value(s: Seq<u8>) -> Option<u128> {
    let v = if s.len() == 32 {
        hex_run_value(s)
    } else if s.len() == 36 {
        hyphenated_value(s)
    } else if s.len() == 38 && s[0] == 123 && s[37] == 125 {
        hyphenated_value(s.subrange(1, 37))
    } else if s.len() == 45 && has_urn_prefix_any_case(s) {
        hyphenated_value(s.subrange(9, 45))
    } else {
        None
    };
    match v {
        Some(n) => Some(n as u128),
        None => None,
    }
}

/// The value that an accepted text form stands for: 32 hex digits, the
/// hyphenated form, the hyphenated form in braces, or the hyphenated form
/// behind a lowercase `urn:uuid:`; hex digits of either case. `None` for
/// every other text. Each accepted text is one that the `uuid` module
/// itself reads as that value.
pub open spec fn uuid_text_value(s: Seq<u8>) -> Option<u128> {
    let v = if s.len() == 32 {
        hex_run_value(s)
    } else if s.len() == 36 {
        hyphenated_value(s)
    } else if s.len() == 38 && s[0] == 123 && s[37] == 125 {
        hyphenated_value(s.subrange(1, 37))
    } else if s.len() == 45 && has_urn_prefix(s) {
        hyphenated_value(s.subrange(9, 45))
    } else {
        None
    };
    match v {
        Some(n) => Some(n as u128),
        None => None,
    }
}

/// Apart from texts of 45 bytes without the lowercase prefix, the crate's
/// parser and the accepted forms agree.
proof fn lemma_crate_value_agrees(s: Seq<u8>)
    requires
        s.len() == 45 ==> has_urn_prefix(s),
    ensures
        crate_text_value(s) == uuid_text_value(s),
{
    if s.len() == 45 {
        assert forall|i: int| 0 <= i < 9 implies ascii_lowercase(#[trigger] s[i]) == urn_prefix()[i] by {
            assert(s[i] == s.subrange(0, 9)[i]);
        }
    }
}

/// Whether the text starts with a lowercase `urn:uuid:`.
fn starts_with_urn_prefix(bytes: &[u8]) -> (res: bool)
    ensures
        res == has_urn_prefix(bytes@),
{
    if bytes.len() < 9 {
        return false;
    }
    let prefix: [u8; 9] = [117u8, 114u8, 110u8, 58u8, 117u8, 117u8, 105u8, 100u8, 58u8];
    assert(prefix@ =~= urn_prefix());
    let mut i: usize = 0;
    while i < 9
        invariant
            i <= 9,
            bytes@.len() >= 9,
            prefix@ == urn_prefix(),
            forall|j: int| 0 <= j < i ==> bytes@[j] == urn_prefix()[j],
        decreases 9 - i,
    {
        if bytes[i] != prefix[i] {
            assert(bytes@.subrange(0, 9)[i as int] != urn_prefix()[i as int]);
            return false;
        }
        i += 1;
    }
    assert(bytes@.subrange(0, 9) =~= urn_prefix());
    true
}

/// `uuid::Uuid::try_parse_ascii`, read as a 128-bit value. The crate accepts
/// exactly the four text forms of `crate_text_value` (32 hex digits; the
/// 36-byte hyphenated form; that form in braces; that form behind a
/// case-insensitive `urn:uuid:`), hex digits of either case, and the value
/// is the hex digits read big-endian.
#[verifier::external_body]
fn uuid_try_parse_ascii(bytes: &[u8]) -> (res: Option<u128>)
    ensures
        res == crate_text_value(bytes@),
{
    match uuid::Uuid::try_parse_ascii(bytes) {
        Ok(uuid) => Some(uuid.as_u128()),
        Err(_) => None,
    }
}

/// `uuid::Uuid::parse_str`, read as a 128-bit value. The crate parses the
/// string's UTF-8 bytes with the same parser as `try_parse_ascii`.
#[verifier::external_body]
fn uuid_parse_str(text: &str) -> (res: Option<u128>)
    ensures
        res == crate_text_value(text.spec_bytes()),
{
    match uuid::Uuid::parse_str(text) {
        Ok(uuid) => Some(uuid.as_u128()),
        Err(_) => None,
    }
}

/// `std::str::from_utf8`: a string exactly when the bytes are valid UTF-8,
/// and then one whose bytes are the input.
#[verifier::external_body]
fn utf8_str(bytes: &[u8]) -> (res: Option<&str>)
    ensures
        res is Some <==> valid_utf8(bytes@),
        res matches Some(text) ==> text.spec_bytes() == bytes@,
{
    match std::str::from_utf8(bytes) {
        Ok(text) => Some(text),
        Err(_) => None,
    }
}

/// Parses ASCII text in any accepted UUID form. A URN prefix is accepted
/// in lowercase only.
pub fn parse_uuid_ascii(bytes: &[u8]) -> (res: Option<u128>)
    ensures
        res == uuid_text_value(bytes@),
{
    if bytes.len() == 45 && !starts_with_urn_prefix(bytes) {
        return None;
    }
    proof {
        lemma_crate_value_agrees(bytes@);
    }
    uuid_try_parse_ascii(bytes)
}

/// Parses the UTF-8 bytes of a string in any accepted UUID form: first as
/// ASCII, then, when that fails and the bytes are valid UTF-8, as a string.
pub fn parse_uuid_utf8(bytes: &[u8]) -> (res: Option<u128>)
    ensures
        res == uuid_text_value(bytes@),
{
    if let Some(value) = parse_uuid_ascii(bytes) {
        return Some(value);
    }
    if bytes.len() == 45 && !starts_with_urn_prefix(bytes) {
        return None;
    }
    proof {
        lemma_crate_value_agrees(bytes@);
    }
    match utf8_str(bytes) {
        Some(text) => uuid_parse_str(text),
        None => None,
    }
}

/// The lowercase hex digit for a nibble.
pub fn hex_digit(n: u8) -> (c: u8)
    requires
        n < 16,
    ensures
        c == hex_char(n),
{
    if n < 10 {
        48 + n
    } else {
        87 + n
    }
}

/// Writes the 32 lowercase hex digits of `value`, most significant first, to
/// the start of `output`; an output shorter than 32 bytes gets the leading
/// digits that fit.
pub fn write_hex_32(value: u128, output: &mut [u8])
    ensures
        final(output)@.len() == old(output)@.len(),
        forall|i: int|
            0 <= i < old(output)@.len() ==> #[trigger] final(output)@[i] == if i < 32 {
                hex_text(value)[i]
            } else {
                old(output)@[i]
            },
{
    let len = output.len();
    let count = if len < 32 {
        len
    } else {
        32
    };
    let mut shift: u32 = 124;
    let mut i: usize = 0;
    while i < count
        invariant
            count <= 32,
            count <= len,
            len == output@.len(),
            output@.len() == old(output)@.len(),
            i <= count,
            i < 32 ==> shift == 124 - 4 * i,
            forall|j: int| 0 <= j < i ==> #[trigger] output@[j] == hex_text(value)[j],
            forall|j: int| i <= j < len ==> #[trigger] output@[j] == old(output)@[j],
        decreases count - i,
    {
        let n = ((value >> shift) & 0x0f) as u8;
        assert(((value >> shift) & 0x0f) < 16) by (bit_vector);
        assert(n == nibble_at(value, i as int));
        output[i] = hex_digit(n);
        shift = if shift >= 4 {
            shift - 4
        } else {
            0
        };
        i += 1;
    }
}

/// Copies `count` bytes of `source` from index `from` into `output` at `at`.
fn copy_into(output: &mut [u8], at: usize, source: &[u8], from: usize, count: usize)
    requires
        at + count <= old(output)@.len(),
        from + count <= source@.len(),
    ensures
        final(output)@.len() == old(output)@.len(),
        forall|i: int|
            0 <= i < old(output)@.len() ==> #[trigger] final(output)@[i] == if at <= i < at
                + count {
                source@[i - at + from]
            } else {
                old(output)@[i]
            },
{
    let out_len = output.len();
    let src_len = source.len();
    let mut k: usize = 0;
    while k < count
        invariant
            out_len == output@.len(),
            src_len == source@.len(),
            at + count <= output@.len(),
            from + count <= source@.len(),
            output@.len() == old(output)@.len(),
            k <= count,
            forall|i: int|
                0 <= i < output@.len() ==> #[trigger] output@[i] == if at <= i < at + k {
                    source@[i - at + from]
                } else {
                    old(output)@[i]
                },
        decreases count - k,
    {
        output[at + k] = source[from + k];
        k += 1;
    }
}

/// Writes the hyphenated 8-4-4-4-12 form of `value` into a 36-byte output.
pub fn write_uuid_string(value: u128, output: &mut [u8])
    requires
        old(output)@.len() == 36,
    ensures
        final(output)@ == hyphenated_text(value),
{
    let mut compact: Vec<u8> = vec![0u8; 32];
    write_hex_32(value, compact.as_mut_slice());
    let compact = compact.as_slice();
    copy_into(output, 0, compact, 0, 8);
    output[8] = 45;
    copy_into(output, 9, compact, 8, 4);
    output[13] = 45;
    copy_into(output, 14, compact, 12, 4);
    output[18] = 45;
    copy_into(output, 19, compact, 16, 4);
    output[23] = 45;
    copy_into(output, 24, compact, 20, 12);
    assert(output@ =~= hyphenated_text(value));
}

/// The 32 lowercase hex digits of `value`.
pub fn uuid_hex_bytes(value: u128) -> (res: Vec<u8>)
    ensures
        res@ == hex_text(value),
{
    let mut bytes: Vec<u8> = vec![0u8; 32];
    write_hex_32(value, bytes.as_mut_slice());
    assert(bytes@ =~= hex_text(value));
    bytes
}

/// The hyphenated form of `value`.
pub fn uuid_string_bytes(value: u128) -> (res: Vec<u8>)
    ensures
        res@ == hyphenated_text(value),
{
    let mut bytes: Vec<u8> = vec![0u8; 36];
    write_uuid_string(value, bytes.as_mut_slice());
    bytes
}

/// The URN form `urn:uuid:` followed by the hyphenated form of `value`.
pub fn uuid_urn_bytes(value: u128) -> (res: Vec<u8>)
    ensures
        res@ == urn_text(value),
{
    let mut bytes: Vec<u8> = vec![0u8; 45];
    let prefix: Vec<u8> = vec![117u8, 114u8, 110u8, 58u8, 117u8, 117u8, 105u8, 100u8, 58u8];
    assert(prefix@ =~= urn_prefix());
    copy_into(bytes.as_mut_slice(), 0, prefix.as_slice(), 0, 9);
    let mut uuid_part: Vec<u8> = vec![0u8; 36];
    write_uuid_string(value, uuid_part.as_mut_slice());
    copy_into(bytes.as_mut_slice(), 9, uuid_part.as_slice(), 0, 36);
    assert(bytes@ =~= urn_text(value));
    bytes
}

proof fn lemma_hex_digit_roundtrip(n: u8)
    requires
        n < 16,
    ensures
        hex_digit_value(hex_char(n)) == Some(n as nat),
{
}

proof fn lemma_nibble_step(v: u128, s: u128, t: u128)
    requires
        s <= 124,
        t == s + 4,
    ensures
        (v >> t) * 16 + ((v >> s) & 15) == v >> s,
{
    assert((v >> t) * 16 + ((v >> s) & 15) == v >> s) by (bit_vector)
        requires
            s <= 124,
            t == s + 4,
    ;
}

proof fn lemma_hex_text_prefix(v: u128, k: nat)
    requires
        1 <= k <= 32,
    ensures
        hex_run_value(hex_text(v).take(k as int)) == Some((v >> ((128 - 4 * k) as u128)) as nat),
    decreases k,
{
    let t = hex_text(v).take(k as int);
    assert(t.drop_last() =~= hex_text(v).take(k - 1));
    let s = (128 - 4 * k) as u128;
    let n = nibble_at(v, k - 1);
    assert(n == ((v >> s) & 0xf) as u8);
    assert(((v >> s) & 0xf) < 16) by (bit_vector);
    lemma_hex_digit_roundtrip(n);
    assert(t.last() == hex_char(n));
    if k == 1 {
        assert(hex_text(v).take(0).len() == 0);
        assert((v >> 124u128) & 15 == v >> 124u128) by (bit_vector);
    } else {
        lemma_hex_text_prefix(v, (k - 1) as nat);
        lemma_nibble_step(v, s, (132 - 4 * k) as u128);
    }
}

/// The 32 hex digits of a value parse back to that value.
pub proof fn lemma_hex_text_parses(v: u128)
    ensures
        uuid_text_value(hex_text(v)) == Some(v),
{
    lemma_hex_text_prefix(v, 32);
    assert(hex_text(v).take(32) =~= hex_text(v));
    assert(v >> 0u128 == v) by (bit_vector);
}

/// The hyphenated form of a value parses back to that value.
pub proof fn lemma_hyphenated_text_parses(v: u128)
    ensures
        uuid_text_value(hyphenated_text(v)) == Some(v),
{
    lemma_hex_text_parses(v);
    let s = hyphenated_text(v);
    assert(s.len() == 36);
    assert(s[8] == 45 && s[13] == 45 && s[18] == 45 && s[23] == 45);
    assert(s.subrange(0, 8) + s.subrange(9, 13) + s.subrange(14, 18) + s.subrange(19, 23)
        + s.subrange(24, 36) =~= hex_text(v));
}

/// The URN form of a value parses back to that value.
pub proof fn lemma_urn_text_parses(v: u128)
    ensures
        uuid_text_value(urn_text(v)) == Some(v),
{
    lemma_hyphenated_text_parses(v);
    let s = urn_text(v);
    assert(s.len() == 45);
    assert(s.subrange(0, 9) =~= urn_prefix());
    assert(s.subrange(9, 45) =~= hyphenated_text(v));
}

/// The braced form of a value parses back to that value.
pub proof fn lemma_braced_text_parses(v: u128)
    ensures
        uuid_text_value(braced_text(v)) == Some(v),
{
    lemma_hyphenated_text_parses(v);
    let s = braced_text(v);
    assert(s.len() == 38 && s[0] == 123 && s[37] == 125);
    assert(s.subrange(1, 37) =~= hyphenated_text(v));
}

/// Uppercasing keeps the value of a run of hex digits.
proof fn lemma_uppercased_hex_run(s: Seq<u8>)
    ensures
        hex_run_value(uppercased(s)) == hex_run_value(s),
    decreases s.len(),
{
    if s.len() > 0 {
        lemma_uppercased_hex_run(s.drop_last());
        assert(uppercased(s).drop_last() =~= uppercased(s.drop_last()));
        assert(uppercased(s).last() == ascii_uppercase(s.last()));
    }
}

/// Uppercasing keeps the value of the hyphenated group layout.
proof fn lemma_uppercased_hyphenated(s: Seq<u8>)
    ensures
        hyphenated_value(uppercased(s)) == hyphenated_value(s),
{
    if s.len() == 36 {
        let u = uppercased(s);
        assert(u[8] == ascii_uppercase(s[8]) && u[13] == ascii_uppercase(s[13]));
        assert(u[18] == ascii_uppercase(s[18]) && u[23] == ascii_uppercase(s[23]));
        let groups = s.subrange(0, 8) + s.subrange(9, 13) + s.subrange(14, 18) + s.subrange(19, 23)
            + s.subrange(24, 36);
        assert(u.subrange(0, 8) + u.subrange(9, 13) + u.subrange(14, 18) + u.subrange(19, 23)
            + u.subrange(24, 36) =~= uppercased(groups));
        lemma_uppercased_hex_run(groups);
    }
}

/// The 32 hex digits, the hyphenated form and the braced form of a value,
/// written in uppercase, parse back to that value.
pub proof fn lemma_uppercase_texts_parse(v: u128)
    ensures
        uuid_text_value(uppercased(hex_text(v))) == Some(v),
        uuid_text_value(uppercased(hyphenated_text(v))) == Some(v),
        uuid_text_value(uppercased(braced_text(v))) == Some(v),
{
    lemma_hex_text_parses(v);
    lemma_hyphenated_text_parses(v);
    lemma_braced_text_parses(v);
    lemma_uppercased_hex_run(hex_text(v));
    lemma_uppercased_hyphenated(hyphenated_text(v));
    let b = braced_text(v);
    let ub = uppercased(b);
    assert(ub.len() == 38 && ub[0] == 123 && ub[37] == 125);
    assert(ub.subrange(1, 37) =~= uppercased(b.subrange(1, 37)));
    assert(b.subrange(1, 37) =~= hyphenated_text(v));
    lemma_uppercased_hyphenated(b.subrange(1, 37));
}

/// The text forms are written in lowercase: every digit of the 32-digit
/// form is `0`-`9` or `a`-`f`, and the hyphenated form puts its hyphens
/// after the 8th, 12th, 16th and 20th digit.
pub proof fn lemma_text_is_lowercase(v: u128)
    ensures
        forall|i: int|
            0 <= i < 32 ==> (48 <= #[trigger] hex_text(v)[i] <= 57 || 97 <= hex_text(v)[i] <= 102),
        hyphenated_text(v).len() == 36,
        hyphenated_text(v)[8] == 45 && hyphenated_text(v)[13] == 45 && hyphenated_text(v)[18] == 45
            && hyphenated_text(v)[23] == 45,
{
    assert forall|i: int| 0 <= i < 32 implies (48 <= #[trigger] hex_text(v)[i] <= 57 || 97
        <= hex_text(v)[i] <= 102) by {
        let s = (124 - 4 * i) as u128;
        assert(((v >> s) & 0xf) < 16) by (bit_vector);
    }
}

} // verus!
