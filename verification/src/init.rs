//! Building the value of a `UUID` from the argument bound as its source,
//! with the version stamped when one is given.
use vstd::prelude::*;
use crate::args::InitSource;
use crate::generate::IntArgument;
use crate::layout::{
    be_bytes, bytes_to_uuid_int, bytes_value, bytes_le_value, fields_of, fields_in_range,
    fields_to_uuid_int, fields_uuid_value, le_bytes, parts_values, lemma_bytes_le_roundtrip,
    lemma_bytes_le_value_is_le_bytes, lemma_bytes_roundtrip, lemma_bytes_value_is_be_bytes,
    lemma_fields_value_is_fields,
};
use crate::pylong::{PyLongParts, pylong_to_u128, u128_value_of};
use crate::text::{
    braced_text, hex_text, parse_uuid_utf8, uppercased, urn_text, uuid_text_value, hyphenated_text,
    lemma_braced_text_parses, lemma_hex_text_parses, lemma_hyphenated_text_parses,
    lemma_uppercase_texts_parse, lemma_urn_text_parses,
};
use crate::version::{apply_version_with_max, stamped_value, has_version, lemma_stamped_version};

verus! {

/// The argument bound as the source, as the interpreter handed it over.
pub enum SourceValue {
    /// A string, as its UTF-8 bytes.
    Text(Vec<u8>),
    /// A bytes object.
    Bytes(Vec<u8>),
    /// A sequence whose items are all integers.
    Fields(Vec<PyLongParts>),
    /// An integer.
    Int(PyLongParts),
    /// Anything the source cannot be read from.
    Unusable,
}

/// Whether a source value is well formed: its integers are valid layouts.
pub open spec fn source_value_wf(v: SourceValue) -> bool {
    match v {
        SourceValue::Fields(items) => forall|i: int|
            0 <= i < items@.len() ==> (#[trigger] items@[i]).wf(),
        SourceValue::Int(parts) => parts.wf(),
        _ => true,
    }
}

/// The 128-bit value a source stands for: a string in an accepted text form,
/// 16 bytes (big-endian, or mixed-endian for `bytes_le`), six fields within
/// their widths, or an integer below 2^128. `None` for anything else.
pub open spec fn source_uuid_value(source: InitSource, value: SourceValue) -> Option<u128> {
    match (source, value) {
        (InitSource::Hex, SourceValue::Text(b)) => uuid_text_value(b@),
        (InitSource::Bytes, SourceValue::Bytes(b)) => bytes_value(b@),
        (InitSource::BytesLe, SourceValue::Bytes(b)) => bytes_le_value(b@),
        (InitSource::Fields, SourceValue::Fields(items)) => fields_uuid_value(parts_values(items@)),
        (InitSource::Int, SourceValue::Int(parts)) => u128_value_of(parts.value()),
        _ => None,
    }
}

/// Reads the value of the source argument.
pub fn source_to_uuid_int(source: InitSource, value: &SourceValue) -> (res: Option<u128>)
    requires
        source_value_wf(*value),
    ensures
        res == source_uuid_value(source, *value),
{
    match (source, value) {
        (InitSource::Hex, SourceValue::Text(b)) => parse_uuid_utf8(b.as_slice()),
        (InitSource::Bytes, SourceValue::Bytes(b)) => bytes_to_uuid_int(b.as_slice(), false),
        (InitSource::BytesLe, SourceValue::Bytes(b)) => bytes_to_uuid_int(b.as_slice(), true),
        (InitSource::Fields, SourceValue::Fields(items)) => fields_to_uuid_int(items),
        (InitSource::Int, SourceValue::Int(parts)) => pylong_to_u128(parts),
        _ => None,
    }
}

/// What the constructor does with a bound call.
#[derive(Clone, Copy, Debug, PartialEq, Eq, Structural)]
pub enum InitOutcome {
    /// Hand the call to the unpatched standard-library function.
    CallUnpatched,
    /// Store this value (as a new integer) and an unknown safety.
    SetValue(u128),
    /// Store the `int` argument itself and an unknown safety.
    KeepInt,
}

/// The outcome of a bound constructor call: the source must stand for a
/// value; a given version must be an integer from 1 to `max_version` (and at
/// most 8), and is then stamped on; without a version an `int` source is
/// kept as it is.
pub open spec fn init_outcome(
    source: InitSource,
    value: SourceValue,
    version: IntArgument,
    max_version: u8,
) -> InitOutcome {
    match source_uuid_value(source, value) {
        None => InitOutcome::CallUnpatched,
        Some(v) => match version {
            IntArgument::Missing => if source == InitSource::Int {
                InitOutcome::KeepInt
            } else {
                InitOutcome::SetValue(v)
            },
            IntArgument::Int(parts) => match u128_value_of(parts.value()) {
                Some(n) => if 1 <= n <= max_version && n <= 8 {
                    InitOutcome::SetValue(stamped_value(v, n as u8))
                } else {
                    InitOutcome::CallUnpatched
                },
                None => InitOutcome::CallUnpatched,
            },
            IntArgument::Other => InitOutcome::CallUnpatched,
        },
    }
}

/// Finishes a bound constructor call.
pub fn finish_init(
    source: InitSource,
    value: &SourceValue,
    version: &IntArgument,
    max_version: u8,
) -> (res: InitOutcome)
    requires
        source_value_wf(*value),
        version matches IntArgument::Int(parts) ==> parts.wf(),
    ensures
        res == init_outcome(source, *value, *version, max_version),
{
    let v = match source_to_uuid_int(source, value) {
        Some(v) => v,
        None => {
            return InitOutcome::CallUnpatched;
        },
    };
    match version {
        IntArgument::Missing => {
            if source == InitSource::Int {
                InitOutcome::KeepInt
            } else {
                InitOutcome::SetValue(v)
            }
        },
        IntArgument::Int(parts) => {
            let version_value = match pylong_to_u128(parts) {
                Some(n) => n,
                None => {
                    return InitOutcome::CallUnpatched;
                },
            };
            if version_value > 255 {
                return InitOutcome::CallUnpatched;
            }
            match apply_version_with_max(v, version_value as u8, max_version) {
                Some(stamped) => InitOutcome::SetValue(stamped),
                None => InitOutcome::CallUnpatched,
            }
        },
        IntArgument::Other => InitOutcome::CallUnpatched,
    }
}

/// A `UUID` built from any text form of a value (32 hex digits, hyphenated,
/// braced or URN, and the first three in uppercase) is that value.
pub proof fn lemma_init_from_text(v: u128, text: Vec<u8>, max_version: u8)
    requires
        text@ == hyphenated_text(v) || text@ == hex_text(v) || text@ == braced_text(v) || text@
            == urn_text(v) || text@ == uppercased(hex_text(v)) || text@ == uppercased(
            hyphenated_text(v),
        ) || text@ == uppercased(braced_text(v)),
    ensures
        init_outcome(InitSource::Hex, SourceValue::Text(text), IntArgument::Missing, max_version)
            == InitOutcome::SetValue(v),
{
    lemma_hyphenated_text_parses(v);
    lemma_hex_text_parses(v);
    lemma_braced_text_parses(v);
    lemma_urn_text_parses(v);
    lemma_uppercase_texts_parse(v);
}

/// A `UUID` built from the big-endian bytes of a value as `bytes`, or from
/// its mixed-endian bytes as `bytes_le`, is that value.
pub proof fn lemma_init_from_bytes(v: u128, b: Vec<u8>, max_version: u8)
    ensures
        b@ == be_bytes(v) ==> init_outcome(
            InitSource::Bytes,
            SourceValue::Bytes(b),
            IntArgument::Missing,
            max_version,
        ) == InitOutcome::SetValue(v),
        b@ == le_bytes(v) ==> init_outcome(
            InitSource::BytesLe,
            SourceValue::Bytes(b),
            IntArgument::Missing,
            max_version,
        ) == InitOutcome::SetValue(v),
{
    lemma_bytes_roundtrip(v);
    lemma_bytes_le_roundtrip(v);
}

/// Without a version, a `UUID` built from `bytes`, `bytes_le` or `fields`
/// gets the value whose own big-endian bytes, mixed-endian bytes (first
/// three fields little-endian) or six fields are exactly the argument, and
/// is built exactly when the bytes are 16 or the fields six within their
/// widths; an `int` within 128 bits is kept as it is.
pub proof fn lemma_init_reads_source(source: InitSource, value: SourceValue, max_version: u8)
    ensures
        source == InitSource::Bytes && value is Bytes ==> (init_outcome(
            source,
            value,
            IntArgument::Missing,
            max_version,
        ) is SetValue <==> value->Bytes_0@.len() == 16),
        source == InitSource::BytesLe && value is Bytes ==> (init_outcome(
            source,
            value,
            IntArgument::Missing,
            max_version,
        ) is SetValue <==> value->Bytes_0@.len() == 16),
        source == InitSource::Fields && value is Fields ==> (init_outcome(
            source,
            value,
            IntArgument::Missing,
            max_version,
        ) is SetValue <==> fields_in_range(parts_values(value->Fields_0@))),
        init_outcome(source, value, IntArgument::Missing, max_version) matches InitOutcome::SetValue(
            w,
        ) ==> {
            &&& source != InitSource::Int
            &&& source == InitSource::Bytes ==> (value matches SourceValue::Bytes(b) && b@ == be_bytes(
                w,
            ))
            &&& source == InitSource::BytesLe ==> (value matches SourceValue::Bytes(b) && b@
                == le_bytes(w))
            &&& source == InitSource::Fields ==> (value matches SourceValue::Fields(items) && items@.len()
                == 6 && forall|i: int| 0 <= i < 6 ==> #[trigger] items@[i].value() == fields_of(w)[i] as int)
        },
        source == InitSource::Int ==> (init_outcome(source, value, IntArgument::Missing, max_version)
            == InitOutcome::KeepInt <==> (value matches SourceValue::Int(p) && 0 <= p.value()
            < 0x1_0000_0000_0000_0000_0000_0000_0000_0000)),
{
    match value {
        SourceValue::Bytes(b) => {
            if b@.len() == 16 {
                lemma_bytes_value_is_be_bytes(b@);
                lemma_bytes_le_value_is_le_bytes(b@);
            }
        },
        SourceValue::Fields(items) => {
            let vals = parts_values(items@);
            if fields_in_range(vals) {
                lemma_fields_value_is_fields(vals);
                assert forall|i: int| 0 <= i < 6 implies #[trigger] items@[i].value() == fields_of(
                    fields_uuid_value(vals)->0,
                )[i] as int by {
                    assert(vals[i] == items@[i].value());
                }
            }
        },
        _ => {},
    }
}

/// A `UUID` built with a version carries that version and the RFC variant.
pub proof fn lemma_init_with_version(
    source: InitSource,
    value: SourceValue,
    parts: PyLongParts,
    max_version: u8,
)
    requires
        init_outcome(source, value, IntArgument::Int(parts), max_version) matches InitOutcome::SetValue(
            _,
        ),
    ensures
        init_outcome(source, value, IntArgument::Int(parts), max_version) matches InitOutcome::SetValue(
            w,
        ) && has_version(w, parts.value() as u8),
{
    let v = source_uuid_value(source, value).unwrap();
    let n = u128_value_of(parts.value()).unwrap();
    lemma_stamped_version(v, n as u8);
}

} // verus!
