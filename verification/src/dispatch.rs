//! The smaller decisions of the patched methods: call shapes, the safety
//! flag of a UUID, and the text of `repr`.
use vstd::prelude::*;
use crate::generate::IntArgument;

verus! {

/// Whether a call has exactly `positional` positional arguments and no
/// keyword arguments.
pub fn call_has_shape(nargs: usize, keyword_count: usize, positional: usize) -> (res: bool)
    ensures
        res == (nargs == positional && keyword_count == 0),
{
    nargs == positional && keyword_count == 0
}

/// Whether a call has exactly `positional` positional arguments and no
/// keyword tuple at all.
pub fn call_has_bare_shape(nargs: usize, has_keyword_tuple: bool, positional: usize) -> (res: bool)
    ensures
        res == (nargs == positional && !has_keyword_tuple),
{
    nargs == positional && !has_keyword_tuple
}

/// Whether `uuid1()` takes its value from the interpreter's
/// `_generate_time_safe`: only when that function is there and neither a
/// node nor a clock sequence was given (or both were given as `None`).
pub fn uses_generate_time_safe(
    generate_time_safe_available: bool,
    node: &IntArgument,
    clock_seq: &IntArgument,
) -> (res: bool)
    ensures
        res == (generate_time_safe_available && *node is Missing && *clock_seq is Missing),
{
    generate_time_safe_available && matches!(node, IntArgument::Missing) && matches!(clock_seq, IntArgument::Missing)
}

/// The `SafeUUID` members.
#[derive(Clone, Copy, Debug, PartialEq, Eq, Structural)]
pub enum SafeUuid {
    Safe,
    Unsafe,
    Unknown,
}

/// The safety `_generate_time_safe` reports: 0 safe, -1 unsafe, anything
/// else (or a flag that is no integer, `None`) unknown.
pub open spec fn generated_safety(flag: Option<i64>) -> SafeUuid {
    match flag {
        Some(0i64) => SafeUuid::Safe,
        Some(-1i64) => SafeUuid::Unsafe,
        _ => SafeUuid::Unknown,
    }
}

/// The safety of a UUID made by `_generate_time_safe`, from the flag it
/// returned.
pub fn safe_uuid_from_generate_time(flag: Option<i64>) -> (res: SafeUuid)
    ensures
        res == generated_safety(flag),
{
    match flag {
        None => SafeUuid::Unknown,
        Some(value) => {
            if value == 0 {
                SafeUuid::Safe
            } else if value == -1 {
                SafeUuid::Unsafe
            } else {
                SafeUuid::Unknown
            }
        },
    }
}

/// The `is_safe` entry of a pickled state.
#[derive(Clone, Copy, Debug, PartialEq, Eq, Structural)]
pub enum SafeFlag {
    /// Absent, or `None`.
    Missing,
    /// Not convertible to an integer.
    NotInt,
    /// An integer.
    Value(i64),
}

/// How the `is_safe` entry of a pickled state is restored.
#[derive(Clone, Copy, Debug, PartialEq, Eq, Structural)]
pub enum SafeRestore {
    /// Use this member.
    Member(SafeUuid),
    /// Call `SafeUUID(value)` and use its result, or `unknown` if it fails.
    Construct(i64),
}

/// The restoring rule: missing or non-integer entries are unknown, 0 is
/// safe, -1 is unsafe, any other integer goes through `SafeUUID(value)`.
pub open spec fn safe_restore_of(flag: SafeFlag) -> SafeRestore {
    match flag {
        SafeFlag::Missing => SafeRestore::Member(SafeUuid::Unknown),
        SafeFlag::NotInt => SafeRestore::Member(SafeUuid::Unknown),
        SafeFlag::Value(v) => if v == 0 {
            SafeRestore::Member(SafeUuid::Safe)
        } else if v == -1 {
            SafeRestore::Member(SafeUuid::Unsafe)
        } else {
            SafeRestore::Construct(v)
        },
    }
}

/// Decides how the `is_safe` entry of a pickled state is restored.
pub fn resolve_safe_uuid(flag: SafeFlag) -> (res: SafeRestore)
    ensures
        res == safe_restore_of(flag),
{
    match flag {
        SafeFlag::Missing => SafeRestore::Member(SafeUuid::Unknown),
        SafeFlag::NotInt => SafeRestore::Member(SafeUuid::Unknown),
        SafeFlag::Value(v) => {
            if v == 0 {
                SafeRestore::Member(SafeUuid::Safe)
            } else if v == -1 {
                SafeRestore::Member(SafeUuid::Unsafe)
            } else {
                SafeRestore::Construct(v)
            }
        },
    }
}

/// The safety value a pickled state records: none for an unknown safety,
/// otherwise the member's value (0 safe, -1 unsafe).
pub open spec fn pickled_safety(safety: SafeUuid) -> Option<i64> {
    match safety {
        SafeUuid::Safe => Some(0i64),
        SafeUuid::Unsafe => Some(-1i64),
        SafeUuid::Unknown => None,
    }
}

/// The safety value recorded when a UUID is pickled.
pub fn safety_state_entry(safety: SafeUuid) -> (res: Option<i64>)
    ensures
        res == pickled_safety(safety),
{
    match safety {
        SafeUuid::Safe => Some(0i64),
        SafeUuid::Unsafe => Some(-1i64),
        SafeUuid::Unknown => None,
    }
}

/// Pickling a safety and restoring it gives it back.
pub proof fn lemma_safety_pickle_roundtrip(safety: SafeUuid)
    ensures
        safe_restore_of(
            match pickled_safety(safety) {
                Some(v) => SafeFlag::Value(v),
                None => SafeFlag::Missing,
            },
        ) == SafeRestore::Member(safety),
{
}

/// The text of `repr`: the class name, `('`, the UUID string, `')`.
pub open spec fn repr_text(class_name: Seq<u8>, text: Seq<u8>) -> Seq<u8> {
    class_name + seq![40u8, 39u8] + text + seq![39u8, 41u8]
}

/// Builds the text of `repr` from the class name and the UUID string.
pub fn uuid_repr_text(class_name: &[u8], text: &[u8]) -> (res: Vec<u8>)
    ensures
        res@ == repr_text(class_name@, text@),
{
    let mut res: Vec<u8> = Vec::new();
    let mut i: usize = 0;
    while i < class_name.len()
        invariant
            i <= class_name@.len(),
            res@ == class_name@.take(i as int),
        decreases class_name@.len() - i,
    {
        res.push(class_name[i]);
        i += 1;
        assert(res@ =~= class_name@.take(i as int));
    }
    assert(class_name@.take(class_name@.len() as int) =~= class_name@);
    res.push(40u8);
    res.push(39u8);
    let ghost head = res@;
    let mut k: usize = 0;
    while k < text.len()
        invariant
            k <= text@.len(),
            res@ == head + text@.take(k as int),
        decreases text@.len() - k,
    {
        res.push(text[k]);
        k += 1;
        assert(res@ =~= head + text@.take(k as int));
    }
    assert(text@.take(text@.len() as int) =~= text@);
    res.push(39u8);
    res.push(41u8);
    assert(res@ =~= repr_text(class_name@, text@));
    res
}

/// The highest version the `UUID` constructor accepts: 8 where the `uuid`
/// module has `uuid6` (versions 6 to 8 exist there), 5 otherwise.
pub fn max_uuid_version(module_has_uuid6: bool) -> (res: u8)
    ensures
        res == if module_has_uuid6 {
            8u8
        } else {
            5u8
        },
{
    if module_has_uuid6 {
        8
    } else {
        5
    }
}

} // verus!
