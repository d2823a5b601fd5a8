use uuideal::args::{
    bind_init_arguments, classify_init_keyword, classify_time_keyword, parse_node_and_clock_seq,
    InitBinding, InitKeyword, InitSource, TimeArguments, TimeKeyword,
};
use uuideal::dispatch::{
    call_has_bare_shape, call_has_shape, max_uuid_version, resolve_safe_uuid, safe_uuid_from_generate_time,
    safety_state_entry, uses_generate_time_safe, uuid_repr_text, SafeFlag,
    SafeRestore, SafeUuid,
};
use uuideal::generate::{
    generate_uuid4, generate_uuid7, mask_default_node_value, name_based_uuid, resolve_clock_seq,
    next_timestamp, resolve_masked_node, resolve_node, timestamp_uuid_now, timestamp_uuid_with_clock_seq,
    validate_explicit_node_value,
    ClockSeqChoice, IntArgument, NodeChoice,
};
use uuideal::init::{finish_init, source_to_uuid_int, InitOutcome, SourceValue};
use uuideal::layout::{uuid_field_value, uuid_fields, UuidField};
use uuideal::lifecycle::{
    reseed_error_message, reseed_rng, HookOutcome, InstallStep, Installation, UninstallStep,
};
use uuideal::node_cache::{GetnodeMode, NodeCache, SlowNode, WatchedKey};
use uuideal::pylong::{u128_to_pylong_parts, PyLongParts};
use uuideal::text::uuid_string_bytes;
use uuideal::version::{uuid_variant, uuid_version, UuidVariant};

const NAMESPACE_DNS: u128 = 0x6ba7b8109dad11d180b400c04fd430c8;
const NODE: [u8; 6] = [0x01, 0x23, 0x45, 0x67, 0x89, 0xab];

fn int_arg(v: u128) -> IntArgument {
    IntArgument::Int(u128_to_pylong_parts(v))
}

fn negative_arg() -> IntArgument {
    IntArgument::Int(PyLongParts { tag: (1 << 3) | 2, digits: vec![1] })
}

#[test]
fn uuid3_of_python_org() {
    let v = name_based_uuid(3, NAMESPACE_DNS, b"python.org");
    assert_eq!(v, 0x6fa459eaee8a3ca4894edb77e160355e);
    assert_eq!(uuid_version(v), Some(3));
}

#[test]
fn uuid5_of_python_org() {
    let v = name_based_uuid(5, NAMESPACE_DNS, b"python.org");
    assert_eq!(v, 0x886313e13b8a53729b900c9aee199e5d);
    assert_eq!(uuid_version(v), Some(5));
}

#[test]
fn name_based_uuids_of_example_org() {
    assert_eq!(name_based_uuid(3, NAMESPACE_DNS, b"example.org"), 0x04738bdfb25a3829a801b21a1d25095b);
    assert_eq!(name_based_uuid(5, NAMESPACE_DNS, b"example.org"), 0xaad036818b63530489e08ca8f49461b5);
}

#[test]
fn uuid4_has_version_4() {
    for _ in 0..64 {
        let v = generate_uuid4();
        assert_eq!(uuid_version(v), Some(4));
        assert_eq!(uuid_variant(v), UuidVariant::Rfc4122);
    }
    assert_ne!(generate_uuid4(), generate_uuid4());
}

#[test]
fn uuid7_has_version_7() {
    let a = generate_uuid7();
    let b = generate_uuid7();
    assert_eq!(uuid_version(a), Some(7));
    assert_eq!(uuid_version(b), Some(7));
    assert!(a < b);
}

#[test]
fn uuid1_and_uuid6_now_keep_the_node() {
    let v1 = timestamp_uuid_now(&NODE, false);
    assert_eq!(uuid_version(v1), Some(1));
    assert_eq!(uuid_field_value(UuidField::Node, v1), 0x0123456789ab);
    let v6 = timestamp_uuid_now(&NODE, true);
    assert_eq!(uuid_version(v6), Some(6));
    assert_eq!(uuid_field_value(UuidField::Node, v6), 0x0123456789ab);
}

#[test]
fn uuid1_at_the_unix_epoch() {
    let v = timestamp_uuid_with_clock_seq(&NODE, 0x1234, 0, 0, false, None).0;
    assert_eq!(v, 0x138140001dd211b292340123456789ab);
    assert_eq!(uuid_field_value(UuidField::Time, v), 0x01B21DD213814000);
    assert_eq!(uuid_field_value(UuidField::ClockSeq, v), 0x1234);
}

#[test]
fn uuid6_at_the_unix_epoch() {
    let v = timestamp_uuid_with_clock_seq(&NODE, 0x1234, 0, 0, true, None).0;
    assert_eq!(v, 0x1b21dd213814600092340123456789ab);
    assert_eq!(uuid_version(v), Some(6));
}

#[test]
fn uuid1_clock_seq_keeps_14_bits_and_time_counts_ticks() {
    let v = timestamp_uuid_with_clock_seq(&NODE, 0xffff_1234 | (1 << 14), 1, 250, false, None).0;
    assert_eq!(uuid_field_value(UuidField::ClockSeq, v), 0x1234);
    assert_eq!(uuid_field_value(UuidField::Time, v), 0x01B21DD213814000 + 10_000_000 + 2);
}

#[test]
fn explicit_clock_seq_timestamps_increase() {
    let (first, t1) = timestamp_uuid_with_clock_seq(&NODE, 0x1234, 0, 0, false, None);
    let (second, t2) = timestamp_uuid_with_clock_seq(&NODE, 0x1234, 0, 0, false, Some(t1));
    assert_eq!(t1, 0x01B21DD213814000);
    assert_eq!(t2, t1 + 1);
    assert_ne!(first, second);
    assert_eq!(uuid_field_value(UuidField::Time, second), (t1 + 1) as u128);
    // A clock that moved on is used as it reads.
    let (_, t3) = timestamp_uuid_with_clock_seq(&NODE, 0x1234, 1, 0, true, Some(t2));
    assert_eq!(t3, 0x01B21DD213814000 + 10_000_000);
    assert_eq!(next_timestamp(Some(u64::MAX), 5), u64::MAX);
    assert_eq!(next_timestamp(Some(10), 10), 11);
    assert_eq!(next_timestamp(None, 10), 10);
}

#[test]
fn uuid6_node_is_masked() {
    assert_eq!(resolve_masked_node(&int_arg(1 << 48)), NodeChoice::Explicit(0));
    assert_eq!(resolve_masked_node(&int_arg((1 << 48) + 7)), NodeChoice::Explicit(7));
    assert_eq!(resolve_masked_node(&IntArgument::Missing), NodeChoice::Default);
    assert_eq!(resolve_masked_node(&negative_arg()), NodeChoice::CallUnpatched);
    assert_eq!(resolve_masked_node(&IntArgument::Other), NodeChoice::CallUnpatched);
}

#[test]
fn node_resolution() {
    assert_eq!(resolve_node(&IntArgument::Missing), NodeChoice::Default);
    assert_eq!(resolve_node(&int_arg(5)), NodeChoice::Explicit(5));
    assert_eq!(resolve_node(&int_arg((1 << 48) - 1)), NodeChoice::Explicit((1 << 48) - 1));
    assert_eq!(resolve_node(&int_arg(1 << 48)), NodeChoice::OutOfRange);
    assert_eq!(resolve_node(&negative_arg()), NodeChoice::CallUnpatched);
    assert_eq!(resolve_node(&IntArgument::Other), NodeChoice::CallUnpatched);
    assert_eq!(validate_explicit_node_value(1 << 48), None);
    assert_eq!(mask_default_node_value(u64::MAX as u128), 0xffff_ffff_ffff);
}

#[test]
fn clock_seq_resolution() {
    assert_eq!(resolve_clock_seq(&IntArgument::Missing), ClockSeqChoice::Now);
    assert_eq!(resolve_clock_seq(&int_arg(77)), ClockSeqChoice::Explicit(77));
    assert_eq!(resolve_clock_seq(&negative_arg()), ClockSeqChoice::CallUnpatched);
    assert_eq!(resolve_clock_seq(&IntArgument::Other), ClockSeqChoice::CallUnpatched);
}

#[test]
fn time_keywords() {
    assert_eq!(classify_time_keyword(b"node"), TimeKeyword::Node);
    assert_eq!(classify_time_keyword(b"clock_seq"), TimeKeyword::ClockSeq);
    assert_eq!(classify_time_keyword(b"nodes"), TimeKeyword::Other);
}

#[test]
fn time_argument_binding() {
    let none = TimeArguments { node_index: None, clock_seq_index: None };
    assert_eq!(parse_node_and_clock_seq(0, &vec![]), Some(none));
    assert_eq!(
        parse_node_and_clock_seq(1, &vec![TimeKeyword::ClockSeq]),
        Some(TimeArguments { node_index: Some(0), clock_seq_index: Some(1) })
    );
    assert_eq!(
        parse_node_and_clock_seq(0, &vec![TimeKeyword::ClockSeq, TimeKeyword::Node]),
        Some(TimeArguments { node_index: Some(1), clock_seq_index: Some(0) })
    );
    assert_eq!(parse_node_and_clock_seq(1, &vec![TimeKeyword::Node]), None);
    assert_eq!(parse_node_and_clock_seq(3, &vec![]), None);
    assert_eq!(parse_node_and_clock_seq(0, &vec![TimeKeyword::Other]), None);
    assert_eq!(
        parse_node_and_clock_seq(0, &vec![TimeKeyword::Node, TimeKeyword::Node, TimeKeyword::Node]),
        None
    );
}

#[test]
fn init_keywords() {
    assert_eq!(classify_init_keyword(b"hex"), InitKeyword::Hex);
    assert_eq!(classify_init_keyword(b"bytes"), InitKeyword::Bytes);
    assert_eq!(classify_init_keyword(b"bytes_le"), InitKeyword::BytesLe);
    assert_eq!(classify_init_keyword(b"fields"), InitKeyword::Fields);
    assert_eq!(classify_init_keyword(b"int"), InitKeyword::Int);
    assert_eq!(classify_init_keyword(b"version"), InitKeyword::Version);
    assert_eq!(classify_init_keyword(b"is_safe"), InitKeyword::IsSafe);
    assert_eq!(classify_init_keyword(b"hexx"), InitKeyword::Other);
}

#[test]
fn init_binding_positional_hex() {
    assert_eq!(
        bind_init_arguments(2, &vec![], &vec![false, false]),
        InitBinding::Bound { source: InitSource::Hex, source_index: 1, version_index: None }
    );
}

#[test]
fn init_binding_keyword_int_with_version() {
    assert_eq!(
        bind_init_arguments(1, &vec![InitKeyword::Int, InitKeyword::Version], &vec![false, false, false]),
        InitBinding::Bound { source: InitSource::Int, source_index: 1, version_index: Some(2) }
    );
}

#[test]
fn init_binding_none_positional_then_keyword() {
    // A parameter given positionally, even as `None`, cannot be given again
    // by keyword: the call goes to the unpatched constructor, which raises.
    assert_eq!(
        bind_init_arguments(2, &vec![InitKeyword::Hex], &vec![false, true, false]),
        InitBinding::CallUnpatched
    );
    assert_eq!(
        bind_init_arguments(3, &vec![InitKeyword::Bytes], &vec![false, true, true, false]),
        InitBinding::CallUnpatched
    );
    // A `None` positional parameter beside another source given by keyword.
    assert_eq!(
        bind_init_arguments(2, &vec![InitKeyword::Bytes], &vec![false, true, false]),
        InitBinding::Bound { source: InitSource::Bytes, source_index: 2, version_index: None }
    );
    assert_eq!(
        bind_init_arguments(1, &vec![InitKeyword::Bytes, InitKeyword::BytesLe], &vec![false, true, false]),
        InitBinding::Bound { source: InitSource::BytesLe, source_index: 2, version_index: None }
    );
}

#[test]
fn init_binding_refusals() {
    assert_eq!(bind_init_arguments(0, &vec![], &vec![]), InitBinding::CallUnpatched);
    assert_eq!(bind_init_arguments(8, &vec![], &vec![false; 8]), InitBinding::CallUnpatched);
    assert_eq!(bind_init_arguments(1, &vec![], &vec![false]), InitBinding::CallUnpatched);
    assert_eq!(
        bind_init_arguments(2, &vec![InitKeyword::Hex], &vec![false, false, false]),
        InitBinding::CallUnpatched
    );
    assert_eq!(
        bind_init_arguments(2, &vec![InitKeyword::IsSafe], &vec![false, false, false]),
        InitBinding::CallUnpatched
    );
    assert_eq!(
        bind_init_arguments(2, &vec![InitKeyword::Other], &vec![false, false, false]),
        InitBinding::CallUnpatched
    );
    assert_eq!(
        bind_init_arguments(2, &vec![InitKeyword::Int], &vec![false, false, false]),
        InitBinding::CallUnpatched
    );
    assert_eq!(bind_init_arguments(2, &vec![], &vec![false, true]), InitBinding::CallUnpatched);
}

#[test]
fn init_binding_all_positional() {
    let nones = vec![false, true, true, true, false, true, false];
    assert_eq!(
        bind_init_arguments(7, &vec![], &nones),
        InitBinding::Bound { source: InitSource::Fields, source_index: 4, version_index: Some(6) }
    );
}

#[test]
fn init_from_text_and_int() {
    let text = uuid_string_bytes(NAMESPACE_DNS);
    assert_eq!(
        finish_init(InitSource::Hex, &SourceValue::Text(text), &IntArgument::Missing, 8),
        InitOutcome::SetValue(NAMESPACE_DNS)
    );
    assert_eq!(
        finish_init(InitSource::Int, &SourceValue::Int(u128_to_pylong_parts(9)), &IntArgument::Missing, 8),
        InitOutcome::KeepInt
    );
}

#[test]
fn init_with_version() {
    let text = b"12345678123456781234567812345678".to_vec();
    assert_eq!(
        finish_init(InitSource::Hex, &SourceValue::Text(text.clone()), &int_arg(4), 5),
        InitOutcome::SetValue(0x12345678123446789234567812345678)
    );
    assert_eq!(
        finish_init(InitSource::Int, &SourceValue::Int(u128_to_pylong_parts(0)), &int_arg(7), 8),
        InitOutcome::SetValue(0x7000_8000_0000_0000_0000)
    );
    assert_eq!(
        finish_init(InitSource::Hex, &SourceValue::Text(text.clone()), &int_arg(6), 5),
        InitOutcome::CallUnpatched
    );
    assert_eq!(
        finish_init(InitSource::Hex, &SourceValue::Text(text.clone()), &int_arg(260), 8),
        InitOutcome::CallUnpatched
    );
    assert_eq!(
        finish_init(InitSource::Hex, &SourceValue::Text(text), &IntArgument::Other, 8),
        InitOutcome::CallUnpatched
    );
}

#[test]
fn init_from_unusable_sources() {
    assert_eq!(
        finish_init(InitSource::Bytes, &SourceValue::Bytes(vec![0; 15]), &IntArgument::Missing, 8),
        InitOutcome::CallUnpatched
    );
    assert_eq!(
        finish_init(InitSource::Hex, &SourceValue::Unusable, &IntArgument::Missing, 8),
        InitOutcome::CallUnpatched
    );
    assert_eq!(
        finish_init(InitSource::Hex, &SourceValue::Bytes(vec![0; 16]), &IntArgument::Missing, 8),
        InitOutcome::CallUnpatched
    );
    assert_eq!(
        finish_init(
            InitSource::Int,
            &SourceValue::Int(PyLongParts { tag: (1 << 3) | 2, digits: vec![1] }),
            &IntArgument::Missing,
            8
        ),
        InitOutcome::CallUnpatched
    );
}

#[test]
fn init_sources() {
    let fields: Vec<PyLongParts> = uuid_fields(NAMESPACE_DNS).into_iter().map(u128_to_pylong_parts).collect();
    assert_eq!(source_to_uuid_int(InitSource::Fields, &SourceValue::Fields(fields)), Some(NAMESPACE_DNS));
    let bytes: Vec<u8> = (0u8..16).collect();
    assert_eq!(
        source_to_uuid_int(InitSource::BytesLe, &SourceValue::Bytes(bytes.clone())),
        Some(0x03020100050407060809_0a0b0c0d0e0f)
    );
    assert_eq!(
        source_to_uuid_int(InitSource::Bytes, &SourceValue::Bytes(bytes)),
        Some(0x000102030405060708090a0b0c0d0e0f)
    );
}

#[test]
fn node_cache_trusts_the_original_getnode() {
    let mut cache = NodeCache::new();
    cache.load_original_getnode(100);
    assert_eq!(cache.cached_default_node(), None);
    let res = cache.settle_default_node(100, Some(0xffff_0123_4567_89ab), &None);
    assert_eq!(res, SlowNode::Node(0x0123_4567_89ab));
    assert_eq!(cache.cached_default_node(), Some(0x0123_4567_89ab));
    cache.load_original_getnode(200);
    assert_eq!(cache.original_getnode, Some(100));
}

#[test]
fn node_cache_failed_getnode_goes_unpatched() {
    let mut cache = NodeCache::new();
    cache.load_original_getnode(100);
    assert_eq!(cache.settle_default_node(100, None, &None), SlowNode::CallUnpatched);
    assert_eq!(cache.cached_default_node(), None);
}

#[test]
fn node_cache_replaced_getnode() {
    let mut cache = NodeCache::new();
    cache.load_original_getnode(100);
    cache.settle_default_node(100, Some(42), &None);
    cache.on_namespace_event(WatchedKey::Getnode, Some(300), false);
    assert_eq!(cache.mode, GetnodeMode::Unknown);
    assert_eq!(cache.cached_default_node(), None);
    assert_eq!(cache.settle_default_node(300, Some(7), &None), SlowNode::Node(7));
    assert_eq!(cache.mode, GetnodeMode::Unknown);
    assert_eq!(cache.cached_default_node(), None);
    let current = Some(u128_to_pylong_parts(7));
    assert_eq!(cache.settle_default_node(300, Some(7), &current), SlowNode::Node(7));
    assert_eq!(cache.trusted_getnode, Some(300));
    assert_eq!(cache.cached_default_node(), Some(7));
    cache.on_namespace_event(WatchedKey::Node, Some(5), false);
    assert_eq!(cache.cached_default_node(), None);
    assert_eq!(cache.settle_default_node(300, Some(8), &None), SlowNode::Node(8));
    assert_eq!(cache.cached_default_node(), Some(8));
    cache.on_namespace_event(WatchedKey::Getnode, Some(100), false);
    assert_eq!(cache.mode, GetnodeMode::Trusted);
    assert_eq!(cache.trusted_getnode, None);
    cache.on_namespace_event(WatchedKey::All, None, false);
    assert_eq!(cache.mode, GetnodeMode::Unknown);
}

#[test]
fn node_cache_generate_time_safe() {
    let mut cache = NodeCache::new();
    cache.set_generate_time_safe(Some(9), false);
    assert_eq!(cache.generate_time_safe, Some(9));
    cache.on_namespace_event(WatchedKey::GenerateTimeSafe, Some(10), true);
    assert_eq!(cache.generate_time_safe, None);
    cache.on_namespace_event(WatchedKey::GenerateTimeSafe, Some(11), false);
    assert_eq!(cache.generate_time_safe, Some(11));
    cache.on_namespace_event(WatchedKey::Other, None, false);
    assert_eq!(cache.generate_time_safe, Some(11));
}

#[test]
fn call_shapes() {
    assert!(call_has_shape(1, 0, 1));
    assert!(!call_has_shape(1, 1, 1));
    assert!(!call_has_shape(2, 0, 1));
    assert!(call_has_bare_shape(0, false, 0));
    assert!(!call_has_bare_shape(0, true, 0));
}

#[test]
fn generate_time_safe_only_without_node_and_clock_seq() {
    assert!(uses_generate_time_safe(true, &IntArgument::Missing, &IntArgument::Missing));
    assert!(!uses_generate_time_safe(false, &IntArgument::Missing, &IntArgument::Missing));
    assert!(!uses_generate_time_safe(true, &int_arg(1), &IntArgument::Missing));
    assert!(!uses_generate_time_safe(true, &IntArgument::Missing, &IntArgument::Other));
}

#[test]
fn safety_flags() {
    assert_eq!(safe_uuid_from_generate_time(Some(0)), SafeUuid::Safe);
    assert_eq!(safe_uuid_from_generate_time(Some(-1)), SafeUuid::Unsafe);
    assert_eq!(safe_uuid_from_generate_time(Some(3)), SafeUuid::Unknown);
    assert_eq!(safe_uuid_from_generate_time(None), SafeUuid::Unknown);
    assert_eq!(resolve_safe_uuid(SafeFlag::Missing), SafeRestore::Member(SafeUuid::Unknown));
    assert_eq!(resolve_safe_uuid(SafeFlag::NotInt), SafeRestore::Member(SafeUuid::Unknown));
    assert_eq!(resolve_safe_uuid(SafeFlag::Value(0)), SafeRestore::Member(SafeUuid::Safe));
    assert_eq!(resolve_safe_uuid(SafeFlag::Value(-1)), SafeRestore::Member(SafeUuid::Unsafe));
    assert_eq!(resolve_safe_uuid(SafeFlag::Value(5)), SafeRestore::Construct(5));
    assert_eq!(safety_state_entry(SafeUuid::Safe), Some(0));
    assert_eq!(safety_state_entry(SafeUuid::Unsafe), Some(-1));
    assert_eq!(safety_state_entry(SafeUuid::Unknown), None);
}

#[test]
fn repr_of_uuid() {
    let text = uuid_string_bytes(0x12345678123456781234567812345678);
    assert_eq!(
        uuid_repr_text(b"UUID", &text),
        b"UUID('12345678-1234-5678-1234-567812345678')".to_vec()
    );
}

#[test]
fn install_and_uninstall() {
    let mut state = Installation::new();
    assert!(!state.installed());
    assert_eq!(state.next_install_step(), InstallStep::RegisterAtFork);
    assert!(state.record_hook_outcome(HookOutcome::Registered));
    assert_eq!(state.next_install_step(), InstallStep::ApplyPatches);
    state.patches_applied();
    assert!(state.installed());
    assert_eq!(state.next_install_step(), InstallStep::Done);
    assert_eq!(state.next_uninstall_step(), UninstallStep::RestorePatches);
    state.patches_restored();
    assert!(!state.installed());
    assert_eq!(state.next_uninstall_step(), UninstallStep::Done);
    assert_eq!(state.next_install_step(), InstallStep::ApplyPatches);
}

#[test]
fn reseeding() {
    assert_eq!(reseed_rng(), Ok(()));
    assert_eq!(reseed_error_message(b"no entropy"), b"no entropy".to_vec());
    assert_eq!(
        reseed_error_message(b"bad\0text"),
        b"failed to reseed random number generator".to_vec()
    );
}

#[test]
fn max_version_depends_on_uuid6() {
    assert_eq!(max_uuid_version(true), 8);
    assert_eq!(max_uuid_version(false), 5);
}

#[test]
fn safety_survives_pickling() {
    for safety in [SafeUuid::Safe, SafeUuid::Unsafe, SafeUuid::Unknown] {
        let flag = match safety_state_entry(safety) {
            Some(v) => SafeFlag::Value(v),
            None => SafeFlag::Missing,
        };
        assert_eq!(resolve_safe_uuid(flag), SafeRestore::Member(safety));
    }
}

#[test]
fn uuid1_reads_back_its_node_and_clock_seq() {
    for node in [0u128, 1, 0x0123456789ab, (1 << 48) - 1] {
        let bytes = uuideal::layout::node_to_bytes(node);
        for clock_seq in [0u128, 1, 0x3fff, 0x1234] {
            let v = timestamp_uuid_with_clock_seq(&bytes, clock_seq, 1_700_000_000, 123_456_789, false, None).0;
            assert_eq!(uuid_field_value(UuidField::Node, v), node);
            assert_eq!(uuid_field_value(UuidField::ClockSeq, v), clock_seq);
            assert_eq!(uuid_version(v), Some(1));
            let w = timestamp_uuid_with_clock_seq(&bytes, clock_seq, 1_700_000_000, 123_456_789, true, None).0;
            assert_eq!(uuid_field_value(UuidField::Node, w), node);
            assert_eq!(uuid_field_value(UuidField::ClockSeq, w), clock_seq);
            assert_eq!(uuid_version(w), Some(6));
        }
    }
}

#[test]
fn failed_hook_registration_is_retried() {
    let mut state = Installation::new();
    assert!(!state.record_hook_outcome(HookOutcome::Failed));
    assert_eq!(state.next_install_step(), InstallStep::RegisterAtFork);
    assert!(state.record_hook_outcome(HookOutcome::Unavailable));
    assert_eq!(state.next_install_step(), InstallStep::ApplyPatches);
}

#[test]
fn failed_install_keeps_hook_and_retries_patching() {
    let mut state = Installation::new();
    // First install: registration succeeds, applying the patches fails.
    assert_eq!(state.next_install_step(), InstallStep::RegisterAtFork);
    assert!(state.record_hook_outcome(HookOutcome::Registered));
    assert_eq!(state.next_install_step(), InstallStep::ApplyPatches);
    state.patching_failed();
    assert!(!state.installed());
    // An uninstall now restores what was applied.
    assert_eq!(state.next_uninstall_step(), UninstallStep::RestorePatches);
    // Second install does not register again.
    assert_eq!(state.next_install_step(), InstallStep::ApplyPatches);
    state.patches_applied();
    assert!(state.installed());
    // A failed uninstall leaves the patches in place.
    assert_eq!(state.next_uninstall_step(), UninstallStep::RestorePatches);
    assert!(state.installed());
    state.patches_restored();
    assert!(!state.installed());
    // Installing again never asks for the hook.
    assert_eq!(state.next_install_step(), InstallStep::ApplyPatches);
}

#[test]
fn default_node_follows_rebinding() {
    let mut cache = NodeCache::new();
    cache.load_original_getnode(100);
    assert_eq!(cache.settle_default_node(100, Some(0x1111), &None), SlowNode::Node(0x1111));
    assert_eq!(cache.cached_default_node(), Some(0x1111));
    // `_node` is rebound: the cached node is dropped and getnode is asked again.
    cache.on_namespace_event(WatchedKey::Node, Some(9), false);
    assert_eq!(cache.cached_default_node(), None);
    assert_eq!(cache.settle_default_node(100, Some(0x2222), &None), SlowNode::Node(0x2222));
    assert_eq!(cache.cached_default_node(), Some(0x2222));
    // An unrelated name leaves it.
    cache.on_namespace_event(WatchedKey::Other, Some(5), false);
    assert_eq!(cache.cached_default_node(), Some(0x2222));
    // The namespace is cleared: nothing is answered from the cache.
    cache.on_namespace_event(WatchedKey::All, None, false);
    assert_eq!(cache.cached_default_node(), None);
}
