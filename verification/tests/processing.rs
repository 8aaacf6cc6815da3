use cache_builder::cache::{AbiCache, Lookup, WriteOutcome};
use cache_builder::decoded::{Function, Interface, Param, StateMutability};
use cache_builder::processor::{
    is_timeout_message, ContractProcessor, Phase, Started, TaskOutcome,
};
use cache_builder::types::StorageSlot;

fn interface() -> Interface {
    Interface {
        functions: vec![Function {
            name: "owner".to_string(),
            inputs: vec![],
            outputs: vec![Param {
                name: "".to_string(),
                ty: "address".to_string(),
                internal_type: None,
            }],
            state_mutability: StateMutability::View,
            selector: [0x8d, 0xa5, 0xcb, 0x5b],
        }],
        events: vec![],
        errors: vec![],
        constructor: None,
        fallback: None,
        receive: false,
    }
}

#[test]
fn a_cached_item_is_reported_at_once() {
    let processor = ContractProcessor::new(25, true, true);
    let mut cache = AbiCache::new();
    match processor.process_contract(&mut cache, "0xabc", "0x6080", Lookup::Found, 42) {
        Started::Cached(result) => {
            assert_eq!(result.address, "0xabc");
            assert!(result.cached);
            assert!(result.success);
            assert!(result.error.is_none());
            assert_eq!(result.duration_micros, 42);
        }
        Started::Analyze(_) => panic!("a cached item must not be analysed"),
    }
    assert_eq!(cache.stats.hits, 1);
    assert_eq!(cache.stats.misses, 0);
}

#[test]
fn a_missing_item_is_analysed_with_the_configured_request() {
    let processor = ContractProcessor::new(25, true, false);
    let mut cache = AbiCache::new();
    for lookup in [Lookup::Missing, Lookup::Unavailable] {
        match processor.process_contract(&mut cache, "0xabc", "0x6080", lookup, 0) {
            Started::Analyze(request) => {
                assert_eq!(request.target, "0x6080");
                assert_eq!(request.rpc_url, "");
                assert!(request.default);
                assert!(request.skip_resolving);
                assert!(!request.include_solidity);
                assert!(!request.include_yul);
                assert_eq!(request.output, "");
                assert_eq!(request.timeout_ms, 25_000);
            }
            Started::Cached(_) => panic!("nothing was cached"),
        }
    }
    assert_eq!(cache.stats.misses, 1);
    assert_eq!(cache.stats.errors, 1);
}

#[test]
fn the_deadline_in_milliseconds_saturates() {
    let request = ContractProcessor::new(u64::MAX / 1000 + 1, false, false).decompile_request("00");
    assert_eq!(request.timeout_ms, u64::MAX);
    let request = ContractProcessor::new(u64::MAX / 1000, false, false).decompile_request("00");
    assert_eq!(request.timeout_ms, (u64::MAX / 1000) * 1000);
    assert!(!request.skip_resolving);
}

#[test]
fn timeout_messages_are_recognised() {
    assert!(is_timeout_message("Execution timed out"));
    assert!(is_timeout_message("timed out"));
    assert!(is_timeout_message("it timed out after a while"));
    assert!(!is_timeout_message("timed  out"));
    assert!(!is_timeout_message("Timed Out"));
    assert!(!is_timeout_message("timeout"));
    assert!(!is_timeout_message(""));
}

#[test]
fn storage_phase_runs_only_after_a_success() {
    let with = ContractProcessor::new(1, true, true);
    let without = ContractProcessor::new(1, true, false);
    assert!(with.wants_storage(&TaskOutcome::Success(interface())));
    assert!(!without.wants_storage(&TaskOutcome::Success(interface())));
    assert!(!with.wants_storage(&TaskOutcome::Timeout(Phase::Cooperative)));
    assert!(!with.wants_storage(&TaskOutcome::Fault("x".to_string())));
    assert!(!with.wants_storage(&TaskOutcome::Malformed("x".to_string())));
}

#[test]
fn a_success_is_stored_with_its_storage_layout() {
    let processor = ContractProcessor::new(30, true, true);
    let slots = vec![StorageSlot::new(0, 0, "address".to_string())];
    let analyzed =
        processor.record_analysis(TaskOutcome::Success(interface()), Some(TaskOutcome::Success(slots)));
    assert!(analyzed.error.is_none());
    assert_eq!(analyzed.abi.functions.len(), 1);
    assert_eq!(analyzed.abi.functions[0].signature, "owner()");
    assert_eq!(analyzed.abi.storage_layout.len(), 1);
    assert!(analyzed.abi.decompile_error.is_none());
    assert!(analyzed.abi.storage_error.is_none());
    assert_eq!(analyzed.abi.by_selector.get(&[0x8d, 0xa5, 0xcb, 0x5b]), Some(&0));
    assert_eq!(analyzed.abi.by_name.get("owner"), Some(&0));
}

#[test]
fn a_failed_storage_phase_stands_beside_the_interface() {
    let processor = ContractProcessor::new(30, true, true);
    let analyzed = processor.record_analysis(
        TaskOutcome::Success(interface()),
        Some(TaskOutcome::Timeout(Phase::NonCooperative)),
    );
    assert!(analyzed.error.is_none());
    assert_eq!(analyzed.abi.functions.len(), 1);
    assert!(analyzed.abi.storage_layout.is_empty());
    assert_eq!(
        analyzed.abi.storage_error.as_deref(),
        Some("Storage extraction timed out after 30 seconds")
    );
    let analyzed = processor.record_analysis(
        TaskOutcome::Success(interface()),
        Some(TaskOutcome::Fault("Storage extraction failed: Oops".to_string())),
    );
    assert_eq!(analyzed.abi.storage_error.as_deref(), Some("Storage extraction failed: Oops"));
    let analyzed = processor.record_analysis(
        TaskOutcome::Success(interface()),
        Some(TaskOutcome::Malformed("Empty bytecode after decoding".to_string())),
    );
    assert_eq!(analyzed.abi.storage_error.as_deref(), Some("Empty bytecode after decoding"));
    let analyzed = processor.record_analysis(TaskOutcome::Success(interface()), None);
    assert!(analyzed.abi.storage_error.is_none());
    assert!(analyzed.abi.storage_layout.is_empty());
}

#[test]
fn a_timeout_leaves_a_record_that_holds_only_the_failure() {
    let processor = ContractProcessor::new(1, true, true);
    let analyzed = processor.record_analysis(TaskOutcome::Timeout(Phase::Cooperative), None);
    assert_eq!(analyzed.error.as_deref(), Some("Decompilation timed out after 1 seconds"));
    assert_eq!(
        analyzed.abi.decompile_error.as_deref(),
        Some("Decompilation timed out after 1 seconds")
    );
    assert!(analyzed.abi.functions.is_empty());
    assert!(analyzed.abi.storage_layout.is_empty());
    assert!(analyzed.abi.storage_error.is_none());
    assert!(analyzed.abi.by_selector.is_empty());
}

#[test]
fn a_fault_that_speaks_of_a_timeout_is_stored_as_a_timeout() {
    let processor = ContractProcessor::new(25, true, true);
    let analyzed =
        processor.record_analysis(TaskOutcome::Fault("Execution timed out".to_string()), None);
    assert_eq!(analyzed.error.as_deref(), Some("Execution timed out"));
    assert_eq!(
        analyzed.abi.decompile_error.as_deref(),
        Some("Decompilation timed out after 25 seconds")
    );
}

#[test]
fn other_failures_are_stored_with_their_text() {
    let processor = ContractProcessor::new(25, true, true);
    let analyzed =
        processor.record_analysis(TaskOutcome::Fault("stack underflow".to_string()), None);
    assert_eq!(analyzed.error.as_deref(), Some("stack underflow"));
    assert_eq!(analyzed.abi.decompile_error.as_deref(), Some("stack underflow"));
    let analyzed =
        processor.record_analysis(TaskOutcome::Malformed("not hex".to_string()), None);
    assert_eq!(analyzed.error.as_deref(), Some("not hex"));
    assert_eq!(analyzed.abi.decompile_error.as_deref(), Some("not hex"));
    // A storage outcome is of no account once the primary analysis failed.
    let analyzed = processor.record_analysis(
        TaskOutcome::Fault("broken".to_string()),
        Some(TaskOutcome::Success(vec![StorageSlot::new(1, 2, "bool".to_string())])),
    );
    assert!(analyzed.abi.storage_layout.is_empty());
}

#[test]
fn completion_reports_the_item_whatever_the_write_did() {
    let processor = ContractProcessor::new(25, true, true);
    let mut cache = AbiCache::new();
    let ok = processor.complete(&mut cache, "0x01", None, WriteOutcome::Committed, 7);
    assert_eq!(ok.address, "0x01");
    assert!(!ok.cached);
    assert!(ok.success);
    assert!(ok.error.is_none());
    assert_eq!(ok.duration_micros, 7);
    assert_eq!(cache.stats.writes, 1);
    let failed = processor.complete(
        &mut cache,
        "0x02",
        Some("boom".to_string()),
        WriteOutcome::StoreFailed("disk full".to_string()),
        9,
    );
    assert!(!failed.cached);
    assert!(!failed.success);
    assert_eq!(failed.error.as_deref(), Some("boom"));
    assert_eq!(cache.stats.writes, 1);
}

#[test]
fn a_timed_out_item_is_found_in_the_cache_afterwards() {
    let mut store: std::collections::HashMap<Vec<u8>, Vec<u8>> = std::collections::HashMap::new();
    let processor = ContractProcessor::new(1, true, true);
    let mut cache = AbiCache::new();
    let code = "0x60806040";
    let lookup = |store: &std::collections::HashMap<Vec<u8>, Vec<u8>>| {
        if store.contains_key(&AbiCache::generate_cache_key(code, true)) {
            Lookup::Found
        } else {
            Lookup::Missing
        }
    };
    let started = processor.process_contract(&mut cache, "0xaa", code, lookup(&store), 0);
    assert!(matches!(started, Started::Analyze(_)));
    let analyzed = processor.record_analysis(TaskOutcome::Timeout(Phase::Cooperative), None);
    let encoded = analyzed.abi.decompile_error.clone().unwrap().into_bytes();
    let write = AbiCache::write_for(code, true, encoded);
    store.insert(write.key, write.value);
    let result =
        processor.complete(&mut cache, "0xaa", analyzed.error, WriteOutcome::Committed, 1_000_000);
    assert!(!result.success);
    // The second run finds the item and does not analyse it again.
    let started = processor.process_contract(&mut cache, "0xaa", code, lookup(&store), 0);
    assert!(matches!(started, Started::Cached(_)));
}
