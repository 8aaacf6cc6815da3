use cache_builder::cache::{AbiCache, Lookup};
use cache_builder::processor::ProcessResult;
use cache_builder::seen::SeenSet;
use cache_builder::stats::Stats;
use cache_builder::stream_processor::{
    has_unit_extension, Ingestion, PipelineError, Signal, Stage, StreamProcessor, BATCH_SIZE,
    CHANNEL_BUFFER, SEEN_CHECK_EVERY, SEEN_LIMIT,
};
use std::collections::HashSet;

fn names(list: &[&str]) -> Vec<String> {
    list.iter().map(|n| n.to_string()).collect()
}

fn lookup(store: &HashSet<Vec<u8>>, code: &str) -> Lookup {
    if store.contains(&AbiCache::generate_cache_key(code, true)) {
        Lookup::Found
    } else {
        Lookup::Missing
    }
}

/// Runs the ingestion over the units and returns the bytecodes it enqueues.
fn ingest(
    ingestion: &mut Ingestion,
    cache: &mut AbiCache,
    store: &HashSet<Vec<u8>>,
    units: &[&[&str]],
) -> Vec<String> {
    let mut queue = Vec::new();
    for unit in units {
        for code in unit.iter() {
            if !ingestion.observe(code) {
                continue;
            }
            if ingestion.resolve(cache, lookup(store, code)) {
                queue.push(code.to_string());
            }
        }
        ingestion.file_done(Some(unit.len()));
    }
    queue
}

#[test]
fn pipeline_constants() {
    assert_eq!(BATCH_SIZE, 1000);
    assert_eq!(CHANNEL_BUFFER, 10000);
    assert_eq!(SEEN_LIMIT, 1_000_000);
    assert_eq!(SEEN_CHECK_EVERY, 1000);
}

#[test]
fn input_units_are_known_by_their_extension() {
    assert!(has_unit_extension("a.parquet"));
    assert!(has_unit_extension("ethereum__contracts__1_to_2.parquet"));
    assert!(has_unit_extension("..parquet"));
    assert!(has_unit_extension("a.b.parquet"));
    assert!(!has_unit_extension(".parquet"));
    assert!(!has_unit_extension("parquet"));
    assert!(!has_unit_extension("a.parquet.tmp"));
    assert!(!has_unit_extension("a.PARQUET"));
    assert!(!has_unit_extension("aparquet"));
    assert!(!has_unit_extension(""));
}

#[test]
fn input_units_are_picked_and_put_in_order() {
    let units = StreamProcessor::find_parquet_files(&names(&[
        "b.parquet",
        "notes.txt",
        "a-2.parquet",
        "a.parquet",
        ".parquet",
        "B.parquet",
        "a.parquet",
    ]));
    assert_eq!(
        units,
        names(&["B.parquet", "a-2.parquet", "a.parquet", "a.parquet", "b.parquet"])
    );
}

#[test]
fn a_run_without_input_units_fails_at_once() {
    let mut run = StreamProcessor::new(4, 25, true, true);
    assert_eq!(run.stage, Stage::Discovering);
    assert_eq!(run.process_all_parquets(&names(&["readme.md"])), Err(PipelineError::NoSources));
    assert_eq!(run.stage, Stage::Discovering);
    assert_eq!(run.process_all_parquets(&vec![]), Err(PipelineError::NoSources));
}

#[test]
fn a_run_goes_through_its_stages() {
    let mut run = StreamProcessor::new(4, 25, true, false);
    run.advance(Signal::IngestionFinished);
    assert_eq!(run.stage, Stage::Discovering);
    assert_eq!(
        run.process_all_parquets(&names(&["2.parquet", "1.parquet"])),
        Ok(names(&["1.parquet", "2.parquet"]))
    );
    assert_eq!(run.stage, Stage::Streaming);
    assert_eq!(
        run.process_all_parquets(&names(&["1.parquet"])),
        Err(PipelineError::AlreadyStarted)
    );
    run.advance(Signal::WorkersFinished);
    assert_eq!(run.stage, Stage::Streaming);
    run.advance(Signal::IngestionFinished);
    assert_eq!(run.stage, Stage::Draining);
    run.advance(Signal::IngestionFinished);
    assert_eq!(run.stage, Stage::Draining);
    run.advance(Signal::WorkersFinished);
    assert_eq!(run.stage, Stage::Done);
    run.advance(Signal::WorkersFinished);
    run.advance(Signal::IngestionFinished);
    assert_eq!(run.stage, Stage::Done);
    assert_eq!(run.workers, 4);
}

#[test]
fn workers_get_the_settings_of_the_run() {
    let worker = StreamProcessor::new(2, 7, false, true).worker();
    assert_eq!(worker.timeout_secs, 7);
    assert!(!worker.skip_resolving);
    assert!(worker.extract_storage);
}

#[test]
fn a_bytecode_duplicated_across_units_is_enqueued_once() {
    let store = HashSet::new();
    let mut cache = AbiCache::new();
    let mut ingestion = Ingestion::new();
    let queue = ingest(
        &mut ingestion,
        &mut cache,
        &store,
        &[&["0x6001", "0x6002"], &["0x6002", "0x6003"]],
    );
    assert_eq!(queue, names(&["0x6001", "0x6002", "0x6003"]));
    let total_items = 4;
    assert_eq!(ingestion.total_contracts, total_items);
    assert_eq!(ingestion.processed_files, 2);
    assert_eq!(ingestion.unique_count, 3);
    assert_eq!(ingestion.duplicate_count, 1);
    assert_eq!(ingestion.cached_count, 0);
    assert_eq!(ingestion.cached_count + ingestion.unique_count, total_items - 1);
    assert_eq!(cache.stats.hits as usize, ingestion.cached_count);
    // The cache was asked once for each bytecode that was new to the run.
    assert_eq!(cache.stats.misses, 3);
}

#[test]
fn a_cached_item_never_reaches_the_queue() {
    let mut store = HashSet::new();
    store.insert(AbiCache::generate_cache_key("0x6002", true));
    let mut cache = AbiCache::new();
    let mut ingestion = Ingestion::new();
    let queue = ingest(
        &mut ingestion,
        &mut cache,
        &store,
        &[&["0x6001", "0x6002", "6002", "0x6002"]],
    );
    // "6002" is another text than "0x6002" but has the same key.
    assert_eq!(queue, names(&["0x6001"]));
    assert_eq!(ingestion.unique_count, 1);
    assert_eq!(ingestion.duplicate_count, 3);
    assert_eq!(ingestion.cached_count, 2);
    assert_eq!(cache.stats.hits, 2);
    assert_eq!(cache.stats.misses, 1);
}

#[test]
fn an_unreadable_store_lets_the_item_through() {
    let mut cache = AbiCache::new();
    let mut ingestion = Ingestion::new();
    assert!(ingestion.observe("0x01"));
    assert!(ingestion.resolve(&mut cache, Lookup::Unavailable));
    assert_eq!(cache.stats.errors, 1);
    assert_eq!(ingestion.unique_count, 1);
}

#[test]
fn an_unreadable_unit_counts_as_processed() {
    let mut ingestion = Ingestion::new();
    ingestion.file_done(None);
    ingestion.file_done(Some(5));
    assert_eq!(ingestion.processed_files, 2);
    assert_eq!(ingestion.total_contracts, 5);
}

#[test]
fn the_seen_set_is_kept_while_it_is_small() {
    let mut ingestion = Ingestion::new();
    assert!(ingestion.observe("0x01"));
    for _ in 0..SEEN_CHECK_EVERY {
        ingestion.file_done(Some(0));
    }
    assert_eq!(ingestion.processed_files, SEEN_CHECK_EVERY);
    assert!(!ingestion.observe("0x01"));
    assert_eq!(ingestion.duplicate_count, 1);
}

#[test]
fn seen_set_tells_new_texts_from_old() {
    let mut seen = SeenSet::new();
    assert_eq!(seen.len(), 0);
    assert!(seen.insert("0x6001".to_string()));
    assert!(seen.insert("0x6002".to_string()));
    assert!(!seen.insert("0x6001".to_string()));
    assert!(seen.insert("".to_string()));
    assert!(!seen.insert("".to_string()));
    assert_eq!(seen.len(), 3);
    assert!(seen.contains(&"0x6002".to_string()));
    assert!(!seen.contains(&"0x6003".to_string()));
    seen.clear();
    assert_eq!(seen.len(), 0);
    assert!(!seen.contains(&"0x6001".to_string()));
    assert!(seen.insert("0x6001".to_string()));
}

#[test]
fn seen_set_holds_many_texts() {
    let mut seen = SeenSet::new();
    for i in 0..5000u32 {
        assert!(seen.insert(format!("0x{:08x}", i)));
    }
    for i in 0..5000u32 {
        assert!(!seen.insert(format!("0x{:08x}", i)));
    }
    assert_eq!(seen.len(), 5000);
}

#[test]
fn finished_items_are_counted_by_their_result() {
    let mut stats = Stats::new();
    let result = |cached: bool, success: bool, error: Option<&str>, micros: u128| ProcessResult {
        address: "0x01".to_string(),
        cached,
        success,
        error: error.map(|e| e.to_string()),
        duration_micros: micros,
    };
    StreamProcessor::record_outcome(&mut stats, &result(true, true, None, 10));
    StreamProcessor::record_outcome(&mut stats, &result(false, true, None, 20));
    StreamProcessor::record_outcome(
        &mut stats,
        &result(false, false, Some("Decompilation timed out after 25 seconds"), 30),
    );
    StreamProcessor::record_outcome(&mut stats, &result(false, false, Some("bad opcode"), 40));
    assert_eq!(stats.processed, 4);
    assert_eq!(stats.cached, 1);
    assert_eq!(stats.successes, 1);
    assert_eq!(stats.errors, 2);
    assert_eq!(stats.timeouts, 1);
    assert_eq!(stats.total_processing_time, 100);
}

#[test]
fn one_repeat_among_cached_and_new_items_leaves_all_but_one() {
    let mut store = HashSet::new();
    store.insert(AbiCache::generate_cache_key("0x6003", true));
    let mut cache = AbiCache::new();
    let mut ingestion = Ingestion::new();
    let queue = ingest(
        &mut ingestion,
        &mut cache,
        &store,
        &[&["0x6001", "0x6002", "0x6003"], &["0x6004", "0x6002"]],
    );
    assert_eq!(queue, names(&["0x6001", "0x6002", "0x6004"]));
    let total_items = 5;
    assert_eq!(ingestion.total_contracts, total_items);
    assert_eq!(ingestion.unique_count, 3);
    assert_eq!(ingestion.cached_count, 1);
    assert_eq!(ingestion.duplicate_count, 2);
    assert_eq!(ingestion.cached_count + ingestion.unique_count, total_items - 1);
}
