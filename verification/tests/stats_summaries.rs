use cache_builder::stats::Stats;

fn sample() -> Stats {
    let mut stats = Stats::new();
    stats.total_contracts = 8;
    stats.record_result(true, true, false, 1_500);
    stats.record_result(false, true, false, 2_500_000);
    stats.record_result(false, false, true, 1_000_000);
    stats.record_result(false, false, false, 500_000);
    stats
}

#[test]
fn new_stats_are_zero() {
    let stats = Stats::new();
    assert_eq!(stats.total_contracts, 0);
    assert_eq!(stats.processed, 0);
    assert_eq!(stats.cached, 0);
    assert_eq!(stats.successes, 0);
    assert_eq!(stats.errors, 0);
    assert_eq!(stats.timeouts, 0);
    assert_eq!(stats.total_processing_time, 0);
}

#[test]
fn record_result_sorts_items_into_classes() {
    let stats = sample();
    assert_eq!(stats.processed, 4);
    assert_eq!(stats.cached, 1);
    assert_eq!(stats.successes, 1);
    assert_eq!(stats.errors, 2);
    assert_eq!(stats.timeouts, 1);
    assert_eq!(stats.total_processing_time, 4_001_500);
    assert_eq!(stats.cached + stats.successes + stats.errors, stats.processed);
}

#[test]
fn a_cache_hit_is_never_a_timeout_or_an_error() {
    let mut stats = Stats::new();
    stats.record_result(true, false, true, 0);
    assert_eq!(stats.cached, 1);
    assert_eq!(stats.errors, 0);
    assert_eq!(stats.timeouts, 0);
    assert_eq!(stats.successes, 0);
}

#[test]
fn a_timeout_flag_on_a_success_counts_nothing() {
    let mut stats = Stats::new();
    stats.record_result(false, true, true, 0);
    assert_eq!(stats.successes, 1);
    assert_eq!(stats.timeouts, 0);
}

#[test]
fn processing_time_is_kept_modulo_64_bits() {
    let mut stats = Stats::new();
    stats.total_processing_time = u64::MAX;
    stats.record_result(false, true, false, 2);
    assert_eq!(stats.total_processing_time, 1);
    stats.record_result(false, true, false, (1u128 << 64) + 5);
    assert_eq!(stats.total_processing_time, 6);
}

#[test]
fn progress_line_of_a_sample_run() {
    assert_eq!(
        sample().get_summary(2_000_000),
        "Progress: 4/8 (50.0%) | Cached: 1 | Success: 1 | Errors: 2 (Timeouts: 1) | Rate: 2.0/s | Avg: 1000ms | Success Rate: 33.3%"
    );
}

#[test]
fn progress_line_of_an_empty_run() {
    assert_eq!(
        Stats::new().get_summary(0),
        "Progress: 0/0 (0.0%) | Cached: 0 | Success: 0 | Errors: 0 (Timeouts: 0) | Rate: 0.0/s | Avg: 0ms | Success Rate: 100.0%"
    );
}

#[test]
fn throughput_is_the_items_per_elapsed_second() {
    // Four items were processed.
    assert!(sample().get_summary(2_000_000).contains("| Rate: 2.0/s |"));
    assert!(sample().get_summary(1_000_000).contains("| Rate: 4.0/s |"));
    assert!(sample().get_summary(999_999).contains("| Rate: 4.0/s |"));
    assert!(sample().get_summary(500_000).contains("| Rate: 8.0/s |"));
    assert!(sample().get_summary(300_000).contains("| Rate: 13.3/s |"));
    assert!(sample().get_summary(1).contains("| Rate: 4000000.0/s |"));
    assert!(sample().get_summary(3_000_000).contains("| Rate: 1.3/s |"));
    assert!(sample().get_final_summary(500_000).contains("Overall throughput: 8.0 contracts/sec\n"));
}

#[test]
fn throughput_is_zero_while_no_time_has_elapsed() {
    assert!(sample().get_summary(0).contains("| Rate: 0.0/s |"));
    assert!(sample().get_final_summary(0).contains("Overall throughput: 0.0 contracts/sec\n"));
    assert!(Stats::new().get_summary(5_000_000).contains("| Rate: 0.0/s |"));
}

#[test]
fn success_rate_leaves_cache_hits_out() {
    let mut stats = Stats::new();
    stats.record_result(true, true, false, 0);
    stats.record_result(true, true, false, 0);
    assert!(stats.get_summary(0).ends_with("Success Rate: 100.0%"));
    stats.record_result(false, false, false, 0);
    assert!(stats.get_summary(0).ends_with("Success Rate: 0.0%"));
    stats.record_result(false, true, false, 0);
    assert!(stats.get_summary(0).ends_with("Success Rate: 50.0%"));
}

#[test]
fn final_report_of_a_sample_run() {
    assert_eq!(
        sample().get_final_summary(2_000_000),
        "\n=== Final Summary ===\nTotal contracts:     8\nProcessed:          4\n  - Cached:         1\n  - New successes:  1\n  - Errors:         2\n    - Timeouts:     1\n    - Other:        1\nSuccess rate:       33.3%\nTotal time:         2.00s\nOverall throughput: 2.0 contracts/sec\n"
    );
}

#[test]
fn final_report_rounds_the_time_to_hundredths() {
    let report = Stats::new().get_final_summary(1_234_567);
    assert!(report.contains("Total time:         1.23s\n"));
    let report = Stats::new().get_final_summary(1_235_000);
    assert!(report.contains("Total time:         1.24s\n"));
    let report = Stats::new().get_final_summary(1_245_000);
    assert!(report.contains("Total time:         1.24s\n"));
    let report = Stats::new().get_final_summary(59_999);
    assert!(report.contains("Total time:         0.06s\n"));
}

#[test]
fn summaries_agree_with_floating_point_on_plain_cases() {
    let stats = sample();
    let elapsed = 2_000_000u64;
    let seconds = elapsed as f64 / 1_000_000.0;
    let expected = format!(
        "Progress: {}/{} ({:.1}%) | Cached: {} | Success: {} | Errors: {} (Timeouts: {}) | Rate: {:.1}/s | Avg: {:.2}ms | Success Rate: {:.1}%",
        4,
        8,
        (4.0f64 / 8.0) * 100.0,
        1,
        1,
        2,
        1,
        4.0f64 / seconds,
        1000u128,
        (1.0f64 / 3.0) * 100.0
    );
    assert_eq!(stats.get_summary(elapsed), expected);
}
