//! Counters of one batch run and the summaries drawn from them.
//!
//! Rates are kept as whole numbers of tenths (or hundredths) and rounded to
//! the nearest one, a half to the even one, so that every summary is a
//! function of the counters and of the elapsed time handed in.

use vstd::prelude::*;
use vstd::string::*;
use crate::text::{decimal, decimal_string, hundredths_string, hundredths_text, scaled_ratio, scaled_ratio_of, tenths_string, tenths_text};

verus! {

/// Counters of one batch run.
#[derive(Debug, Clone)]
pub struct Stats {
    pub total_contracts: usize,
    pub processed: usize,
    pub cached: usize,
    pub successes: usize,
    pub errors: usize,
    pub timeouts: usize,
    /// Cumulative processing time, in microseconds.
    pub total_processing_time: u64,
}

/// A count one step on; it starts again at zero after its largest value.
pub open spec fn next_count(n: usize) -> usize {
    if n == usize::MAX {
        0
    } else {
        (n + 1) as usize
    }
}

/// A sum of microseconds, kept modulo 2^64.
pub open spec fn added_micros(total: u64, micros: u128) -> u64 {
    ((total + micros) % 0x1_0000_0000_0000_0000) as u64
}

/// Moves a count one step on.
pub fn count_up(n: usize) -> (r: usize)
    ensures
        r == next_count(n),
{
    if n == usize::MAX {
        0
    } else {
        n + 1
    }
}

impl Stats {
    /// A fresh set of counters, all zero.
    pub fn new() -> (stats: Stats)
        ensures
            stats.total_contracts == 0,
            stats.processed == 0,
            stats.cached == 0,
            stats.successes == 0,
            stats.errors == 0,
            stats.timeouts == 0,
            stats.total_processing_time == 0,
    {
        Stats {
            total_contracts: 0,
            processed: 0,
            cached: 0,
            successes: 0,
            errors: 0,
            timeouts: 0,
            total_processing_time: 0,
        }
    }

    /// Every processed item was counted in exactly one of the three classes,
    /// and every timeout is also an error.
    pub open spec fn consistent(&self) -> bool {
        &&& self.cached + self.successes + self.errors == self.processed
        &&& self.timeouts <= self.errors
    }

    /// Records one completed item. A cache hit counts as cached whatever the
    /// other flags say; a miss counts as a success or as an error, and an
    /// error that was a timeout counts as a timeout too. The time spent on
    /// the item, in microseconds, is added to the cumulative time.
    pub fn record_result(
        &mut self,
        cached: bool,
        success: bool,
        is_timeout: bool,
        duration_micros: u128,
    )
        ensures
            final(self).total_contracts == old(self).total_contracts,
            final(self).processed == next_count(old(self).processed),
            final(self).cached == if cached {
                next_count(old(self).cached)
            } else {
                old(self).cached
            },
            final(self).successes == if !cached && success {
                next_count(old(self).successes)
            } else {
                old(self).successes
            },
            final(self).errors == if !cached && !success {
                next_count(old(self).errors)
            } else {
                old(self).errors
            },
            final(self).timeouts == if !cached && !success && is_timeout {
                next_count(old(self).timeouts)
            } else {
                old(self).timeouts
            },
            final(self).total_processing_time == added_micros(
                old(self).total_processing_time,
                duration_micros,
            ),
            old(self).consistent() && old(self).processed < usize::MAX
                ==> final(self).consistent(),
    {
        self.processed = count_up(self.processed);
        if cached {
            self.cached = count_up(self.cached);
        } else if success {
            self.successes = count_up(self.successes);
        } else {
            self.errors = count_up(self.errors);
            if is_timeout {
                self.timeouts = count_up(self.timeouts);
            }
        }
        let wide: u128 = (self.total_processing_time as u128) + (duration_micros
            % 0x1_0000_0000_0000_0000u128);
        self.total_processing_time = (wide % 0x1_0000_0000_0000_0000u128) as u64;
    }

    /// Items per second over the elapsed time, in tenths: the processed
    /// items divided by the elapsed seconds; zero while no time has elapsed.
    pub open spec fn throughput_tenths(&self, elapsed_micros: u64) -> nat {
        if elapsed_micros == 0 {
            0
        } else {
            scaled_ratio(self.processed as nat, elapsed_micros as nat, 10_000_000)
        }
    }

    /// The share of processed items among all announced ones, in tenths of a
    /// percent; zero while no total is known.
    pub open spec fn progress_tenths(&self) -> nat {
        scaled_ratio(self.processed as nat, self.total_contracts as nat, 1000)
    }

    /// The share of successes among the items that were not cache hits, in
    /// tenths of a percent; one hundred percent while there is no such item.
    pub open spec fn success_rate_tenths(&self) -> nat {
        if self.processed > self.cached {
            scaled_ratio(self.successes as nat, (self.processed - self.cached) as nat, 1000)
        } else {
            1000
        }
    }

    /// The mean processing time per processed item, in whole milliseconds.
    pub open spec fn average_millis(&self) -> nat {
        if self.processed > 0 {
            ((self.total_processing_time as nat) / (self.processed as nat)) / 1000
        } else {
            0
        }
    }

    /// The errors that were no timeouts; counted modulo the width of a count
    /// if the counters are not consistent.
    pub open spec fn other_errors(&self) -> nat {
        if self.timeouts <= self.errors {
            (self.errors - self.timeouts) as nat
        } else {
            (self.errors - self.timeouts + usize::MAX + 1) as nat
        }
    }

    /// The text of [`Stats::get_summary`].
    pub open spec fn summary_text(&self, elapsed_micros: u64) -> Seq<char> {
        "Progress: "@ + decimal(self.processed as nat) + "/"@ + decimal(
            self.total_contracts as nat,
        ) + " ("@ + tenths_text(self.progress_tenths()) + "%) | Cached: "@ + decimal(
            self.cached as nat,
        ) + " | Success: "@ + decimal(self.successes as nat) + " | Errors: "@ + decimal(
            self.errors as nat,
        ) + " (Timeouts: "@ + decimal(self.timeouts as nat) + ") | Rate: "@ + tenths_text(
            self.throughput_tenths(elapsed_micros),
        ) + "/s | Avg: "@ + decimal(self.average_millis()) + "ms | Success Rate: "@
            + tenths_text(self.success_rate_tenths()) + "%"@
    }

    /// The text of [`Stats::get_final_summary`].
    pub open spec fn final_summary_text(&self, elapsed_micros: u64) -> Seq<char> {
        "\n=== Final Summary ===\nTotal contracts:     "@ + decimal(
            self.total_contracts as nat,
        ) + "\nProcessed:          "@ + decimal(self.processed as nat)
            + "\n  - Cached:         "@ + decimal(self.cached as nat)
            + "\n  - New successes:  "@ + decimal(self.successes as nat)
            + "\n  - Errors:         "@ + decimal(self.errors as nat)
            + "\n    - Timeouts:     "@ + decimal(self.timeouts as nat)
            + "\n    - Other:        "@ + decimal(self.other_errors())
            + "\nSuccess rate:       "@ + tenths_text(self.success_rate_tenths())
            + "%\nTotal time:         "@ + hundredths_text(
            scaled_ratio(elapsed_micros as nat, 10_000, 1),
        ) + "s\nOverall throughput: "@ + tenths_text(self.throughput_tenths(elapsed_micros))
            + " contracts/sec\n"@
    }

    fn throughput(&self, elapsed_micros: u64) -> (r: u128)
        ensures
            r == self.throughput_tenths(elapsed_micros),
    {
        if elapsed_micros == 0 {
            0
        } else {
            scaled_ratio_of(self.processed as u64, elapsed_micros, 10_000_000)
        }
    }

    fn success_rate(&self) -> (r: u128)
        ensures
            r == self.success_rate_tenths(),
    {
        if self.processed > self.cached {
            scaled_ratio_of(self.successes as u64, (self.processed - self.cached) as u64, 1000)
        } else {
            1000
        }
    }

    /// The progress line: counts, progress, throughput over `elapsed_micros`
    /// microseconds, mean time per item and success rate.
    pub fn get_summary(&self, elapsed_micros: u64) -> (line: String)
        ensures
            line@ == self.summary_text(elapsed_micros),
    {
        let progress: u128 = scaled_ratio_of(
            self.processed as u64,
            self.total_contracts as u64,
            1000,
        );
        let average: u64 = if self.processed > 0 {
            (self.total_processing_time / (self.processed as u64)) / 1000
        } else {
            0
        };
        let mut line = String::from_str("Progress: ");
        line.append(decimal_string(self.processed as u128).as_str());
        line.append("/");
        line.append(decimal_string(self.total_contracts as u128).as_str());
        line.append(" (");
        line.append(tenths_string(progress).as_str());
        line.append("%) | Cached: ");
        line.append(decimal_string(self.cached as u128).as_str());
        line.append(" | Success: ");
        line.append(decimal_string(self.successes as u128).as_str());
        line.append(" | Errors: ");
        line.append(decimal_string(self.errors as u128).as_str());
        line.append(" (Timeouts: ");
        line.append(decimal_string(self.timeouts as u128).as_str());
        line.append(") | Rate: ");
        line.append(tenths_string(self.throughput(elapsed_micros)).as_str());
        line.append("/s | Avg: ");
        line.append(decimal_string(average as u128).as_str());
        line.append("ms | Success Rate: ");
        line.append(tenths_string(self.success_rate()).as_str());
        line.append("%");
        assert(line@ =~= self.summary_text(elapsed_micros));
        line
    }

    /// The closing report of a run that took `elapsed_micros` microseconds.
    pub fn get_final_summary(&self, elapsed_micros: u64) -> (report: String)
        ensures
            report@ == self.final_summary_text(elapsed_micros),
    {
        let other: usize = self.errors.wrapping_sub(self.timeouts);
        let seconds: u128 = scaled_ratio_of(elapsed_micros, 10_000, 1);
        let mut report = String::from_str("\n=== Final Summary ===\nTotal contracts:     ");
        report.append(decimal_string(self.total_contracts as u128).as_str());
        report.append("\nProcessed:          ");
        report.append(decimal_string(self.processed as u128).as_str());
        report.append("\n  - Cached:         ");
        report.append(decimal_string(self.cached as u128).as_str());
        report.append("\n  - New successes:  ");
        report.append(decimal_string(self.successes as u128).as_str());
        report.append("\n  - Errors:         ");
        report.append(decimal_string(self.errors as u128).as_str());
        report.append("\n    - Timeouts:     ");
        report.append(decimal_string(self.timeouts as u128).as_str());
        report.append("\n    - Other:        ");
        report.append(decimal_string(other as u128).as_str());
        report.append("\nSuccess rate:       ");
        report.append(tenths_string(self.success_rate()).as_str());
        report.append("%\nTotal time:         ");
        report.append(hundredths_string(seconds).as_str());
        report.append("s\nOverall throughput: ");
        report.append(tenths_string(self.throughput(elapsed_micros)).as_str());
        report.append(" contracts/sec\n");
        assert(report@ =~= self.final_summary_text(elapsed_micros));
        report
    }
}

} // verus!
