//! What is decided for one work item: whether it is analysed at all, what is
//! asked of the analysis, which record is stored for each way the analysis
//! can end, and what is reported back.
//!
//! The analysis itself and all waiting are done by the program around this
//! library; it hands in how each step ended.

use vstd::prelude::*;
use vstd::string::*;
use vstd::utf8::encode_utf8;
use crate::cache::{bumped, cache_key, holds, lemma_written_entry_is_held, store_after, AbiCache, Lookup, StoreWrite, WriteOutcome};
use crate::convert::{assemble, assembled};
use crate::decoded::Interface;
use crate::text::{contains, decimal, decimal_string, lemma_bytes_of_joined_texts, lemma_occurs_between, occurs_in};
use crate::types::{empty_abi, text_of, AbiModel, SlotModel, StorageSlot, ABI};

verus! {

/// The two phases of an analysis.
#[derive(Debug, Clone, Copy, PartialEq, Eq)]
pub enum Phase {
    /// The primary decode, which can be dropped at its deadline.
    Cooperative,
    /// The storage-layout analysis, which runs on a thread of its own.
    NonCooperative,
}

/// How a guarded task ended.
#[derive(Debug)]
pub enum TaskOutcome<T> {
    /// The task returned a value.
    Success(T),
    /// The task overran its deadline in the given phase.
    Timeout(Phase),
    /// The task failed or panicked.
    Fault(String),
    /// The input could not be decoded.
    Malformed(String),
}

/// Per-item settings of a run.
#[derive(Debug, Clone)]
pub struct ContractProcessor {
    pub timeout_secs: u64,
    pub skip_resolving: bool,
    pub extract_storage: bool,
}

/// What is reported for one work item.
#[derive(Debug, Clone)]
pub struct ProcessResult {
    pub address: String,
    pub cached: bool,
    pub success: bool,
    pub error: Option<String>,
    /// The time spent on the item, in microseconds.
    pub duration_micros: u128,
}

/// What the primary analysis is asked to do.
#[derive(Debug, Clone)]
pub struct AnalysisRequest {
    pub target: String,
    pub rpc_url: String,
    pub default: bool,
    pub skip_resolving: bool,
    pub include_solidity: bool,
    pub include_yul: bool,
    pub output: String,
    pub timeout_ms: u64,
}

/// How the work on an item starts.
#[derive(Debug)]
pub enum Started {
    /// The result is in the cache already; nothing is analysed.
    Cached(ProcessResult),
    /// The item has to be analysed.
    Analyze(AnalysisRequest),
}

/// What an analysis leaves behind: the record to store and, if it failed,
/// the failure to report.
#[derive(Debug)]
pub struct Analyzed {
    pub abi: ABI,
    pub error: Option<String>,
}

/// The deadline in milliseconds: a thousand times the seconds, at most the
/// largest value of 64 bits.
pub open spec fn deadline_millis(timeout_secs: u64) -> u64 {
    if timeout_secs * 1000 > u64::MAX {
        u64::MAX
    } else {
        (timeout_secs * 1000) as u64
    }
}

/// The record text for a primary analysis that ran out of time.
pub open spec fn decompile_timeout_text(timeout_secs: u64) -> Seq<char> {
    "Decompilation timed out after "@ + decimal(timeout_secs as nat) + " seconds"@
}

/// The record text for a storage phase that ran out of time.
pub open spec fn storage_timeout_text(timeout_secs: u64) -> Seq<char> {
    "Storage extraction timed out after "@ + decimal(timeout_secs as nat) + " seconds"@
}

/// Whether a failure text speaks of a timeout.
pub open spec fn mentions_timeout(message: Seq<char>) -> bool {
    occurs_in("timed out".spec_bytes(), encode_utf8(message))
}

/// The failure that is reported for an outcome of the primary analysis.
pub open spec fn reported_failure<T>(timeout_secs: u64, outcome: TaskOutcome<T>) -> Option<
    Seq<char>,
> {
    match outcome {
        TaskOutcome::Success(_) => None,
        TaskOutcome::Timeout(_) => Some(decompile_timeout_text(timeout_secs)),
        TaskOutcome::Fault(message) => Some(message@),
        TaskOutcome::Malformed(message) => Some(message@),
    }
}

/// The failure text that is stored: a failure that is a timeout, or speaks
/// of one, is stored as a timeout of the configured length.
pub open spec fn stored_failure(timeout_secs: u64, message: Seq<char>) -> Seq<char> {
    if mentions_timeout(message) {
        decompile_timeout_text(timeout_secs)
    } else {
        message
    }
}

/// The minimal record that is stored for an item whose analysis failed.
pub open spec fn failure_record(text: Seq<char>) -> AbiModel {
    AbiModel { decompile_error: Some(text), ..empty_abi() }
}

/// The slots and the failure text that the storage phase adds to a record.
/// A phase that was not run adds nothing.
pub open spec fn storage_part(
    timeout_secs: u64,
    storage: Option<TaskOutcome<Vec<StorageSlot>>>,
) -> (Seq<SlotModel>, Option<Seq<char>>) {
    match storage {
        None => (Seq::empty(), None),
        Some(TaskOutcome::Success(slots)) => (slots@.map_values(|s: StorageSlot| s@), None),
        Some(TaskOutcome::Timeout(_)) => (Seq::empty(), Some(storage_timeout_text(timeout_secs))),
        Some(TaskOutcome::Fault(message)) => (Seq::empty(), Some(message@)),
        Some(TaskOutcome::Malformed(message)) => (Seq::empty(), Some(message@)),
    }
}

/// The record that is stored for an item, by the outcome of its primary
/// analysis and of its storage phase. A failure of the storage phase stands
/// beside the decoded interface; a failure of the primary analysis leaves
/// only its text.
pub open spec fn stored_record(
    timeout_secs: u64,
    outcome: TaskOutcome<Interface>,
    storage: Option<TaskOutcome<Vec<StorageSlot>>>,
) -> AbiModel {
    match outcome {
        TaskOutcome::Success(interface) => assembled(
            interface,
            storage_part(timeout_secs, storage).0,
            storage_part(timeout_secs, storage).1,
        ),
        TaskOutcome::Timeout(_) => failure_record(decompile_timeout_text(timeout_secs)),
        TaskOutcome::Fault(message) => failure_record(stored_failure(timeout_secs, message@)),
        TaskOutcome::Malformed(message) => failure_record(stored_failure(timeout_secs, message@)),
    }
}

/// Writes `prefix`, the number of seconds and `" seconds"`.
fn seconds_message(prefix: &str, timeout_secs: u64) -> (message: String)
    ensures
        message@ == prefix@ + decimal(timeout_secs as nat) + " seconds"@,
{
    let mut message = String::from_str(prefix);
    message.append(decimal_string(timeout_secs as u128).as_str());
    message.append(" seconds");
    message
}

/// Whether a failure text speaks of a timeout.
pub fn is_timeout_message(message: &str) -> (timeout: bool)
    ensures
        timeout == mentions_timeout(message@),
{
    contains(message.as_bytes(), "timed out".as_bytes())
}

fn failure_abi(text: String) -> (abi: ABI)
    ensures
        abi@ == failure_record(text@),
        abi.indices_match(),
{
    let mut abi = ABI::new();
    abi.decompile_error = Some(text);
    abi
}

impl ContractProcessor {
    /// The settings for the items of one run.
    pub fn new(timeout_secs: u64, skip_resolving: bool, extract_storage: bool) -> (processor:
        ContractProcessor)
        ensures
            processor.timeout_secs == timeout_secs,
            processor.skip_resolving == skip_resolving,
            processor.extract_storage == extract_storage,
    {
        ContractProcessor { timeout_secs, skip_resolving, extract_storage }
    }

    /// What is asked of the primary analysis for a bytecode.
    pub fn decompile_request(&self, code: &str) -> (request: AnalysisRequest)
        ensures
            request.target@ == code@,
            request.rpc_url@ == Seq::<char>::empty(),
            request.default,
            request.skip_resolving == self.skip_resolving,
            !request.include_solidity,
            !request.include_yul,
            request.output@ == Seq::<char>::empty(),
            request.timeout_ms == deadline_millis(self.timeout_secs),
    {
        let timeout_ms: u64 = if self.timeout_secs > u64::MAX / 1000 {
            u64::MAX
        } else {
            self.timeout_secs * 1000
        };
        AnalysisRequest {
            target: String::from_str(code),
            rpc_url: String::new(),
            default: true,
            skip_resolving: self.skip_resolving,
            include_solidity: false,
            include_yul: false,
            output: String::new(),
            timeout_ms,
        }
    }

    /// Starts the work on one item from the store's answer to the lookup of
    /// its key. The answer is counted in the cache. An item that is present is
    /// reported at once as cached and successful; any other item is to be
    /// analysed.
    pub fn process_contract(
        &self,
        cache: &mut AbiCache,
        contract_address: &str,
        code: &str,
        lookup: Lookup,
        elapsed_micros: u128,
    ) -> (started: Started)
        ensures
            final(cache).stats.hits == if lookup is Found {
                bumped(old(cache).stats.hits)
            } else {
                old(cache).stats.hits
            },
            final(cache).stats.misses == if lookup is Missing {
                bumped(old(cache).stats.misses)
            } else {
                old(cache).stats.misses
            },
            final(cache).stats.errors == if lookup is Unavailable {
                bumped(old(cache).stats.errors)
            } else {
                old(cache).stats.errors
            },
            final(cache).stats.writes == old(cache).stats.writes,
            match started {
                Started::Cached(result) => {
                    &&& lookup is Found
                    &&& result.address@ == contract_address@
                    &&& result.cached
                    &&& result.success
                    &&& result.error is None
                    &&& result.duration_micros == elapsed_micros
                },
                Started::Analyze(request) => {
                    &&& !(lookup is Found)
                    &&& request.target@ == code@
                    &&& request.rpc_url@ == Seq::<char>::empty()
                    &&& request.default
                    &&& request.skip_resolving == self.skip_resolving
                    &&& !request.include_solidity
                    &&& !request.include_yul
                    &&& request.output@ == Seq::<char>::empty()
                    &&& request.timeout_ms == deadline_millis(self.timeout_secs)
                },
            },
    {
        if cache.is_cached(lookup) {
            Started::Cached(
                ProcessResult {
                    address: String::from_str(contract_address),
                    cached: true,
                    success: true,
                    error: None,
                    duration_micros: elapsed_micros,
                },
            )
        } else {
            Started::Analyze(self.decompile_request(code))
        }
    }

    /// Whether the storage phase is to be run after the primary analysis:
    /// only if it is switched on and the primary analysis succeeded.
    pub fn wants_storage(&self, outcome: &TaskOutcome<Interface>) -> (wanted: bool)
        ensures
            wanted == (self.extract_storage && outcome is Success),
    {
        match outcome {
            TaskOutcome::Success(_) => self.extract_storage,
            _ => false,
        }
    }

    /// Turns the outcome of the analysis into the record to store and the
    /// failure to report. Every outcome yields a record: a failed analysis
    /// leaves a record that holds only the failure text, so that the item is
    /// not analysed again.
    pub fn record_analysis(
        &self,
        outcome: TaskOutcome<Interface>,
        storage: Option<TaskOutcome<Vec<StorageSlot>>>,
    ) -> (analyzed: Analyzed)
        ensures
            analyzed.abi@ == stored_record(self.timeout_secs, outcome, storage),
            analyzed.abi.indices_match(),
            text_of(analyzed.error) == reported_failure(self.timeout_secs, outcome),
            !(outcome is Success) ==> analyzed.abi@.decompile_error is Some,
    {
        match outcome {
            TaskOutcome::Success(interface) => {
                let (slots, storage_error) = self.storage_result(storage);
                Analyzed { abi: assemble(&interface, slots, storage_error), error: None }
            },
            TaskOutcome::Timeout(_) => {
                let text = seconds_message("Decompilation timed out after ", self.timeout_secs);
                Analyzed { abi: failure_abi(text.clone()), error: Some(text) }
            },
            TaskOutcome::Fault(message) => {
                let abi = self.failure_for(&message);
                Analyzed { abi, error: Some(message) }
            },
            TaskOutcome::Malformed(message) => {
                let abi = self.failure_for(&message);
                Analyzed { abi, error: Some(message) }
            },
        }
    }

    fn failure_for(&self, message: &String) -> (abi: ABI)
        ensures
            abi@ == failure_record(stored_failure(self.timeout_secs, message@)),
            abi.indices_match(),
    {
        if is_timeout_message(message.as_str()) {
            failure_abi(seconds_message("Decompilation timed out after ", self.timeout_secs))
        } else {
            failure_abi(message.clone())
        }
    }

    /// The slots and the failure text that the storage phase adds.
    pub fn storage_result(&self, storage: Option<TaskOutcome<Vec<StorageSlot>>>) -> (part: (
        Vec<StorageSlot>,
        Option<String>,
    ))
        ensures
            part.0@.map_values(|s: StorageSlot| s@) == storage_part(self.timeout_secs, storage).0,
            text_of(part.1) == storage_part(self.timeout_secs, storage).1,
    {
        let part = match storage {
            None => (Vec::new(), None),
            Some(TaskOutcome::Success(slots)) => (slots, None),
            Some(TaskOutcome::Timeout(_)) => (
                Vec::new(),
                Some(seconds_message("Storage extraction timed out after ", self.timeout_secs)),
            ),
            Some(TaskOutcome::Fault(message)) => (Vec::new(), Some(message)),
            Some(TaskOutcome::Malformed(message)) => (Vec::new(), Some(message)),
        };
        assert(part.0@.map_values(|s: StorageSlot| s@) =~= storage_part(
            self.timeout_secs,
            storage,
        ).0);
        part
    }

    /// Closes the work on an analysed item once the write-through has been
    /// tried. A committed write is counted in the cache; a write that failed
    /// changes nothing in what is reported.
    pub fn complete(
        &self,
        cache: &mut AbiCache,
        contract_address: &str,
        error: Option<String>,
        written: WriteOutcome,
        elapsed_micros: u128,
    ) -> (result: ProcessResult)
        ensures
            result.address@ == contract_address@,
            !result.cached,
            result.success == (error is None),
            result.error == error,
            result.duration_micros == elapsed_micros,
            final(cache).stats.writes == if written is Committed {
                bumped(old(cache).stats.writes)
            } else {
                old(cache).stats.writes
            },
            final(cache).stats.hits == old(cache).stats.hits,
            final(cache).stats.misses == old(cache).stats.misses,
            final(cache).stats.errors == old(cache).stats.errors,
    {
        let _ = cache.put(written);
        let success = error.is_none();
        ProcessResult {
            address: String::from_str(contract_address),
            cached: false,
            success,
            error,
            duration_micros: elapsed_micros,
        }
    }
}

/// An item whose analysis did not succeed is remembered: its record holds
/// the failure, and the write issued under the item's key makes a store that
/// takes it in hold the item, so that the next lookup finds it.
pub proof fn lemma_failed_item_is_remembered(
    timeout_secs: u64,
    outcome: TaskOutcome<Interface>,
    storage: Option<TaskOutcome<Vec<StorageSlot>>>,
    bytecode: Seq<u8>,
    skip_resolving: bool,
    write: StoreWrite,
    before: Map<Seq<u8>, Seq<u8>>,
)
    requires
        !(outcome is Success),
        write.key@ == cache_key(bytecode, skip_resolving),
    ensures
        stored_record(timeout_secs, outcome, storage).decompile_error is Some,
        stored_record(timeout_secs, outcome, storage).functions.len() == 0,
        holds(store_after(before, write), bytecode, skip_resolving),
{
    lemma_written_entry_is_held(before, write, bytecode, skip_resolving);
}

/// The failure that is reported for an analysis that ran out of time speaks
/// of a timeout, so that the item is counted among the timeouts.
pub proof fn lemma_timeout_is_reported_as_such(timeout_secs: u64)
    ensures
        mentions_timeout(decompile_timeout_text(timeout_secs)),
        mentions_timeout(storage_timeout_text(timeout_secs)),
{
    let rest = " after "@ + decimal(timeout_secs as nat) + " seconds"@;
    reveal_strlit("Decompilation timed out after ");
    reveal_strlit("Storage extraction timed out after ");
    reveal_strlit("Decompilation ");
    reveal_strlit("Storage extraction ");
    reveal_strlit("timed out");
    reveal_strlit(" after ");
    let needle = "timed out"@;
    assert("Decompilation timed out after "@ =~= "Decompilation "@ + needle + " after "@);
    assert("Storage extraction timed out after "@ =~= "Storage extraction "@ + needle
        + " after "@);
    assert(decompile_timeout_text(timeout_secs) =~= "Decompilation "@ + (needle + rest));
    assert(storage_timeout_text(timeout_secs) =~= "Storage extraction "@ + (needle + rest));
    lemma_bytes_of_joined_texts(needle, rest);
    lemma_bytes_of_joined_texts("Decompilation "@, needle + rest);
    lemma_bytes_of_joined_texts("Storage extraction "@, needle + rest);
    lemma_occurs_between(encode_utf8("Decompilation "@), encode_utf8(needle), encode_utf8(rest));
    lemma_occurs_between(
        encode_utf8("Storage extraction "@),
        encode_utf8(needle),
        encode_utf8(rest),
    );
    assert(encode_utf8("Decompilation "@) + (encode_utf8(needle) + encode_utf8(rest))
        =~= encode_utf8("Decompilation "@) + encode_utf8(needle) + encode_utf8(rest));
    assert(encode_utf8("Storage extraction "@) + (encode_utf8(needle) + encode_utf8(rest))
        =~= encode_utf8("Storage extraction "@) + encode_utf8(needle) + encode_utf8(rest));
}

} // verus!
