//! The storage phase of an analysis: what is handed to it, how its reports
//! are read, and what its watchdog decides.
//!
//! The phase runs on a thread of its own that polls a cancellation flag. The
//! program around this library starts the thread and waits; after each wait
//! it asks [`watch_step`] what to do next.

use vstd::prelude::*;
use vstd::string::*;
use vstd::utf8::encode_utf8;
use crate::cache::{strip_hex_prefix, strip_prefix};
use crate::encoding::{decode, hex_decoding, hex_error_text, hex_error_words, is_hex, HexError};
use crate::processor::{deadline_millis, Phase, TaskOutcome};
use crate::stats::{count_up, next_count};
use crate::text::{contains, lemma_equal_by_last, occurs_in, parse_u64, parsed_u64};
use crate::types::{SlotModel, StorageSlot};

verus! {

/// The time, in milliseconds, that a thread is given to end by itself after
/// its cancellation flag was set.
pub const GRACE_MILLIS: u64 = 100;

/// The number of steps after which the analysis looks at its cancellation
/// flag again.
pub const POLL_INTERVAL: usize = 100;

/// Why a bytecode text cannot be handed to the storage phase.
#[derive(Debug, Clone, Copy)]
pub enum InputError {
    /// The text is no hexadecimal encoding.
    NotHex(HexError),
    /// The text encodes no bytes at all.
    Empty,
}

/// The text with which an input error is recorded.
pub open spec fn input_error_text(error: InputError) -> Seq<char> {
    match error {
        InputError::NotHex(reason) => "Failed to decode bytecode: "@ + hex_error_words(reason),
        InputError::Empty => "Empty bytecode after decoding"@,
    }
}

/// The text that records a bytecode which could not be decoded, from the
/// decoder's own words.
pub fn decode_failure(detail: &str) -> (text: String)
    ensures
        text@ == "Failed to decode bytecode: "@ + detail@,
{
    let mut text = String::from_str("Failed to decode bytecode: ");
    text.append(detail);
    text
}

impl InputError {
    /// The text with which the error is recorded.
    pub fn message(&self) -> (text: String)
        ensures
            text@ == input_error_text(*self),
    {
        match self {
            InputError::NotHex(reason) => decode_failure(hex_error_text(*reason).as_str()),
            InputError::Empty => String::from_str("Empty bytecode after decoding"),
        }
    }
}

/// Decodes a bytecode text for the storage phase: one leading `0x` is taken
/// off and the rest is read as hexadecimal digits. A text that is no
/// hexadecimal encoding, or that encodes nothing, is refused.
pub fn storage_input(code: &str) -> (input: Result<Vec<u8>, InputError>)
    ensures
        match input {
            Ok(bytes) => {
                &&& hex_decoding(strip_hex_prefix(code.spec_bytes()), Ok(bytes))
                &&& bytes@.len() > 0
            },
            Err(InputError::NotHex(reason)) => hex_decoding(
                strip_hex_prefix(code.spec_bytes()),
                Err(reason),
            ),
            Err(InputError::Empty) => strip_hex_prefix(code.spec_bytes()).len() == 0,
        },
        input is Ok <==> {
            &&& strip_hex_prefix(code.spec_bytes()).len() % 2 == 0
            &&& strip_hex_prefix(code.spec_bytes()).len() > 0
            &&& is_hex(strip_hex_prefix(code.spec_bytes()))
        },
{
    let digits = strip_prefix(code.as_bytes());
    match decode(digits) {
        Ok(bytes) => {
            if bytes.len() == 0 {
                Err(InputError::Empty)
            } else {
                Ok(bytes)
            }
        },
        Err(reason) => Err(InputError::NotHex(reason)),
    }
}

/// One slot of a storage layout as the analysis reports it: the index as
/// the analysis prints it, the offset, and the Solidity name of the type.
#[derive(Debug, Clone)]
pub struct LayoutSlot {
    pub index: String,
    pub offset: usize,
    pub typ: String,
}

/// The stored form of a reported slot: the index read as a decimal number,
/// zero if it is none that fits 64 bits; the offset cut to 32 bits.
pub open spec fn stored_slot(slot: LayoutSlot) -> SlotModel {
    SlotModel {
        index: match parsed_u64(encode_utf8(slot.index@)) {
            Some(index) => index,
            None => 0,
        },
        offset: ((slot.offset as int) % 0x1_0000_0000) as u32,
        typ: slot.typ@,
    }
}

/// The stored forms of the reported slots whose type is known, in order.
pub open spec fn known_slots(layout: Seq<LayoutSlot>) -> Seq<SlotModel>
    decreases layout.len(),
{
    if layout.len() == 0 {
        Seq::empty()
    } else if layout.last().typ@ == "unknown"@ {
        known_slots(layout.drop_last())
    } else {
        known_slots(layout.drop_last()).push(stored_slot(layout.last()))
    }
}

impl StorageSlot {
    /// A slot with the given values.
    pub fn new(index: u64, offset: u32, typ: String) -> (slot: StorageSlot)
        ensures
            slot.index == index,
            slot.offset == offset,
            slot.typ == typ,
    {
        StorageSlot { index, offset, typ }
    }

    /// Converts a reported slot.
    pub fn from(slot: &LayoutSlot) -> (stored: StorageSlot)
        ensures
            stored@ == stored_slot(*slot),
    {
        let index: u64 = match parse_u64(slot.index.as_str().as_bytes()) {
            Some(index) => index,
            None => 0,
        };
        StorageSlot {
            index,
            offset: ((slot.offset as u64) % 0x1_0000_0000u64) as u32,
            typ: slot.typ.clone(),
        }
    }
}

/// Converts a reported layout; slots of unknown type are left out.
pub fn storage_slots(layout: &Vec<LayoutSlot>) -> (slots: Vec<StorageSlot>)
    ensures
        slots@.map_values(|s: StorageSlot| s@) == known_slots(layout@),
{
    let unknown = String::from_str("unknown");
    let mut slots: Vec<StorageSlot> = Vec::new();
    let n: usize = layout.len();
    let mut i: usize = 0;
    assert(slots@.map_values(|s: StorageSlot| s@) =~= known_slots(layout@.take(0)));
    while i < n
        invariant
            n == layout@.len(),
            i <= n,
            unknown@ == "unknown"@,
            slots@.map_values(|s: StorageSlot| s@) == known_slots(layout@.take(i as int)),
        decreases n - i,
    {
        let ghost before = slots@;
        assert(layout@.take(i + 1).drop_last() =~= layout@.take(i as int));
        if !layout[i].typ.eq(&unknown) {
            slots.push(StorageSlot::from(&layout[i]));
            proof {
                assert(slots@.drop_last() =~= before);
                assert(slots@.map_values(|s: StorageSlot| s@).drop_last() =~= before.map_values(
                    |s: StorageSlot| s@,
                ));
                assert(known_slots(layout@.take(i + 1)).drop_last() =~= known_slots(
                    layout@.take(i as int),
                ));
                lemma_equal_by_last(
                    slots@.map_values(|s: StorageSlot| s@),
                    known_slots(layout@.take(i + 1)),
                );
            }
        }
        i = i + 1;
    }
    assert(layout@.take(n as int) =~= layout@);
    slots
}

/// What the thread of the storage phase reports when it ends.
#[derive(Debug)]
pub enum WorkerReport {
    /// The analysis returned a layout.
    Layout(Vec<LayoutSlot>),
    /// The analysis returned an error, given as the analysis prints it.
    Failed(String),
    /// The analysis panicked, with a message if the panic carried one.
    Panicked(Option<String>),
}

/// Whether the printed error says that the watchdog stopped the analysis.
pub open spec fn stopped_by_watchdog(printed: Seq<char>) -> bool {
    occurs_in("StoppedByWatchdog".spec_bytes(), encode_utf8(printed))
}

/// The text with which a panic is recorded.
pub open spec fn panic_text(message: Option<String>) -> Seq<char> {
    "Storage extraction panicked: "@ + match message {
        Some(m) => m@,
        None => "Unknown panic during storage extraction"@,
    }
}

/// What a report of the storage thread means.
pub open spec fn report_means(report: WorkerReport, outcome: TaskOutcome<Vec<StorageSlot>>) -> bool {
    match report {
        WorkerReport::Layout(layout) => outcome matches TaskOutcome::Success(slots)
            && slots@.map_values(|s: StorageSlot| s@) == known_slots(layout@),
        WorkerReport::Failed(printed) => if stopped_by_watchdog(printed@) {
            outcome == TaskOutcome::<Vec<StorageSlot>>::Timeout(Phase::NonCooperative)
        } else {
            outcome matches TaskOutcome::Fault(text) && text@ == "Storage extraction failed: "@
                + printed@
        },
        WorkerReport::Panicked(message) => outcome matches TaskOutcome::Fault(text) && text@
            == panic_text(message),
    }
}

/// Reads a report of the storage thread: a layout is converted, an error
/// that the watchdog caused is a timeout, any other error and any panic is a
/// fault.
pub fn report_outcome(report: WorkerReport) -> (outcome: TaskOutcome<Vec<StorageSlot>>)
    ensures
        report_means(report, outcome),
{
    match report {
        WorkerReport::Layout(layout) => TaskOutcome::Success(storage_slots(&layout)),
        WorkerReport::Failed(printed) => {
            if contains(printed.as_str().as_bytes(), "StoppedByWatchdog".as_bytes()) {
                TaskOutcome::Timeout(Phase::NonCooperative)
            } else {
                let mut text = String::from_str("Storage extraction failed: ");
                text.append(printed.as_str());
                TaskOutcome::Fault(text)
            }
        },
        WorkerReport::Panicked(message) => {
            let mut text = String::from_str("Storage extraction panicked: ");
            match &message {
                Some(m) => text.append(m.as_str()),
                None => text.append("Unknown panic during storage extraction"),
            }
            TaskOutcome::Fault(text)
        },
    }
}

/// The wait that the watchdog is in.
#[derive(Debug, Clone, Copy, PartialEq, Eq)]
pub enum Watch {
    /// The wait for the report, up to the configured deadline.
    Deadline,
    /// The wait of [`GRACE_MILLIS`] after the cancellation flag was set.
    Grace,
}

/// The longest that a wait lasts, in milliseconds: the configured deadline
/// for the first wait, the grace period for the second.
pub open spec fn wait_limit(watch: Watch, timeout_secs: u64) -> u64 {
    match watch {
        Watch::Deadline => deadline_millis(timeout_secs),
        Watch::Grace => GRACE_MILLIS,
    }
}

/// The longest that a wait lasts, in milliseconds.
pub fn wait_millis(watch: Watch, timeout_secs: u64) -> (limit: u64)
    ensures
        limit == wait_limit(watch, timeout_secs),
{
    match watch {
        Watch::Deadline => {
            if timeout_secs > u64::MAX / 1000 {
                u64::MAX
            } else {
                timeout_secs * 1000
            }
        },
        Watch::Grace => GRACE_MILLIS,
    }
}

/// How a wait for the report ended.
#[derive(Debug)]
pub enum Waited {
    /// The thread reported.
    Reported(WorkerReport),
    /// Nothing came before the wait was over.
    Expired,
}

/// What the watchdog does after a wait. In every case the cancellation flag
/// is set before the step is taken.
#[derive(Debug)]
pub enum WatchStep {
    /// Join the thread; the phase ended with this outcome.
    Join(TaskOutcome<Vec<StorageSlot>>),
    /// Wait once more, for the grace period.
    AwaitGrace,
    /// Let go of the thread without joining it; the phase counts as timed
    /// out.
    Abandon(TaskOutcome<Vec<StorageSlot>>),
}

/// Decides the watchdog's next step after a wait, and counts a thread that
/// is abandoned. A report ends the phase whenever it comes. Without one, the
/// deadline is followed by the grace period, and the grace period by
/// abandoning the thread: there is never a third wait.
pub fn watch_step(watch: Watch, waited: Waited, abandoned: &mut usize) -> (step: WatchStep)
    ensures
        match waited {
            Waited::Reported(report) => {
                &&& step matches WatchStep::Join(outcome)
                &&& report_means(report, outcome)
                &&& *final(abandoned) == *old(abandoned)
            },
            Waited::Expired => match watch {
                Watch::Deadline => step is AwaitGrace && *final(abandoned) == *old(abandoned),
                Watch::Grace => {
                    &&& step == WatchStep::Abandon(
                        TaskOutcome::<Vec<StorageSlot>>::Timeout(Phase::NonCooperative),
                    )
                    &&& *final(abandoned) == next_count(*old(abandoned))
                },
            },
        },
        watch is Grace ==> !(step is AwaitGrace),
{
    match waited {
        Waited::Reported(report) => WatchStep::Join(report_outcome(report)),
        Waited::Expired => match watch {
            Watch::Deadline => WatchStep::AwaitGrace,
            Watch::Grace => {
                *abandoned = count_up(*abandoned);
                WatchStep::Abandon(TaskOutcome::Timeout(Phase::NonCooperative))
            },
        },
    }
}

} // verus!
