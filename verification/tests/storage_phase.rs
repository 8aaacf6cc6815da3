use cache_builder::encoding::{decode, HexError};
use cache_builder::processor::{Phase, TaskOutcome};
use cache_builder::storage::{
    report_outcome, storage_input, storage_slots, wait_millis, watch_step, InputError, LayoutSlot,
    Watch, WatchStep, Waited, WorkerReport, GRACE_MILLIS, POLL_INTERVAL,
};
use cache_builder::types::StorageSlot;

fn slot(index: &str, offset: usize, typ: &str) -> LayoutSlot {
    LayoutSlot { index: index.to_string(), offset, typ: typ.to_string() }
}

#[test]
fn watchdog_constants() {
    assert_eq!(GRACE_MILLIS, 100);
    assert_eq!(POLL_INTERVAL, 100);
}

#[test]
fn a_watch_never_waits_longer_than_deadline_and_grace() {
    assert_eq!(wait_millis(Watch::Deadline, 1), 1000);
    assert_eq!(wait_millis(Watch::Grace, 1), 100);
    assert_eq!(wait_millis(Watch::Deadline, 25), 25_000);
    assert_eq!(wait_millis(Watch::Deadline, 0), 0);
    assert_eq!(wait_millis(Watch::Deadline, u64::MAX), u64::MAX);
    assert_eq!(wait_millis(Watch::Grace, u64::MAX), 100);
}

#[test]
fn hex_text_is_decoded_in_either_case() {
    assert_eq!(decode(b"00ff10aB").unwrap(), vec![0x00, 0xff, 0x10, 0xab]);
    assert_eq!(decode(b"").unwrap(), Vec::<u8>::new());
    assert!(matches!(decode(b"123"), Err(HexError::OddLength)));
    assert!(matches!(decode(b"g1"), Err(HexError::InvalidHexCharacter { c: 'g', index: 0 })));
    assert!(matches!(decode(b"1g"), Err(HexError::InvalidHexCharacter { c: 'g', index: 1 })));
    assert!(matches!(decode(b"12 4"), Err(HexError::InvalidHexCharacter { c: ' ', index: 2 })));
    // The length is looked at before any digit.
    assert!(matches!(decode(b"zzz"), Err(HexError::OddLength)));
}

#[test]
fn storage_input_strips_one_prefix_and_decodes() {
    assert_eq!(storage_input("0x6080").unwrap(), vec![0x60, 0x80]);
    assert_eq!(storage_input("6080").unwrap(), vec![0x60, 0x80]);
    assert!(matches!(storage_input("0x"), Err(InputError::Empty)));
    assert!(matches!(storage_input(""), Err(InputError::Empty)));
    assert!(matches!(storage_input("0x123"), Err(InputError::NotHex(HexError::OddLength))));
    assert!(matches!(
        storage_input("0x0x12"),
        Err(InputError::NotHex(HexError::InvalidHexCharacter { c: 'x', index: 1 }))
    ));
}

#[test]
fn input_errors_have_their_texts() {
    assert_eq!(storage_input("0x").unwrap_err().message(), "Empty bytecode after decoding");
    assert_eq!(
        storage_input("0x123").unwrap_err().message(),
        "Failed to decode bytecode: Odd number of digits"
    );
    assert_eq!(
        storage_input("0x12zz").unwrap_err().message(),
        "Failed to decode bytecode: Invalid character 'z' at position 2"
    );
    assert_eq!(
        InputError::NotHex(HexError::InvalidStringLength).message(),
        "Failed to decode bytecode: Invalid string length"
    );
    assert_eq!(
        InputError::NotHex(HexError::OddLength).message(),
        "Failed to decode bytecode: Odd number of digits"
    );
    assert_eq!(
        InputError::NotHex(HexError::InvalidHexCharacter { c: '\n', index: 5 }).message(),
        "Failed to decode bytecode: Invalid character '\\n' at position 5"
    );
}

#[test]
fn slot_conversion_reads_the_index_and_cuts_the_offset() {
    let stored = StorageSlot::from(&slot("17", 5, "uint256"));
    assert_eq!(stored.index, 17);
    assert_eq!(stored.offset, 5);
    assert_eq!(stored.typ, "uint256");
    assert_eq!(StorageSlot::from(&slot("+7", 0, "bool")).index, 7);
    assert_eq!(StorageSlot::from(&slot("007", 0, "bool")).index, 7);
    assert_eq!(StorageSlot::from(&slot("18446744073709551615", 0, "bool")).index, u64::MAX);
    assert_eq!(StorageSlot::from(&slot("18446744073709551616", 0, "bool")).index, 0);
    assert_eq!(StorageSlot::from(&slot("0x11", 0, "bool")).index, 0);
    assert_eq!(StorageSlot::from(&slot("", 0, "bool")).index, 0);
    assert_eq!(StorageSlot::from(&slot("+", 0, "bool")).index, 0);
    assert_eq!(StorageSlot::from(&slot("-1", 0, "bool")).index, 0);
    assert_eq!(StorageSlot::from(&slot("1 ", 0, "bool")).index, 0);
    assert_eq!(StorageSlot::from(&slot("1", usize::MAX, "bool")).offset, u32::MAX);
    assert_eq!(StorageSlot::from(&slot("1", 0x1_0000_0003, "bool")).offset, 3);
}

#[test]
fn slots_of_unknown_type_are_left_out() {
    let slots = storage_slots(&vec![
        slot("0", 0, "address"),
        slot("1", 0, "unknown"),
        slot("2", 16, "uint128"),
        slot("3", 0, "Unknown"),
    ]);
    assert_eq!(slots.len(), 3);
    assert_eq!(slots[0].index, 0);
    assert_eq!(slots[1].index, 2);
    assert_eq!(slots[1].offset, 16);
    assert_eq!(slots[1].typ, "uint128");
    assert_eq!(slots[2].typ, "Unknown");
    assert!(storage_slots(&vec![]).is_empty());
}

#[test]
fn reports_are_read_into_outcomes() {
    match report_outcome(WorkerReport::Layout(vec![slot("4", 0, "bool"), slot("5", 0, "unknown")])) {
        TaskOutcome::Success(slots) => {
            assert_eq!(slots.len(), 1);
            assert_eq!(slots[0].index, 4);
        }
        other => panic!("unexpected outcome {:?}", other),
    }
    assert!(matches!(
        report_outcome(WorkerReport::Failed("Error { payload: StoppedByWatchdog }".to_string())),
        TaskOutcome::Timeout(Phase::NonCooperative)
    ));
    assert!(matches!(
        report_outcome(WorkerReport::Failed("InvalidOpcode(12)".to_string())),
        TaskOutcome::Fault(text) if text == "Storage extraction failed: InvalidOpcode(12)"
    ));
    assert!(matches!(
        report_outcome(WorkerReport::Panicked(Some("index out of bounds".to_string()))),
        TaskOutcome::Fault(text) if text == "Storage extraction panicked: index out of bounds"
    ));
    assert!(matches!(
        report_outcome(WorkerReport::Panicked(None)),
        TaskOutcome::Fault(text)
            if text == "Storage extraction panicked: Unknown panic during storage extraction"
    ));
}

#[test]
fn a_report_ends_the_phase_in_either_wait() {
    for watch in [Watch::Deadline, Watch::Grace] {
        let mut abandoned = 0usize;
        let step = watch_step(
            watch,
            Waited::Reported(WorkerReport::Layout(vec![slot("1", 0, "bool")])),
            &mut abandoned,
        );
        assert!(matches!(step, WatchStep::Join(TaskOutcome::Success(slots)) if slots.len() == 1));
        assert_eq!(abandoned, 0);
    }
}

#[test]
fn deadline_then_grace_then_abandon() {
    let mut abandoned = 0usize;
    let step = watch_step(Watch::Deadline, Waited::Expired, &mut abandoned);
    assert!(matches!(step, WatchStep::AwaitGrace));
    assert_eq!(abandoned, 0);
    let step = watch_step(Watch::Grace, Waited::Expired, &mut abandoned);
    assert!(matches!(step, WatchStep::Abandon(TaskOutcome::Timeout(Phase::NonCooperative))));
    assert_eq!(abandoned, 1);
    let step = watch_step(Watch::Grace, Waited::Expired, &mut abandoned);
    assert!(matches!(step, WatchStep::Abandon(_)));
    assert_eq!(abandoned, 2);
}

#[test]
fn a_late_failure_in_the_grace_period_is_joined() {
    let mut abandoned = 5usize;
    let step = watch_step(
        Watch::Grace,
        Waited::Reported(WorkerReport::Failed("StoppedByWatchdog".to_string())),
        &mut abandoned,
    );
    assert!(matches!(step, WatchStep::Join(TaskOutcome::Timeout(Phase::NonCooperative))));
    assert_eq!(abandoned, 5);
}
