use weld_jni::bridge::{record_outcome, EngineFailure, ErrorRecord, UNKNOWN_FAILURE};
use weld_jni::handles::HandleTable;

#[test]
fn new_error_reports_success() {
    let e = ErrorRecord::error_new();
    assert_eq!(e.error_code(), 0);
    assert_eq!(e.error_message(), "");
}

#[test]
fn failure_gives_null_handle_and_fills_record() {
    let mut table: HandleTable<u32> = HandleTable::new();
    let mut e = ErrorRecord::error_new();
    let failure = EngineFailure { code: 3, message: "undefined symbol".to_string() };
    let h = record_outcome(&mut table, &mut e, Err(failure));
    assert_eq!(h, 0);
    assert_eq!(e.error_code(), 3);
    assert_eq!(e.error_message(), "undefined symbol");
    assert!(table.get(1).is_none());
}

#[test]
fn success_overwrites_record() {
    let mut table: HandleTable<u32> = HandleTable::new();
    let mut e = ErrorRecord::error_new();
    let failure = EngineFailure { code: 1, message: "bad".to_string() };
    assert_eq!(record_outcome(&mut table, &mut e, Err(failure)), 0);
    let h = record_outcome(&mut table, &mut e, Ok(42));
    assert_eq!(h, 1);
    assert_eq!(table.get(h), Some(&42));
    assert_eq!(e.error_code(), 0);
    assert_eq!(e.error_message(), "");
}

#[test]
fn failure_without_code_or_message_still_reads_as_failure() {
    let mut table: HandleTable<u32> = HandleTable::new();
    let mut e = ErrorRecord::error_new();
    let failure = EngineFailure { code: 0, message: String::new() };
    assert_eq!(record_outcome(&mut table, &mut e, Err(failure)), 0);
    assert_eq!(e.error_code(), UNKNOWN_FAILURE);
    assert_eq!(UNKNOWN_FAILURE, 9);
    assert_eq!(e.error_message(), "unknown engine failure");
}
