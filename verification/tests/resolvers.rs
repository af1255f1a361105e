use tx_read_model::resolve::{
    ExecutionStatus, ZERO_ADDRESS, gas_used, resolve_status, resolve_to_address, status_code,
};

#[test]
fn status_failed_whenever_error_present() {
    assert_eq!(resolve_status(Some(7), Some(1)), ExecutionStatus::Failed);
    assert_eq!(resolve_status(None, Some(1)), ExecutionStatus::Failed);
    assert_eq!(resolve_status(Some(0), Some(99)), ExecutionStatus::Failed);
}

#[test]
fn status_successful_when_included_without_error() {
    assert_eq!(resolve_status(Some(7), None), ExecutionStatus::Successful);
    assert_eq!(resolve_status(Some(0), None), ExecutionStatus::Successful);
}

#[test]
fn status_pending_when_neither_field_present() {
    assert_eq!(resolve_status(None, None), ExecutionStatus::NotExecuted);
}

#[test]
fn status_wire_codes() {
    assert_eq!(status_code(ExecutionStatus::NotExecuted), None);
    assert_eq!(status_code(ExecutionStatus::Failed), Some(0));
    assert_eq!(status_code(ExecutionStatus::Successful), Some(1));
}

#[test]
fn address_resolution_prefers_transfer_target() {
    assert_eq!(resolve_to_address(Some(0xAA), None), 0xAA);
}

#[test]
fn address_resolution_falls_back_to_deployed_contract() {
    assert_eq!(resolve_to_address(None, Some(0xBB)), 0xBB);
}

#[test]
fn address_resolution_defaults_to_zero() {
    assert_eq!(resolve_to_address(None, None), ZERO_ADDRESS);
}

#[test]
fn gas_used_exact_difference() {
    assert_eq!(gas_used(100, 30), Some(70));
    assert_eq!(gas_used(7, 7), Some(0));
    assert_eq!(gas_used(u64::MAX, 0), Some(u64::MAX));
}

#[test]
fn gas_used_rejects_refund_beyond_limit() {
    assert_eq!(gas_used(5, 9), None);
    assert_eq!(gas_used(0, 1), None);
}
