use unlimited_power::config::RuntimeConfig;
use unlimited_power::hid::{device_selector, u16_decimal};
use unlimited_power::service::{
    controls_accepted, control_result, dispatch_control, exit_code, next_checkpoint,
    ControlDecision, ServiceState, StopReason, ERROR_ARENA_TRASHED, ERROR_BADKEY,
    ERROR_CALL_NOT_IMPLEMENTED, ERROR_SUCCESS, PBT_APMRESUMEAUTOMATIC,
    SERVICE_CONTROL_INTERROGATE, SERVICE_CONTROL_POWEREVENT, SERVICE_CONTROL_STOP,
};

#[test]
fn control_dispatch_rule() {
    assert_eq!(dispatch_control(SERVICE_CONTROL_STOP, 0), ControlDecision::BeginStop);
    assert_eq!(
        dispatch_control(SERVICE_CONTROL_POWEREVENT, PBT_APMRESUMEAUTOMATIC),
        ControlDecision::SignalWakeup
    );
    assert_eq!(
        dispatch_control(SERVICE_CONTROL_POWEREVENT, 0x0005),
        ControlDecision::Acknowledge
    );
    assert_eq!(dispatch_control(SERVICE_CONTROL_INTERROGATE, 0), ControlDecision::Acknowledge);
    assert_eq!(dispatch_control(0x0002, 0), ControlDecision::NotImplemented);
}

#[test]
fn control_results() {
    assert_eq!(control_result(ControlDecision::BeginStop), ERROR_SUCCESS);
    assert_eq!(control_result(ControlDecision::SignalWakeup), ERROR_SUCCESS);
    assert_eq!(control_result(ControlDecision::Acknowledge), ERROR_SUCCESS);
    assert_eq!(control_result(ControlDecision::NotImplemented), ERROR_CALL_NOT_IMPLEMENTED);
}

#[test]
fn accepted_controls_by_state() {
    assert_eq!(controls_accepted(ServiceState::StartPending), 0);
    assert_eq!(controls_accepted(ServiceState::Running), 0x41);
    assert_eq!(controls_accepted(ServiceState::Stopped), 0x41);
    assert_eq!(controls_accepted(ServiceState::StopPending), 0x41);
}

#[test]
fn checkpoint_rule() {
    assert_eq!(next_checkpoint(ServiceState::Running, 5), (0, 5));
    assert_eq!(next_checkpoint(ServiceState::Stopped, 5), (0, 5));
    assert_eq!(next_checkpoint(ServiceState::StartPending, 1), (1, 2));
    assert_eq!(next_checkpoint(ServiceState::StopPending, 2), (2, 3));
}

#[test]
fn distinguished_exit_codes() {
    assert_eq!(exit_code(StopReason::Requested), ERROR_SUCCESS);
    assert_eq!(exit_code(StopReason::ConfigurationUnreadable), ERROR_BADKEY);
    assert_eq!(exit_code(StopReason::CoreTaskFailed), ERROR_ARENA_TRASHED);
}

#[test]
fn decimal_rendering() {
    assert_eq!(u16_decimal(0), "0");
    assert_eq!(u16_decimal(7), "7");
    assert_eq!(u16_decimal(10), "10");
    assert_eq!(u16_decimal(1637), "1637");
    assert_eq!(u16_decimal(65535), "65535");
}

#[test]
fn device_selector_query() {
    assert_eq!(
        device_selector(Some(0xFF00), Some(0x0001), 0x0665, 0x5161),
        "System.Devices.InterfaceClassGuid:=\"{4D1E55B2-F16F-11CF-88CB-001111000030}\" \
         AND System.Devices.InterfaceEnabled:=System.StructuredQueryType.Boolean#True \
         AND System.DeviceInterface.Hid.UsagePage:=65280 \
         AND System.DeviceInterface.Hid.UsageId:=1 \
         AND System.DeviceInterface.Hid.VendorId:=1637 \
         AND System.DeviceInterface.Hid.ProductId:=20833"
    );
    assert_eq!(
        device_selector(None, None, 1, 2),
        "System.Devices.InterfaceClassGuid:=\"{4D1E55B2-F16F-11CF-88CB-001111000030}\" \
         AND System.Devices.InterfaceEnabled:=System.StructuredQueryType.Boolean#True \
         AND System.DeviceInterface.Hid.VendorId:=1 \
         AND System.DeviceInterface.Hid.ProductId:=2"
    );
}

#[test]
fn raw_values_round_trip() {
    let config = RuntimeConfig::default();
    let (hib, poll, backoff, grace, page, id, vid, pid) = config.to_raw_values();
    let back = RuntimeConfig::from_raw_values(hib, poll, backoff, grace, page, id, vid, pid)
        .unwrap();
    assert_eq!(back.hibernate, config.hibernate);
    assert_eq!(back.poll_interval_ms, config.poll_interval_ms);
    assert_eq!(back.poll_failure_timeout_ms, config.poll_failure_timeout_ms);
    assert_eq!(back.shutdown_timeout_s, config.shutdown_timeout_s);
    assert_eq!(back.hid_usage_page, config.hid_usage_page);
    assert_eq!(back.hid_usage_id, config.hid_usage_id);
    assert_eq!(back.vendor_id, config.vendor_id);
    assert_eq!(back.product_id, config.product_id);
}
