use unlimited_power::codec::{Reading, UpsStatus};
use unlimited_power::config::{RuntimeConfig, ConfigError, MAX_START_TIME_MS, MAX_STOP_TIME_MS};
use unlimited_power::config::{service_display_name, service_name};
use unlimited_power::error::UpsError;
use unlimited_power::hid::{
    decode_ioctl, indexed_string_units, utf16_units_from_le_bytes, IoAccessMode,
    IoBufferingMethod,
};
use unlimited_power::poller::{poll_step, PollDirective, PollEvent, SnapshotCell};

fn snap(flags: u8) -> UpsStatus {
    UpsStatus {
        input_voltage: Reading::Missing,
        input_fault_voltage: Reading::Missing,
        output_voltage: Reading::Missing,
        output_load_level: 0,
        output_frequency: Reading::Missing,
        battery_voltage: Reading::Missing,
        internal_temperature: Reading::Missing,
        flags,
    }
}

#[test]
fn default_configuration() {
    let c = RuntimeConfig::default();
    assert!(c.hibernate);
    assert_eq!(c.poll_interval_ms, 1000);
    assert_eq!(c.poll_failure_timeout_ms, 10_000);
    assert_eq!(c.shutdown_timeout_s, 300);
    assert_eq!(c.hid_usage_page, Some(0xFF00));
    assert_eq!(c.hid_usage_id, Some(0x0001));
    assert_eq!(c.vendor_id, 0x0665);
    assert_eq!(c.product_id, 0x5161);
    assert_eq!(MAX_START_TIME_MS, 3000);
    assert_eq!(MAX_STOP_TIME_MS, 1000);
}

#[test]
fn registry_path_names_the_service() {
    assert_eq!(
        RuntimeConfig::registry_path(),
        "SYSTEM\\CurrentControlSet\\Services\\unlimited_power\\Parameters"
    );
    assert_eq!(service_name(), "unlimited_power");
    assert_eq!(service_display_name(), "Unlimited Power");
}

#[test]
fn raw_configuration_values_convert() {
    let c = RuntimeConfig::from_raw_values(2, 500, 20_000, 60, Some(0xFF00), None, 0x0665, 0x5161)
        .unwrap();
    assert!(c.hibernate);
    assert_eq!(c.poll_interval_ms, 500);
    assert_eq!(c.hid_usage_page, Some(0xFF00));
    assert_eq!(c.hid_usage_id, None);
    let c = RuntimeConfig::from_raw_values(0, 500, 20_000, 60, None, None, 1, 2).unwrap();
    assert!(!c.hibernate);
}

#[test]
fn oversized_configuration_values_are_rejected() {
    let r = RuntimeConfig::from_raw_values(1, 500, 20_000, 60, Some(0x1_0000), None, 1, 2);
    assert_eq!(r.unwrap_err(), ConfigError::ValueOutOfRange);
    let r = RuntimeConfig::from_raw_values(1, 500, 20_000, 60, None, None, 0x1_0000, 2);
    assert_eq!(r.unwrap_err(), ConfigError::ValueOutOfRange);
}

#[test]
fn poll_rules() {
    let cfg = RuntimeConfig::default();
    match poll_step(&cfg, &PollEvent::QuerySucceeded(snap(0x08))) {
        PollDirective::PublishAndSleep { status, wait_ms } => {
            assert_eq!(status.flags, 0x08);
            assert_eq!(wait_ms, 1000);
        },
        _ => panic!("a successful query is published"),
    }
    match poll_step(&cfg, &PollEvent::QueryFailed) {
        PollDirective::BackoffAndReopen { wait_ms } => assert_eq!(wait_ms, 10_000),
        _ => panic!("a failed query backs off"),
    }
    match poll_step(&cfg, &PollEvent::DeviceOpenFailed) {
        PollDirective::BackoffAndReopen { wait_ms } => assert_eq!(wait_ms, 10_000),
        _ => panic!("a failed open backs off"),
    }
}

#[test]
fn snapshot_cell_keeps_latest_value() {
    let mut cell = SnapshotCell::new();
    assert!(cell.latest().is_none());
    assert_eq!(cell.version(), 0);
    cell.publish(snap(0x08));
    assert_eq!(cell.latest().unwrap().flags, 0x08);
    assert_eq!(cell.version(), 1);
    cell.publish(snap(0x88));
    // Latest value wins; intermediate snapshots are coalesced.
    assert_eq!(cell.latest().unwrap().flags, 0x88);
    assert_eq!(cell.version(), 2);
}

#[test]
fn ioctl_decomposition() {
    // The indexed-string control code of the HID class driver.
    let code = decode_ioctl(0x000B_01E2);
    assert_eq!(code.device_type, 0x000B);
    assert_eq!(code.function, 120);
    assert_eq!(code.access, IoAccessMode::Any);
    assert_eq!(code.method, IoBufferingMethod::DirectOutput);

    let code = decode_ioctl(0xFFFF_FFFF);
    assert_eq!(code.device_type, 0xFFFF);
    assert_eq!(code.function, 0xFFF);
    assert_eq!(code.access, IoAccessMode::ReadWrite);
    assert_eq!(code.method, IoBufferingMethod::Neither);
}

#[test]
fn utf16_payload_units() {
    let bytes = [0x41, 0x00, 0x42, 0x00, 0x00, 0x00, 0x99];
    assert_eq!(utf16_units_from_le_bytes(&bytes), vec![0x41, 0x42, 0x00]);
    let units = indexed_string_units(&bytes, 6).unwrap();
    assert_eq!(units, vec![0x41, 0x42]);
}

#[test]
fn indexed_string_requires_null_unit() {
    let bytes = [0x41, 0x00, 0x42, 0x00];
    assert_eq!(indexed_string_units(&bytes, 4).unwrap_err(), UpsError::MissingNullUnit);
    assert_eq!(indexed_string_units(&bytes, 0).unwrap_err(), UpsError::MissingNullUnit);
}

#[test]
fn error_descriptions() {
    assert_eq!(UpsError::SendTimeout.describe(), "Sending command timed-out");
    assert_eq!(UpsError::PacketTimeout.describe(), "Receiving response timed-out");
    assert_eq!(UpsError::TotalTimeout.describe(), "Receiving response timed-out");
    assert_eq!(UpsError::UnexpectedReportId.describe(), "Unexpected HID report ID");
    assert_eq!(UpsError::NotUtf8.describe(), "UPS response is not valid UTF-8");
    assert_eq!(UpsError::CommandTooLong.describe(), "Supplied data does not fit in report");
    assert_eq!(UpsError::UnexpectedHeader.describe(), "Unexpected status string header");
}
