use unlimited_power::codec::{
    parse_load, parse_reading, parse_status_payload, parse_status_response, split_whitespace_bytes,
    Reading, UpsStatus,
};
use unlimited_power::error::UpsError;
use unlimited_power::flags::{format_binary, parse_flags, parse_protocol, UpsProtocol, UpsWorkMode};

fn value(negative: bool, mantissa: u64, scale: usize) -> Reading {
    Reading::Value { negative, mantissa, scale }
}

#[test]
fn status_parse_example() {
    let status =
        UpsStatus::from_wire(b"(220.0 220.0 220.0 035 50.0 27.5 25.0 00001000\r").unwrap();
    assert_eq!(status.input_voltage, value(false, 2200, 1));
    assert_eq!(status.input_fault_voltage, value(false, 2200, 1));
    assert_eq!(status.output_voltage, value(false, 2200, 1));
    assert_eq!(status.output_load_level, 35);
    assert_eq!(status.output_frequency, value(false, 500, 1));
    assert_eq!(status.battery_voltage, value(false, 275, 1));
    assert_eq!(status.internal_temperature, value(false, 250, 1));
    assert_eq!(status.flags, 0x08);
    assert_eq!(status.work_mode(), UpsWorkMode::Line);
}

#[test]
fn eight_arbitrary_fields_parse() {
    // The lossy field rules accept anything: eight fields always succeed.
    let status = UpsStatus::from_wire(b"(a b c d e f g h\r").unwrap();
    assert_eq!(status.input_voltage, Reading::Missing);
    assert_eq!(status.output_load_level, 0);
    assert_eq!(status.flags, 0x00);
}

#[test]
fn one_field_too_few_is_hard_error() {
    let r = UpsStatus::from_wire(b"(220.0 220.0 220.0 035 50.0 27.5 25.0\r");
    assert_eq!(r.unwrap_err(), UpsError::UnexpectedFieldCount);
}

#[test]
fn one_field_too_many_is_hard_error() {
    let r = UpsStatus::from_wire(b"(220.0 220.0 220.0 035 50.0 27.5 25.0 00001000 9\r");
    assert_eq!(r.unwrap_err(), UpsError::UnexpectedFieldCount);
}

#[test]
fn missing_header_is_hard_error() {
    let r = UpsStatus::from_wire(b"220.0 220.0 220.0 035 50.0 27.5 25.0 00001000\r");
    assert_eq!(r.unwrap_err(), UpsError::UnexpectedHeader);
}

#[test]
fn missing_terminator_is_hard_error() {
    let r = UpsStatus::from_wire(b"(220.0 220.0 220.0 035 50.0 27.5 25.0 00001000");
    assert_eq!(r.unwrap_err(), UpsError::UnexpectedTerminator);
}

#[test]
fn empty_response_is_hard_error() {
    assert_eq!(UpsStatus::from_wire(b"").unwrap_err(), UpsError::ResponseTooShort);
    assert_eq!(parse_status_response(b"").unwrap_err(), UpsError::ResponseTooShort);
}

#[test]
fn response_without_terminator_parses_after_exchange() {
    // The exchange strips the terminator; the response parser takes the
    // header-prefixed payload.
    let status = parse_status_response(b"(220.0 220.0 220.0 035 50.0 27.5 25.0 10001000").unwrap();
    assert_eq!(status.flags, 0x88);
    assert_eq!(status.work_mode(), UpsWorkMode::Battery);
}

#[test]
fn lossy_fields_do_not_mask_flags() {
    let status = parse_status_payload(b"?? NaN -- x y z 9999999999 11000000").unwrap();
    assert_eq!(status.input_voltage, Reading::Missing);
    assert_eq!(status.input_fault_voltage, Reading::Missing);
    assert_eq!(status.output_load_level, 0);
    assert_eq!(status.battery_voltage, Reading::Missing);
    assert_eq!(status.internal_temperature, value(false, 9999999999, 0));
    assert_eq!(status.flags, 0xC0);
    assert_eq!(status.work_mode(), UpsWorkMode::Battery);
}

#[test]
fn parse_reading_grammar() {
    assert_eq!(parse_reading(b"220.0"), value(false, 2200, 1));
    assert_eq!(parse_reading(b"-12.5"), value(true, 125, 1));
    assert_eq!(parse_reading(b"+3"), value(false, 3, 0));
    assert_eq!(parse_reading(b".5"), value(false, 5, 1));
    assert_eq!(parse_reading(b"5."), value(false, 5, 0));
    assert_eq!(parse_reading(b"0"), value(false, 0, 0));
    assert_eq!(parse_reading(b""), Reading::Missing);
    assert_eq!(parse_reading(b"-"), Reading::Missing);
    assert_eq!(parse_reading(b"."), Reading::Missing);
    assert_eq!(parse_reading(b"1.2.3"), Reading::Missing);
    assert_eq!(parse_reading(b"12a"), Reading::Missing);
}

#[test]
fn parse_load_grammar() {
    assert_eq!(parse_load(b"035"), 35);
    assert_eq!(parse_load(b"+35"), 35);
    assert_eq!(parse_load(b"0"), 0);
    assert_eq!(parse_load(b"4294967295"), u32::MAX);
    assert_eq!(parse_load(b"4294967296"), 0);
    assert_eq!(parse_load(b"x"), 0);
    assert_eq!(parse_load(b""), 0);
}

#[test]
fn parse_flags_grammar() {
    assert_eq!(parse_flags(b"00001000"), 0x08);
    assert_eq!(parse_flags(b"10001000"), 0x88);
    assert_eq!(parse_flags(b"11111111"), 0xFF);
    assert_eq!(parse_flags(b"+1000"), 0x08);
    assert_eq!(parse_flags(b"111111111"), 0x00);
    assert_eq!(parse_flags(b"00002000"), 0x00);
    assert_eq!(parse_flags(b""), 0x00);
}

#[test]
fn flags_binary_round_trip() {
    for b in 0..=255u8 {
        let text = format_binary(b);
        assert_eq!(text.len(), 8);
        assert_eq!(parse_flags(&text), b);
    }
    assert_eq!(format_binary(0x88), b"10001000".to_vec());
}

#[test]
fn work_mode_priority_rule() {
    let snap = |flags: u8| UpsStatus {
        input_voltage: Reading::Missing,
        input_fault_voltage: Reading::Missing,
        output_voltage: Reading::Missing,
        output_load_level: 0,
        output_frequency: Reading::Missing,
        battery_voltage: Reading::Missing,
        internal_temperature: Reading::Missing,
        flags,
    };
    assert_eq!(snap(0x08).work_mode(), UpsWorkMode::Line);
    assert_eq!(snap(0x80).work_mode(), UpsWorkMode::Battery);
    assert_eq!(snap(0x04).work_mode(), UpsWorkMode::BatteryTest);
    assert_eq!(snap(0x10).work_mode(), UpsWorkMode::Fault);
    // Fault beats utility failure; utility failure beats a self-test.
    assert_eq!(snap(0x90).work_mode(), UpsWorkMode::Fault);
    assert_eq!(snap(0x84).work_mode(), UpsWorkMode::Battery);
    assert_eq!(snap(0xC0).work_mode(), UpsWorkMode::Battery);
}

#[test]
fn protocol_identification() {
    assert_eq!(parse_protocol(b"P"), UpsProtocol::P);
    assert_eq!(parse_protocol(b"T"), UpsProtocol::T);
    assert_eq!(parse_protocol(b"V"), UpsProtocol::V);
    assert_eq!(parse_protocol(b"X"), UpsProtocol::Unknown);
    assert_eq!(parse_protocol(b""), UpsProtocol::Unknown);
    assert_eq!(parse_protocol(b"VV"), UpsProtocol::Unknown);
}

#[test]
fn whitespace_split_fields() {
    let fields = split_whitespace_bytes(b"  a\tbb \r cc  ");
    let views: Vec<&[u8]> = fields.iter().map(|f| f.as_slice()).collect();
    assert_eq!(views, vec![b"a".as_slice(), b"bb".as_slice(), b"cc".as_slice()]);
    assert!(split_whitespace_bytes(b"   ").is_empty());
    assert!(split_whitespace_bytes(b"").is_empty());
}
