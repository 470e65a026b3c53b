use unlimited_power::error::UpsError;
use unlimited_power::flags::{require_supported_protocol, UpsProtocol};
use unlimited_power::session::{
    build_output_report, check_send_elapsed, encode_command, utf8_valid, ExchangeStep,
    UpsExchange, RECEIVE_TIMEOUT_MS, RECEIVE_TOTAL_TIMEOUT_MS, SEND_TIMEOUT_MS,
};

#[test]
fn command_is_terminated() {
    assert_eq!(encode_command(b"QS"), b"QS\r".to_vec());
    assert_eq!(encode_command(b""), b"\r".to_vec());
}

#[test]
fn output_report_layout() {
    let rep = build_output_report(0, b"QS\r", 8).unwrap();
    assert_eq!(rep, vec![0, b'Q', b'S', b'\r', 0, 0, 0, 0]);
}

#[test]
fn oversized_command_rejected_before_io() {
    // Encoded length (terminator included) above report_size - 1 is refused.
    assert_eq!(build_output_report(0, b"12345678", 8).unwrap_err(), UpsError::CommandTooLong);
    let mut ex = UpsExchange::new(8);
    let r = ex.begin(b"1234567", 0);
    assert_eq!(r.unwrap_err(), UpsError::CommandTooLong);
    // A command that just fits passes.
    let mut ex = UpsExchange::new(8);
    assert!(ex.begin(b"123456", 0).is_ok());
}

#[test]
fn single_packet_exchange() {
    let mut ex = UpsExchange::new(9);
    let frame = ex.begin(b"M", 0).unwrap();
    assert_eq!(frame, vec![0, b'M', b'\r', 0, 0, 0, 0, 0, 0]);
    match ex.on_packet(100, 0, b"V\rjunk") {
        ExchangeStep::Done(resp) => assert_eq!(resp, b"V".to_vec()),
        _ => panic!("expected a completed response"),
    }
}

#[test]
fn multi_packet_reassembly() {
    let mut ex = UpsExchange::new(65);
    ex.begin(b"QS", 0).unwrap();
    assert!(matches!(ex.on_packet(50, 0, b"(220.0 220.0 "), ExchangeStep::Pending));
    assert!(matches!(ex.on_packet(150, 0, b"220.0 035 50.0 "), ExchangeStep::Pending));
    match ex.on_packet(250, 0, b"27.5 25.0 00001000\r") {
        ExchangeStep::Done(resp) => {
            assert_eq!(resp, b"(220.0 220.0 220.0 035 50.0 27.5 25.0 00001000".to_vec())
        },
        _ => panic!("expected a completed response"),
    }
}

#[test]
fn per_packet_timeout() {
    // An inter-arrival gap above the per-packet budget fails the exchange.
    let mut ex = UpsExchange::new(65);
    ex.begin(b"QS", 1000).unwrap();
    match ex.on_packet(1000 + RECEIVE_TIMEOUT_MS + 1, 0, b"(") {
        ExchangeStep::Failed(e) => assert_eq!(e, UpsError::PacketTimeout),
        _ => panic!("expected a per-packet timeout"),
    }
}

#[test]
fn per_packet_timeout_between_packets() {
    let mut ex = UpsExchange::new(65);
    ex.begin(b"QS", 0).unwrap();
    assert!(matches!(ex.on_packet(200, 0, b"(220"), ExchangeStep::Pending));
    match ex.on_packet(200 + RECEIVE_TIMEOUT_MS + 1, 0, b".0\r") {
        ExchangeStep::Failed(e) => assert_eq!(e, UpsError::PacketTimeout),
        _ => panic!("expected a per-packet timeout"),
    }
}

#[test]
fn total_timeout_without_terminator() {
    // Packets keep arriving inside the per-packet budget but never carry
    // the terminator: the whole receive fails after the total budget.
    let mut ex = UpsExchange::new(65);
    ex.begin(b"QS", 0).unwrap();
    let mut t = 200;
    while t <= RECEIVE_TOTAL_TIMEOUT_MS {
        assert!(matches!(ex.on_packet(t, 0, b"xx"), ExchangeStep::Pending));
        t += 200;
    }
    // The last packet arrived at 2400; the next event is past the total
    // budget even though it is within the per-packet one.
    match ex.on_packet(RECEIVE_TOTAL_TIMEOUT_MS + 100, 0, b"xx\r") {
        ExchangeStep::Failed(e) => assert_eq!(e, UpsError::TotalTimeout),
        _ => panic!("expected a total receive timeout"),
    }
}

#[test]
fn silence_runs_out_the_clock() {
    let mut ex = UpsExchange::new(65);
    ex.begin(b"QS", 0).unwrap();
    assert_eq!(ex.on_silence(100), None);
    assert_eq!(ex.on_silence(RECEIVE_TIMEOUT_MS), Some(UpsError::PacketTimeout));
}

#[test]
fn wrong_report_id_is_hard_error() {
    let mut ex = UpsExchange::new(65);
    ex.begin(b"QS", 0).unwrap();
    match ex.on_packet(10, 1, b"(\r") {
        ExchangeStep::Failed(e) => assert_eq!(e, UpsError::UnexpectedReportId),
        _ => panic!("expected a report-ID error"),
    }
}

#[test]
fn non_utf8_response_is_conversion_error() {
    let mut ex = UpsExchange::new(65);
    ex.begin(b"QS", 0).unwrap();
    match ex.on_packet(10, 0, &[0xFF, 0xFE, b'\r']) {
        ExchangeStep::Failed(e) => assert_eq!(e, UpsError::NotUtf8),
        _ => panic!("expected a UTF-8 error"),
    }
}

#[test]
fn failed_exchange_leaves_session_usable() {
    let mut ex = UpsExchange::new(65);
    ex.begin(b"QS", 0).unwrap();
    assert!(matches!(ex.on_packet(1000, 0, b"("), ExchangeStep::Failed(_)));
    // The engine is idle again: a new exchange may begin.
    ex.begin(b"QS", 2000).unwrap();
    match ex.on_packet(2050, 0, b"(ok 1 2 3 4 5 6 7\r") {
        ExchangeStep::Done(_) => {},
        _ => panic!("expected the retried exchange to complete"),
    }
}

#[test]
fn utf8_validation() {
    assert!(utf8_valid(b""));
    assert!(utf8_valid(b"(220.0 220.0\r"));
    assert!(utf8_valid("héllo wörld".as_bytes()));
    assert!(utf8_valid("€ and 𝄞".as_bytes()));
    // A lone continuation byte.
    assert!(!utf8_valid(&[0x80]));
    // A truncated two-byte sequence.
    assert!(!utf8_valid(&[0xC3]));
    // An overlong encoding of '/'.
    assert!(!utf8_valid(&[0xC0, 0xAF]));
    // A surrogate codepoint.
    assert!(!utf8_valid(&[0xED, 0xA0, 0x80]));
    // Beyond the last scalar value.
    assert!(!utf8_valid(&[0xF4, 0x90, 0x80, 0x80]));
    // Agreement with the standard library's checker on a byte sweep.
    for b in 0..=255u8 {
        let bytes = [b, 0xA9, b];
        assert_eq!(utf8_valid(&bytes), std::str::from_utf8(&bytes).is_ok());
    }
}

#[test]
fn multi_byte_text_in_response() {
    let mut ex = UpsExchange::new(65);
    ex.begin(b"QS", 0).unwrap();
    match ex.on_packet(10, 0, "(v\u{00e9}rit\u{00e9} 1 2 3 4 5 6 7\r".as_bytes()) {
        ExchangeStep::Done(resp) => {
            assert_eq!(resp, "(v\u{00e9}rit\u{00e9} 1 2 3 4 5 6 7".as_bytes().to_vec())
        },
        _ => panic!("expected a completed response"),
    }
}

#[test]
fn send_budget_rule() {
    assert!(check_send_elapsed(0).is_ok());
    assert!(check_send_elapsed(SEND_TIMEOUT_MS).is_ok());
    assert_eq!(check_send_elapsed(SEND_TIMEOUT_MS + 1).unwrap_err(), UpsError::SendTimeout);
}

#[test]
fn only_the_fully_supported_dialect_is_queried() {
    assert!(require_supported_protocol(UpsProtocol::V).is_ok());
    assert_eq!(
        require_supported_protocol(UpsProtocol::P).unwrap_err(),
        UpsError::ProtocolUnsupported
    );
    assert_eq!(
        require_supported_protocol(UpsProtocol::Unknown).unwrap_err(),
        UpsError::ProtocolUnsupported
    );
}
