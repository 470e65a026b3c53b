//! Error taxonomy of the protocol engine.

use vstd::prelude::*;

verus! {

/// Everything that can go wrong in one command/response exchange or in
/// parsing what came back.
///
/// Timeouts and protocol errors make the caller treat the device session as
/// stale; they are distinct variants so that the boundary behaviours can be
/// told apart.
#[derive(Clone, Copy, Debug, PartialEq, Eq, Structural)]
pub enum UpsError {
    /// The encoded command (terminator included) does not fit in one output
    /// report; rejected before any I/O.
    CommandTooLong,
    /// Sending the output report did not complete within the send budget.
    SendTimeout,
    /// A single input report did not arrive within the per-packet budget.
    PacketTimeout,
    /// The whole response did not complete within the total receive budget.
    TotalTimeout,
    /// An input report arrived with a report ID other than the expected one.
    UnexpectedReportId,
    /// The reassembled response is not valid UTF-8.
    NotUtf8,
    /// A status response was empty.
    ResponseTooShort,
    /// A status response did not begin with the header byte `'('`.
    UnexpectedHeader,
    /// A status response did not end with the terminator byte.
    UnexpectedTerminator,
    /// The status payload did not split into exactly eight fields.
    UnexpectedFieldCount,
    /// The UPS speaks a dialect other than the fully supported one.
    ProtocolUnsupported,
    /// An indexed string payload lacked its closing null unit.
    MissingNullUnit,
}

impl UpsError {
    /// A short human-readable description, for the unverified glue to log.
    pub fn describe(&self) -> (r: &'static str)
        ensures
            r@ == self.spec_describe(),
    {
        match self {
            UpsError::CommandTooLong => "Supplied data does not fit in report",
            UpsError::SendTimeout => "Sending command timed-out",
            UpsError::PacketTimeout => "Receiving response timed-out",
            UpsError::TotalTimeout => "Receiving response timed-out",
            UpsError::UnexpectedReportId => "Unexpected HID report ID",
            UpsError::NotUtf8 => "UPS response is not valid UTF-8",
            UpsError::ResponseTooShort => "Status string too short",
            UpsError::UnexpectedHeader => "Unexpected status string header",
            UpsError::UnexpectedTerminator => "Unexpected status string terminator",
            UpsError::UnexpectedFieldCount => "Unexpected number of status string parts",
            UpsError::ProtocolUnsupported => "Protocol not implemented",
            UpsError::MissingNullUnit => "Indexed string payload lacks a null terminator",
        }
    }

    /// The text `describe` returns for each variant.
    pub open spec fn spec_describe(&self) -> Seq<char> {
        match self {
            UpsError::CommandTooLong => "Supplied data does not fit in report"@,
            UpsError::SendTimeout => "Sending command timed-out"@,
            UpsError::PacketTimeout => "Receiving response timed-out"@,
            UpsError::TotalTimeout => "Receiving response timed-out"@,
            UpsError::UnexpectedReportId => "Unexpected HID report ID"@,
            UpsError::NotUtf8 => "UPS response is not valid UTF-8"@,
            UpsError::ResponseTooShort => "Status string too short"@,
            UpsError::UnexpectedHeader => "Unexpected status string header"@,
            UpsError::UnexpectedTerminator => "Unexpected status string terminator"@,
            UpsError::UnexpectedFieldCount => "Unexpected number of status string parts"@,
            UpsError::ProtocolUnsupported => "Protocol not implemented"@,
            UpsError::MissingNullUnit => "Indexed string payload lacks a null terminator"@,
        }
    }
}

} // verus!
