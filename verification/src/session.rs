//! The per-exchange session engine.
//!
//! One exchange sends a framed command as a single HID output report and
//! reassembles the response from successive input reports until the
//! terminator byte arrives.  The engine here is a state machine over plain
//! values: the surrounding glue performs the actual report I/O under one
//! exclusive lock per device and feeds the engine what arrived, with a
//! clock reading.  The engine enforces the framing rules, the per-packet
//! and total receive budgets, and keeps a transcript showing that sends
//! and receives strictly alternate.

use vstd::prelude::*;

use crate::codec::TERMINATOR;
use crate::error::UpsError;

verus! {

/// The report ID used for every exchange.
pub const REPORT_ID: u8 = 0;

/// Budget for sending the output report.
pub const SEND_TIMEOUT_MS: u64 = 1000;

/// Budget for each single input report.
pub const RECEIVE_TIMEOUT_MS: u64 = 250;

/// Budget for the whole receive.
pub const RECEIVE_TOTAL_TIMEOUT_MS: u64 = 2400;

/// A command on the wire: its ASCII bytes followed by the terminator.
pub open spec fn spec_encode_command(cmd: Seq<u8>) -> Seq<u8> {
    cmd.push(TERMINATOR)
}

/// Appends the terminator to a command's bytes.
pub fn encode_command(command: &[u8]) -> (r: Vec<u8>)
    ensures
        r@ == spec_encode_command(command@),
{
    let mut r: Vec<u8> = Vec::new();
    let mut i: usize = 0;
    while i < command.len()
        invariant
            i <= command@.len(),
            r@ == command@.subrange(0, i as int),
        decreases command@.len() - i,
    {
        r.push(command[i]);
        assert(r@ =~= command@.subrange(0, i + 1));
        i += 1;
    }
    assert(r@ =~= command@);
    r.push(TERMINATOR);
    r
}

/// Lays the payload out in one output report: the report ID byte first,
/// then the payload, zero-padded to the report size.  A payload longer than
/// `report_size - 1` is rejected before any I/O.
pub fn build_output_report(report_id: u8, data: &[u8], report_size: usize) -> (r: Result<
    Vec<u8>,
    UpsError,
>)
    requires
        report_size >= 1,
    ensures
        match r {
            Ok(rep) => data@.len() <= report_size - 1 && rep@.len() == report_size && rep@[0]
                == report_id && rep@.subrange(1, 1 + data@.len() as int) == data@ && (forall|i: int|
                1 + data@.len() <= i < report_size ==> rep@[i] == 0),
            Err(e) => e == UpsError::CommandTooLong && data@.len() > report_size - 1,
        },
{
    if data.len() > report_size - 1 {
        return Err(UpsError::CommandTooLong);
    }
    let mut rep: Vec<u8> = Vec::new();
    rep.push(report_id);
    let mut i: usize = 0;
    while i < data.len()
        invariant
            i <= data@.len(),
            data@.len() <= report_size - 1,
            rep@.len() == 1 + i,
            rep@[0] == report_id,
            rep@.subrange(1, 1 + i as int) == data@.subrange(0, i as int),
        decreases data@.len() - i,
    {
        rep.push(data[i]);
        assert(rep@.subrange(1, 2 + i as int) =~= data@.subrange(0, i + 1));
        i += 1;
    }
    while rep.len() < report_size
        invariant
            1 + data@.len() <= rep@.len() <= report_size,
            rep@[0] == report_id,
            rep@.subrange(1, 1 + data@.len() as int) == data@.subrange(0, data@.len() as int),
            forall|j: int| 1 + data@.len() <= j < rep@.len() ==> rep@[j] == 0,
        decreases report_size - rep@.len(),
    {
        rep.push(0);
        assert(rep@.subrange(1, 1 + data@.len() as int) =~= data@.subrange(
            0,
            data@.len() as int,
        ));
    }
    assert(data@.subrange(0, data@.len() as int) =~= data@);
    Ok(rep)
}

/// The send-budget rule: a send that took longer than `SEND_TIMEOUT_MS`
/// fails the call with the send timeout.
pub fn check_send_elapsed(elapsed_ms: u64) -> (r: Result<(), UpsError>)
    ensures
        r is Ok <==> elapsed_ms <= SEND_TIMEOUT_MS,
        r is Err ==> r->Err_0 == UpsError::SendTimeout,
{
    if elapsed_ms <= SEND_TIMEOUT_MS {
        Ok(())
    } else {
        Err(UpsError::SendTimeout)
    }
}

/// True when a terminator byte occurs in `s`.
pub open spec fn contains_terminator(s: Seq<u8>) -> bool {
    exists|i: int| 0 <= i < s.len() && s[i] == TERMINATOR
}

/// The index of the first terminator byte, or the length when there is
/// none.
pub open spec fn term_pos(s: Seq<u8>) -> int
    decreases s.len(),
{
    if s.len() == 0 {
        0
    } else if s[0] == TERMINATOR {
        0
    } else {
        1 + term_pos(s.drop_first())
    }
}

/// The first terminator lies within the string exactly when one occurs.
pub proof fn lemma_term_pos(s: Seq<u8>)
    ensures
        0 <= term_pos(s) <= s.len(),
        term_pos(s) < s.len() ==> s[term_pos(s)] == TERMINATOR,
        forall|k: int| 0 <= k < term_pos(s) ==> s[k] != TERMINATOR,
        contains_terminator(s) <==> term_pos(s) < s.len(),
    decreases s.len(),
{
    if s.len() != 0 && s[0] != TERMINATOR {
        lemma_term_pos(s.drop_first());
        assert forall|k: int| 0 <= k < term_pos(s) implies s[k] != TERMINATOR by {
            if k > 0 {
                assert(s.drop_first()[k - 1] == s[k]);
            }
        }
        if contains_terminator(s) {
            let w = choose|i: int| 0 <= i < s.len() && s[i] == TERMINATOR;
            assert(s.drop_first()[w - 1] == s[w]);
        }
        if contains_terminator(s.drop_first()) {
            let w = choose|i: int|
                0 <= i < s.drop_first().len() && s.drop_first()[i] == TERMINATOR;
            assert(s[w + 1] == s.drop_first()[w]);
        }
    }
}

/// Scans a packet for the terminator byte.
pub fn packet_has_terminator(data: &[u8]) -> (r: bool)
    ensures
        r == contains_terminator(data@),
{
    let mut i: usize = 0;
    while i < data.len()
        invariant
            i <= data@.len(),
            forall|k: int| 0 <= k < i ==> data@[k] != TERMINATOR,
        decreases data@.len() - i,
    {
        if data[i] == TERMINATOR {
            return true;
        }
        i += 1;
    }
    false
}

/// Checks that the bytes are a valid UTF-8 encoding: each scalar's leading
/// and continuation bytes follow the bit patterns, no encoding is overlong,
/// and no codepoint falls in the surrogate range.
pub fn utf8_valid(bytes: &[u8]) -> (r: bool)
    ensures
        r == vstd::utf8::valid_utf8(bytes@),
{
    let mut i: usize = 0;
    proof {
        assert(bytes@.skip(0) =~= bytes@);
    }
    while i < bytes.len()
        invariant
            i <= bytes@.len(),
            vstd::utf8::valid_utf8(bytes@) <==> vstd::utf8::valid_utf8(bytes@.skip(i as int)),
        decreases bytes@.len() - i,
    {
        let ghost rest = bytes@.skip(i as int);
        let remaining = bytes.len() - i;
        let b0 = bytes[i];
        assert(rest[0] == bytes@[i as int]);
        let width: usize;
        if b0 <= 0x7f {
            proof {
                assert(vstd::utf8::not_surrogate(vstd::utf8::codepoint_width_1(b0))) by {
                    assert((b0 & 0x7f) < 0xd800) by (bit_vector);
                }
                assert(vstd::utf8::valid_first_scalar(rest));
                assert(vstd::utf8::length_of_first_scalar(rest) == 1);
            }
            width = 1;
        } else if b0 >= 0xc0 && b0 <= 0xdf {
            if remaining < 2 {
                proof {
                    assert(!vstd::utf8::valid_first_scalar(rest));
                }
                return false;
            }
            let b1 = bytes[i + 1];
            assert(rest[1] == bytes@[i + 1]);
            if !(b1 >= 0x80 && b1 <= 0xbf) {
                proof {
                    assert(!vstd::utf8::valid_first_scalar(rest));
                }
                return false;
            }
            let cp: u32 = (((b0 as u32) & 0x1f) << 6) | ((b1 as u32) & 0x3f);
            proof {
                assert(cp == vstd::utf8::codepoint_width_2(b0, b1)) by {
                    assert((((b0 as u32) & 0x1f) << 6) | ((b1 as u32) & 0x3f) == ((((b0
                        & 0x1fu8) as u32) << 6) | (((b1 & 0x3fu8) as u32)))) by (bit_vector);
                }
                assert(cp <= 0x7ff) by {
                    assert(((((b0 as u32) & 0x1f) << 6) | ((b1 as u32) & 0x3f))
                        <= 0x7ff) by (bit_vector);
                }
            }
            if cp < 0x80 {
                proof {
                    assert(!vstd::utf8::not_overlong_encoding(
                        vstd::utf8::decode_first_codepoint(rest),
                        vstd::utf8::length_of_first_codepoint(rest),
                    ));
                    assert(!vstd::utf8::valid_first_scalar(rest));
                }
                return false;
            }
            proof {
                assert(vstd::utf8::valid_first_scalar(rest));
                assert(vstd::utf8::length_of_first_scalar(rest) == 2);
            }
            width = 2;
        } else if b0 >= 0xe0 && b0 <= 0xef {
            if remaining < 3 {
                proof {
                    assert(!vstd::utf8::valid_first_scalar(rest));
                }
                return false;
            }
            let b1 = bytes[i + 1];
            let b2 = bytes[i + 2];
            assert(rest[1] == bytes@[i + 1]);
            assert(rest[2] == bytes@[i + 2]);
            if !(b1 >= 0x80 && b1 <= 0xbf) || !(b2 >= 0x80 && b2 <= 0xbf) {
                proof {
                    assert(!vstd::utf8::valid_first_scalar(rest));
                }
                return false;
            }
            let cp: u32 = (((b0 as u32) & 0x0f) << 12) | (((b1 as u32) & 0x3f) << 6) | ((
            b2 as u32) & 0x3f);
            proof {
                assert(cp == vstd::utf8::codepoint_width_3(b0, b1, b2)) by {
                    assert(((((b0 as u32) & 0x0f) << 12) | (((b1 as u32) & 0x3f) << 6) | ((
                    b2 as u32) & 0x3f)) == ((((b0 & 0x0fu8) as u32) << 12) | (((b1
                        & 0x3fu8) as u32) << 6) | ((b2 & 0x3fu8) as u32))) by (bit_vector);
                }
            }
            if cp < 0x800 || (cp >= 0xd800 && cp <= 0xdfff) {
                proof {
                    assert(!vstd::utf8::valid_first_scalar(rest));
                }
                return false;
            }
            proof {
                assert(vstd::utf8::valid_first_scalar(rest));
                assert(vstd::utf8::length_of_first_scalar(rest) == 3);
            }
            width = 3;
        } else if b0 >= 0xf0 && b0 <= 0xf7 {
            if remaining < 4 {
                proof {
                    assert(!vstd::utf8::valid_first_scalar(rest));
                }
                return false;
            }
            let b1 = bytes[i + 1];
            let b2 = bytes[i + 2];
            let b3 = bytes[i + 3];
            assert(rest[1] == bytes@[i + 1]);
            assert(rest[2] == bytes@[i + 2]);
            assert(rest[3] == bytes@[i + 3]);
            if !(b1 >= 0x80 && b1 <= 0xbf) || !(b2 >= 0x80 && b2 <= 0xbf) || !(b3 >= 0x80 && b3
                <= 0xbf) {
                proof {
                    assert(!vstd::utf8::valid_first_scalar(rest));
                }
                return false;
            }
            let cp: u32 = (((b0 as u32) & 0x07) << 18) | (((b1 as u32) & 0x3f) << 12) | (((
            b2 as u32) & 0x3f) << 6) | ((b3 as u32) & 0x3f);
            proof {
                assert(cp == vstd::utf8::codepoint_width_4(b0, b1, b2, b3)) by {
                    assert(((((b0 as u32) & 0x07) << 18) | (((b1 as u32) & 0x3f) << 12) | (((
                    b2 as u32) & 0x3f) << 6) | ((b3 as u32) & 0x3f)) == ((((b0
                        & 0x07u8) as u32) << 18) | (((b1 & 0x3fu8) as u32) << 12) | (((b2
                        & 0x3fu8) as u32) << 6) | ((b3 & 0x3fu8) as u32))) by (bit_vector);
                }
            }
            if cp < 0x10000 || cp > 0x10ffff {
                proof {
                    assert(!vstd::utf8::valid_first_scalar(rest));
                }
                return false;
            }
            proof {
                assert(vstd::utf8::not_surrogate(cp));
                assert(vstd::utf8::valid_first_scalar(rest));
                assert(vstd::utf8::length_of_first_scalar(rest) == 4);
            }
            width = 4;
        } else {
            proof {
                assert(!vstd::utf8::valid_leading_and_continuation_bytes_first_codepoint(rest));
                assert(!vstd::utf8::valid_first_scalar(rest));
            }
            return false;
        }
        proof {
            assert(vstd::utf8::pop_first_scalar(rest) =~= bytes@.skip(i + width));
            assert(vstd::utf8::valid_utf8(rest) <==> vstd::utf8::valid_utf8(
                bytes@.skip(i + width),
            ));
        }
        i += width;
    }
    proof {
        assert(bytes@.skip(bytes@.len() as int) =~= Seq::<u8>::empty());
    }
    true
}

/// One protocol-level event of an exchange transcript.
pub enum WireEvent {
    /// A framed command went out.
    Sent(Seq<u8>),
    /// A complete response came back.
    Received(Seq<u8>),
    /// The exchange ended without a response: a timeout, a framing error or
    /// a transport failure.
    Aborted,
}

/// A transcript is serial: commands sit at even positions, each followed by
/// the single event that closed its exchange.
pub open spec fn serial(log: Seq<WireEvent>) -> bool {
    forall|i: int| 0 <= i < log.len() ==> ((#[trigger] log[i]) is Sent <==> i % 2 == 0)
}

/// In a serial transcript no two commands go out without a completed
/// receive or an abort between them, and every response answers the
/// command sent just before it.
pub proof fn lemma_serial_transcript(log: Seq<WireEvent>)
    requires
        serial(log),
    ensures
        forall|i: int| 0 <= i < log.len() - 1 && (#[trigger] log[i]) is Sent ==> !(log[i + 1]
            is Sent),
        forall|i: int| 0 <= i < log.len() && !((#[trigger] log[i]) is Sent) ==> i >= 1 && log[i
            - 1] is Sent,
{
}

/// What one input report did to a pending exchange.
pub enum ExchangeStep {
    /// More packets are needed.
    Pending,
    /// The response completed; its bytes run up to (and exclude) the first
    /// terminator.
    Done(Vec<u8>),
    /// The exchange failed; the engine is idle again.
    Failed(UpsError),
}

/// The per-device exchange engine.
///
/// At most one exchange is in flight: a new command is accepted only when
/// the engine is idle, and the engine is busy from `begin` until the
/// response completes or the exchange fails.  The glue must hold the
/// device's exclusive lock for the whole of one exchange, which this
/// `&mut` interface mirrors.
pub struct UpsExchange {
    /// The device's declared output report byte length.
    pub output_report_size: usize,
    /// True while a response is being reassembled.
    pub receiving: bool,
    /// The response bytes received so far; no terminator has arrived yet.
    pub buffer: Vec<u8>,
    /// When the receive began.
    pub started_at_ms: u64,
    /// When the last packet arrived (the receive start, if none has).
    pub last_packet_at_ms: u64,
    /// The protocol-level transcript of this session.
    pub log: Ghost<Seq<WireEvent>>,
}

impl UpsExchange {
    /// The engine's invariant.
    pub open spec fn wf(self) -> bool {
        &&& self.output_report_size >= 1
        &&& serial(self.log@)
        &&& (if self.receiving {
            self.log@.len() % 2 == 1
        } else {
            self.log@.len() % 2 == 0
        })
        &&& (self.receiving ==> {
            &&& !contains_terminator(self.buffer@)
            &&& self.started_at_ms <= self.last_packet_at_ms
            &&& self.last_packet_at_ms - self.started_at_ms <= RECEIVE_TOTAL_TIMEOUT_MS
            &&& self.started_at_ms + RECEIVE_TOTAL_TIMEOUT_MS + RECEIVE_TIMEOUT_MS <= u64::MAX
        })
    }

    /// When the next single-packet budget runs out.
    pub open spec fn packet_deadline(self) -> int {
        self.last_packet_at_ms + RECEIVE_TIMEOUT_MS
    }

    /// When the whole-receive budget runs out.
    pub open spec fn total_deadline(self) -> int {
        self.started_at_ms + RECEIVE_TOTAL_TIMEOUT_MS
    }

    /// The budget that runs out first.
    pub open spec fn next_deadline(self) -> int {
        if self.packet_deadline() <= self.total_deadline() {
            self.packet_deadline()
        } else {
            self.total_deadline()
        }
    }

    /// Which timeout the earlier budget reports.
    pub open spec fn timeout_kind(self) -> UpsError {
        if self.packet_deadline() <= self.total_deadline() {
            UpsError::PacketTimeout
        } else {
            UpsError::TotalTimeout
        }
    }

    /// A fresh, idle engine for a device with the given output report size.
    pub fn new(output_report_size: usize) -> (r: UpsExchange)
        requires
            output_report_size >= 1,
        ensures
            r.wf(),
            !r.receiving,
            r.output_report_size == output_report_size,
            r.log@ == Seq::<WireEvent>::empty(),
    {
        UpsExchange {
            output_report_size,
            receiving: false,
            buffer: Vec::new(),
            started_at_ms: 0,
            last_packet_at_ms: 0,
            log: Ghost(Seq::empty()),
        }
    }

    /// Starts an exchange: frames the command and returns the single output
    /// report to send.  Rejects a command that does not fit before any I/O
    /// and stays idle in that case; otherwise the engine is receiving from
    /// `now_ms` on.
    pub fn begin(&mut self, command: &[u8], now_ms: u64) -> (r: Result<Vec<u8>, UpsError>)
        requires
            old(self).wf(),
            !old(self).receiving,
            now_ms + RECEIVE_TOTAL_TIMEOUT_MS + RECEIVE_TIMEOUT_MS <= u64::MAX,
        ensures
            final(self).wf(),
            final(self).output_report_size == old(self).output_report_size,
            match r {
                Ok(frame) => {
                    let encoded = spec_encode_command(command@);
                    &&& encoded.len() <= old(self).output_report_size - 1
                    &&& frame@.len() == old(self).output_report_size
                    &&& frame@[0] == REPORT_ID
                    &&& frame@.subrange(1, 1 + encoded.len() as int) == encoded
                    &&& (forall|i: int|
                        1 + encoded.len() <= i < frame@.len() ==> frame@[i] == 0)
                    &&& final(self).receiving
                    &&& final(self).buffer@ == Seq::<u8>::empty()
                    &&& final(self).started_at_ms == now_ms
                    &&& final(self).last_packet_at_ms == now_ms
                    &&& final(self).log@ == old(self).log@.push(WireEvent::Sent(encoded))
                },
                Err(e) => {
                    &&& e == UpsError::CommandTooLong
                    &&& spec_encode_command(command@).len() > old(self).output_report_size - 1
                    &&& !final(self).receiving
                    &&& final(self).log@ == old(self).log@
                },
            },
    {
        let encoded = encode_command(command);
        let size = self.output_report_size;
        let frame = match build_output_report(REPORT_ID, encoded.as_slice(), size) {
            Ok(frame) => frame,
            Err(e) => {
                return Err(e);
            },
        };
        self.receiving = true;
        self.buffer = Vec::new();
        self.started_at_ms = now_ms;
        self.last_packet_at_ms = now_ms;
        proof {
            self.log@ = self.log@.push(WireEvent::Sent(spec_encode_command(command@)));
        }
        Ok(frame)
    }

    /// Ends the pending exchange without a response: the glue calls this
    /// when the send failed or timed out, or the transport broke.
    pub fn abort(&mut self)
        requires
            old(self).wf(),
            old(self).receiving,
        ensures
            final(self).wf(),
            !final(self).receiving,
            final(self).output_report_size == old(self).output_report_size,
            final(self).log@ == old(self).log@.push(WireEvent::Aborted),
    {
        self.receiving = false;
        self.buffer = Vec::new();
        proof {
            self.log@ = self.log@.push(WireEvent::Aborted);
        }
    }

    /// Feeds one input report to the pending exchange.
    ///
    /// A packet that arrives after the earlier of the two receive budgets
    /// fails the exchange with that budget's timeout; a wrong report ID is
    /// a hard error; otherwise the payload is appended, and the first
    /// terminator byte completes the response, which must decode as UTF-8
    /// and runs up to that terminator.
    pub fn on_packet(&mut self, now_ms: u64, report_id: u8, data: &[u8]) -> (r: ExchangeStep)
        requires
            old(self).wf(),
            old(self).receiving,
            now_ms >= old(self).last_packet_at_ms,
        ensures
            final(self).wf(),
            final(self).output_report_size == old(self).output_report_size,
            ({
                let full = old(self).buffer@ + data@;
                if now_ms > old(self).next_deadline() {
                    &&& r matches ExchangeStep::Failed(e) && e == old(self).timeout_kind()
                    &&& !final(self).receiving
                    &&& final(self).log@ == old(self).log@.push(WireEvent::Aborted)
                } else if report_id != REPORT_ID {
                    &&& r matches ExchangeStep::Failed(e) && e == UpsError::UnexpectedReportId
                    &&& !final(self).receiving
                    &&& final(self).log@ == old(self).log@.push(WireEvent::Aborted)
                } else if !contains_terminator(data@) {
                    &&& r is Pending
                    &&& final(self).receiving
                    &&& final(self).buffer@ == full
                    &&& final(self).started_at_ms == old(self).started_at_ms
                    &&& final(self).last_packet_at_ms == now_ms
                    &&& final(self).log@ == old(self).log@
                } else if vstd::utf8::valid_utf8(full) {
                    &&& r matches ExchangeStep::Done(resp) && resp@ == full.take(term_pos(full))
                    &&& !final(self).receiving
                    &&& final(self).log@ == old(self).log@.push(
                        WireEvent::Received(full.take(term_pos(full))),
                    )
                } else {
                    &&& r matches ExchangeStep::Failed(e) && e == UpsError::NotUtf8
                    &&& !final(self).receiving
                    &&& final(self).log@ == old(self).log@.push(WireEvent::Aborted)
                }
            }),
    {
        let packet_deadline = self.last_packet_at_ms + RECEIVE_TIMEOUT_MS;
        let total_deadline = self.started_at_ms + RECEIVE_TOTAL_TIMEOUT_MS;
        if now_ms > packet_deadline || now_ms > total_deadline {
            let kind = if packet_deadline <= total_deadline {
                UpsError::PacketTimeout
            } else {
                UpsError::TotalTimeout
            };
            self.abort();
            return ExchangeStep::Failed(kind);
        }
        if report_id != REPORT_ID {
            self.abort();
            return ExchangeStep::Failed(UpsError::UnexpectedReportId);
        }
        let ghost full = self.buffer@ + data@;
        let mut i: usize = 0;
        proof {
            assert(self.buffer@ =~= old(self).buffer@ + data@.subrange(0, 0));
        }
        while i < data.len()
            invariant
                i <= data@.len(),
                self.buffer@ == old(self).buffer@ + data@.subrange(0, i as int),
                full == old(self).buffer@ + data@,
                self.receiving == old(self).receiving,
                self.output_report_size == old(self).output_report_size,
                self.started_at_ms == old(self).started_at_ms,
                self.last_packet_at_ms == old(self).last_packet_at_ms,
                self.log@ == old(self).log@,
            decreases data@.len() - i,
        {
            self.buffer.push(data[i]);
            assert(self.buffer@ =~= old(self).buffer@ + data@.subrange(0, i + 1));
            i += 1;
        }
        proof {
            assert(data@.subrange(0, data@.len() as int) =~= data@);
            assert(self.buffer@ =~= full);
        }
        if !packet_has_terminator(data) {
            proof {
                assert forall|k: int| 0 <= k < full.len() implies full[k] != TERMINATOR by {
                    if k < old(self).buffer@.len() {
                        assert(full[k] == old(self).buffer@[k]);
                    } else {
                        assert(full[k] == data@[k - old(self).buffer@.len()]);
                    }
                }
            }
            self.last_packet_at_ms = now_ms;
            return ExchangeStep::Pending;
        }
        proof {
            lemma_term_pos(full);
            assert(contains_terminator(full)) by {
                let w = choose|k: int| 0 <= k < data@.len() && data@[k] == TERMINATOR;
                assert(full[old(self).buffer@.len() + w] == data@[w]);
            }
        }
        if !utf8_valid(self.buffer.as_slice()) {
            self.receiving = false;
            self.buffer = Vec::new();
            proof {
                self.log@ = self.log@.push(WireEvent::Aborted);
            }
            return ExchangeStep::Failed(UpsError::NotUtf8);
        }
        let cut = match find_terminator(self.buffer.as_slice()) {
            Some(p) => p,
            None => {
                proof {
                    assert(false);
                }
                0
            },
        };
        let mut resp: Vec<u8> = Vec::new();
        let mut j: usize = 0;
        while j < cut
            invariant
                j <= cut,
                cut <= self.buffer@.len(),
                self.buffer@ == full,
                resp@ == full.subrange(0, j as int),
            decreases cut - j,
        {
            resp.push(self.buffer[j]);
            assert(resp@ =~= full.subrange(0, j + 1));
            j += 1;
        }
        assert(resp@ =~= full.take(term_pos(full)));
        self.receiving = false;
        self.buffer = Vec::new();
        proof {
            self.log@ = self.log@.push(WireEvent::Received(full.take(term_pos(full))));
        }
        ExchangeStep::Done(resp)
    }

    /// Reports whether silence up to `now_ms` has exhausted a budget; if
    /// so, the exchange fails with that budget's timeout.
    pub fn on_silence(&mut self, now_ms: u64) -> (r: Option<UpsError>)
        requires
            old(self).wf(),
            old(self).receiving,
        ensures
            final(self).wf(),
            final(self).output_report_size == old(self).output_report_size,
            if now_ms >= old(self).next_deadline() {
                &&& r == Some(old(self).timeout_kind())
                &&& !final(self).receiving
                &&& final(self).log@ == old(self).log@.push(WireEvent::Aborted)
            } else {
                &&& r is None
                &&& *final(self) == *old(self)
            },
    {
        let packet_deadline = self.last_packet_at_ms + RECEIVE_TIMEOUT_MS;
        let total_deadline = self.started_at_ms + RECEIVE_TOTAL_TIMEOUT_MS;
        if now_ms >= packet_deadline || now_ms >= total_deadline {
            let kind = if packet_deadline <= total_deadline {
                UpsError::PacketTimeout
            } else {
                UpsError::TotalTimeout
            };
            self.abort();
            Some(kind)
        } else {
            None
        }
    }
}

/// Finds the first terminator byte in a buffer.
pub fn find_terminator(buffer: &[u8]) -> (r: Option<usize>)
    ensures
        ({
            let p = term_pos(buffer@);
            match r {
                Some(i) => i == p && p < buffer@.len(),
                None => p == buffer@.len(),
            }
        }),
{
    proof {
        lemma_term_pos(buffer@);
    }
    let mut i: usize = 0;
    while i < buffer.len()
        invariant
            i <= buffer@.len(),
            forall|k: int| 0 <= k < i ==> buffer@[k] != TERMINATOR,
        decreases buffer@.len() - i,
    {
        if buffer[i] == TERMINATOR {
            proof {
                lemma_term_pos(buffer@);
                assert(term_pos(buffer@) == i) by {
                    if term_pos(buffer@) < i {
                        assert(buffer@[term_pos(buffer@)] != TERMINATOR);
                    }
                    if term_pos(buffer@) > i {
                        assert(buffer@[i as int] != TERMINATOR);
                    }
                }
            }
            return Some(i);
        }
        i += 1;
    }
    proof {
        lemma_term_pos(buffer@);
        if term_pos(buffer@) < buffer@.len() {
            assert(buffer@[term_pos(buffer@)] == TERMINATOR);
        }
    }
    None
}

} // verus!
