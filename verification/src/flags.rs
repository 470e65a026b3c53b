//! UPS status flag bits, the derived work mode, and the binary flags field.

use vstd::prelude::*;

use crate::error::UpsError;

verus! {

/// Beeper is currently sounding.
pub const BEEPER_ACTIVE: u8 = 0x01;

/// The UPS itself has a shutdown in progress.
pub const UPS_SHUTDOWN_ACTIVE: u8 = 0x02;

/// A battery self-test is running.
pub const SELF_TEST_IN_PROGRESS: u8 = 0x04;

/// The UPS is a line-interactive model.
pub const UPS_LINE_INTERACTIVE: u8 = 0x08;

/// The UPS reports an internal fault.
pub const UPS_FAULT: u8 = 0x10;

/// Boost or buck (automatic voltage regulation) is engaged.
pub const BOOST_OR_BUCK_MODE: u8 = 0x20;

/// The battery is nearly depleted.
pub const BATTERY_LOW: u8 = 0x40;

/// Utility power is absent; the load runs from the battery.
pub const UTILITY_FAIL: u8 = 0x80;

/// True when `mask`'s bits are all set in `flags`.
pub open spec fn spec_flag_set(flags: u8, mask: u8) -> bool {
    flags & mask == mask
}

/// Tests one flag bit (or several at once) in a flags byte.
pub fn flag_set(flags: u8, mask: u8) -> (r: bool)
    ensures
        r == spec_flag_set(flags, mask),
{
    flags & mask == mask
}

/// The derived operational state of the UPS.
#[derive(Clone, Copy, Debug, PartialEq, Eq, Hash, Structural)]
pub enum UpsWorkMode {
    /// Utility power feeds the load.
    Line,
    /// The battery feeds the load.
    Battery,
    /// A self-test is in progress.
    BatteryTest,
    /// The UPS reports a fault.
    Fault,
}

/// The work-mode priority rule: fault wins, then utility failure, then a
/// running self-test; otherwise the UPS is on line power.
pub open spec fn spec_work_mode(flags: u8) -> UpsWorkMode {
    if spec_flag_set(flags, UPS_FAULT) {
        UpsWorkMode::Fault
    } else if spec_flag_set(flags, UTILITY_FAIL) {
        UpsWorkMode::Battery
    } else if spec_flag_set(flags, SELF_TEST_IN_PROGRESS) {
        UpsWorkMode::BatteryTest
    } else {
        UpsWorkMode::Line
    }
}

/// Computes the work mode of a flags byte by the priority rule.
pub fn work_mode_of_flags(flags: u8) -> (m: UpsWorkMode)
    ensures
        m == spec_work_mode(flags),
{
    if flag_set(flags, UPS_FAULT) {
        UpsWorkMode::Fault
    } else if flag_set(flags, UTILITY_FAIL) {
        UpsWorkMode::Battery
    } else if flag_set(flags, SELF_TEST_IN_PROGRESS) {
        UpsWorkMode::BatteryTest
    } else {
        UpsWorkMode::Line
    }
}

/// The dialect tag a UPS answers to the probe command.
#[derive(Clone, Copy, Debug, PartialEq, Eq, Structural)]
pub enum UpsProtocol {
    P,
    T,
    V,
    Unknown,
}

/// How a protocol-identification response is read: a single ASCII letter
/// `P`, `T` or `V` names the dialect; anything else is unknown.
pub open spec fn spec_parse_protocol(r: Seq<u8>) -> UpsProtocol {
    if r.len() == 1 && r[0] == 80 {
        UpsProtocol::P
    } else if r.len() == 1 && r[0] == 84 {
        UpsProtocol::T
    } else if r.len() == 1 && r[0] == 86 {
        UpsProtocol::V
    } else {
        UpsProtocol::Unknown
    }
}

/// Reads a protocol-identification response.
pub fn parse_protocol(response: &[u8]) -> (p: UpsProtocol)
    ensures
        p == spec_parse_protocol(response@),
{
    if response.len() != 1 {
        return UpsProtocol::Unknown;
    }
    let b = response[0];
    if b == 80 {
        UpsProtocol::P
    } else if b == 84 {
        UpsProtocol::T
    } else if b == 86 {
        UpsProtocol::V
    } else {
        UpsProtocol::Unknown
    }
}

/// Gates the status flow on the dialect: only `V` is fully supported, and
/// a status query must not be attempted against any other.
pub fn require_supported_protocol(p: UpsProtocol) -> (r: Result<(), UpsError>)
    ensures
        r is Ok <==> p == UpsProtocol::V,
        r is Err ==> r->Err_0 == UpsError::ProtocolUnsupported,
{
    if p == UpsProtocol::V {
        Ok(())
    } else {
        Err(UpsError::ProtocolUnsupported)
    }
}

/// ASCII `'0'`.
pub const DIGIT_ZERO: u8 = 48;

/// ASCII `'1'`.
pub const DIGIT_ONE: u8 = 49;

/// ASCII `'+'`.
pub const PLUS_SIGN: u8 = 43;

/// True for an ASCII binary digit.
pub open spec fn is_bin_digit(b: u8) -> bool {
    b == DIGIT_ZERO || b == DIGIT_ONE
}

/// True when every byte of `s` is an ASCII binary digit.
pub open spec fn bin_digits_ok(s: Seq<u8>) -> bool {
    forall|i: int| 0 <= i < s.len() ==> is_bin_digit(#[trigger] s[i])
}

/// The value of a string of ASCII binary digits, most significant first.
pub open spec fn bin_val(s: Seq<u8>) -> nat
    decreases s.len(),
{
    if s.len() == 0 {
        0
    } else {
        bin_val(s.drop_last()) * 2 + (if s.last() == DIGIT_ONE {
            1nat
        } else {
            0nat
        })
    }
}

/// Everything after an optional leading `'+'`.
pub open spec fn plus_stripped(s: Seq<u8>) -> Seq<u8> {
    if s.len() > 0 && s[0] == PLUS_SIGN {
        s.drop_first()
    } else {
        s
    }
}

/// How the flags field is read: an optional leading `'+'`, then at least one
/// ASCII binary digit, valued in base 2, and the value must fit in a byte.
/// Anything else yields `0x00` — a failed flags parse is substituted, not
/// reported.
pub open spec fn spec_parse_flags(s: Seq<u8>) -> u8 {
    let body = plus_stripped(s);
    if body.len() >= 1 && bin_digits_ok(body) && bin_val(body) <= 255 {
        bin_val(body) as u8
    } else {
        0
    }
}

/// Parses the binary flags field of a status response.
pub fn parse_flags(field: &[u8]) -> (r: u8)
    ensures
        r == spec_parse_flags(field@),
{
    let ghost whole: Seq<u8> = field@;
    let start: usize = if field.len() > 0 && field[0] == PLUS_SIGN {
        1
    } else {
        0
    };
    let ghost body: Seq<u8> = plus_stripped(whole);
    assert(body =~= whole.subrange(start as int, whole.len() as int));
    if field.len() == start {
        return 0;
    }
    let mut acc: u32 = 0;
    let mut over: bool = false;
    let mut i: usize = start;
    while i < field.len()
        invariant
            start <= i <= whole.len(),
            field@ == whole,
            body == plus_stripped(whole),
            body =~= whole.subrange(start as int, whole.len() as int),
            bin_digits_ok(body.subrange(0, i - start)),
            over <==> bin_val(body.subrange(0, i - start)) > 255,
            !over ==> acc == bin_val(body.subrange(0, i - start)),
            !over ==> acc <= 255,
        decreases whole.len() - i,
    {
        let b = field[i];
        if b != DIGIT_ZERO && b != DIGIT_ONE {
            assert(body[i - start] == b);
            assert(!bin_digits_ok(body));
            return 0;
        }
        let bit: u32 = if b == DIGIT_ONE {
            1
        } else {
            0
        };
        let ghost prefix = body.subrange(0, i - start);
        let ghost next_prefix = body.subrange(0, i + 1 - start);
        assert(next_prefix.drop_last() =~= prefix);
        assert(next_prefix.last() == b);
        if over {
            assert(bin_val(next_prefix) > 255);
        } else {
            let grown = acc * 2 + bit;
            assert(grown == bin_val(next_prefix));
            if grown > 255 {
                over = true;
                acc = 0;
            } else {
                acc = grown;
            }
        }
        i += 1;
    }
    assert(body.subrange(0, whole.len() - start) =~= body);
    if over {
        assert(spec_parse_flags(whole) == 0);
        0
    } else {
        assert(spec_parse_flags(whole) == bin_val(body) as u8);
        acc as u8
    }
}

/// The byte of the `'0'`/`'1'` character for bit `i` of `b`.
pub open spec fn bit_char(b: u8, i: u8) -> u8 {
    if (b >> i) & 1 == 1 {
        DIGIT_ONE
    } else {
        DIGIT_ZERO
    }
}

/// How a flags byte is written: exactly eight ASCII binary digits, most
/// significant first.
pub open spec fn spec_format_binary(b: u8) -> Seq<u8> {
    seq![
        bit_char(b, 7),
        bit_char(b, 6),
        bit_char(b, 5),
        bit_char(b, 4),
        bit_char(b, 3),
        bit_char(b, 2),
        bit_char(b, 1),
        bit_char(b, 0),
    ]
}

/// Writes a flags byte as eight ASCII binary digits.
pub fn format_binary(b: u8) -> (r: Vec<u8>)
    ensures
        r@ == spec_format_binary(b),
{
    let mut r: Vec<u8> = Vec::new();
    let mut shift: u8 = 8;
    while shift > 0
        invariant
            shift <= 8,
            r@.len() == 8 - shift,
            forall|j: int| 0 <= j < r@.len() ==> r@[j] == bit_char(b, (7 - j) as u8),
        decreases shift,
    {
        shift -= 1;
        if (b >> shift) & 1 == 1 {
            r.push(DIGIT_ONE);
        } else {
            r.push(DIGIT_ZERO);
        }
    }
    assert(r@ =~= spec_format_binary(b));
    r
}

/// Writing a flags byte as binary and parsing it back yields the byte again.
#[verifier::rlimit(50)]
pub proof fn lemma_flags_binary_round_trip(b: u8)
    ensures
        spec_parse_flags(spec_format_binary(b)) == b,
{
    let s = spec_format_binary(b);
    assert(s.len() == 8);
    assert(((b >> 7) & 1 == 1) || ((b >> 7) & 1 == 0)) by (bit_vector);
    assert(((b >> 6) & 1 == 1) || ((b >> 6) & 1 == 0)) by (bit_vector);
    assert(((b >> 5) & 1 == 1) || ((b >> 5) & 1 == 0)) by (bit_vector);
    assert(((b >> 4) & 1 == 1) || ((b >> 4) & 1 == 0)) by (bit_vector);
    assert(((b >> 3) & 1 == 1) || ((b >> 3) & 1 == 0)) by (bit_vector);
    assert(((b >> 2) & 1 == 1) || ((b >> 2) & 1 == 0)) by (bit_vector);
    assert(((b >> 1) & 1 == 1) || ((b >> 1) & 1 == 0)) by (bit_vector);
    assert(((b >> 0) & 1 == 1) || ((b >> 0) & 1 == 0)) by (bit_vector);
    assert(s[0] == bit_char(b, 7) && bit_char(b, 7) != PLUS_SIGN);
    assert forall|i: int| 0 <= i < s.len() implies is_bin_digit(#[trigger] s[i]) by {
        assert(s[0] == bit_char(b, 7));
        assert(s[1] == bit_char(b, 6));
        assert(s[2] == bit_char(b, 5));
        assert(s[3] == bit_char(b, 4));
        assert(s[4] == bit_char(b, 3));
        assert(s[5] == bit_char(b, 2));
        assert(s[6] == bit_char(b, 1));
        assert(s[7] == bit_char(b, 0));
    }
    let v7 = ((b >> 7) & 1) as nat;
    let v6 = ((b >> 6) & 1) as nat;
    let v5 = ((b >> 5) & 1) as nat;
    let v4 = ((b >> 4) & 1) as nat;
    let v3 = ((b >> 3) & 1) as nat;
    let v2 = ((b >> 2) & 1) as nat;
    let v1 = ((b >> 1) & 1) as nat;
    let v0 = ((b >> 0) & 1) as nat;
    assert(s.subrange(0, 1).drop_last() =~= s.subrange(0, 0));
    assert(s.subrange(0, 2).drop_last() =~= s.subrange(0, 1));
    assert(s.subrange(0, 3).drop_last() =~= s.subrange(0, 2));
    assert(s.subrange(0, 4).drop_last() =~= s.subrange(0, 3));
    assert(s.subrange(0, 5).drop_last() =~= s.subrange(0, 4));
    assert(s.subrange(0, 6).drop_last() =~= s.subrange(0, 5));
    assert(s.subrange(0, 7).drop_last() =~= s.subrange(0, 6));
    assert(s.subrange(0, 8).drop_last() =~= s.subrange(0, 7));
    assert(s.subrange(0, 8) =~= s);
    assert(bin_val(s.subrange(0, 0)) == 0);
    assert(bin_val(s.subrange(0, 1)) == v7);
    assert(bin_val(s.subrange(0, 2)) == v7 * 2 + v6);
    assert(bin_val(s.subrange(0, 3)) == (v7 * 2 + v6) * 2 + v5);
    assert(bin_val(s.subrange(0, 4)) == ((v7 * 2 + v6) * 2 + v5) * 2 + v4);
    assert(bin_val(s.subrange(0, 5)) == (((v7 * 2 + v6) * 2 + v5) * 2 + v4) * 2 + v3);
    assert(bin_val(s.subrange(0, 6)) == ((((v7 * 2 + v6) * 2 + v5) * 2 + v4) * 2 + v3) * 2 + v2);
    assert(bin_val(s.subrange(0, 7)) == (((((v7 * 2 + v6) * 2 + v5) * 2 + v4) * 2 + v3) * 2 + v2)
        * 2 + v1);
    assert(bin_val(s) == ((((((v7 * 2 + v6) * 2 + v5) * 2 + v4) * 2 + v3) * 2 + v2) * 2 + v1) * 2
        + v0);
    assert(((((((((b >> 7) & 1) * 2 + ((b >> 6) & 1)) * 2 + ((b >> 5) & 1)) * 2 + ((b >> 4) & 1))
        * 2 + ((b >> 3) & 1)) * 2 + ((b >> 2) & 1)) * 2 + ((b >> 1) & 1)) * 2 + ((b >> 0) & 1)
        == b) by (bit_vector);
    assert(bin_val(s) == b);
    assert(plus_stripped(s) == s);
    assert(spec_parse_flags(s) == bin_val(s) as u8);
}

} // verus!
