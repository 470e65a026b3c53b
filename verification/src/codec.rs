//! The status-response codec: framing bytes, the eight-field grammar, and
//! the lossy numeric fields.
//!
//! A status response is the header byte `'('`, a payload, and the terminator
//! byte `'\r'`.  The payload splits on runs of ASCII whitespace into exactly
//! eight fields: six real-valued readings, the load percentage, and the
//! binary flags field.  Numeric fields are parsed independently and a failed
//! parse is substituted (`Missing` for a reading, `0` for the load level and
//! the flags), so that a partial sensor failure never masks the flags byte;
//! a wrong field count or broken framing is a hard error.

use vstd::prelude::*;

use crate::error::UpsError;
use crate::flags::{
    plus_stripped, spec_parse_flags, spec_work_mode, parse_flags, work_mode_of_flags, UpsWorkMode,
    PLUS_SIGN,
};

verus! {

/// The header byte `'('` that starts every response.
pub const HEADER: u8 = 40;

/// The terminator byte `'\r'` that ends every frame.
pub const TERMINATOR: u8 = 13;

/// ASCII `'-'`.
pub const MINUS_SIGN: u8 = 45;

/// ASCII `'.'`.
pub const DECIMAL_POINT: u8 = 46;

/// True for the ASCII whitespace bytes that separate fields.
pub open spec fn is_ws(b: u8) -> bool {
    b == 32 || b == 9 || b == 10 || b == 12 || b == 13
}

/// Tests a byte for ASCII whitespace.
pub fn is_ws_byte(b: u8) -> (r: bool)
    ensures
        r == is_ws(b),
{
    b == 32 || b == 9 || b == 10 || b == 12 || b == 13
}

/// The length of the leading run of non-whitespace bytes.
pub open spec fn token_len(s: Seq<u8>) -> int
    decreases s.len(),
{
    if s.len() == 0 || is_ws(s[0]) {
        0
    } else {
        1 + token_len(s.drop_first())
    }
}

/// The leading token is never longer than the string.
pub proof fn lemma_token_len_bounds(s: Seq<u8>)
    ensures
        0 <= token_len(s) <= s.len(),
    decreases s.len(),
{
    if s.len() != 0 && !is_ws(s[0]) {
        lemma_token_len_bounds(s.drop_first());
    }
}

/// The fields of a payload: the maximal runs of non-whitespace bytes, in
/// order.
pub open spec fn split_ws(s: Seq<u8>) -> Seq<Seq<u8>>
    decreases s.len(),
    via split_ws_decreases
{
    if s.len() == 0 {
        Seq::empty()
    } else if is_ws(s[0]) {
        split_ws(s.drop_first())
    } else {
        seq![s.take(token_len(s))] + split_ws(s.skip(token_len(s)))
    }
}

#[via_fn]
proof fn split_ws_decreases(s: Seq<u8>) {
    lemma_token_len_bounds(s);
    if s.len() != 0 && !is_ws(s[0]) {
        lemma_token_len_bounds(s.drop_first());
    }
}

/// The views of a sequence of byte vectors.
pub open spec fn views_of(ts: Seq<Vec<u8>>) -> Seq<Seq<u8>> {
    ts.map_values(|t: Vec<u8>| t@)
}

/// Splits a payload on runs of ASCII whitespace into its fields.
pub fn split_whitespace_bytes(s: &[u8]) -> (r: Vec<Vec<u8>>)
    ensures
        views_of(r@) == split_ws(s@),
{
    let mut r: Vec<Vec<u8>> = Vec::new();
    let mut i: usize = 0;
    proof {
        assert(s@.skip(0) =~= s@);
        assert(views_of(r@) =~= Seq::<Seq<u8>>::empty());
    }
    while i < s.len()
        invariant
            i <= s@.len(),
            split_ws(s@) == views_of(r@) + split_ws(s@.skip(i as int)),
        decreases s@.len() - i,
    {
        if is_ws_byte(s[i]) {
            proof {
                assert(s@.skip(i as int).drop_first() =~= s@.skip(i + 1));
            }
            i += 1;
        } else {
            let ghost rest = s@.skip(i as int);
            let mut token: Vec<u8> = Vec::new();
            let mut j: usize = i;
            proof {
                assert(token@ =~= s@.subrange(i as int, i as int));
            }
            while j < s.len() && !is_ws_byte(s[j])
                invariant
                    i <= j <= s@.len(),
                    rest == s@.skip(i as int),
                    token@ == s@.subrange(i as int, j as int),
                    token_len(rest) == (j - i) + token_len(s@.skip(j as int)),
                decreases s@.len() - j,
            {
                token.push(s[j]);
                proof {
                    assert(s@.skip(j as int).drop_first() =~= s@.skip(j + 1));
                    assert(s@.skip(j as int)[0] == s@[j as int]);
                    assert(token@ =~= s@.subrange(i as int, j + 1));
                }
                j += 1;
            }
            proof {
                lemma_token_len_bounds(s@.skip(j as int));
                if j < s@.len() {
                    assert(s@.skip(j as int)[0] == s@[j as int]);
                    assert(token_len(s@.skip(j as int)) == 0);
                } else {
                    assert(s@.skip(j as int).len() == 0);
                }
                assert(token_len(rest) == j - i);
                assert(rest.len() != 0 && !is_ws(rest[0]));
                assert(rest.take(j - i) =~= s@.subrange(i as int, j as int));
                assert(rest.skip(j - i) =~= s@.skip(j as int));
                assert(split_ws(rest) == seq![token@] + split_ws(s@.skip(j as int)));
                assert(views_of(r@.push(token)) =~= views_of(r@).push(token@));
                assert((views_of(r@) + seq![token@]) + split_ws(s@.skip(j as int)) =~= views_of(
                    r@,
                ) + (seq![token@] + split_ws(s@.skip(j as int))));
                assert(views_of(r@).push(token@) =~= views_of(r@) + seq![token@]);
            }
            r.push(token);
            i = j;
        }
    }
    proof {
        assert(s@.skip(s@.len() as int) =~= Seq::<u8>::empty());
        assert(views_of(r@) + Seq::<Seq<u8>>::empty() =~= views_of(r@));
    }
    r
}

/// True for an ASCII decimal digit.
pub open spec fn is_dec_digit(b: u8) -> bool {
    48 <= b <= 57
}

/// True when every byte of `s` is an ASCII decimal digit.
pub open spec fn dec_digits_ok(s: Seq<u8>) -> bool {
    forall|i: int| 0 <= i < s.len() ==> is_dec_digit(#[trigger] s[i])
}

/// The value of a string of ASCII decimal digits, most significant first.
pub open spec fn dec_val(s: Seq<u8>) -> nat
    decreases s.len(),
{
    if s.len() == 0 {
        0
    } else {
        dec_val(s.drop_last()) * 10 + (if is_dec_digit(s.last()) {
            (s.last() - 48) as nat
        } else {
            0nat
        })
    }
}

/// The index of the first decimal point, or the length when there is none.
pub open spec fn first_dot(s: Seq<u8>) -> int
    decreases s.len(),
{
    if s.len() == 0 {
        0
    } else if s[0] == DECIMAL_POINT {
        0
    } else {
        1 + first_dot(s.drop_first())
    }
}

/// The first decimal point lies within the string.
pub proof fn lemma_first_dot_bounds(s: Seq<u8>)
    ensures
        0 <= first_dot(s) <= s.len(),
        first_dot(s) < s.len() ==> s[first_dot(s)] == DECIMAL_POINT,
        forall|k: int| 0 <= k < first_dot(s) ==> s[k] != DECIMAL_POINT,
    decreases s.len(),
{
    if s.len() != 0 && s[0] != DECIMAL_POINT {
        lemma_first_dot_bounds(s.drop_first());
        assert forall|k: int| 0 <= k < first_dot(s) implies s[k] != DECIMAL_POINT by {
            if k > 0 {
                assert(s.drop_first()[k - 1] == s[k]);
            }
        }
    }
}

/// A real-valued field of a status snapshot.
///
/// The wire carries plain decimal text; a reading is kept exactly, as a
/// sign, an integer mantissa (the digits with the decimal point removed) and
/// a scale (the count of fraction digits), so the value is
/// `(-1)^negative * mantissa / 10^scale`.  A field that does not parse is
/// `Missing` — the substitute for "not a number".
#[derive(Clone, Copy, Debug, PartialEq, Eq, Structural)]
pub enum Reading {
    /// The field did not parse as a decimal number.
    Missing,
    /// A parsed decimal value.
    Value { negative: bool, mantissa: u64, scale: usize },
}

/// The digits of a reading after an optional leading sign.
pub open spec fn sign_stripped(s: Seq<u8>) -> Seq<u8> {
    if s.len() > 0 && (s[0] == PLUS_SIGN || s[0] == MINUS_SIGN) {
        s.drop_first()
    } else {
        s
    }
}

/// How an unsigned decimal body is read: digits with at most one decimal
/// point and at least one digit.  Yields the mantissa (all digits, point
/// removed) and the scale (digits after the point).
pub open spec fn spec_parse_unsigned_decimal(body: Seq<u8>) -> Option<(nat, nat)> {
    let p = first_dot(body);
    let ip = body.take(p);
    let fp = if p < body.len() {
        body.skip(p + 1)
    } else {
        Seq::<u8>::empty()
    };
    if dec_digits_ok(ip) && dec_digits_ok(fp) && ip.len() + fp.len() >= 1 {
        Some((dec_val(ip + fp), fp.len()))
    } else {
        None
    }
}

/// How a reading field is read: an optional sign, then an unsigned decimal
/// body whose mantissa fits in 64 bits.  Anything else is `Missing`.
pub open spec fn spec_parse_reading(s: Seq<u8>) -> Reading {
    let negative = s.len() > 0 && s[0] == MINUS_SIGN;
    match spec_parse_unsigned_decimal(sign_stripped(s)) {
        Some((m, sc)) => if m <= u64::MAX {
            Reading::Value { negative, mantissa: m as u64, scale: sc as usize }
        } else {
            Reading::Missing
        },
        None => Reading::Missing,
    }
}

/// Parses one real-valued field of a status response.
#[verifier::rlimit(60)]
pub fn parse_reading(field: &[u8]) -> (r: Reading)
    ensures
        r == spec_parse_reading(field@),
{
    let ghost whole = field@;
    let negative = field.len() > 0 && field[0] == MINUS_SIGN;
    let start: usize = if field.len() > 0 && (field[0] == PLUS_SIGN || field[0] == MINUS_SIGN) {
        1
    } else {
        0
    };
    let ghost body = sign_stripped(whole);
    proof {
        assert(body =~= whole.subrange(start as int, whole.len() as int));
        lemma_first_dot_bounds(body);
    }
    let ghost p = first_dot(body);
    let ghost ip = body.take(p);
    let ghost fp = if p < body.len() {
        body.skip(p + 1)
    } else {
        Seq::<u8>::empty()
    };
    let mut acc: u64 = 0;
    let mut over: bool = false;
    let mut seen_dot: bool = false;
    let mut digits: usize = 0;
    let mut frac: usize = 0;
    let mut k: usize = start;
    while k < field.len()
        invariant
            start <= k <= whole.len(),
            field@ == whole,
            negative == (whole.len() > 0 && whole[0] == MINUS_SIGN),
            start == 1 <==> (whole.len() > 0 && (whole[0] == PLUS_SIGN || whole[0]
                == MINUS_SIGN)),
            body == sign_stripped(whole),
            body =~= whole.subrange(start as int, whole.len() as int),
            p == first_dot(body),
            0 <= p <= body.len(),
            ip == body.take(p),
            fp == (if p < body.len() {
                body.skip(p + 1)
            } else {
                Seq::<u8>::empty()
            }),
            seen_dot <==> k - start > p,
            !seen_dot ==> k - start <= p && dec_digits_ok(body.subrange(0, k - start)) && digits
                == k - start && frac == 0,
            seen_dot ==> p < body.len() && dec_digits_ok(ip) && dec_digits_ok(
                body.subrange(p + 1, k - start),
            ) && frac == k - start - p - 1 && digits == p + frac,
            over <==> dec_val(scanned_digits(body, p, k - start)) > u64::MAX,
            !over ==> acc == dec_val(scanned_digits(body, p, k - start)),
        decreases whole.len() - k,
    {
        proof {
            lemma_first_dot_bounds(body);
        }
        let b = field[k];
        let ghost rel = k - start;
        let ghost scanned = scanned_digits(body, p, rel);
        let ghost scanned_next = scanned_digits(body, p, rel + 1);
        assert(body[rel] == b);
        if b == DECIMAL_POINT {
            if seen_dot {
                assert(fp[rel - p - 1] == b);
                assert(!dec_digits_ok(fp));
                return Reading::Missing;
            }
            assert(rel == p) by {
                if rel < p {
                    assert(body[rel] != DECIMAL_POINT);
                }
            }
            assert(scanned_next =~= scanned);
            seen_dot = true;
        } else if 48 <= b && b <= 57 {
            proof {
                assert(scanned_next.drop_last() =~= scanned);
                assert(scanned_next.last() == b) by {
                    if rel < p {
                        assert(scanned_next =~= body.subrange(0, rel + 1));
                    } else {
                        assert(scanned_next =~= ip + body.subrange(p + 1, rel + 1));
                    }
                }
            }
            if over {
                assert(dec_val(scanned_next) > u64::MAX);
            } else {
                if acc > 1844674407370955161 || (acc == 1844674407370955161 && b > 53) {
                    assert(acc * 10 + (b - 48) > u64::MAX);
                    over = true;
                    acc = 0;
                } else {
                    assert(acc * 10 + (b - 48) <= u64::MAX);
                    acc = acc * 10 + ((b - 48) as u64);
                }
            }
            if seen_dot {
                frac += 1;
            }
            digits += 1;
            proof {
                if rel < p {
                    assert(body.subrange(0, rel + 1).drop_last() =~= body.subrange(0, rel));
                    assert(dec_digits_ok(body.subrange(0, rel + 1)));
                } else {
                    assert(body.subrange(p + 1, rel + 1).drop_last() =~= body.subrange(
                        p + 1,
                        rel,
                    ));
                    assert(dec_digits_ok(body.subrange(p + 1, rel + 1)));
                }
            }
        } else {
            proof {
                if rel < p {
                    assert(ip[rel] == b);
                    assert(!dec_digits_ok(ip));
                } else if rel == p {
                    assert(body[p] == b && b != DECIMAL_POINT);
                    assert(p == body.len() || body[p] == DECIMAL_POINT);
                    assert(false);
                } else {
                    assert(fp[rel - p - 1] == b);
                    assert(!dec_digits_ok(fp));
                }
            }
            return Reading::Missing;
        }
        k += 1;
    }
    let ghost rel_end = whole.len() - start;
    proof {
        if !seen_dot {
            assert(rel_end <= p);
            assert(p == body.len());
            assert(ip =~= body);
            assert(fp =~= Seq::<u8>::empty());
            assert(scanned_digits(body, p, rel_end) =~= body.subrange(0, rel_end));
            assert(body.subrange(0, rel_end) =~= ip + fp);
        } else {
            assert(scanned_digits(body, p, rel_end) =~= ip + body.subrange(p + 1, rel_end));
            assert(body.subrange(p + 1, rel_end) =~= fp);
            assert(ip + body.subrange(p + 1, rel_end) =~= ip + fp);
        }
    }
    if digits == 0 {
        assert(ip.len() + fp.len() == 0);
        return Reading::Missing;
    }
    if over {
        assert(spec_parse_reading(whole) == Reading::Missing);
        return Reading::Missing;
    }
    assert(dec_digits_ok(ip) && dec_digits_ok(fp) && ip.len() + fp.len() >= 1);
    assert(acc == dec_val(ip + fp));
    assert(frac == fp.len());
    Reading::Value { negative, mantissa: acc, scale: frac }
}

/// The digits of `body` scanned after `rel` bytes, with the decimal point at
/// `p` removed.
pub open spec fn scanned_digits(body: Seq<u8>, p: int, rel: int) -> Seq<u8> {
    if rel <= p {
        body.subrange(0, rel)
    } else {
        body.take(p) + body.subrange(p + 1, rel)
    }
}

/// How the load-level field is read: an optional leading `'+'`, then at
/// least one ASCII decimal digit, and the value must fit in 32 bits.
/// Anything else yields `0` — a failed load parse is substituted, not
/// reported.
pub open spec fn spec_parse_load(s: Seq<u8>) -> u32 {
    let body = plus_stripped(s);
    if body.len() >= 1 && dec_digits_ok(body) && dec_val(body) <= u32::MAX {
        dec_val(body) as u32
    } else {
        0
    }
}

/// Parses the load-level field of a status response.
pub fn parse_load(field: &[u8]) -> (r: u32)
    ensures
        r == spec_parse_load(field@),
{
    let ghost whole: Seq<u8> = field@;
    let start: usize = if field.len() > 0 && field[0] == PLUS_SIGN {
        1
    } else {
        0
    };
    let ghost body: Seq<u8> = plus_stripped(whole);
    assert(body =~= whole.subrange(start as int, whole.len() as int));
    if field.len() == start {
        return 0;
    }
    let mut acc: u64 = 0;
    let mut over: bool = false;
    let mut i: usize = start;
    while i < field.len()
        invariant
            start <= i <= whole.len(),
            field@ == whole,
            body == plus_stripped(whole),
            body =~= whole.subrange(start as int, whole.len() as int),
            dec_digits_ok(body.subrange(0, i - start)),
            over <==> dec_val(body.subrange(0, i - start)) > u32::MAX,
            !over ==> acc == dec_val(body.subrange(0, i - start)),
            !over ==> acc <= u32::MAX,
        decreases whole.len() - i,
    {
        let b = field[i];
        if b < 48 || b > 57 {
            assert(body[i - start] == b);
            assert(!dec_digits_ok(body));
            return 0;
        }
        let ghost prefix = body.subrange(0, i - start);
        let ghost next_prefix = body.subrange(0, i + 1 - start);
        assert(next_prefix.drop_last() =~= prefix);
        assert(next_prefix.last() == b);
        if over {
            assert(dec_val(next_prefix) > u32::MAX);
        } else {
            let grown = acc * 10 + ((b - 48) as u64);
            assert(grown == dec_val(next_prefix));
            if grown > 0xFFFF_FFFF {
                over = true;
                acc = 0;
            } else {
                acc = grown;
            }
        }
        i += 1;
    }
    assert(body.subrange(0, whole.len() - start) =~= body);
    if over {
        0
    } else {
        acc as u32
    }
}

/// One immutable status snapshot, parsed from one response.
#[derive(Clone, Copy, Debug, PartialEq, Eq, Structural)]
pub struct UpsStatus {
    pub input_voltage: Reading,
    pub input_fault_voltage: Reading,
    pub output_voltage: Reading,
    pub output_load_level: u32,
    pub output_frequency: Reading,
    pub battery_voltage: Reading,
    pub internal_temperature: Reading,
    pub flags: u8,
}

impl UpsStatus {
    /// The raw flags byte of the snapshot.
    pub fn flags(&self) -> (r: u8)
        ensures
            r == self.flags,
    {
        self.flags
    }

    /// The derived work mode: a pure function of the flags byte, by the
    /// priority rule.
    pub fn work_mode(&self) -> (m: UpsWorkMode)
        ensures
            m == spec_work_mode(self.flags),
    {
        work_mode_of_flags(self.flags)
    }

    /// Parses a whole status frame: header, payload, terminator.
    pub fn from_wire(response: &[u8]) -> (r: Result<UpsStatus, UpsError>)
        ensures
            r == spec_status_from_wire(response@),
    {
        if response.len() == 0 {
            return Err(UpsError::ResponseTooShort);
        }
        if response[0] != HEADER {
            return Err(UpsError::UnexpectedHeader);
        }
        if response[response.len() - 1] != TERMINATOR {
            return Err(UpsError::UnexpectedTerminator);
        }
        let payload = vstd::slice::slice_subrange(response, 1, response.len() - 1);
        parse_status_payload(payload)
    }
}

/// The snapshot read from eight fields, each parsed by its own lossy rule.
pub open spec fn spec_status_of_fields(fs: Seq<Seq<u8>>) -> UpsStatus
    recommends
        fs.len() == 8,
{
    UpsStatus {
        input_voltage: spec_parse_reading(fs[0]),
        input_fault_voltage: spec_parse_reading(fs[1]),
        output_voltage: spec_parse_reading(fs[2]),
        output_load_level: spec_parse_load(fs[3]),
        output_frequency: spec_parse_reading(fs[4]),
        battery_voltage: spec_parse_reading(fs[5]),
        internal_temperature: spec_parse_reading(fs[6]),
        flags: spec_parse_flags(fs[7]),
    }
}

/// How a payload (between header and terminator) is read: it must split
/// into exactly eight fields; each field then parses by its own lossy rule,
/// so no field content can fail the parse.
pub open spec fn spec_parse_status_payload(payload: Seq<u8>) -> Result<UpsStatus, UpsError> {
    let fs = split_ws(payload);
    if fs.len() == 8 {
        Ok(spec_status_of_fields(fs))
    } else {
        Err(UpsError::UnexpectedFieldCount)
    }
}

/// How a status response returned by an exchange (terminator already
/// stripped) is read: the header byte, then the payload.
pub open spec fn spec_parse_status_response(r: Seq<u8>) -> Result<UpsStatus, UpsError> {
    if r.len() == 0 {
        Err(UpsError::ResponseTooShort)
    } else if r[0] != HEADER {
        Err(UpsError::UnexpectedHeader)
    } else {
        spec_parse_status_payload(r.drop_first())
    }
}

/// How a whole status frame (header and terminator still present) is read.
pub open spec fn spec_status_from_wire(s: Seq<u8>) -> Result<UpsStatus, UpsError> {
    if s.len() == 0 {
        Err(UpsError::ResponseTooShort)
    } else if s[0] != HEADER {
        Err(UpsError::UnexpectedHeader)
    } else if s.last() != TERMINATOR {
        Err(UpsError::UnexpectedTerminator)
    } else {
        spec_parse_status_payload(s.subrange(1, s.len() - 1))
    }
}

/// Parses the payload of a status response into a snapshot.
pub fn parse_status_payload(payload: &[u8]) -> (r: Result<UpsStatus, UpsError>)
    ensures
        r == spec_parse_status_payload(payload@),
{
    let fields = split_whitespace_bytes(payload);
    let ghost fs = split_ws(payload@);
    if fields.len() != 8 {
        return Err(UpsError::UnexpectedFieldCount);
    }
    assert(forall|q: int| 0 <= q < 8 ==> #[trigger] fields@[q]@ == fs[q]);
    let status = UpsStatus {
        input_voltage: parse_reading(fields[0].as_slice()),
        input_fault_voltage: parse_reading(fields[1].as_slice()),
        output_voltage: parse_reading(fields[2].as_slice()),
        output_load_level: parse_load(fields[3].as_slice()),
        output_frequency: parse_reading(fields[4].as_slice()),
        battery_voltage: parse_reading(fields[5].as_slice()),
        internal_temperature: parse_reading(fields[6].as_slice()),
        flags: parse_flags(fields[7].as_slice()),
    };
    Ok(status)
}

/// Parses a status response as an exchange returns it: the terminator is
/// already stripped, the header is still present.
pub fn parse_status_response(response: &[u8]) -> (r: Result<UpsStatus, UpsError>)
    ensures
        r == spec_parse_status_response(response@),
{
    if response.len() == 0 {
        return Err(UpsError::ResponseTooShort);
    }
    if response[0] != HEADER {
        return Err(UpsError::UnexpectedHeader);
    }
    let payload = vstd::slice::slice_subrange(response, 1, response.len());
    assert(payload@ =~= response@.drop_first());
    parse_status_payload(payload)
}

/// A frame that begins with the header, ends with the terminator and splits
/// into eight fields always parses: the lossy field rules accept anything.
pub proof fn lemma_wire_parse_total(s: Seq<u8>)
    requires
        s.len() >= 1,
        s[0] == HEADER,
        s.last() == TERMINATOR,
        split_ws(s.subrange(1, s.len() - 1)).len() == 8,
    ensures
        spec_status_from_wire(s) is Ok,
{
    assert(s.len() >= 2) by {
        if s.len() == 1 {
            assert(s[0] == s.last());
        }
    }
}

} // verus!
