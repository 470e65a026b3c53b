//! HID-side computations: I/O-control code decomposition and indexed-string
//! payloads.
//!
//! The device I/O itself is the glue's business; what is computed around it
//! — taking an I/O control number apart into the fields the HID stack
//! wants, and turning an indexed-string payload into its UTF-16 units — is
//! plain arithmetic on bytes and is verified here.

use vstd::prelude::*;
use vstd::string::StringExecFns;

use crate::error::UpsError;

verus! {

/// The text of one decimal digit.
pub open spec fn digit_text(d: int) -> Seq<char> {
    if d == 0 {
        "0"@
    } else if d == 1 {
        "1"@
    } else if d == 2 {
        "2"@
    } else if d == 3 {
        "3"@
    } else if d == 4 {
        "4"@
    } else if d == 5 {
        "5"@
    } else if d == 6 {
        "6"@
    } else if d == 7 {
        "7"@
    } else if d == 8 {
        "8"@
    } else {
        "9"@
    }
}

/// The decimal rendering of a non-negative number, without sign or
/// padding.
pub open spec fn dec_text(n: int) -> Seq<char>
    decreases n,
{
    if n < 10 {
        digit_text(n)
    } else {
        dec_text(n / 10) + digit_text(n % 10)
    }
}

/// Renders a number in decimal.
pub fn u16_decimal(n: u16) -> (r: String)
    ensures
        r@ == dec_text(n as int),
    decreases n,
{
    let d = n % 10;
    let digit: &'static str = if d == 0 {
        "0"
    } else if d == 1 {
        "1"
    } else if d == 2 {
        "2"
    } else if d == 3 {
        "3"
    } else if d == 4 {
        "4"
    } else if d == 5 {
        "5"
    } else if d == 6 {
        "6"
    } else if d == 7 {
        "7"
    } else if d == 8 {
        "8"
    } else {
        "9"
    };
    assert(digit@ == digit_text(d as int));
    if n < 10 {
        assert(d == n);
        String::from_str(digit)
    } else {
        let mut prefix = u16_decimal(n / 10);
        prefix.append(digit);
        prefix
    }
}

/// The device-selection query for a HID interface: the HID interface
/// class, enabled interfaces only, the optional usage filters, and the
/// USB vendor and product identity, all by value in decimal.
pub open spec fn spec_device_selector(
    usage_page: Option<u16>,
    usage_id: Option<u16>,
    vendor_id: u16,
    product_id: u16,
) -> Seq<char> {
    "System.Devices.InterfaceClassGuid:=\"{4D1E55B2-F16F-11CF-88CB-001111000030}\" AND System.Devices.InterfaceEnabled:=System.StructuredQueryType.Boolean#True"@
        + (match usage_page {
        Some(p) => " AND System.DeviceInterface.Hid.UsagePage:="@ + dec_text(p as int),
        None => Seq::<char>::empty(),
    }) + (match usage_id {
        Some(u) => " AND System.DeviceInterface.Hid.UsageId:="@ + dec_text(u as int),
        None => Seq::<char>::empty(),
    }) + " AND System.DeviceInterface.Hid.VendorId:="@ + dec_text(vendor_id as int)
        + " AND System.DeviceInterface.Hid.ProductId:="@ + dec_text(product_id as int)
}

/// Builds the device-selection query string.
pub fn device_selector(
    usage_page: Option<u16>,
    usage_id: Option<u16>,
    vendor_id: u16,
    product_id: u16,
) -> (r: String)
    ensures
        r@ == spec_device_selector(usage_page, usage_id, vendor_id, product_id),
{
    let mut r = String::from_str(
        "System.Devices.InterfaceClassGuid:=\"{4D1E55B2-F16F-11CF-88CB-001111000030}\" AND System.Devices.InterfaceEnabled:=System.StructuredQueryType.Boolean#True",
    );
    match usage_page {
        Some(p) => {
            r.append(" AND System.DeviceInterface.Hid.UsagePage:=");
            let num = u16_decimal(p);
            r.append(num.as_str());
        },
        None => {},
    }
    match usage_id {
        Some(u) => {
            r.append(" AND System.DeviceInterface.Hid.UsageId:=");
            let num = u16_decimal(u);
            r.append(num.as_str());
        },
        None => {},
    }
    r.append(" AND System.DeviceInterface.Hid.VendorId:=");
    let num = u16_decimal(vendor_id);
    r.append(num.as_str());
    r.append(" AND System.DeviceInterface.Hid.ProductId:=");
    let num = u16_decimal(product_id);
    r.append(num.as_str());
    proof {
        assert(r@ =~= spec_device_selector(usage_page, usage_id, vendor_id, product_id));
    }
    r
}

/// The access mode encoded in bits 14–15 of an I/O control number.
#[derive(Clone, Copy, Debug, PartialEq, Eq, Structural)]
pub enum IoAccessMode {
    Any,
    Read,
    Write,
    ReadWrite,
}

/// The buffering method encoded in bits 0–1 of an I/O control number.
#[derive(Clone, Copy, Debug, PartialEq, Eq, Structural)]
pub enum IoBufferingMethod {
    Buffered,
    DirectInput,
    DirectOutput,
    Neither,
}

/// An I/O control number taken apart into its fields.
#[derive(Clone, Copy, Debug, PartialEq, Eq, Structural)]
pub struct IoControlCode {
    pub device_type: u16,
    pub function: u16,
    pub access: IoAccessMode,
    pub method: IoBufferingMethod,
}

/// The access mode named by a two-bit value.
pub open spec fn spec_access_mode(bits: u32) -> IoAccessMode {
    if bits == 0 {
        IoAccessMode::Any
    } else if bits == 1 {
        IoAccessMode::Read
    } else if bits == 2 {
        IoAccessMode::Write
    } else {
        IoAccessMode::ReadWrite
    }
}

/// The buffering method named by a two-bit value.
pub open spec fn spec_buffering_method(bits: u32) -> IoBufferingMethod {
    if bits == 0 {
        IoBufferingMethod::Buffered
    } else if bits == 1 {
        IoBufferingMethod::DirectInput
    } else if bits == 2 {
        IoBufferingMethod::DirectOutput
    } else {
        IoBufferingMethod::Neither
    }
}

/// Takes an I/O control number apart: device type in the high 16 bits, the
/// function in bits 2–13, the access mode in bits 14–15 and the buffering
/// method in the low two bits.
pub fn decode_ioctl(ioctl: u32) -> (r: IoControlCode)
    ensures
        r.device_type == (ioctl & 0xFFFF0000) >> 16,
        r.function == (ioctl & 0x3FFC) >> 2,
        r.access == spec_access_mode((ioctl & 0xC000) >> 14),
        r.method == spec_buffering_method(ioctl & 3),
{
    let device_type_bits = (ioctl & 0xFFFF0000) >> 16;
    assert(device_type_bits <= 0xFFFF) by (bit_vector)
        requires
            device_type_bits == (ioctl & 0xFFFF0000) >> 16,
    ;
    let device_type = device_type_bits as u16;

    let access_bits = (ioctl & 0xC000) >> 14;
    assert(access_bits <= 3) by (bit_vector)
        requires
            access_bits == (ioctl & 0xC000) >> 14,
    ;
    let access = if access_bits == 0 {
        IoAccessMode::Any
    } else if access_bits == 1 {
        IoAccessMode::Read
    } else if access_bits == 2 {
        IoAccessMode::Write
    } else {
        IoAccessMode::ReadWrite
    };

    let function_bits = (ioctl & 0x3FFC) >> 2;
    assert(function_bits <= 0xFFF) by (bit_vector)
        requires
            function_bits == (ioctl & 0x3FFC) >> 2,
    ;
    let function = function_bits as u16;

    let method_bits = ioctl & 3;
    assert(method_bits <= 3) by (bit_vector)
        requires
            method_bits == ioctl & 3,
    ;
    let method = if method_bits == 0 {
        IoBufferingMethod::Buffered
    } else if method_bits == 1 {
        IoBufferingMethod::DirectInput
    } else if method_bits == 2 {
        IoBufferingMethod::DirectOutput
    } else {
        IoBufferingMethod::Neither
    };

    IoControlCode { device_type, function, access, method }
}

/// The indexed string a Megatec-dialect device serves its status from.
pub const MEGATEC_STATUS_STRING_INDEX: u32 = 3;

/// The indexed string whose retrieval toggles a Megatec device's beeper.
pub const MEGATEC_BEEPER_STRING_INDEX: u32 = 7;

/// The UTF-16 unit at position `i` of a little-endian byte string.
pub open spec fn le_unit(s: Seq<u8>, i: int) -> int {
    s[2 * i] + 256 * s[2 * i + 1]
}

/// Reads little-endian byte pairs as UTF-16 units; a trailing odd byte is
/// dropped.
pub fn utf16_units_from_le_bytes(bytes: &[u8]) -> (r: Vec<u16>)
    ensures
        r@.len() == bytes@.len() / 2,
        forall|i: int| 0 <= i < r@.len() ==> r@[i] == le_unit(bytes@, i),
{
    let mut r: Vec<u16> = Vec::new();
    let n = bytes.len() / 2;
    proof {
        assert(2 * (bytes@.len() / 2) <= bytes@.len());
    }
    let mut i: usize = 0;
    while i < n
        invariant
            i <= n,
            n == bytes@.len() / 2,
            2 * n <= bytes@.len(),
            bytes@.len() <= usize::MAX,
            r@.len() == i,
            forall|q: int| 0 <= q < i ==> r@[q] == le_unit(bytes@, q),
        decreases n - i,
    {
        proof {
            assert(2 * i + 1 < 2 * n);
        }
        let lo = bytes[2 * i];
        let hi = bytes[2 * i + 1];
        let unit: u16 = (lo as u16) + 256 * (hi as u16);
        r.push(unit);
        i += 1;
    }
    r
}

/// Extracts the UTF-16 units of an indexed-string payload.
///
/// The device returns `returned` bytes of little-endian UTF-16; the
/// payload must end with a null unit, which is dropped.  A payload without
/// one is an error.
pub fn indexed_string_units(output: &[u8], returned: usize) -> (r: Result<Vec<u16>, UpsError>)
    requires
        returned <= output@.len(),
    ensures
        ({
            let used = output@.subrange(0, returned as int);
            let n = used.len() / 2;
            match r {
                Ok(units) => n >= 1 && le_unit(used, n - 1) == 0 && units@.len() == n - 1 && (
                forall|i: int| 0 <= i < n - 1 ==> units@[i] == le_unit(used, i)),
                Err(e) => e == UpsError::MissingNullUnit && (n == 0 || le_unit(used, n - 1)
                    != 0),
            }
        }),
{
    let used = vstd::slice::slice_subrange(output, 0, returned);
    let mut units = utf16_units_from_le_bytes(used);
    if units.len() == 0 {
        return Err(UpsError::MissingNullUnit);
    }
    let last = units[units.len() - 1];
    if last != 0 {
        return Err(UpsError::MissingNullUnit);
    }
    units.pop();
    Ok(units)
}

} // verus!
