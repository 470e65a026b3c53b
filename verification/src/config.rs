//! The runtime configuration record.
//!
//! The record itself is plain data; the surrounding glue loads and stores it
//! in a persistent key-value store.  The checked conversions from the raw
//! stored values live here, so that a malformed store is rejected exactly
//! where a value does not fit its field.

use vstd::prelude::*;
use vstd::string::StringExecFns;

verus! {

/// Tuning parameters of the service, loaded at start-up.
#[derive(Clone, Copy, Debug)]
pub struct RuntimeConfig {
    /// Hibernate instead of shutting down when the grace period expires.
    pub hibernate: bool,
    /// Delay between successful polls.
    pub poll_interval_ms: u32,
    /// Backoff after a device-session loss.
    pub poll_failure_timeout_ms: u32,
    /// Grace period between power loss and forced shutdown.
    pub shutdown_timeout_s: u32,
    /// HID usage page filter for device selection, if any.
    pub hid_usage_page: Option<u16>,
    /// HID usage ID filter for device selection, if any.
    pub hid_usage_id: Option<u16>,
    /// USB vendor ID of the UPS.
    pub vendor_id: u16,
    /// USB product ID of the UPS.
    pub product_id: u16,
}

/// The built-in defaults of the configuration record.
pub open spec fn spec_default_config() -> RuntimeConfig {
    RuntimeConfig {
        hibernate: true,
        poll_interval_ms: 1000,
        poll_failure_timeout_ms: 10000,
        shutdown_timeout_s: 300,
        hid_usage_page: Some(0xFF00),
        hid_usage_id: Some(0x0001),
        vendor_id: 0x0665,
        product_id: 0x5161,
    }
}

impl Default for RuntimeConfig {
    /// The defaults written at service installation.
    fn default() -> (r: Self)
        ensures
            r == spec_default_config(),
    {
        RuntimeConfig {
            hibernate: true,
            poll_interval_ms: 1000,
            poll_failure_timeout_ms: 10000,
            shutdown_timeout_s: 300,
            hid_usage_page: Some(0xFF00),
            hid_usage_id: Some(0x0001),
            vendor_id: 0x0665,
            product_id: 0x5161,
        }
    }
}

/// A stored configuration value that does not fit its field.
#[derive(Clone, Copy, Debug, PartialEq, Eq, Structural)]
pub enum ConfigError {
    /// A 16-bit field was stored with a value above `0xFFFF`.
    ValueOutOfRange,
}

impl RuntimeConfig {
    /// The key-value store path under which the record is kept.
    pub fn registry_path() -> (r: String)
        ensures
            r@ == "SYSTEM\\CurrentControlSet\\Services\\unlimited_power\\Parameters"@,
    {
        let r = String::from_str("SYSTEM\\CurrentControlSet\\Services\\unlimited_power\\Parameters");
        r
    }

    /// Builds the record from the raw 32-bit values the store yields.
    ///
    /// `hibernate` is any non-zero value; the identifiers must fit in 16
    /// bits, and an absent usage filter stays absent.
    pub fn from_raw_values(
        hibernate: u32,
        poll_interval_ms: u32,
        poll_failure_timeout_ms: u32,
        shutdown_timeout_s: u32,
        hid_usage_page: Option<u32>,
        hid_usage_id: Option<u32>,
        vendor_id: u32,
        product_id: u32,
    ) -> (r: Result<RuntimeConfig, ConfigError>)
        ensures
            ({
                let ok = (hid_usage_page is Some ==> hid_usage_page->0 <= 0xFFFF) && (hid_usage_id
                    is Some ==> hid_usage_id->0 <= 0xFFFF) && vendor_id <= 0xFFFF && product_id
                    <= 0xFFFF;
                match r {
                    Ok(c) => ok && c == (RuntimeConfig {
                        hibernate: hibernate != 0,
                        poll_interval_ms,
                        poll_failure_timeout_ms,
                        shutdown_timeout_s,
                        hid_usage_page: if hid_usage_page is Some {
                            Some(hid_usage_page->0 as u16)
                        } else {
                            None
                        },
                        hid_usage_id: if hid_usage_id is Some {
                            Some(hid_usage_id->0 as u16)
                        } else {
                            None
                        },
                        vendor_id: vendor_id as u16,
                        product_id: product_id as u16,
                    }),
                    Err(e) => !ok && e == ConfigError::ValueOutOfRange,
                }
            }),
    {
        let page: Option<u16> = match hid_usage_page {
            Some(v) => if v <= 0xFFFF {
                Some(v as u16)
            } else {
                return Err(ConfigError::ValueOutOfRange);
            },
            None => None,
        };
        let id: Option<u16> = match hid_usage_id {
            Some(v) => if v <= 0xFFFF {
                Some(v as u16)
            } else {
                return Err(ConfigError::ValueOutOfRange);
            },
            None => None,
        };
        if vendor_id > 0xFFFF || product_id > 0xFFFF {
            return Err(ConfigError::ValueOutOfRange);
        }
        Ok(
            RuntimeConfig {
                hibernate: hibernate != 0,
                poll_interval_ms,
                poll_failure_timeout_ms,
                shutdown_timeout_s,
                hid_usage_page: page,
                hid_usage_id: id,
                vendor_id: vendor_id as u16,
                product_id: product_id as u16,
            },
        )
    }

    /// The raw 32-bit values the store takes, in field order: `hibernate`
    /// as one or zero, then the timings, the usage filters and the
    /// identifiers widened.
    pub fn to_raw_values(&self) -> (r: (u32, u32, u32, u32, Option<u32>, Option<u32>, u32, u32))
        ensures
            r.0 == (if self.hibernate {
                1u32
            } else {
                0u32
            }),
            r.1 == self.poll_interval_ms,
            r.2 == self.poll_failure_timeout_ms,
            r.3 == self.shutdown_timeout_s,
            r.4 == (if self.hid_usage_page is Some {
                Some(self.hid_usage_page->0 as u32)
            } else {
                None::<u32>
            }),
            r.5 == (if self.hid_usage_id is Some {
                Some(self.hid_usage_id->0 as u32)
            } else {
                None::<u32>
            }),
            r.6 == self.vendor_id as u32,
            r.7 == self.product_id as u32,
    {
        let page: Option<u32> = match self.hid_usage_page {
            Some(v) => Some(v as u32),
            None => None,
        };
        let id: Option<u32> = match self.hid_usage_id {
            Some(v) => Some(v as u32),
            None => None,
        };
        (
            if self.hibernate {
                1
            } else {
                0
            },
            self.poll_interval_ms,
            self.poll_failure_timeout_ms,
            self.shutdown_timeout_s,
            page,
            id,
            self.vendor_id as u32,
            self.product_id as u32,
        )
    }
}

/// The service's registered name.
pub fn service_name() -> (r: &'static str)
    ensures
        r@ == "unlimited_power"@,
{
    "unlimited_power"
}

/// The service's human-readable display name, also the title of the warning
/// broadcast.
pub fn service_display_name() -> (r: &'static str)
    ensures
        r@ == "Unlimited Power"@,
{
    "Unlimited Power"
}

/// The start wait hint reported while the service starts.
pub const MAX_START_TIME_MS: u32 = 3000;

/// The stop wait hint reported while the service stops.
pub const MAX_STOP_TIME_MS: u32 = 1000;

} // verus!
