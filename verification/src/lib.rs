//! Verified core of a UPS monitoring service.
//!
//! A Voltronic/Megatec-family UPS exposes a HID interface speaking a framed
//! ASCII request/response protocol.  This crate holds the verified logic of a
//! service that polls such a UPS and shuts the host down in a controlled way
//! when utility power is lost:
//!
//! - the protocol codec (status grammar, flag bits, derived work mode),
//! - the per-exchange session engine (framing, report layout, multi-packet
//!   reassembly, per-packet and per-transaction timeout accounting),
//! - the shutdown supervisor state machine,
//! - the poller decision rules and the latest-snapshot cell,
//! - the service-lifecycle rules (control dispatch, status reports),
//! - a model of the manually-resettable resume signal.
//!
//! The OS-facing glue (HID I/O, service registration, session messaging)
//! lives outside this crate and drives these state machines with plain
//! values.

pub mod codec;
pub mod config;
pub mod error;
pub mod flags;
pub mod hid;
pub mod poller;
pub mod service;
pub mod session;
pub mod signal;
pub mod supervisor;
