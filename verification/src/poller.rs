//! The status poller's decision rules and the latest-snapshot cell.
//!
//! The poller loop itself lives in the glue: it opens the device, queries
//! the status and sleeps.  What to do after each step — publish and wait,
//! or back off and reopen — is decided here, and the published snapshots
//! go through a cell that keeps only the most recent value.

use vstd::prelude::*;

use crate::codec::UpsStatus;
use crate::config::RuntimeConfig;

verus! {

/// What just happened in the poller loop.
#[derive(Clone, Copy, Debug)]
pub enum PollEvent {
    /// Opening the HID device failed.
    DeviceOpenFailed,
    /// A status query succeeded with this snapshot.
    QuerySucceeded(UpsStatus),
    /// A status query failed: the session is considered lost.
    QueryFailed,
}

/// What the poller loop must do next.
#[derive(Clone, Copy, Debug)]
pub enum PollDirective {
    /// Publish the snapshot, then sleep `wait_ms` and query again on the
    /// same session.
    PublishAndSleep { status: UpsStatus, wait_ms: u32 },
    /// Discard the session, sleep `wait_ms`, and reopen the device.
    BackoffAndReopen { wait_ms: u32 },
}

/// The poller's rule: a successful query is published and followed by the
/// poll interval; any failure — opening or querying — discards the session
/// and backs off for the failure timeout before reopening.
pub open spec fn spec_poll_step(config: RuntimeConfig, event: PollEvent) -> PollDirective {
    match event {
        PollEvent::QuerySucceeded(status) => PollDirective::PublishAndSleep {
            status,
            wait_ms: config.poll_interval_ms,
        },
        PollEvent::DeviceOpenFailed => PollDirective::BackoffAndReopen {
            wait_ms: config.poll_failure_timeout_ms,
        },
        PollEvent::QueryFailed => PollDirective::BackoffAndReopen {
            wait_ms: config.poll_failure_timeout_ms,
        },
    }
}

/// Decides the poller's next move.
pub fn poll_step(config: &RuntimeConfig, event: &PollEvent) -> (r: PollDirective)
    ensures
        r == spec_poll_step(*config, *event),
{
    match event {
        PollEvent::QuerySucceeded(status) => PollDirective::PublishAndSleep {
            status: *status,
            wait_ms: config.poll_interval_ms,
        },
        PollEvent::DeviceOpenFailed => PollDirective::BackoffAndReopen {
            wait_ms: config.poll_failure_timeout_ms,
        },
        PollEvent::QueryFailed => PollDirective::BackoffAndReopen {
            wait_ms: config.poll_failure_timeout_ms,
        },
    }
}

/// The latest-snapshot cell: a single-producer, multi-consumer "latest
/// value wins" channel.
///
/// It starts empty; `publish` always stores a whole snapshot, so once a
/// value is present the cell never reverts to empty.  The version number
/// gives consumers their edge-triggered change notification: it moves
/// exactly when a snapshot is published, and missed versions are coalesced
/// by reading only the latest value.
pub struct SnapshotCell {
    latest: Option<UpsStatus>,
    version: u64,
}

impl SnapshotCell {
    /// The published snapshot, if any.
    pub closed spec fn spec_latest(&self) -> Option<UpsStatus> {
        self.latest
    }

    /// How many snapshots have been published.
    pub closed spec fn spec_version(&self) -> u64 {
        self.version
    }

    /// A fresh, empty cell.
    pub fn new() -> (r: SnapshotCell)
        ensures
            r.spec_latest() is None,
            r.spec_version() == 0,
    {
        SnapshotCell { latest: None, version: 0 }
    }

    /// Publishes a snapshot: the previous value, if any, is discarded, and
    /// the cell holds the new one — never nothing.
    pub fn publish(&mut self, status: UpsStatus)
        requires
            old(self).spec_version() < u64::MAX,
        ensures
            final(self).spec_latest() == Some(status),
            final(self).spec_version() == old(self).spec_version() + 1,
    {
        self.latest = Some(status);
        self.version = self.version + 1;
    }

    /// The most recent snapshot, or nothing before the first publish.
    pub fn latest(&self) -> (r: Option<UpsStatus>)
        ensures
            r == self.spec_latest(),
    {
        self.latest
    }

    /// The current version, for edge-triggered change detection.
    pub fn version(&self) -> (r: u64)
        ensures
            r == self.spec_version(),
    {
        self.version
    }
}

} // verus!
