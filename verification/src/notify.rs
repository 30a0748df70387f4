//! Verbosity policy for host notifications.
//!
//! The audio host delivers asynchronous lifecycle notifications off the
//! real-time path. The engine is indifferent to all of them; the only
//! decision the library owns is *which* of them are reported at a given
//! verbosity level. The tiers: level 0 reports errors and shutdown only,
//! level 1 adds the operational notices (thread start, sample-rate, xrun,
//! freewheel), and level 2 or more adds registration, topology and latency
//! notices.

use vstd::prelude::*;

verus! {

/// The kinds of asynchronous notifications the audio host can deliver.
#[derive(Clone, Copy, Debug)]
pub enum HostNotification {
    ThreadInit,
    Shutdown,
    Freewheel,
    SampleRateChange,
    ClientRegistration,
    PortRegistration,
    PortRename,
    PortsConnected,
    GraphReorder,
    Xrun,
    LatencyChange,
}

/// The lowest verbosity level at which a notification kind is reported.
/// The thread-start notice is an operational notice, not an error or a
/// shutdown, so it is silent at level 0 and reported from level 1 on.
pub open spec fn notice_tier(n: HostNotification) -> nat {
    match n {
        HostNotification::ThreadInit => 1,
        HostNotification::Shutdown => 0,
        HostNotification::Freewheel => 1,
        HostNotification::SampleRateChange => 1,
        HostNotification::Xrun => 1,
        HostNotification::ClientRegistration => 2,
        HostNotification::PortRegistration => 2,
        HostNotification::PortRename => 2,
        HostNotification::PortsConnected => 2,
        HostNotification::GraphReorder => 2,
        HostNotification::LatencyChange => 2,
    }
}

/// Whether a notification of kind `n` is reported at verbosity `verbosity`:
/// exactly when the level reaches the kind's tier.
pub fn should_report(n: HostNotification, verbosity: u8) -> (b: bool)
    ensures
        b == (verbosity as nat >= notice_tier(n)),
{
    match n {
        HostNotification::Shutdown => true,
        HostNotification::ThreadInit => verbosity >= 1,
        HostNotification::Freewheel => verbosity >= 1,
        HostNotification::SampleRateChange => verbosity >= 1,
        HostNotification::Xrun => verbosity >= 1,
        _ => verbosity >= 2,
    }
}

} // verus!
