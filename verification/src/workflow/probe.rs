//! Whether a transport is there.
use vstd::prelude::*;

use crate::error::ScllError;
use crate::report::{ProbeParams, ProbeReport, TransportName};
use crate::transport::{Transport, TransportCaps};

verus! {

/// What a probe reports, given whether the transport is connected.
pub fn probe_report(connected: bool, name: TransportName, caps: TransportCaps) -> (r: Result<
    ProbeReport,
    ScllError,
>)
    ensures
        match r {
            Ok(report) => connected && report.effective.transport_name == name
                && report.effective.transport_capabilities == caps && report.warnings@.len() == 0,
            Err(e) => !connected && e == ScllError::TransportUnavailable,
        },
{
    if !connected {
        return Err(ScllError::TransportUnavailable);
    }
    Ok(
        ProbeReport {
            effective: ProbeParams { transport_name: name, transport_capabilities: caps },
            warnings: Vec::new(),
        },
    )
}

/// Asks a transport for its capabilities. Nothing is sent. Whether the transport
/// is connected is not a property of its state, so success is stated by
/// [`probe_report`].
pub fn probe<T: Transport>(t: &mut T, name: TransportName) -> (r: Result<ProbeReport, ScllError>)
    ensures
        *final(t) == *old(t),
        match r {
            Ok(report) => report.effective.transport_name == name
                && report.effective.transport_capabilities == old(t).caps()
                && report.warnings@.len() == 0,
            Err(e) => e == ScllError::TransportUnavailable,
        },
{
    let connected: bool = t.is_connected();
    let caps: TransportCaps = t.capabilities();
    probe_report(connected, name, caps)
}

} // verus!
