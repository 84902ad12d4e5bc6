//! The discovery poller's cross-cycle memory and per-cycle decisions:
//! what to report and whether reconciliation work is needed at all.
use vstd::prelude::*;

use crate::addr::IpAddress;

verus! {

/// Where a gateway answers: its address and port.
#[derive(Debug, Clone, Copy, PartialEq, Eq, Structural)]
pub struct GatewayAddress {
    pub ip: IpAddress,
    pub port: u16,
}

/// Process-lifetime memory of the poller, overwritten each successful
/// cycle; used only for change detection.
#[derive(Debug, Clone, Copy, PartialEq, Eq, Structural)]
pub struct PollState {
    pub last_gateway: Option<GatewayAddress>,
    pub last_address: Option<IpAddress>,
}

impl PollState {
    /// The state before any cycle has run.
    pub fn new() -> (r: PollState)
        ensures
            r.last_gateway is None,
            r.last_address is None,
    {
        PollState { last_gateway: None, last_address: None }
    }
}

/// What one successful discovery cycle calls for.
#[derive(Debug, Clone, Copy, PartialEq, Eq, Structural)]
pub struct CycleReport {
    /// A gateway was seen for the first time.
    pub gateway_found: bool,
    /// The gateway differs from the one seen last cycle.
    pub gateway_changed: bool,
    /// An external address was seen for the first time.
    pub address_found: bool,
    /// The external address differs from the one seen last cycle.
    pub address_changed: bool,
    /// Reconciliation work is needed: the address is new or changed.
    /// On an unchanged address the whole reconciliation pass is skipped.
    pub reconcile_needed: bool,
}

/// Evaluates one successful discovery cycle against the poller's memory:
/// decides what to report, whether to reconcile, and the next memory.
pub fn evaluate_cycle(state: &PollState, gateway: GatewayAddress, address: IpAddress) -> (r: (
    CycleReport,
    PollState,
))
    ensures
        r.0.gateway_found == state.last_gateway is None,
        r.0.gateway_changed == (state.last_gateway matches Some(g) && g != gateway),
        r.0.address_found == state.last_address is None,
        r.0.address_changed == (state.last_address matches Some(a) && a != address),
        r.0.reconcile_needed == (state.last_address != Some(address)),
        r.1.last_gateway == Some(gateway),
        r.1.last_address == Some(address),
{
    let gateway_found = state.last_gateway.is_none();
    let gateway_changed = match state.last_gateway {
        Some(g) => g != gateway,
        None => false,
    };
    let address_found = state.last_address.is_none();
    let address_changed = match state.last_address {
        Some(a) => a != address,
        None => false,
    };
    let report = CycleReport {
        gateway_found,
        gateway_changed,
        address_found,
        address_changed,
        reconcile_needed: address_found || address_changed,
    };
    let next = PollState { last_gateway: Some(gateway), last_address: Some(address) };
    (report, next)
}

} // verus!
