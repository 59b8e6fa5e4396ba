use vstd::prelude::*;

verus! {

#[verifier::external_type_specification]
#[verifier::external_body]
pub struct ExSystem(systemstat::System);

/// Relies on systemstat::Platform::new to open a handle on the host.
#[verifier::external_body]
pub(crate) fn system_new() -> systemstat::System {
    <systemstat::System as systemstat::Platform>::new()
}

/// Relies on systemstat::Platform::networks for the host's interface
/// table; only the interface names are kept. What comes back depends on
/// the host, so nothing is stated of the result.
#[verifier::external_body]
pub(crate) fn host_interface_names(sys: &systemstat::System) -> Result<Vec<String>, ()> {
    match systemstat::Platform::networks(sys) {
        Ok(table) => Ok(table.keys().cloned().collect()),
        Err(_) => Err(()),
    }
}

/// Relies on systemstat::Platform::network_stats for the named
/// interface's cumulative transmitted and received byte counts, in that
/// order. What comes back depends on the host, so nothing is stated of
/// the result.
#[verifier::external_body]
pub(crate) fn host_interface_counters(sys: &systemstat::System, interface: &str) -> Option<
    (u64, u64),
> {
    match systemstat::Platform::network_stats(sys, interface) {
        Ok(stats) => Some((stats.tx_bytes.0, stats.rx_bytes.0)),
        Err(_) => None,
    }
}

/// Relies on std::time::SystemTime::now, read as milliseconds since the
/// Unix epoch; a reading before the epoch yields 0. The clock is not
/// promised to move forward, so nothing is stated of the result.
#[verifier::external_body]
pub(crate) fn clock_millis() -> u128 {
    match std::time::SystemTime::now().duration_since(std::time::UNIX_EPOCH) {
        Ok(elapsed) => elapsed.as_millis(),
        Err(_) => 0,
    }
}

} // verus!
