//! Connectivity monitoring: a two-state machine that turns a stream of
//! reachability probe outcomes into outage records.
pub mod clock;
pub mod monitor;
pub mod laws;
pub mod probe;
