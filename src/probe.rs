//! The part of a reachability probe that decides rather than talks to the
//! network: which resolved address to probe, and with what settings.
use crate::monitor::MonitorError;
use vstd::prelude::*;
use vstd::string::*;

verus! {

/// A network address as the resolver returns it.
#[derive(Clone, Copy, Debug, PartialEq, Eq)]
pub enum IpAddress {
    V4([u8; 4]),
    V6([u16; 8]),
}

/// The host whose reachability stands for the Internet's.
pub const TARGET_HOST: &'static str = "www.google.com:80";

/// How many resolved addresses are passed over before the one probed.
pub const SKIPPED_ADDRESSES: usize = 1;

/// How long a probe waits for its reply, in seconds.
pub const PROBE_TIMEOUT_SECS: u64 = 1;

/// The time-to-live of an echo request.
pub const PROBE_TTL: u8 = 166;

/// The identifier of an echo request.
pub const PROBE_IDENT: u16 = 3;

/// The sequence number of an echo request.
pub const PROBE_SEQ: u16 = 5;

/// The address to probe: the one after the first `skip` of those the name
/// resolved to, or a resolution error where there are not that many.
pub fn pick_address(addrs: &Vec<IpAddress>, skip: usize) -> (r: Result<IpAddress, MonitorError>)
    ensures
        skip < addrs.len() <==> r is Ok,
        r matches Ok(a) ==> a == addrs@[skip as int],
        r matches Err(e) ==> e is Resolution,
{
    if skip < addrs.len() {
        Ok(addrs[skip])
    } else {
        Err(MonitorError::Resolution(String::from_str("No valid IP address found.")))
    }
}

} // verus!
