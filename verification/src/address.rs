//! Destination addresses.

use vstd::prelude::*;

verus! {

/// Host and port of a remote endpoint.
///
/// Two destinations are the same endpoint exactly when every field agrees.
/// An IPv4 host is held as its 32 address bits, first octet highest; an IPv6
/// host as its 128 address bits, first segment highest.
#[derive(Clone, Copy, Debug, PartialEq, Eq, Hash, Structural)]
#[allow(inconsistent_fields)]
pub enum Destination {
    V4 { ip: u32, port: u16 },
    V6 { ip: u128, port: u16, flowinfo: u32, scope_id: u32 },
}

} // verus!
