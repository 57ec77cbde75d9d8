//! IPv4 addresses as plain octets, and the egress-validation check.

use vstd::prelude::*;

verus! {

/// Largest allowed difference between the fourth octets of the egress
/// address and the endpoint's address: the provider allocates addresses of
/// one geographic pool from the same /24, a few apart.
pub const FOURTH_OCTET_TOLERANCE: u8 = 5;

/// One IPv4 address, as its four dotted-decimal octets.
#[derive(Clone, Copy, Debug)]
pub struct IP {
    pub octets: [u8; 4],
}

/// Absolute difference of two octets.
pub open spec fn octet_diff(a: u8, b: u8) -> int {
    if a >= b {
        a - b
    } else {
        b - a
    }
}

/// The validation gate: the first three octets must agree exactly and the
/// fourth octets may differ by at most the tolerance.
pub open spec fn spec_ip_match(internet: IP, server: IP) -> bool {
    &&& internet.octets[0] == server.octets[0]
    &&& internet.octets[1] == server.octets[1]
    &&& internet.octets[2] == server.octets[2]
    &&& octet_diff(internet.octets[3], server.octets[3]) <= FOURTH_OCTET_TOLERANCE
}

/// What an address lookup can come back with, as plain values: the four
/// octets of an IPv4 address, or an IPv6 address, which this tool does not
/// handle.
#[derive(Clone, Copy, Debug)]
pub enum Resolution {
    V4([u8; 4]),
    V6,
}

/// The address a lookup yields, if a usable one: only IPv4 results are
/// accepted, since the validation logic compares four octets.  An
/// IPv6-only result counts as a failed resolution.
pub open spec fn spec_ip_from_resolution(r: Option<Resolution>) -> Option<IP> {
    match r {
        Some(Resolution::V4(octets)) => Some(IP { octets }),
        Some(Resolution::V6) => None,
        None => None,
    }
}

/// Keeps an IPv4 lookup result and drops everything else.
pub fn ip_from_resolution(r: Option<Resolution>) -> (ip: Option<IP>)
    ensures
        ip == spec_ip_from_resolution(r),
{
    match r {
        Some(Resolution::V4(octets)) => Some(IP { octets }),
        Some(Resolution::V6) => None,
        None => None,
    }
}

/// Compares the machine's internet-facing address with the endpoint's
/// resolved address, octet by octet.  This is the real correctness gate
/// confirming that a connection switch took effect.
pub fn verify_ip_match(internet: &IP, server: &IP) -> (r: bool)
    ensures
        r == spec_ip_match(*internet, *server),
{
    let i3 = internet.octets[3];
    let s3 = server.octets[3];
    let diff = if i3 >= s3 {
        i3 - s3
    } else {
        s3 - i3
    };
    internet.octets[0] == server.octets[0] && internet.octets[1] == server.octets[1]
        && internet.octets[2] == server.octets[2] && diff <= FOURTH_OCTET_TOLERANCE
}

} // verus!
