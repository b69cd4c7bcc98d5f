//! IP addresses and networks, as text. Parsing is done by the `ipnet` crate
//! for networks and by the core library for plain addresses.

use vstd::prelude::*;

verus! {

/// Whether the text is an IP address, as `core::net::IpAddr` parses it.
pub uninterp spec fn spec_is_ip_addr(s: Seq<char>) -> bool;

/// Whether the text is an IP network in CIDR notation, as `ipnet::IpNet`
/// parses it.
pub uninterp spec fn spec_is_ip_net(s: Seq<char>) -> bool;

/// The bytes of the IP address written `s` (four for IPv4, sixteen for
/// IPv6), as `core::net::IpAddr` parses it; nothing when it is not an
/// address.
pub uninterp spec fn spec_ip_bytes(s: Seq<char>) -> Option<Seq<u8>>;

/// Whether the network written `net` contains the address written `ip`, as
/// `ipnet::IpNet::contains` decides it.
pub uninterp spec fn spec_net_contains(net: Seq<char>, ip: Seq<char>) -> bool;

/// Calls `str::parse::<core::net::IpAddr>`: `None` when the text is an IP
/// address, else the parse error's message. Whether the text parses is
/// named `spec_is_ip_addr`; the message is not stated.
#[verifier::external_body]
pub(crate) fn ip_addr_error(s: &str) -> (r: Option<String>)
    ensures
        r is None <==> spec_is_ip_addr(s@),
{
    match s.parse::<core::net::IpAddr>() {
        Ok(_) => None,
        Err(e) => Some(e.to_string()),
    }
}

/// Calls `str::parse::<ipnet::IpNet>`: `None` when the text is a network,
/// else the message of `ipnet::AddrParseError`, which the crate's source
/// fixes as "invalid IP address syntax".
#[verifier::external_body]
pub(crate) fn ip_net_error(s: &str) -> (r: Option<String>)
    ensures
        r is None <==> spec_is_ip_net(s@),
        r matches Some(m) ==> m@ == "invalid IP address syntax"@,
{
    match s.parse::<ipnet::IpNet>() {
        Ok(_) => None,
        Err(e) => Some(e.to_string()),
    }
}

/// Parses `net` with `ipnet::IpNet` and `ip` with `core::net::IpAddr`, both
/// of which must succeed, and calls `IpNet::contains`; the answer is named
/// `spec_net_contains`.
#[verifier::external_body]
pub(crate) fn net_contains(net: &str, ip: &str) -> (r: bool)
    requires
        spec_is_ip_net(net@),
        spec_is_ip_addr(ip@),
    ensures
        r == spec_net_contains(net@, ip@),
{
    match (net.parse::<ipnet::IpNet>(), ip.parse::<core::net::IpAddr>()) {
        (Ok(n), Ok(a)) => n.contains(&a),
        _ => false,
    }
}

/// Calls `str::parse::<core::net::IpAddr>` and hands back the address's
/// octets (`Ipv4Addr::octets` or `Ipv6Addr::octets`): something exactly
/// when the text is an address, and what it is is named `spec_ip_bytes`.
#[verifier::external_body]
pub(crate) fn ip_addr_bytes(s: &str) -> (r: Option<Vec<u8>>)
    ensures
        r is Some <==> spec_is_ip_addr(s@),
        match r {
            Some(v) => spec_ip_bytes(s@) == Some(v@),
            None => spec_ip_bytes(s@) is None,
        },
{
    match s.parse::<core::net::IpAddr>() {
        Ok(core::net::IpAddr::V4(a)) => Some(a.octets().to_vec()),
        Ok(core::net::IpAddr::V6(a)) => Some(a.octets().to_vec()),
        Err(_) => None,
    }
}

/// Whether two byte strings are the same.
pub fn bytes_eq(a: &Vec<u8>, b: &Vec<u8>) -> (r: bool)
    ensures
        r == (a@ == b@),
{
    if a.len() != b.len() {
        return false;
    }
    let mut i: usize = 0;
    while i < a.len()
        invariant
            a@.len() == b@.len(),
            i <= a@.len(),
            forall|k: int| 0 <= k < i ==> a@[k] == b@[k],
        decreases a@.len() - i,
    {
        if a[i] != b[i] {
            return false;
        }
        i = i + 1;
    }
    assert(a@ =~= b@);
    true
}

} // verus!
