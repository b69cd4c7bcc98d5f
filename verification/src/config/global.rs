//! Settings that apply to the whole configuration.

use vstd::prelude::*;

use crate::config::limiter::validation_result;
use crate::config::names::{CacheBackend, MetricsBackend, StorageType};
use crate::net::{
    bytes_eq, ip_addr_bytes, ip_addr_error, ip_net_error, net_contains, spec_ip_bytes, spec_is_ip_addr,
    spec_is_ip_net, spec_net_contains,
};
use crate::text::{concat_str, has_char, str_has_char};

verus! {

/// Proxies whose forwarding headers are believed.
#[derive(Debug, Clone, PartialEq, Eq)]
pub struct TrustedProxyConfig {
    /// Whether proxies are trusted at all.
    pub enabled: bool,
    /// Proxy addresses, each a single IP address or a network in CIDR
    /// notation.
    pub proxies: Vec<String>,
    /// How many forwarding hops are followed.
    pub max_hops: usize,
}

/// The hops followed unless configured otherwise.
pub const DEFAULT_MAX_HOPS: usize = 10;

/// A proxy entry is well formed: a network when it holds a `/`, else an
/// address.
pub open spec fn proxy_valid(p: Seq<char>) -> bool {
    if has_char(p, '/') {
        spec_is_ip_net(p)
    } else {
        spec_is_ip_addr(p)
    }
}

/// Index of the first malformed entry at or after `i`, or the length.
pub open spec fn first_invalid_proxy(ps: Seq<String>, i: int) -> int
    decreases ps.len() - i,
{
    if i >= ps.len() || !proxy_valid(ps[i]@) {
        i
    } else {
        first_invalid_proxy(ps, i + 1)
    }
}

/// A proxy entry covers the address `ip`: a network that contains it, or
/// the same address (however each is written).
pub open spec fn proxy_covers(p: Seq<char>, ip: Seq<char>) -> bool {
    if has_char(p, '/') {
        spec_is_ip_net(p) && spec_net_contains(p, ip)
    } else {
        spec_is_ip_addr(p) && spec_ip_bytes(p) == spec_ip_bytes(ip)
    }
}

/// Whether a request from `ip` comes through a trusted proxy.
pub open spec fn spec_is_trusted(c: TrustedProxyConfig, ip: Seq<char>) -> bool {
    &&& c.enabled
    &&& c.proxies@.len() > 0
    &&& spec_is_ip_addr(ip)
    &&& exists|i: int| 0 <= i < c.proxies@.len() && proxy_covers(#[trigger] c.proxies@[i]@, ip)
}

/// The message for a malformed proxy entry, with the parser's message.
pub open spec fn invalid_proxy_message(p: Seq<char>, e: Seq<char>) -> Seq<char> {
    "无效的代理地址 '"@ + p + "': "@ + e
}

impl TrustedProxyConfig {
    /// Whether the entry parses: as a network when it holds a `/`, else as
    /// an address; on failure, the parser's message.
    fn parse_cidr_or_ip(s: &str) -> (r: Result<(), String>)
        ensures
            r is Ok <==> proxy_valid(s@),
            has_char(s@, '/') ==> (r matches Err(m) ==> m@ == "invalid IP address syntax"@),
    {
        let e = if str_has_char(s, '/') {
            ip_net_error(s)
        } else {
            ip_addr_error(s)
        };
        match e {
            None => Ok(()),
            Some(m) => Err(m),
        }
    }

    /// Disabled trust is always valid; enabled trust needs every entry to be
    /// an address or a network, and names the first that is not.
    pub fn validate(&self) -> (r: Result<(), String>)
        ensures
            !self.enabled ==> r is Ok,
            self.enabled ==> (r is Ok <==> first_invalid_proxy(self.proxies@, 0)
                == self.proxies@.len()),
            r matches Err(m) ==> ({
                let p = self.proxies@[first_invalid_proxy(self.proxies@, 0)]@;
                exists|e: Seq<char>|
                    #![trigger invalid_proxy_message(p, e)]
                    m@ == invalid_proxy_message(p, e) && (has_char(p, '/') ==> e
                        == "invalid IP address syntax"@)
            }),
    {
        if !self.enabled {
            return Ok(());
        }
        let n = self.proxies.len();
        let mut i: usize = 0;
        while i < n
            invariant
                n == self.proxies@.len(),
                i <= n,
                self.enabled,
                first_invalid_proxy(self.proxies@, 0) == first_invalid_proxy(self.proxies@, i as int),
            decreases n - i,
        {
            let p = self.proxies[i].as_str();
            match Self::parse_cidr_or_ip(p) {
                Err(e) => {
                    let m = concat_str("无效的代理地址 '", p);
                    let m = concat_str(m.as_str(), "': ");
                    let m = concat_str(m.as_str(), e.as_str());
                    assert(m@ == invalid_proxy_message(p@, e@));
                    return Err(m);
                },
                Ok(()) => {},
            }
            i = i + 1;
        }
        Ok(())
    }

    /// Whether a request from `ip` comes through a trusted proxy: trust must
    /// be enabled with some entries, `ip` must be an address, and some
    /// entry must be a network containing it or the same address.
    pub fn is_trusted(&self, ip: &str) -> (r: bool)
        ensures
            r == spec_is_trusted(*self, ip@),
    {
        if !self.enabled || self.proxies.len() == 0 {
            return false;
        }
        let ip_bytes = match ip_addr_bytes(ip) {
            Some(b) => b,
            None => {
                return false;
            },
        };
        let n = self.proxies.len();
        let mut i: usize = 0;
        while i < n
            invariant
                n == self.proxies@.len(),
                i <= n,
                self.enabled,
                n > 0,
                spec_is_ip_addr(ip@),
                spec_ip_bytes(ip@) == Some(ip_bytes@),
                forall|k: int| 0 <= k < i ==> !proxy_covers(#[trigger] self.proxies@[k]@, ip@),
            decreases n - i,
        {
            let p = self.proxies[i].as_str();
            if str_has_char(p, '/') {
                if ip_net_error(p).is_none() {
                    if net_contains(p, ip) {
                        assert(proxy_covers(self.proxies@[i as int]@, ip@));
                        return true;
                    }
                }
            } else {
                match ip_addr_bytes(p) {
                    Some(pb) => {
                        if bytes_eq(&pb, &ip_bytes) {
                            assert(proxy_covers(self.proxies@[i as int]@, ip@));
                            return true;
                        }
                    },
                    None => {},
                }
            }
            i = i + 1;
        }
        false
    }
}

impl Default for TrustedProxyConfig {
    fn default() -> (r: Self)
        ensures
            !r.enabled,
            r.proxies@.len() == 0,
            r.max_hops == DEFAULT_MAX_HOPS,
    {
        TrustedProxyConfig { enabled: false, proxies: Vec::new(), max_hops: DEFAULT_MAX_HOPS }
    }
}

/// Backends and proxy trust.
#[derive(Debug, Clone, PartialEq, Eq)]
pub struct GlobalConfig {
    /// Where state is stored.
    pub storage: StorageType,
    /// Where state is cached.
    pub cache: CacheBackend,
    /// Where metrics go.
    pub metrics: MetricsBackend,
    /// Which proxies are trusted.
    pub trusted_proxies: TrustedProxyConfig,
}

impl GlobalConfig {
    /// The backends are valid by construction; the proxy trust is checked.
    pub fn validate(&self) -> (r: Result<(), String>)
        ensures
            r is Ok <==> !self.trusted_proxies.enabled || first_invalid_proxy(
                self.trusted_proxies.proxies@,
                0,
            ) == self.trusted_proxies.proxies@.len(),
    {
        self.trusted_proxies.validate()
    }
}

impl Default for GlobalConfig {
    fn default() -> (r: Self)
        ensures
            r.storage == StorageType::Memory,
            r.cache == CacheBackend::Memory,
            r.metrics == MetricsBackend::Prometheus,
            !r.trusted_proxies.enabled,
            r.trusted_proxies.proxies@.len() == 0,
            r.trusted_proxies.max_hops == DEFAULT_MAX_HOPS,
    {
        GlobalConfig {
            storage: StorageType::Memory,
            cache: CacheBackend::Memory,
            metrics: MetricsBackend::Prometheus,
            trusted_proxies: TrustedProxyConfig::default(),
        }
    }
}

} // verus!
