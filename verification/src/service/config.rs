//! How the mobile service is set up: its host, listen address, discovery
//! address, candidate ports and server name.
use vstd::prelude::*;
use crate::text::{decimal, push_decimal, string_from_chars, trim, trimmed_chars};
use super::listen::{chosen_listen_addr, listen_candidates, listen_port, port_from_listen_addr, select_listen_addr};
use super::ports::{normalize_candidate_ports, normalized_ports};

verus! {

/// The UDP port of the discovery service.
pub const DEFAULT_DISCOVERY_PORT: u16 = 18081;

/// The ports the mobile API tries, in order, when none are configured.
pub const DEFAULT_MOBILE_API_PORTS: [u16; 5] = [39117, 41257, 43391, 45533, 47681];

/// The default mobile API ports as values.
pub open spec fn default_ports() -> Seq<u16> {
    seq![39117u16, 41257u16, 43391u16, 45533u16, 47681u16]
}

/// The default candidate ports, in order.
pub fn default_mobile_api_ports() -> (r: Vec<u16>)
    ensures
        r@ == default_ports(),
{
    let a = DEFAULT_MOBILE_API_PORTS;
    let r = vec![a[0], a[1], a[2], a[3], a[4]];
    assert(r@ =~= default_ports());
    r
}

/// The first default mobile API port.
pub fn default_mobile_api_port() -> (r: u16)
    ensures
        r == default_ports()[0],
        r == 39117,
{
    DEFAULT_MOBILE_API_PORTS[0]
}

/// How the mobile service is set up.
#[derive(Clone, Debug, PartialEq)]
pub struct MobileServiceConfig {
    pub listen_host: String,
    pub listen_addr: String,
    pub discovery_addr: String,
    pub candidate_ports: Vec<u16>,
    pub server_name: String,
}

/// A listen host: trimmed, `0.0.0.0` when empty.
pub open spec fn normalized_host(raw: Seq<char>) -> Seq<char> {
    if trim(raw).len() == 0 {
        "0.0.0.0"@
    } else {
        trim(raw)
    }
}

/// A server name: trimmed, `gscale-zebra` when empty.
pub open spec fn normalized_server_name(raw: Seq<char>) -> Seq<char> {
    if trim(raw).len() == 0 {
        "gscale-zebra"@
    } else {
        trim(raw)
    }
}

fn trimmed_or(raw: &str, fallback: &str) -> (r: String)
    ensures
        r@ == (if trim(raw@).len() == 0 {
            fallback@
        } else {
            trim(raw@)
        }),
{
    let t = trimmed_chars(raw);
    if t.len() == 0 {
        crate::text::to_owned_string(fallback)
    } else {
        string_from_chars(&t)
    }
}

pub(crate) fn normalize_listen_host(raw: &str) -> (r: String)
    ensures
        r@ == normalized_host(raw@),
{
    trimmed_or(raw, "0.0.0.0")
}

fn normalize_server_name(raw: &str) -> (r: String)
    ensures
        r@ == normalized_server_name(raw@),
{
    trimmed_or(raw, "gscale-zebra")
}

impl MobileServiceConfig {
    /// Sets the service up: the host trimmed (`0.0.0.0` when empty), the
    /// candidate ports normalized, the listen address chosen as
    /// `select_listen_addr` does, discovery on `0.0.0.0:18081`, and the
    /// server name trimmed (`gscale-zebra` when empty).
    pub fn new<F: Fn(&str) -> bool>(
        listen_host: &str,
        explicit_listen_addr: &str,
        candidate_ports: Vec<u16>,
        server_name: &str,
        is_available: &F,
    ) -> (r: MobileServiceConfig)
        requires
            forall|s: &str| is_available.requires((s,)),
        ensures
            r.listen_host@ == normalized_host(listen_host@),
            r.candidate_ports@ == normalized_ports(candidate_ports@),
            trim(explicit_listen_addr@).len() != 0 ==> r.listen_addr@ == trim(explicit_listen_addr@),
            trim(explicit_listen_addr@).len() == 0 ==> chosen_listen_addr(
                *is_available,
                listen_candidates(normalized_host(listen_host@), normalized_ports(candidate_ports@)),
                r.listen_addr@,
            ),
            r.discovery_addr@ == "0.0.0.0:"@ + decimal(DEFAULT_DISCOVERY_PORT as nat),
            r.server_name@ == normalized_server_name(server_name@),
    {
        let candidate_ports = normalize_candidate_ports(candidate_ports);
        let listen_host = normalize_listen_host(listen_host);
        let listen_addr = select_listen_addr(
            explicit_listen_addr,
            listen_host.as_str(),
            candidate_ports.as_slice(),
            is_available,
        );
        let mut discovery_addr = crate::text::to_owned_string("0.0.0.0:");
        push_decimal(&mut discovery_addr, DEFAULT_DISCOVERY_PORT as u64);
        MobileServiceConfig {
            listen_host,
            listen_addr,
            discovery_addr,
            candidate_ports,
            server_name: normalize_server_name(server_name),
        }
    }

    /// The HTTP port the service listens on: the port of its listen address,
    /// else the first default port.
    pub fn http_port(&self) -> (r: u16)
        ensures
            r == (match listen_port(self.listen_addr@) {
                Some(p) => p,
                None => 39117u16,
            }),
    {
        match port_from_listen_addr(self.listen_addr.as_str()) {
            Some(p) => p,
            None => default_mobile_api_port(),
        }
    }
}

} // verus!
