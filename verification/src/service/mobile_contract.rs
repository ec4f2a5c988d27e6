//! The shapes the mobile app reads: health, handshake and discovery
//! announcement. They are serialized to JSON outside the library.
use vstd::prelude::*;
use super::config::{default_mobile_api_port, default_mobile_api_ports, default_ports, DEFAULT_DISCOVERY_PORT};
use super::ports::nonzero_ports;
use crate::text::{string_from_chars, to_owned_string, trim, trimmed_chars};

verus! {

/// The application id the mobile app expects.
pub const APP_ID: &'static str = "gscale-zebra";

/// The service id the mobile app expects.
pub const SERVICE_ID: &'static str = "mobileapi";

/// Who this station is, as the mobile app shows it.
#[derive(Clone, Debug, PartialEq, Eq)]
pub struct ServiceIdentity {
    pub server_name: String,
    pub server_ref: String,
    pub display_name: String,
    pub role: String,
}

/// A line break written as a space.
pub open spec fn break_as_space(c: char) -> char {
    if c == '\n' || c == '\r' {
        ' '
    } else {
        c
    }
}

/// An identity field: trimmed, line breaks written as spaces, `fallback`
/// when nothing is left.
pub open spec fn identity_field(value: Seq<char>, fallback: Seq<char>) -> Seq<char> {
    if trim(value).len() == 0 {
        fallback
    } else {
        trim(value).map_values(|c: char| break_as_space(c))
    }
}

fn normalize(value: &str, fallback: &str) -> (r: String)
    ensures
        r@ == identity_field(value@, fallback@),
{
    let t = trimmed_chars(value);
    if t.len() == 0 {
        return to_owned_string(fallback);
    }
    let mut w: Vec<char> = Vec::new();
    let mut i: usize = 0;
    while i < t.len()
        invariant
            i <= t@.len(),
            w@ == t@.take(i as int).map_values(|c: char| break_as_space(c)),
        decreases t.len() - i,
    {
        let c = t[i];
        if c == '\n' || c == '\r' {
            w.push(' ');
        } else {
            w.push(c);
        }
        i += 1;
        assert(w@ =~= t@.take(i as int).map_values(|c: char| break_as_space(c)));
    }
    assert(t@.take(i as int) =~= t@);
    string_from_chars(&w)
}

impl ServiceIdentity {
    /// The identity with each field normalized: the server name falls back to
    /// `gscale-zebra`, the reference to `unknown`, the display name to
    /// `Operator` and the role to `operator`.
    pub fn new(server_name: &str, server_ref: &str, display_name: &str, role: &str) -> (r:
        ServiceIdentity)
        ensures
            r.server_name@ == identity_field(server_name@, APP_ID@),
            r.server_ref@ == identity_field(server_ref@, "unknown"@),
            r.display_name@ == identity_field(display_name@, "Operator"@),
            r.role@ == identity_field(role@, "operator"@),
    {
        ServiceIdentity {
            server_name: normalize(server_name, APP_ID),
            server_ref: normalize(server_ref, "unknown"),
            display_name: normalize(display_name, "Operator"),
            role: normalize(role, "operator"),
        }
    }
}

/// Identity fields are never empty and never hold a line break, whatever the
/// caller gave, as long as the fallback is such a text.
pub proof fn identity_fields_are_single_line(value: Seq<char>, fallback: Seq<char>)
    requires
        fallback.len() > 0,
        forall|i: int| 0 <= i < fallback.len() ==> #[trigger] fallback[i] != '\n' && fallback[i] != '\r',
    ensures
        identity_field(value, fallback).len() > 0,
        forall|i: int|
            0 <= i < identity_field(value, fallback).len() ==> #[trigger] identity_field(value, fallback)[i]
                != '\n' && identity_field(value, fallback)[i] != '\r',
{
}

/// The answer to the mobile app's health probe.
#[derive(Clone, Debug, PartialEq)]
pub struct HealthResponse {
    pub ok: bool,
    pub service: &'static str,
}

impl HealthResponse {
    /// A healthy `mobileapi` service.
    pub fn ok() -> (r: HealthResponse)
        ensures
            r.ok,
            r.service@ == SERVICE_ID@,
    {
        HealthResponse { ok: true, service: SERVICE_ID }
    }
}

/// The HTTP port announced: the given one, or the first default when zero.
pub open spec fn announced_port(port: u16) -> u16 {
    if port == 0 {
        39117
    } else {
        port
    }
}

/// The candidate ports announced: the defaults when none are given, else the
/// given ones without zeros.
pub open spec fn announced_ports(ports: Seq<u16>) -> Seq<u16> {
    if ports.len() == 0 {
        default_ports()
    } else {
        nonzero_ports(ports)
    }
}

fn normalize_port(port: u16) -> (r: u16)
    ensures
        r == announced_port(port),
{
    if port == 0 {
        default_mobile_api_port()
    } else {
        port
    }
}

fn normalize_announced_ports(candidate_ports: Vec<u16>) -> (r: Vec<u16>)
    ensures
        r@ == announced_ports(candidate_ports@),
{
    if candidate_ports.len() == 0 {
        return default_mobile_api_ports();
    }
    let mut kept: Vec<u16> = Vec::new();
    let mut i: usize = 0;
    while i < candidate_ports.len()
        invariant
            i <= candidate_ports@.len(),
            kept@ == nonzero_ports(candidate_ports@.take(i as int)),
        decreases candidate_ports.len() - i,
    {
        assert(candidate_ports@.take(i + 1).drop_last() =~= candidate_ports@.take(i as int));
        if candidate_ports[i] > 0 {
            kept.push(candidate_ports[i]);
        }
        i += 1;
    }
    assert(candidate_ports@.take(i as int) =~= candidate_ports@);
    kept
}

/// What the handshake tells the mobile app about this station.
#[derive(Clone, Debug, PartialEq)]
pub struct HandshakeResponse {
    pub ok: bool,
    pub service: &'static str,
    pub app: &'static str,
    pub server_name: String,
    pub server_ref: String,
    pub display_name: String,
    pub role: String,
    pub phone: String,
    pub http_port: u16,
    pub discovery_port: u16,
    pub candidate_ports: Vec<u16>,
    pub monitor_path: &'static str,
    pub profile_path: &'static str,
    pub items_path: &'static str,
    pub batch_state_path: &'static str,
    pub requires_auth: bool,
}

impl HandshakeResponse {
    /// The handshake for `identity`: the announced HTTP port and candidate
    /// ports, the discovery port, the mobile API paths, and no authentication.
    pub fn new(identity: &ServiceIdentity, http_port: u16, candidate_ports: Vec<u16>) -> (r:
        HandshakeResponse)
        ensures
            r.ok,
            r.service@ == SERVICE_ID@,
            r.app@ == APP_ID@,
            r.server_name == identity.server_name,
            r.server_ref == identity.server_ref,
            r.display_name == identity.display_name,
            r.role == identity.role,
            r.phone@.len() == 0,
            r.http_port == announced_port(http_port),
            r.discovery_port == DEFAULT_DISCOVERY_PORT,
            r.candidate_ports@ == announced_ports(candidate_ports@),
            r.monitor_path@ == "/v1/mobile/monitor/state"@,
            r.profile_path@ == "/v1/mobile/profile"@,
            r.items_path@ == "/v1/mobile/items"@,
            r.batch_state_path@ == "/v1/mobile/batch/state"@,
            !r.requires_auth,
    {
        HandshakeResponse {
            ok: true,
            service: SERVICE_ID,
            app: APP_ID,
            server_name: identity.server_name.clone(),
            server_ref: identity.server_ref.clone(),
            display_name: identity.display_name.clone(),
            role: identity.role.clone(),
            phone: String::new(),
            http_port: normalize_port(http_port),
            discovery_port: DEFAULT_DISCOVERY_PORT,
            candidate_ports: normalize_announced_ports(candidate_ports),
            monitor_path: "/v1/mobile/monitor/state",
            profile_path: "/v1/mobile/profile",
            items_path: "/v1/mobile/items",
            batch_state_path: "/v1/mobile/batch/state",
            requires_auth: false,
        }
    }
}

/// The datagram a station sends so that phones on the network find it.
#[derive(Clone, Debug, PartialEq)]
pub struct DiscoveryAnnouncement {
    pub announcement_type: &'static str,
    pub app: &'static str,
    pub service: &'static str,
    pub server_name: String,
    pub server_ref: String,
    pub display_name: String,
    pub role: String,
    pub http_port: u16,
    pub candidate_ports: Vec<u16>,
}

impl DiscoveryAnnouncement {
    /// The `gscale_announce_v1` announcement for `identity`.
    pub fn new(identity: &ServiceIdentity, http_port: u16, candidate_ports: Vec<u16>) -> (r:
        DiscoveryAnnouncement)
        ensures
            r.announcement_type@ == "gscale_announce_v1"@,
            r.app@ == APP_ID@,
            r.service@ == SERVICE_ID@,
            r.server_name == identity.server_name,
            r.server_ref == identity.server_ref,
            r.display_name == identity.display_name,
            r.role == identity.role,
            r.http_port == announced_port(http_port),
            r.candidate_ports@ == announced_ports(candidate_ports@),
    {
        DiscoveryAnnouncement {
            announcement_type: "gscale_announce_v1",
            app: APP_ID,
            service: SERVICE_ID,
            server_name: identity.server_name.clone(),
            server_ref: identity.server_ref.clone(),
            display_name: identity.display_name.clone(),
            role: identity.role.clone(),
            http_port: normalize_port(http_port),
            candidate_ports: normalize_announced_ports(candidate_ports),
        }
    }
}

proof fn lemma_nonzero_is_filter(s: Seq<u16>, keep: spec_fn(u16) -> bool)
    requires
        forall|p: u16| #[trigger] keep(p) == (p != 0),
    ensures
        nonzero_ports(s) == s.filter(keep),
    decreases s.len(),
{
    reveal(Seq::filter);
    if s.len() > 0 {
        lemma_nonzero_is_filter(s.drop_last(), keep);
        assert(keep(s.last()) == (s.last() != 0));
    }
}

/// The announced candidate ports of a non-empty list are exactly the given
/// ports without the zeros, in the given order: every nonzero given port is
/// announced, as often and where it was given. An empty list announces
/// 39117, 41257, 43391, 45533 and 47681.
pub proof fn announced_ports_keep_every_nonzero_port(ports: Seq<u16>)
    ensures
        ports.len() > 0 ==> announced_ports(ports) == ports.filter(|p: u16| p != 0),
        ports.len() == 0 ==> announced_ports(ports) == seq![39117u16, 41257u16, 43391u16, 45533u16, 47681u16],
{
    lemma_nonzero_is_filter(ports, |p: u16| p != 0);
}

} // verus!
