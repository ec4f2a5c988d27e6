//! UDP discovery: answering probes and choosing where announcements go.
use vstd::prelude::*;
use vstd::utf8::{decode_utf8, valid_utf8};
use super::config::DEFAULT_DISCOVERY_PORT;
use super::mobile_contract::{DiscoveryAnnouncement, ServiceIdentity, announced_port, announced_ports};
use crate::text::{eq_chars, trim, trimmed_chars};

verus! {

/// The probe a phone broadcasts to find stations.
pub const DISCOVERY_PROBE_V1: &'static str = "GSCALE_DISCOVER_V1";

/// How often a station announces itself, in milliseconds.
pub const DISCOVERY_ANNOUNCE_INTERVAL_MS: u64 = 250;

/// An IPv4 address, held as its 32-bit big-endian value.
#[derive(Clone, Copy, Debug, PartialEq, Eq, Hash, Structural)]
pub struct Ipv4Addr {
    pub bits: u32,
}

/// An IPv4 address with a port.
#[derive(Clone, Copy, Debug, PartialEq, Eq, Hash, Structural)]
pub struct SocketAddrV4 {
    pub ip: Ipv4Addr,
    pub port: u16,
}

impl Ipv4Addr {
    /// `255.255.255.255`, the limited broadcast address.
    pub fn broadcast() -> (r: Ipv4Addr)
        ensures
            r.bits == 0xffff_ffff,
    {
        Ipv4Addr { bits: 0xffff_ffff }
    }

    /// Octet `i` (0 is the first, most significant).
    pub open spec fn octet(self, i: int) -> u8 {
        ((self.bits >> ((24 - 8 * i) as u32)) & 0xff) as u8
    }

    /// The address `a.b.c.d`.
    pub fn new(a: u8, b: u8, c: u8, d: u8) -> (r: Ipv4Addr)
        ensures
            r.octet(0) == a,
            r.octet(1) == b,
            r.octet(2) == c,
            r.octet(3) == d,
    {
        let bits = ((a as u32) << 24u32) | ((b as u32) << 16u32) | ((c as u32) << 8u32) | (d as u32);
        assert((((((a as u32) << 24u32) | ((b as u32) << 16u32) | ((c as u32) << 8u32) | (d as u32))
            >> 24u32) & 0xff) as u8 == a) by (bit_vector);
        assert((((((a as u32) << 24u32) | ((b as u32) << 16u32) | ((c as u32) << 8u32) | (d as u32))
            >> 16u32) & 0xff) as u8 == b) by (bit_vector);
        assert((((((a as u32) << 24u32) | ((b as u32) << 16u32) | ((c as u32) << 8u32) | (d as u32))
            >> 8u32) & 0xff) as u8 == c) by (bit_vector);
        assert((((((a as u32) << 24u32) | ((b as u32) << 16u32) | ((c as u32) << 8u32) | (d as u32))
            >> 0u32) & 0xff) as u8 == d) by (bit_vector);
        Ipv4Addr { bits }
    }
}

impl SocketAddrV4 {
    pub fn new(ip: Ipv4Addr, port: u16) -> (r: SocketAddrV4)
        ensures
            r.ip == ip,
            r.port == port,
    {
        SocketAddrV4 { ip, port }
    }
}

/// Where the discovery socket binds and where announcements go.
#[derive(Clone, Debug, PartialEq, Eq)]
pub struct DiscoverySocketConfig {
    pub bind_addr: SocketAddrV4,
    pub announce_targets: Vec<SocketAddrV4>,
    /// How long a read on the socket waits, in milliseconds.
    pub read_timeout_ms: u64,
}

/// The discovery port: the given one, or 18081 when zero.
pub open spec fn discovery_port_or_default(port: u16) -> u16 {
    if port == 0 {
        DEFAULT_DISCOVERY_PORT
    } else {
        port
    }
}

/// The announcement targets: the broadcast address when none are given, else
/// each given address once, in first-seen order, all on `port`.
pub open spec fn announce_targets_for(targets: Seq<Ipv4Addr>, port: u16) -> Seq<SocketAddrV4> {
    if targets.len() == 0 {
        seq![SocketAddrV4 { ip: Ipv4Addr { bits: 0xffff_ffff }, port }]
    } else {
        distinct_sockets(targets, port)
    }
}

/// Each address of `targets` with `port`, duplicates dropped.
pub open spec fn distinct_sockets(targets: Seq<Ipv4Addr>, port: u16) -> Seq<SocketAddrV4>
    decreases targets.len(),
{
    if targets.len() == 0 {
        Seq::empty()
    } else {
        let out = distinct_sockets(targets.drop_last(), port);
        let s = SocketAddrV4 { ip: targets.last(), port };
        if out.contains(s) {
            out
        } else {
            out.push(s)
        }
    }
}

fn contains_socket(v: &Vec<SocketAddrV4>, x: SocketAddrV4) -> (r: bool)
    ensures
        r == v@.contains(x),
{
    let mut i: usize = 0;
    while i < v.len()
        invariant
            i <= v@.len(),
            forall|j: int| 0 <= j < i ==> v@[j] != x,
        decreases v.len() - i,
    {
        if v[i] == x {
            return true;
        }
        i += 1;
    }
    false
}

fn normalize_announce_targets(announce_targets: Vec<Ipv4Addr>, discovery_port: u16) -> (r: Vec<
    SocketAddrV4,
>)
    ensures
        r@ == announce_targets_for(announce_targets@, discovery_port),
{
    if announce_targets.len() == 0 {
        let r = vec![SocketAddrV4 { ip: Ipv4Addr::broadcast(), port: discovery_port }];
        assert(r@ =~= announce_targets_for(announce_targets@, discovery_port));
        return r;
    }
    let mut out: Vec<SocketAddrV4> = Vec::new();
    let mut i: usize = 0;
    while i < announce_targets.len()
        invariant
            i <= announce_targets@.len(),
            out@ == distinct_sockets(announce_targets@.take(i as int), discovery_port),
        decreases announce_targets.len() - i,
    {
        assert(announce_targets@.take(i + 1).drop_last() =~= announce_targets@.take(i as int));
        let socket = SocketAddrV4 { ip: announce_targets[i], port: discovery_port };
        if !contains_socket(&out, socket) {
            out.push(socket);
        }
        i += 1;
    }
    assert(announce_targets@.take(i as int) =~= announce_targets@);
    out
}

impl DiscoverySocketConfig {
    /// Binds on `bind_ip` at the discovery port (18081 when zero), announces
    /// to the given addresses (the broadcast address when none), and waits
    /// 250 ms per read.
    pub fn new(bind_ip: Ipv4Addr, discovery_port: u16, announce_targets: Vec<Ipv4Addr>) -> (r:
        DiscoverySocketConfig)
        ensures
            r.bind_addr == (SocketAddrV4 { ip: bind_ip, port: discovery_port_or_default(discovery_port) }),
            r.announce_targets@ == announce_targets_for(
                announce_targets@,
                discovery_port_or_default(discovery_port),
            ),
            r.read_timeout_ms == 250,
    {
        let port = if discovery_port == 0 {
            DEFAULT_DISCOVERY_PORT
        } else {
            discovery_port
        };
        let announce_targets = normalize_announce_targets(announce_targets, port);
        DiscoverySocketConfig {
            bind_addr: SocketAddrV4 { ip: bind_ip, port },
            announce_targets,
            read_timeout_ms: 250,
        }
    }
}

/// Decodes UTF-8 with `std::str::from_utf8`: the text when the bytes are
/// valid UTF-8, else `None`. Trusted: `Ok` exactly on valid UTF-8 and the
/// text is the decoding, as the standard library documents.
#[verifier::external_body]
fn utf8_text(bytes: &[u8]) -> (r: Option<&str>)
    ensures
        r is Some <==> valid_utf8(bytes@),
        r matches Some(s) ==> s@ == decode_utf8(bytes@),
{
    std::str::from_utf8(bytes).ok()
}

/// Whether a packet is the discovery probe: valid UTF-8 that, trimmed, is
/// exactly `GSCALE_DISCOVER_V1`.
pub open spec fn is_probe_packet(packet: Seq<u8>) -> bool {
    valid_utf8(packet) && trim(decode_utf8(packet)) == DISCOVERY_PROBE_V1@
}

/// Whether `packet` is the discovery probe, white space around it allowed.
pub fn is_discovery_probe(packet: &[u8]) -> (r: bool)
    ensures
        r == is_probe_packet(packet@),
{
    match utf8_text(packet) {
        Some(text) => {
            let t = trimmed_chars(text);
            eq_chars(&t, DISCOVERY_PROBE_V1)
        },
        None => false,
    }
}

/// The announcement that answers a discovery probe; `None` for any other
/// packet. (The library leaves turning it into JSON to the caller.)
pub fn discovery_response_for_packet(
    packet: &[u8],
    identity: &ServiceIdentity,
    http_port: u16,
    candidate_ports: Vec<u16>,
) -> (r: Option<DiscoveryAnnouncement>)
    ensures
        r is Some <==> is_probe_packet(packet@),
        r matches Some(a) ==> a.server_name == identity.server_name && a.server_ref
            == identity.server_ref && a.display_name == identity.display_name && a.role
            == identity.role && a.http_port == announced_port(http_port) && a.candidate_ports@
            == announced_ports(candidate_ports@) && a.announcement_type@ == "gscale_announce_v1"@,
{
    if !is_discovery_probe(packet) {
        return None;
    }
    Some(DiscoveryAnnouncement::new(identity, http_port, candidate_ports))
}

/// Whether an address lies in a private IPv4 range: 10.0.0.0/8,
/// 172.16.0.0/12 or 192.168.0.0/16.
pub open spec fn is_private(ip: Ipv4Addr) -> bool {
    ip.octet(0) == 10 || (ip.octet(0) == 172 && 16 <= ip.octet(1) <= 31) || (ip.octet(0) == 192
        && ip.octet(1) == 168)
}

fn is_private_ipv4(ip: Ipv4Addr) -> (r: bool)
    ensures
        r == is_private(ip),
{
    let a = ((ip.bits >> 24u32) & 0xff) as u8;
    let b = ((ip.bits >> 16u32) & 0xff) as u8;
    a == 10 || (a == 172 && 16 <= b && b <= 31) || (a == 192 && b == 168)
}

/// The broadcast address of the network of `ip` under `mask`.
pub open spec fn broadcast_of(ip: Ipv4Addr, mask: Ipv4Addr) -> Ipv4Addr {
    Ipv4Addr { bits: ip.bits | !mask.bits }
}

fn ipv4_broadcast(ip: Ipv4Addr, mask: Ipv4Addr) -> (r: Ipv4Addr)
    ensures
        r == broadcast_of(ip, mask),
{
    Ipv4Addr { bits: ip.bits | !mask.bits }
}

/// The announcement targets for the host's networks: the limited broadcast
/// address first, then the broadcast address of each private network, each
/// once, all on `port`.
pub open spec fn broadcast_targets(networks: Seq<(Ipv4Addr, Ipv4Addr)>, port: u16) -> Seq<
    SocketAddrV4,
>
    decreases networks.len(),
{
    if networks.len() == 0 {
        seq![SocketAddrV4 { ip: Ipv4Addr { bits: 0xffff_ffff }, port }]
    } else {
        let out = broadcast_targets(networks.drop_last(), port);
        let (ip, mask) = networks.last();
        let target = SocketAddrV4 { ip: broadcast_of(ip, mask), port };
        if !is_private(ip) || out.contains(target) {
            out
        } else {
            out.push(target)
        }
    }
}

/// The announcement targets for the host's IPv4 networks (address, mask):
/// `255.255.255.255` and the broadcast address of each private network, on
/// the discovery port (18081 when zero).
pub fn broadcast_targets_from_ipv4_networks(networks: &[(Ipv4Addr, Ipv4Addr)], discovery_port: u16) -> (r:
    Vec<SocketAddrV4>)
    ensures
        r@ == broadcast_targets(networks@, discovery_port_or_default(discovery_port)),
{
    let port = if discovery_port == 0 {
        DEFAULT_DISCOVERY_PORT
    } else {
        discovery_port
    };
    let mut targets = vec![SocketAddrV4 { ip: Ipv4Addr::broadcast(), port }];
    assert(targets@ =~= broadcast_targets(networks@.take(0), port));
    let mut i: usize = 0;
    while i < networks.len()
        invariant
            i <= networks@.len(),
            targets@ == broadcast_targets(networks@.take(i as int), port),
        decreases networks.len() - i,
    {
        assert(networks@.take(i + 1).drop_last() =~= networks@.take(i as int));
        let (ip, mask) = networks[i];
        if is_private_ipv4(ip) {
            let target = SocketAddrV4 { ip: ipv4_broadcast(ip, mask), port };
            if !contains_socket(&targets, target) {
                targets.push(target);
            }
        }
        i += 1;
    }
    assert(networks@.take(i as int) =~= networks@);
    targets
}

/// The broadcast targets start with the limited broadcast address, never
/// repeat, and every other target is the broadcast address of a private
/// network the host is on.
pub proof fn broadcast_targets_shape(networks: Seq<(Ipv4Addr, Ipv4Addr)>, port: u16)
    ensures
        broadcast_targets(networks, port).len() > 0,
        broadcast_targets(networks, port)[0] == (SocketAddrV4 { ip: Ipv4Addr { bits: 0xffff_ffff }, port }),
        forall|i: int, j: int|
            0 <= i < j < broadcast_targets(networks, port).len() ==> #[trigger] broadcast_targets(
                networks,
                port,
            )[i] != #[trigger] broadcast_targets(networks, port)[j],
        forall|i: int|
            #![trigger broadcast_targets(networks, port)[i]]
            0 < i < broadcast_targets(networks, port).len() ==> exists|k: int|
                0 <= k < networks.len() && is_private(#[trigger] networks[k].0)
                    && broadcast_targets(networks, port)[i] == (SocketAddrV4 {
                    ip: broadcast_of(networks[k].0, networks[k].1),
                    port,
                }),
    decreases networks.len(),
{
    if networks.len() > 0 {
        let rest = networks.drop_last();
        broadcast_targets_shape(rest, port);
        let out = broadcast_targets(rest, port);
        let (ip, mask) = networks.last();
        let target = SocketAddrV4 { ip: broadcast_of(ip, mask), port };
        let all = broadcast_targets(networks, port);
        assert(all[0] == out[0]);
        assert forall|i: int, j: int| 0 <= i < j < all.len() implies #[trigger] all[i] != #[trigger] all[j] by {
            if j < out.len() {
                assert(all[i] == out[i] && all[j] == out[j]);
            } else {
                assert(all[i] == out[i]);
            }
        }
        assert forall|i: int| #![trigger all[i]] 0 < i < all.len() implies exists|k: int|
            0 <= k < networks.len() && is_private(#[trigger] networks[k].0) && all[i] == (SocketAddrV4 {
                ip: broadcast_of(networks[k].0, networks[k].1),
                port,
            }) by {
            if i < out.len() {
                let k = choose|k: int|
                    0 <= k < rest.len() && is_private(#[trigger] rest[k].0) && out[i] == (SocketAddrV4 {
                        ip: broadcast_of(rest[k].0, rest[k].1),
                        port,
                    });
                assert(networks[k] == rest[k]);
                assert(all[i] == out[i]);
            } else {
                assert(networks[networks.len() - 1] == networks.last());
            }
        }
    }
}

/// Every network whose address is private (first octet 10; first octet 172
/// with second octet 16 to 31; or 192.168) contributes its broadcast address
/// (the address with every host bit of the mask set) to the announcement
/// targets, whatever the other networks are.
pub proof fn private_networks_are_announced(networks: Seq<(Ipv4Addr, Ipv4Addr)>, port: u16, k: int)
    requires
        0 <= k < networks.len(),
        networks[k].0.octet(0) == 10 || (networks[k].0.octet(0) == 172 && 16 <= networks[k].0.octet(1)
            <= 31) || (networks[k].0.octet(0) == 192 && networks[k].0.octet(1) == 168),
    ensures
        broadcast_targets(networks, port).contains(
            SocketAddrV4 { ip: Ipv4Addr { bits: networks[k].0.bits | !networks[k].1.bits }, port },
        ),
    decreases networks.len(),
{
    let rest = networks.drop_last();
    let out = broadcast_targets(rest, port);
    let all = broadcast_targets(networks, port);
    let target = SocketAddrV4 { ip: Ipv4Addr { bits: networks[k].0.bits | !networks[k].1.bits }, port };
    if k < networks.len() - 1 {
        assert(rest[k] == networks[k]);
        private_networks_are_announced(rest, port, k);
        let j = choose|j: int| 0 <= j < out.len() && out[j] == target;
        assert(all[j] == out[j]);
    } else {
        assert(networks.last() == networks[k]);
        if out.contains(target) {
            let j = choose|j: int| 0 <= j < out.len() && out[j] == target;
            assert(all[j] == out[j]);
        } else {
            assert(all[out.len() as int] == target);
        }
    }
}

/// The announcement targets are never empty and never repeat.
pub proof fn announce_targets_are_distinct(targets: Seq<Ipv4Addr>, port: u16)
    ensures
        announce_targets_for(targets, port).len() > 0,
        forall|i: int, j: int|
            0 <= i < j < announce_targets_for(targets, port).len() ==> #[trigger] announce_targets_for(
                targets,
                port,
            )[i] != #[trigger] announce_targets_for(targets, port)[j],
{
    if targets.len() > 0 {
        lemma_distinct_sockets(targets, port);
    }
}

proof fn lemma_distinct_sockets(targets: Seq<Ipv4Addr>, port: u16)
    ensures
        targets.len() > 0 ==> distinct_sockets(targets, port).len() > 0,
        forall|i: int, j: int|
            0 <= i < j < distinct_sockets(targets, port).len() ==> #[trigger] distinct_sockets(
                targets,
                port,
            )[i] != #[trigger] distinct_sockets(targets, port)[j],
    decreases targets.len(),
{
    if targets.len() > 0 {
        lemma_distinct_sockets(targets.drop_last(), port);
        let out = distinct_sockets(targets.drop_last(), port);
        let all = distinct_sockets(targets, port);
        if out.len() > 0 {
            assert(out.contains(out[0]));
        }
        assert forall|i: int, j: int| 0 <= i < j < all.len() implies #[trigger] all[i] != #[trigger] all[j] by {
            if j < out.len() {
                assert(all[i] == out[i] && all[j] == out[j]);
            } else {
                assert(all[i] == out[i]);
            }
        }
    }
}

} // verus!
