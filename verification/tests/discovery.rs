use rp_scale::service::discovery::{
    Ipv4Addr, SocketAddrV4, broadcast_targets_from_ipv4_networks, is_discovery_probe,
};
use rp_scale::service::{DiscoverySocketConfig, ServiceIdentity, discovery_response_for_packet};

fn identity() -> ServiceIdentity {
    ServiceIdentity::new("rp-scale", "dev-operator", "Operator One", "admin")
}

#[test]
fn recognizes_exact_gscale_probe_with_whitespace() {
    assert!(is_discovery_probe(b"GSCALE_DISCOVER_V1"));
    assert!(is_discovery_probe(b" GSCALE_DISCOVER_V1\n"));
    assert!(!is_discovery_probe(b"GSCALE_DISCOVER_V2"));
    assert!(!is_discovery_probe(&[0xff, 0xfe]));
}

#[test]
fn returns_announcement_only_for_probe_packet() {
    let response =
        discovery_response_for_packet(b"GSCALE_DISCOVER_V1", &identity(), 39117, vec![39117])
            .unwrap();

    assert_eq!(response.announcement_type, "gscale_announce_v1");
    assert_eq!(response.service, "mobileapi");
    assert_eq!(response.server_name, "rp-scale");
    assert_eq!(response.http_port, 39117);
    assert!(discovery_response_for_packet(b"unknown", &identity(), 39117, vec![]).is_none());
}

#[test]
fn computes_broadcast_targets_like_gscale_mobileapi() {
    let targets = broadcast_targets_from_ipv4_networks(
        &[
            (Ipv4Addr::new(192, 168, 1, 10), Ipv4Addr::new(255, 255, 255, 0)),
            (Ipv4Addr::new(10, 42, 0, 80), Ipv4Addr::new(255, 255, 0, 0)),
            (Ipv4Addr::new(8, 8, 8, 8), Ipv4Addr::new(255, 255, 255, 0)),
        ],
        18081,
    );

    assert!(targets.contains(&SocketAddrV4::new(Ipv4Addr::new(255, 255, 255, 255), 18081)));
    assert!(targets.contains(&SocketAddrV4::new(Ipv4Addr::new(192, 168, 1, 255), 18081)));
    assert!(targets.contains(&SocketAddrV4::new(Ipv4Addr::new(10, 42, 255, 255), 18081)));
    assert_eq!(targets.len(), 3);
}

#[test]
fn socket_config_defaults_to_gscale_discovery_port_and_broadcast() {
    let config = DiscoverySocketConfig::new(Ipv4Addr::new(0, 0, 0, 0), 0, vec![]);

    assert_eq!(config.bind_addr, SocketAddrV4::new(Ipv4Addr::new(0, 0, 0, 0), 18081));
    assert_eq!(
        config.announce_targets,
        vec![SocketAddrV4::new(Ipv4Addr::new(255, 255, 255, 255), 18081)]
    );
}

#[test]
fn socket_config_keeps_each_target_once() {
    let a = Ipv4Addr::new(192, 168, 1, 255);
    let b = Ipv4Addr::new(10, 0, 0, 255);
    let config = DiscoverySocketConfig::new(Ipv4Addr::new(127, 0, 0, 1), 5000, vec![a, b, a]);

    assert_eq!(config.bind_addr.port, 5000);
    assert_eq!(config.announce_targets, vec![SocketAddrV4::new(a, 5000), SocketAddrV4::new(b, 5000)]);
    assert_eq!(config.read_timeout_ms, 250);
}

#[test]
fn broadcast_targets_skip_public_and_repeated_networks() {
    let targets = broadcast_targets_from_ipv4_networks(
        &[
            (Ipv4Addr::new(172, 16, 5, 4), Ipv4Addr::new(255, 240, 0, 0)),
            (Ipv4Addr::new(172, 31, 9, 9), Ipv4Addr::new(255, 240, 0, 0)),
            (Ipv4Addr::new(172, 32, 0, 1), Ipv4Addr::new(255, 255, 0, 0)),
        ],
        0,
    );

    assert_eq!(
        targets,
        vec![
            SocketAddrV4::new(Ipv4Addr::new(255, 255, 255, 255), 18081),
            SocketAddrV4::new(Ipv4Addr::new(172, 31, 255, 255), 18081),
        ]
    );
}
