use rp_scale::service::{
    APP_ID, DiscoveryAnnouncement, HandshakeResponse, HealthResponse, SERVICE_ID, ServiceIdentity,
};

fn identity() -> ServiceIdentity {
    ServiceIdentity::new("rp-scale", "dev-operator", "Operator One", "admin")
}

#[test]
fn builds_gscale_compatible_handshake_shape() {
    let handshake = HandshakeResponse::new(&identity(), 39117, vec![39117, 41257]);

    assert!(handshake.ok);
    assert_eq!(handshake.service, "mobileapi");
    assert_eq!(handshake.app, "gscale-zebra");
    assert_eq!(handshake.server_name, "rp-scale");
    assert_eq!(handshake.discovery_port, 18081);
    assert_eq!(handshake.monitor_path, "/v1/mobile/monitor/state");
    assert!(!handshake.requires_auth);
}

#[test]
fn health_response_matches_mobile_fallback_probe() {
    assert_eq!(HealthResponse::ok().service, "mobileapi");
}

#[test]
fn identity_fields_fall_back_and_stay_on_one_line() {
    let id = ServiceIdentity::new("  ", "a\r\nb", "\n", " x ");

    assert_eq!(id.server_name, APP_ID);
    assert_eq!(id.server_ref, "a  b");
    assert_eq!(id.display_name, "Operator");
    assert_eq!(id.role, "x");
    let id = ServiceIdentity::new("", "", "", "");
    assert_eq!(id.server_ref, "unknown");
    assert_eq!(id.role, "operator");
}

#[test]
fn announcement_normalizes_ports() {
    let a = DiscoveryAnnouncement::new(&identity(), 0, vec![]);
    assert_eq!(a.http_port, 39117);
    assert_eq!(a.candidate_ports, vec![39117, 41257, 43391, 45533, 47681]);
    assert_eq!(a.app, APP_ID);
    assert_eq!(a.service, SERVICE_ID);

    let a = DiscoveryAnnouncement::new(&identity(), 5, vec![0, 7, 0]);
    assert_eq!(a.http_port, 5);
    assert_eq!(a.candidate_ports, vec![7]);
    let h = HandshakeResponse::new(&identity(), 0, vec![0]);
    assert!(h.candidate_ports.is_empty());
    assert_eq!(h.http_port, 39117);
    assert_eq!(h.phone, "");
    assert_eq!(h.profile_path, "/v1/mobile/profile");
    assert_eq!(h.items_path, "/v1/mobile/items");
    assert_eq!(h.batch_state_path, "/v1/mobile/batch/state");
}
