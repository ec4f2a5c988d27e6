use rp_scale::service::listen::port_from_listen_addr;
use rp_scale::service::{
    DEFAULT_MOBILE_API_PORTS, MobileServiceConfig, default_mobile_api_port, parse_candidate_ports,
    select_listen_addr,
};

#[test]
fn parses_candidate_ports_like_gscale_mobileapi() {
    assert_eq!(parse_candidate_ports("39117, 41257, bad, 41257, 0"), vec![39117, 41257]);
    assert_eq!(parse_candidate_ports("bad"), DEFAULT_MOBILE_API_PORTS);
}

#[test]
fn explicit_listen_addr_wins() {
    assert_eq!(
        select_listen_addr("0.0.0.0:8081", "127.0.0.1", &[39117], &|_: &str| false),
        "0.0.0.0:8081"
    );
}

#[test]
fn chooses_first_free_candidate_port() {
    let busy_port: u16 = 39117;
    let free_port: u16 = 41257;
    let busy_addr = format!("127.0.0.1:{busy_port}");
    let is_free = |addr: &str| addr != busy_addr;

    assert_eq!(
        select_listen_addr("", "127.0.0.1", &[busy_port, free_port], &is_free),
        format!("127.0.0.1:{free_port}")
    );
}

#[test]
fn config_exposes_http_and_discovery_ports() {
    let cfg = MobileServiceConfig::new("127.0.0.1", "127.0.0.1:41257", vec![], "", &|_: &str| true);

    assert_eq!(cfg.http_port(), 41257);
    assert_eq!(cfg.discovery_addr, "0.0.0.0:18081");
    assert_eq!(cfg.server_name, "gscale-zebra");
    assert_eq!(cfg.candidate_ports, DEFAULT_MOBILE_API_PORTS);
}

#[test]
fn falls_back_to_first_candidate_when_none_is_free() {
    assert_eq!(select_listen_addr(" ", "", &[0, 45533, 45533], &|_: &str| false), "0.0.0.0:45533");
    assert_eq!(select_listen_addr("", " host ", &[], &|_: &str| false), "host:39117");
}

#[test]
fn parses_ports_like_str_parse() {
    assert_eq!(parse_candidate_ports("+80,080,65535,65536,-1,,"), vec![80, 65535]);
    assert_eq!(parse_candidate_ports(""), DEFAULT_MOBILE_API_PORTS);
    assert_eq!(parse_candidate_ports("0,0"), DEFAULT_MOBILE_API_PORTS);
}

#[test]
fn reads_port_from_listen_addr() {
    assert_eq!(port_from_listen_addr(" 0.0.0.0:39117 "), Some(39117));
    assert_eq!(port_from_listen_addr(":8080"), Some(8080));
    assert_eq!(port_from_listen_addr("[::1]:443"), Some(443));
    assert_eq!(port_from_listen_addr("host:0"), None);
    assert_eq!(port_from_listen_addr("host"), None);
    assert_eq!(port_from_listen_addr(""), None);
    assert_eq!(port_from_listen_addr("::1:80"), None);
}

#[test]
fn config_normalizes_host_ports_and_name() {
    let cfg = MobileServiceConfig::new("  ", "", vec![0, 47681, 47681], " station ", &|_: &str| true);

    assert_eq!(cfg.listen_host, "0.0.0.0");
    assert_eq!(cfg.candidate_ports, vec![47681]);
    assert_eq!(cfg.listen_addr, "0.0.0.0:47681");
    assert_eq!(cfg.http_port(), 47681);
    assert_eq!(cfg.server_name, "station");
    assert_eq!(default_mobile_api_port(), 39117);
}

#[test]
fn http_port_defaults_when_listen_addr_has_none() {
    let cfg = MobileServiceConfig::new("h", "unix-socket", vec![], "", &|_: &str| true);
    assert_eq!(cfg.listen_addr, "unix-socket");
    assert_eq!(cfg.http_port(), 39117);
}

#[test]
fn host_and_port_read_back_for_blank_and_padded_hosts() {
    for host in ["", "   ", " 127.0.0.1 ", "\tscale.local", "127.0.0.1"] {
        assert_eq!(port_from_listen_addr(&format!("{host}:41257")), Some(41257));
        assert_eq!(port_from_listen_addr(&format!("{host}:0")), None);
    }
}
