//! The mobile service: configuration, discovery and the mobile API contract.
pub mod config;
pub mod discovery;
pub mod listen;
pub mod mobile_contract;
pub mod monitor;
pub mod ports;

pub use config::{
    DEFAULT_DISCOVERY_PORT, DEFAULT_MOBILE_API_PORTS, MobileServiceConfig, default_mobile_api_port,
};
pub use listen::{port_from_listen_addr, select_listen_addr};
pub use ports::parse_candidate_ports;
pub use discovery::{
    DISCOVERY_ANNOUNCE_INTERVAL_MS, DISCOVERY_PROBE_V1, DiscoverySocketConfig,
    discovery_response_for_packet,
};
pub use mobile_contract::{
    APP_ID, DiscoveryAnnouncement, HandshakeResponse, HealthResponse, SERVICE_ID, ServiceIdentity,
};
