//! A multicast DNS client: it builds the query for a host name, keeps the
//! queries that wait for an answer, matches responses against them, expires
//! them, and decides what its transports do.
pub mod wire;
pub mod querier;
pub mod service;
pub mod registry;

pub use querier::{MdnsError, Query, Querier};
pub use registry::{wait_step, Objects, WaitStep, QUERY_TIMEOUT_MS, WAIT_BOUND_MS};
pub use service::{
    after_wait, after_wake_read, create_service, received, wake_signal, CService, EspIp4Addr,
    EspIp6Addr, EspIpAddr, EspIpUnion, MdnsIf, MdnsIpProtocol, PcbBinding, PcbWrite, Service,
    WaitOutcome, WorkerStep, DATAGRAM_LIMIT, ESP_IPADDR_TYPE_ANY, ESP_IPADDR_TYPE_V4,
    ESP_IPADDR_TYPE_V6, MDNS_GROUP, MDNS_PORT, TICK_MICROS, WAKE_BYTE, WAKE_READ_LIMIT,
};
pub use wire::name_fits;
