//! Client-side building blocks for the Zabbix agent/proxy wire protocol:
//! the length-prefixed binary framing under the JSON payloads, the request
//! envelope, the acknowledgement interpreter, and the configuration
//! reconciliation engine that turns a server's columnar configuration dump
//! into deduplicated sets of hosts and items.
//!
//! All computation here is pure; opening a connection and moving bytes over
//! it is left to the caller.

mod agent;
mod duration;
mod protocol;
mod proxy;
mod request;
mod response;
mod sender;
mod text;

pub use agent::ZabbixAgent;
pub use duration::trans;
pub use protocol::{
    decode, encode, lemma_frame_round_trip, lemma_header_rejection, parse_header, validate_header,
    FrameError, ZabbixProtocol,
};
pub use proxy::{
    get_item, join_host_item, join_item_host, lemma_zero_delay_excluded, reconcile_config,
    CellValue, ConfigData, ConfigFields, ConfigRow, Host, HostItem, Item, ItemHost, Row, RowCell,
    ZabbixProxy,
};
pub use request::{
    DiscoveryEntry, RequestData, ZabbixDiscovery, ZabbixHost, ZabbixMetric, ZabbixRequest,
    AUTO_REGISTRATION, HISTORY_DATA, PROXY_CONFIG, PROXY_HEARTBEAT,
};
pub use response::{InfoCaptures, Response};
pub use sender::ZabbixSender;
