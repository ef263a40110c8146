//! Container detection, port mapping and lifecycle control for Docker and
//! Podman daemons.
//!
//! - `types`: protocols and container records.
//! - `port_map`: the map from published `(host_ip, port, protocol)` bindings
//!   to containers.
//! - `lookup`: which container owns a local socket.
//! - `records`: the port map that a daemon's container list amounts to.
//! - `daemon`: which daemons are asked, and how their answers are merged.
//! - `stop`: stopping and killing containers.
//! - `transport`: where the daemons listen.
//! - `http`: the requests sent to a daemon and how its answers are read.
//! - `text`: characters and white space.

pub mod daemon;
pub mod http;
pub mod lookup;
pub mod port_map;
pub mod records;
pub mod stop;
pub mod text;
pub mod transport;
pub mod types;

pub use daemon::{
    merge_daemon_response_bodies, merge_daemon_responses, next_daemon_query, DaemonAnswer, DaemonQuery,
};
pub use lookup::{lookup_published_container, unique_published_container, PublishedContainerMatch};
pub use port_map::{ContainerPortMap, HostIp, PortKey, SocketAddress};
pub use records::{port_map_from_records, ContainerRecord, PublishedPort};
pub use stop::{
    fold_stop_code, interpret_stop_status, is_safe_container_id, stop_container, stop_endpoint,
    StopAction, StopOutcome, StopSearch,
};
pub use types::{ContainerInfo, Protocol};
