//! Verified core of the Landscape router services: the DHCPv6 prefix
//! delegation client state machine, the live connection table and the
//! metric queries, the GeoIP cache and the destination, blacklist and static
//! NAT rules built on it, the start decisions of the interface services,
//! interface management, container networking and the configuration file
//! rules.
pub mod cli;
pub mod config_service;
pub mod dhcp_client;
pub mod docker;
pub mod iface;
pub mod metric;
pub mod net;
pub mod service;
pub mod sorting;
pub mod sys_service;
pub mod text;
