//! The DHCPv6 prefix delegation client: its messages and its states.
pub mod packet;
pub mod v6;
