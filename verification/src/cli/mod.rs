//! The arguments of the test programs that drive the clients and servers
//! against real interfaces, with their defaults.
pub mod dhcp_client_test;
pub mod dhcp_v6_pd_test;
pub mod icmp_sock_test;
