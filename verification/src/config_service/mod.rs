//! Rule services: the GeoIP cache, destination IP and firewall blacklist
//! rules, DNS redirect events and static NAT mappings.
pub mod geo_cache;
pub mod rules;
pub mod static_nat_mapping;
