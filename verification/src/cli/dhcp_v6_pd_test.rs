//! Arguments of the DHCPv6 prefix delegation test program.
use vstd::prelude::*;

verus! {

/// The interface the delegation client runs on, the MAC address it
/// identifies itself by, and the interface router advertisement runs on.
pub struct Args {
    pub dhcp_client_iface: String,
    pub mac: String,
    pub icmp_ra_iface: String,
}

impl Default for Args {
    fn default() -> (r: Self)
        ensures
            r.dhcp_client_iface@ == "ens6"@,
            r.mac@ == "00:a0:98:39:32:f0"@,
            r.icmp_ra_iface@ == "veth0"@,
    {
        Args {
            dhcp_client_iface: "ens6".to_string(),
            mac: "00:a0:98:39:32:f0".to_string(),
            icmp_ra_iface: "veth0".to_string(),
        }
    }
}

} // verus!
