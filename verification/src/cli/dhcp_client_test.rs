//! Arguments of the DHCPv4 client test program.
use vstd::prelude::*;

verus! {

/// The interface the DHCPv4 client runs on.
pub struct Args {
    pub iface_name: String,
}

impl Default for Args {
    fn default() -> (r: Self)
        ensures
            r.iface_name@ == "ens4"@,
    {
        proof {
            reveal_strlit("ens4");
        }
        Args { iface_name: "ens4".to_string() }
    }
}

} // verus!
