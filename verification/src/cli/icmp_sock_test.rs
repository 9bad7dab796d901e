//! Arguments of the router advertisement test program.
use vstd::prelude::*;

verus! {

/// The interface whose delegated prefix is advertised, and the interface
/// the advertisements go out on.
pub struct Args {
    pub depend_iface: String,
    pub iface_name: String,
}

impl Default for Args {
    fn default() -> (r: Self)
        ensures
            r.depend_iface@ == "veth0"@,
            r.iface_name@ == "ens5"@,
    {
        Args { depend_iface: "veth0".to_string(), iface_name: "ens5".to_string() }
    }
}

} // verus!
