//! Interface management: how the stored configurations are matched to the
//! live devices, and how each change to an interface rewrites its stored
//! configuration and what it asks of the system.
use vstd::prelude::*;
use vstd::string::StrSliceExecFns;

verus! {

/// The zone an interface belongs to.
#[derive(Clone, Copy, PartialEq, Eq, Structural, Debug)]
pub enum IfaceZoneType {
    Undefined,
    Wan,
    Lan,
}

/// The mode of a wireless interface.
#[derive(Clone, Copy, PartialEq, Eq, Structural, Debug)]
pub enum WifiMode {
    Undefined,
    Client,
    AP,
}

/// Whether an interface has to be created.
#[derive(Clone, Copy, PartialEq, Eq, Structural, Debug)]
pub enum CreateDevType {
    NoNeedToCreate,
    Bridge,
}

/// The CPU masks of the transmit (XPS) and receive (RPS) queues.
pub struct IfaceCpuSoftBalance {
    pub xps: String,
    pub rps: String,
}

/// The stored configuration of an interface.
pub struct NetworkIfaceConfig {
    pub name: String,
    pub create_dev_type: CreateDevType,
    pub controller_name: Option<String>,
    pub zone_type: IfaceZoneType,
    pub enable_in_boot: bool,
    pub wifi_mode: WifiMode,
    pub xps_rps: Option<IfaceCpuSoftBalance>,
}

// ---------------------------------------------------------------------------
// Matching configurations to devices.
// ---------------------------------------------------------------------------

/// The position of the last configuration of a name: the one that stands
/// for the name when configurations are keyed by name.
pub open spec fn last_named(names: Seq<String>, n: Seq<char>) -> Option<int>
    decreases names.len(),
{
    if names.len() == 0 {
        None
    } else if names.last()@ == n {
        Some(names.len() - 1)
    } else {
        last_named(names.drop_last(), n)
    }
}

proof fn lemma_last_named_bounds(names: Seq<String>, n: Seq<char>)
    ensures
        last_named(names, n) matches Some(j) ==> 0 <= j < names.len() && names[j]@ == n,
    decreases names.len(),
{
    if names.len() > 0 {
        lemma_last_named_bounds(names.drop_last(), n);
    }
}

/// Whether a device before position `i` that is looked at has the same
/// name, and so has taken the configuration of that name already.
pub open spec fn taken_before(devs: Seq<String>, looked: Seq<bool>, i: int) -> bool {
    exists|k: int| 0 <= k < i && looked[k] && (#[trigger] devs[k])@ == devs[i]@
}

/// The configuration of the device at position `i`: the last one of its
/// name, unless an earlier device of the same name took it.
pub open spec fn device_config(configs: Seq<String>, devs: Seq<String>, looked: Seq<bool>, i: int) -> Option<int> {
    if taken_before(devs, looked, i) {
        None
    } else {
        match last_named(configs, devs[i]@) {
            Some(j) => Some(j),
            None => None,
        }
    }
}

fn find_last_named(names: &Vec<String>, n: &String) -> (r: Option<usize>)
    ensures
        match r {
            Some(j) => last_named(names@, n@) == Some(j as int),
            None => last_named(names@, n@).is_none(),
        },
{
    let mut i: usize = names.len();
    assert(names@.take(i as int) =~= names@);
    while i > 0
        invariant
            i <= names.len(),
            last_named(names@, n@) == last_named(names@.take(i as int), n@),
        decreases i,
    {
        let ghost t = names@.take(i as int);
        assert(t.last() == names@[i - 1]);
        assert(t.drop_last() =~= names@.take(i - 1));
        if names[i - 1] == *n {
            return Some(i - 1);
        }
        i = i - 1;
    }
    None
}

fn is_taken(devs: &Vec<String>, looked: &Vec<bool>, i: usize) -> (r: bool)
    requires
        i < devs.len(),
        looked.len() == devs.len(),
    ensures
        r == taken_before(devs@, looked@, i as int),
{
    let mut k: usize = 0;
    while k < i
        invariant
            k <= i < devs.len(),
            looked.len() == devs.len(),
            forall|m: int| 0 <= m < k ==> !(looked@[m] && (#[trigger] devs@[m])@ == devs@[i as int]@),
        decreases i - k,
    {
        if looked[k] && devs[k] == devs[i] {
            return true;
        }
        k = k + 1;
    }
    false
}

/// For each device, the configuration it is shown with (see
/// `device_config`); devices that are not looked at get none and take none.
pub fn match_devices(configs: &Vec<String>, devs: &Vec<String>, looked: &Vec<bool>) -> (r: Vec<Option<usize>>)
    requires
        looked.len() == devs.len(),
    ensures
        r.len() == devs.len(),
        forall|i: int| 0 <= i < devs.len() ==> (#[trigger] r@[i]) == if looked@[i] {
            match device_config(configs@, devs@, looked@, i) {
                Some(j) => Some(j as usize),
                None => None,
            }
        } else {
            None
        },
{
    let mut r: Vec<Option<usize>> = Vec::new();
    let mut i: usize = 0;
    while i < devs.len()
        invariant
            i <= devs.len(),
            looked.len() == devs.len(),
            r.len() == i,
            forall|m: int| 0 <= m < i ==> (#[trigger] r@[m]) == if looked@[m] {
                match device_config(configs@, devs@, looked@, m) {
                    Some(j) => Some(j as usize),
                    None => None,
                }
            } else {
                None
            },
        decreases devs.len() - i,
    {
        if !looked[i] || is_taken(devs, looked, i) {
            r.push(None);
        } else {
            r.push(find_last_named(configs, &devs[i]));
        }
        i = i + 1;
    }
    r
}

/// The interfaces as configured and as found: for each device in order,
/// its position and the configuration it is managed by, or its position
/// among the unmanaged ones; and, by device position, the wireless device
/// information attached to it.
pub struct IfacesMatch {
    pub managed: Vec<(usize, usize)>,
    pub unmanaged: Vec<usize>,
    pub wifi: Vec<Option<usize>>,
}

/// Splits the devices into those managed by a stored configuration (the
/// last one of their name, taken by the first device of that name) and the
/// others, each list in device order; each device, managed or not, carries
/// the wireless information of its name (`wifis`, the wireless devices by
/// name), which goes to the first device of that name only.
pub fn read_ifaces(configs: &Vec<String>, devs: &Vec<String>, wifis: &Vec<String>) -> (r: IfacesMatch)
    ensures
        r.wifi.len() == devs.len(),
        forall|d: int| 0 <= d < devs.len() ==> (#[trigger] r.wifi@[d]) == match device_config(wifis@, devs@, Seq::new(devs@.len(), |i: int| true), d) {
            Some(j) => Some(j as usize),
            None => None,
        },
        forall|k: int| 0 <= k < r.managed.len() ==> {
            let (d, c) = #[trigger] r.managed@[k];
            d < devs.len() && device_config(configs@, devs@, Seq::new(devs@.len(), |i: int| true), d as int) == Some(c as int)
        },
        forall|k: int| 0 <= k < r.unmanaged.len() ==> {
            let d = #[trigger] r.unmanaged@[k];
            d < devs.len() && device_config(configs@, devs@, Seq::new(devs@.len(), |i: int| true), d as int).is_none()
        },
        r.managed.len() + r.unmanaged.len() == devs.len(),
        forall|k1: int, k2: int| 0 <= k1 < k2 < r.managed.len() ==> (#[trigger] r.managed@[k1]).0 < (#[trigger] r.managed@[k2]).0,
        forall|k1: int, k2: int| 0 <= k1 < k2 < r.unmanaged.len() ==> (#[trigger] r.unmanaged@[k1]) < (#[trigger] r.unmanaged@[k2]),
{
    let mut looked: Vec<bool> = Vec::new();
    let mut i: usize = 0;
    while i < devs.len()
        invariant
            i <= devs.len(),
            looked.len() == i,
            forall|m: int| 0 <= m < i ==> #[trigger] looked@[m],
        decreases devs.len() - i,
    {
        looked.push(true);
        i = i + 1;
    }
    assert(looked@ =~= Seq::new(devs@.len(), |i: int| true));
    let m = match_devices(configs, devs, &looked);
    let mut managed: Vec<(usize, usize)> = Vec::new();
    let mut unmanaged: Vec<usize> = Vec::new();
    let mut i: usize = 0;
    while i < devs.len()
        invariant
            i <= devs.len(),
            m.len() == devs.len(),
            looked@ =~= Seq::new(devs@.len(), |i: int| true),
            forall|x: int| 0 <= x < devs.len() ==> (#[trigger] m@[x]) == match device_config(configs@, devs@, looked@, x) {
                Some(j) => Some(j as usize),
                None => None,
            },
            managed.len() + unmanaged.len() == i,
            forall|k: int| 0 <= k < managed.len() ==> {
                let (d, c) = #[trigger] managed@[k];
                d < i && device_config(configs@, devs@, looked@, d as int) == Some(c as int)
            },
            forall|k: int| 0 <= k < unmanaged.len() ==> {
                let d = #[trigger] unmanaged@[k];
                d < i && device_config(configs@, devs@, looked@, d as int).is_none()
            },
            forall|k1: int, k2: int| 0 <= k1 < k2 < managed.len() ==> (#[trigger] managed@[k1]).0 < (#[trigger] managed@[k2]).0,
            forall|k1: int, k2: int| 0 <= k1 < k2 < unmanaged.len() ==> (#[trigger] unmanaged@[k1]) < (#[trigger] unmanaged@[k2]),
        decreases devs.len() - i,
    {
        assert(looked@[i as int]);
        match m[i] {
            Some(c) => {
                proof {
                    lemma_last_named_bounds(configs@, devs@[i as int]@);
                    let dc = device_config(configs@, devs@, looked@, i as int);
                    assert(dc is Some);
                    let j = dc->0;
                    assert(0 <= j < configs.len());
                    assert(m@[i as int] == Some(j as usize));
                    assert(j == c);
                }
                managed.push((i, c));
            },
            None => {
                unmanaged.push(i);
            },
        }
        i = i + 1;
    }
    let wifi = match_devices(wifis, devs, &looked);
    IfacesMatch { managed, unmanaged, wifi }
}


/// The interfaces shown as a topology: every device but the loopback ones,
/// in order, each with the configuration it is shown with (the last one of
/// its name, taken by the first such device), or none when the caller
/// derives one from the device.
pub fn old_read_ifaces(configs: &Vec<String>, devs: &Vec<String>, is_lo: &Vec<bool>) -> (r: Vec<(usize, Option<usize>)>)
    requires
        is_lo.len() == devs.len(),
    ensures
        forall|k: int| 0 <= k < r.len() ==> {
            let (d, c) = #[trigger] r@[k];
            &&& d < devs.len()
            &&& !is_lo@[d as int]
            &&& c == match device_config(configs@, devs@, is_lo@.map_values(|l: bool| !l), d as int) {
                Some(j) => Some(j as usize),
                None => None,
            }
        },
        forall|k1: int, k2: int| 0 <= k1 < k2 < r.len() ==> (#[trigger] r@[k1]).0 < (#[trigger] r@[k2]).0,
        forall|d: int| 0 <= d < devs.len() && !is_lo@[d] ==> exists|k: int| 0 <= k < r.len() && (#[trigger] r@[k]).0 == d,
{
    let mut looked: Vec<bool> = Vec::new();
    let mut i: usize = 0;
    while i < is_lo.len()
        invariant
            i <= is_lo.len(),
            looked@ =~= is_lo@.take(i as int).map_values(|l: bool| !l),
        decreases is_lo.len() - i,
    {
        looked.push(!is_lo[i]);
        assert(is_lo@.take(i + 1) =~= is_lo@.take(i as int).push(is_lo@[i as int]));
        i = i + 1;
    }
    assert(is_lo@.take(is_lo.len() as int) =~= is_lo@);
    let m = match_devices(configs, devs, &looked);
    let mut r: Vec<(usize, Option<usize>)> = Vec::new();
    let mut i: usize = 0;
    while i < devs.len()
        invariant
            i <= devs.len(),
            m.len() == devs.len(),
            is_lo.len() == devs.len(),
            looked@ =~= is_lo@.map_values(|l: bool| !l),
            forall|x: int| 0 <= x < devs.len() ==> (#[trigger] m@[x]) == if looked@[x] {
                match device_config(configs@, devs@, looked@, x) {
                    Some(j) => Some(j as usize),
                    None => None,
                }
            } else {
                None
            },
            forall|k: int| 0 <= k < r.len() ==> {
                let (d, c) = #[trigger] r@[k];
                &&& d < i
                &&& !is_lo@[d as int]
                &&& c == m@[d as int]
            },
            forall|k1: int, k2: int| 0 <= k1 < k2 < r.len() ==> (#[trigger] r@[k1]).0 < (#[trigger] r@[k2]).0,
            forall|d: int| 0 <= d < i && !is_lo@[d] ==> exists|k: int| 0 <= k < r.len() && (#[trigger] r@[k]).0 == d,
        decreases devs.len() - i,
    {
        let ghost old_r = r@;
        if !is_lo[i] {
            r.push((i, m[i]));
            assert(r@[r.len() - 1].0 == i);
        }
        assert forall|d: int| 0 <= d < i + 1 && !is_lo@[d] implies exists|k: int| 0 <= k < r.len() && (#[trigger] r@[k]).0 == d by {
            if d < i {
                let k = choose|k: int| 0 <= k < old_r.len() && (#[trigger] old_r[k]).0 == d;
                assert(r@[k] == old_r[k]);
            } else {
                assert(r@[r.len() - 1].0 == d);
            }
        }
        i = i + 1;
    }
    r
}

// ---------------------------------------------------------------------------
// Changes to an interface.
// ---------------------------------------------------------------------------

/// The configuration a change applies to: the stored one, or else the one
/// derived from the live device, if it exists.
pub fn link_config(stored: Option<NetworkIfaceConfig>, derived: Option<NetworkIfaceConfig>) -> (r: Option<NetworkIfaceConfig>)
    ensures
        r == if stored.is_some() { stored } else { derived },
{
    match stored {
        Some(c) => Some(c),
        None => derived,
    }
}

/// What taking a device under management stores: the configuration derived
/// from the live device, when none is stored yet and the device exists;
/// nothing otherwise.
pub fn manage_dev(stored: &Option<NetworkIfaceConfig>, derived: Option<NetworkIfaceConfig>) -> (r: Option<NetworkIfaceConfig>)
    ensures
        r == if stored.is_none() { derived } else { None },
{
    if stored.is_none() {
        derived
    } else {
        None
    }
}

/// Moves an interface to a zone. Moving it to the WAN takes it out of its
/// bridge: the result says whether its controller is to be released, and
/// the configuration then has none.
pub fn change_zone(config: NetworkIfaceConfig, zone: IfaceZoneType) -> (r: (bool, NetworkIfaceConfig))
    ensures
        r.0 == (zone == IfaceZoneType::Wan),
        r.1 == (NetworkIfaceConfig {
            controller_name: if zone == IfaceZoneType::Wan { None } else { config.controller_name },
            zone_type: zone,
            ..config
        }),
{
    let mut config = config;
    let release = zone == IfaceZoneType::Wan;
    if release {
        config.controller_name = None;
    }
    config.zone_type = zone;
    (release, config)
}

/// Sets the mode of a wireless interface. A client leaves its bridge: the
/// result says whether its controller is to be released, and the
/// configuration then has none.
pub fn change_wifi_mode(config: NetworkIfaceConfig, mode: WifiMode) -> (r: (bool, NetworkIfaceConfig))
    ensures
        r.0 == (mode == WifiMode::Client),
        r.1 == (NetworkIfaceConfig {
            controller_name: if mode == WifiMode::Client { None } else { config.controller_name },
            wifi_mode: mode,
            ..config
        }),
{
    let mut config = config;
    let release = mode == WifiMode::Client;
    if release {
        config.controller_name = None;
    }
    config.wifi_mode = mode;
    (release, config)
}

/// Records whether an interface is brought up at boot.
pub fn change_dev_status(config: NetworkIfaceConfig, enable_in_boot: bool) -> (r: NetworkIfaceConfig)
    ensures
        r == (NetworkIfaceConfig { enable_in_boot, ..config }),
{
    let mut config = config;
    config.enable_in_boot = enable_in_boot;
    config
}

/// Records the bridge an interface is attached to.
pub fn set_controller(config: NetworkIfaceConfig, master_name: Option<String>) -> (r: NetworkIfaceConfig)
    ensures
        r == (NetworkIfaceConfig { controller_name: master_name, ..config }),
{
    let mut config = config;
    config.controller_name = master_name;
    config
}

/// What a change of the queue balance asks of the system.
pub enum BalanceAction {
    /// Write these masks to the queues.
    Apply(IfaceCpuSoftBalance),
    /// Write the reset masks to the queues.
    Reset,
    /// Nothing.
    Nothing,
}

/// Changes the queue balance of an interface: a new balance is applied and
/// stored; removing a stored one resets the queues; removing none does
/// nothing. The configuration is stored in every case.
pub fn change_cpu_balance(config: NetworkIfaceConfig, balance: Option<IfaceCpuSoftBalance>) -> (r: (BalanceAction, NetworkIfaceConfig))
    ensures
        match balance {
            Some(b) => r.0 == BalanceAction::Apply(b) && r.1 == (NetworkIfaceConfig { xps_rps: Some(b), ..config }),
            None => if config.xps_rps.is_some() {
                r.0 == BalanceAction::Reset && r.1 == (NetworkIfaceConfig { xps_rps: None, ..config })
            } else {
                r.0 == BalanceAction::Nothing && r.1 == config
            },
        },
{
    let mut config = config;
    match balance {
        Some(b) => {
            let applied = IfaceCpuSoftBalance { xps: b.xps.clone(), rps: b.rps.clone() };
            config.xps_rps = Some(b);
            (BalanceAction::Apply(applied), config)
        },
        None => {
            if config.xps_rps.is_some() {
                config.xps_rps = None;
                (BalanceAction::Reset, config)
            } else {
                (BalanceAction::Nothing, config)
            }
        },
    }
}

/// The masks that reset the queues of an interface: no CPU for either.
pub fn reset_balance() -> (r: IfaceCpuSoftBalance)
    ensures
        r.xps@ == "0"@,
        r.rps@ == "0"@,
{
    IfaceCpuSoftBalance { xps: "0".to_string(), rps: "0".to_string() }
}

/// Which file of a queue directory a balance is written to, and what: a
/// transmit queue (`tx-`) takes the XPS mask in `xps_cpus`, a receive queue
/// (`rx-`) the RPS mask in `rps_cpus`; other entries take nothing.
pub open spec fn queue_write(queue: Seq<char>, b: IfaceCpuSoftBalance) -> Option<(Seq<char>, Seq<char>)> {
    if queue.len() >= 3 && queue.take(3) == "tx-"@ {
        Some(("xps_cpus"@, b.xps@))
    } else if queue.len() >= 3 && queue.take(3) == "rx-"@ {
        Some(("rps_cpus"@, b.rps@))
    } else {
        None
    }
}

fn starts_with3(s: &str, p: &str) -> (r: bool)
    requires
        p@.len() == 3,
    ensures
        r == (s@.len() >= 3 && s@.take(3) == p@),
{
    if s.unicode_len() < 3 {
        return false;
    }
    let r = s.get_char(0) == p.get_char(0) && s.get_char(1) == p.get_char(1) && s.get_char(2) == p.get_char(2);
    if r {
        assert(s@.take(3) =~= p@);
    }
    r
}

/// The file and mask a queue directory entry takes (see `queue_write`).
pub fn queue_balance_write(queue: &str, balance: &IfaceCpuSoftBalance) -> (r: Option<(String, String)>)
    ensures
        match r {
            Some((f, v)) => queue_write(queue@, *balance) == Some((f@, v@)),
            None => queue_write(queue@, *balance).is_none(),
        },
{
    proof {
        reveal_strlit("tx-");
        reveal_strlit("rx-");
    }
    if starts_with3(queue, "tx-") {
        Some(("xps_cpus".to_string(), balance.xps.clone()))
    } else if starts_with3(queue, "rx-") {
        Some(("rps_cpus".to_string(), balance.rps.clone()))
    } else {
        None
    }
}

} // verus!
