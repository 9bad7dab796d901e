//! The start decisions of the services that face a LAN or ask the upstream
//! for prefixes: the DHCPv4 server, IPv6 router advertisement and the
//! DHCPv6 prefix delegation client.
use crate::net::{ipv4_text, ipv4_to_string, IpAddress};
use vstd::string::StringExecFns;
use crate::service::{Iface, LanRouteInfo, LanRouteMode, RouteTargetInfo};
use vstd::prelude::*;

verus! {

/// How long, in seconds, a lease bound to a MAC address lasts.
pub const BINDING_EXPIRE_SECS: u32 = 86400;

/// The port the DHCPv6 client sends from.
pub const DHCP_V6_CLIENT_PORT: u16 = 546;

/// An address the DHCPv4 server always gives to one MAC address.
#[derive(Clone, Copy, Debug)]
pub struct MacBindingRecord {
    pub mac: [u8; 6],
    pub ip: u32,
    pub expire_time: u32,
}

/// A device enrolled for an interface, with the IPv4 address it is given,
/// if any.
#[derive(Clone, Copy, Debug)]
pub struct EnrolledBinding {
    pub mac: [u8; 6],
    pub ipv4: Option<u32>,
}

/// The settings of a DHCPv4 server.
pub struct DHCPv4ServerConfig {
    pub server_ip_addr: u32,
    pub network_mask: u8,
    pub ip_range_start: u32,
    pub ip_range_end: u32,
    pub mac_binding_records: Vec<MacBindingRecord>,
}

/// The DHCPv4 server configured for an interface.
pub struct DHCPv4ServiceConfig {
    pub iface_name: String,
    pub enable: bool,
    pub config: DHCPv4ServerConfig,
}

/// The ARP scan of the network a DHCPv4 server serves.
#[derive(Clone, Copy, Debug)]
pub struct ArpScan {
    pub ifindex: u32,
    pub mac: [u8; 6],
    pub server_ip: u32,
    pub network_mask: u8,
}

/// What starting a DHCPv4 server does once its interface is found: the LAN
/// route is installed in any case; when enabled, the server runs with the
/// given settings and the offer record at the given position of the
/// starter's lease records, and an ARP scan with it, writing to the scan
/// record at the given position, when the interface has a MAC address.
pub struct DhcpV4Start {
    pub lan_route: LanRouteInfo,
    pub server: Option<(DHCPv4ServerConfig, usize, Option<(ArpScan, usize)>)>,
}

/// Whether a record table holds a record under `key`.
pub open spec fn has_record<V>(t: Seq<(String, V)>, key: Seq<char>) -> bool {
    exists|i: int| 0 <= i < t.len() && #[trigger] t[i].0@ == key
}

/// A record table after looking up `key` at position `at`: the first record
/// under the key, which is kept as it was; where there was none, `fresh`
/// stored under it at the end.
pub open spec fn record_entry_step<V>(old: Seq<(String, V)>, key: String, fresh: V, new: Seq<(String, V)>, at: int) -> bool {
    &&& 0 <= at < new.len()
    &&& new[at].0@ == key@
    &&& forall|i: int| 0 <= i < at ==> new[i].0@ != key@
    &&& has_record(old, key@) ==> new == old
    &&& !has_record(old, key@) ==> new == old.push((key, fresh)) && at == old.len()
}

/// The position of the record kept under `key`: an existing record is
/// reused, not replaced; where there is none, `fresh` is stored under the
/// key.
pub fn record_entry<V>(records: &mut Vec<(String, V)>, key: &String, fresh: V) -> (r: usize)
    ensures
        record_entry_step(old(records)@, *key, fresh, final(records)@, r as int),
{
    let mut i: usize = 0;
    while i < records.len()
        invariant
            i <= records.len(),
            records@ == old(records)@,
            forall|j: int| 0 <= j < i ==> records@[j].0@ != key@,
        decreases records.len() - i,
    {
        if records[i].0 == *key {
            return i;
        }
        i = i + 1;
    }
    let at = records.len();
    records.push((key.clone(), fresh));
    at
}

/// Starting a server again under the same store key finds the record the
/// first start used: the table is left as it was and the position is the
/// same, so a restarted server keeps the offers made so far.
pub proof fn lemma_restart_reuses_record<V>(
    t0: Seq<(String, V)>,
    key1: String,
    fresh1: V,
    t1: Seq<(String, V)>,
    at1: int,
    key2: String,
    fresh2: V,
    t2: Seq<(String, V)>,
    at2: int,
)
    requires
        record_entry_step(t0, key1, fresh1, t1, at1),
        record_entry_step(t1, key2, fresh2, t2, at2),
        key1@ == key2@,
    ensures
        t2 == t1,
        at2 == at1,
{
    assert(t1[at1].0@ == key2@);
    assert(has_record(t1, key2@));
    if at2 < at1 {
        assert(t1[at2].0@ != key1@);
    } else if at1 < at2 {
        assert(t2[at1].0@ != key2@);
    }
}

/// The static bindings of a server: one for each enrolled device that has
/// an IPv4 address, in order.
pub open spec fn binding_records(b: Seq<EnrolledBinding>) -> Seq<MacBindingRecord>
    decreases b.len(),
{
    if b.len() == 0 {
        Seq::empty()
    } else {
        binding_records(b.drop_last()) + match b.last().ipv4 {
            Some(ip) => seq![MacBindingRecord { mac: b.last().mac, ip, expire_time: BINDING_EXPIRE_SECS }],
            None => Seq::empty(),
        }
    }
}

/// The static bindings of a server for the devices enrolled for its
/// interface; those given before are dropped.
pub fn bindings_to_records(bindings: &Vec<EnrolledBinding>) -> (r: Vec<MacBindingRecord>)
    ensures
        r@ == binding_records(bindings@),
{
    let mut r: Vec<MacBindingRecord> = Vec::new();
    let mut i: usize = 0;
    while i < bindings.len()
        invariant
            i <= bindings.len(),
            r@ == binding_records(bindings@.take(i as int)),
        decreases bindings.len() - i,
    {
        let ghost t1 = bindings@.take(i + 1);
        assert(t1.drop_last() =~= bindings@.take(i as int));
        assert(t1.last() == bindings@[i as int]);
        match bindings[i].ipv4 {
            Some(ip) => {
                r.push(MacBindingRecord { mac: bindings[i].mac, ip, expire_time: BINDING_EXPIRE_SECS });
            },
            None => {
                assert(r@ =~= r@ + Seq::<MacBindingRecord>::empty());
            },
        }
        i = i + 1;
    }
    assert(bindings@.take(bindings.len() as int) =~= bindings@);
    r
}

/// The route to the network a DHCPv4 server serves.
pub open spec fn dhcp_lan_route(iface: Iface, name: String, c: DHCPv4ServerConfig) -> LanRouteInfo {
    LanRouteInfo {
        ifindex: iface.index,
        iface_name: name,
        iface_ip: IpAddress::V4(c.server_ip_addr),
        mac: iface.mac,
        prefix: c.network_mask,
        mode: LanRouteMode::Reachable,
    }
}

/// Starts DHCPv4 servers, installing routes through a route service and
/// reading enrolled devices through a store; it keeps, by store key, the
/// offer record and the ARP scan record that each server shares with the
/// rest of the system.
pub struct DHCPv4ServerStarter<R, D, L, A> {
    pub route_service: R,
    pub db_provider: D,
    pub iface_lease_map: Vec<(String, L)>,
    pub iface_scan_map: Vec<(String, A)>,
}

impl<R, D, L, A> DHCPv4ServerStarter<R, D, L, A> {
    pub fn new(route_service: R, db_provider: D) -> (r: Self)
        ensures
            r.route_service == route_service,
            r.db_provider == db_provider,
            r.iface_lease_map@.len() == 0,
            r.iface_scan_map@.len() == 0,
    {
        DHCPv4ServerStarter { route_service, db_provider, iface_lease_map: Vec::new(), iface_scan_map: Vec::new() }
    }

    /// What starting the server of `config` does: nothing when its
    /// interface was not found (`iface`, looked up by the configured name);
    /// otherwise the LAN route, and when the server is enabled the server
    /// with its static bindings taken from `bindings`, the devices enrolled
    /// for the interface, and the offer record kept under the interface's
    /// name (`fresh_lease` where there is none yet), plus an ARP scan with
    /// the scan record kept under that name (`fresh_scan` where there is
    /// none) when the interface has a MAC address.
    pub fn start(
        &mut self,
        config: DHCPv4ServiceConfig,
        iface: Option<Iface>,
        bindings: &Vec<EnrolledBinding>,
        fresh_lease: L,
        fresh_scan: A,
    ) -> (r: Option<DhcpV4Start>)
        ensures
            final(self).route_service == old(self).route_service,
            final(self).db_provider == old(self).db_provider,
            match iface {
                None => r.is_none() && *final(self) == *old(self),
                Some(i) => r.is_some() && r.unwrap().lan_route == dhcp_lan_route(i, config.iface_name, config.config) && match r.unwrap().server {
                    None => !config.enable && *final(self) == *old(self),
                    Some((c, lease, scan)) => {
                        &&& config.enable
                        &&& c.server_ip_addr == config.config.server_ip_addr
                        &&& c.network_mask == config.config.network_mask
                        &&& c.ip_range_start == config.config.ip_range_start
                        &&& c.ip_range_end == config.config.ip_range_end
                        &&& c.mac_binding_records@ == binding_records(bindings@)
                        &&& record_entry_step(old(self).iface_lease_map@, config.iface_name, fresh_lease,
                            final(self).iface_lease_map@, lease as int)
                        &&& match i.mac {
                            Some(m) => scan matches Some((a, at)) && a == (ArpScan {
                                ifindex: i.index,
                                mac: m,
                                server_ip: config.config.server_ip_addr,
                                network_mask: config.config.network_mask,
                            }) && record_entry_step(old(self).iface_scan_map@, config.iface_name, fresh_scan,
                                final(self).iface_scan_map@, at as int),
                            None => scan is None && final(self).iface_scan_map@ == old(self).iface_scan_map@,
                        }
                    },
                },
            },
    {
        match iface {
            None => None,
            Some(i) => {
                let store_key = config.iface_name.clone();
                let lan_route = LanRouteInfo {
                    ifindex: i.index,
                    iface_name: config.iface_name,
                    iface_ip: IpAddress::V4(config.config.server_ip_addr),
                    mac: i.mac,
                    prefix: config.config.network_mask,
                    mode: LanRouteMode::Reachable,
                };
                if config.enable {
                    let server_ip = config.config.server_ip_addr;
                    let mask = config.config.network_mask;
                    let c = DHCPv4ServerConfig {
                        server_ip_addr: server_ip,
                        network_mask: mask,
                        ip_range_start: config.config.ip_range_start,
                        ip_range_end: config.config.ip_range_end,
                        mac_binding_records: bindings_to_records(bindings),
                    };
                    let lease = record_entry(&mut self.iface_lease_map, &store_key, fresh_lease);
                    let scan = match i.mac {
                        Some(m) => {
                            let at = record_entry(&mut self.iface_scan_map, &store_key, fresh_scan);
                            Some((ArpScan { ifindex: i.index, mac: m, server_ip, network_mask: mask }, at))
                        },
                        None => None,
                    };
                    Some(DhcpV4Start { lan_route, server: Some((c, lease, scan)) })
                } else {
                    Some(DhcpV4Start { lan_route, server: None })
                }
            },
        }
    }
}


/// The message that refuses a server whose address range overlaps that of
/// the server of another interface.
pub open spec fn conflict_message(iface: Seq<char>, c: DHCPv4ServerConfig) -> Seq<char> {
    "IP range conflict detected with interface '"@ + iface + "'. New range: "@ + ipv4_text(c.ip_range_start) + "-"@
        + ipv4_text(c.ip_range_end)
}

/// The answer to a new server configuration, given what the store found:
/// the store's error, reported as a failed check; the interface whose
/// server range overlaps, reported as a conflict; or nothing, accepted.
pub fn check_ip_range_conflict(found: Result<Option<String>, String>, new_config: &DHCPv4ServiceConfig) -> (r: Result<(), String>)
    ensures
        match found {
            Err(e) => r matches Err(m) && m@ == "Failed to check IP range conflict: "@ + e@,
            Ok(Some(i)) => r matches Err(m) && m@ == conflict_message(i@, new_config.config),
            Ok(None) => r is Ok,
        },
{
    match found {
        Err(e) => {
            let mut m = String::new();
            m.append("Failed to check IP range conflict: ");
            m.append(e.as_str());
            Err(m)
        },
        Ok(Some(i)) => {
            let mut m = String::new();
            m.append("IP range conflict detected with interface '");
            m.append(i.as_str());
            m.append("'. New range: ");
            m.append(ipv4_to_string(new_config.config.ip_range_start).as_str());
            m.append("-");
            m.append(ipv4_to_string(new_config.config.ip_range_end).as_str());
            Err(m)
        },
        Ok(None) => Ok(()),
    }
}

/// The router advertisement service of an interface.
pub struct IPV6RAServiceConfig {
    pub iface_name: String,
    pub enable: bool,
}

/// What starting router advertisement does on a found interface: the lease
/// record of the interface is kept under `lease_key`, and the server runs
/// with the interface's MAC address and its LAN route when it has one.
pub struct RaStart {
    pub lease_key: String,
    pub server: Option<([u8; 6], LanRouteInfo)>,
}

/// The LAN route router advertisement installs: the unspecified address
/// with a full-length prefix.
pub open spec fn ra_lan_route(iface: Iface, name: String, mac: [u8; 6]) -> LanRouteInfo {
    LanRouteInfo {
        ifindex: iface.index,
        iface_name: name,
        iface_ip: IpAddress::V6(0),
        mac: Some(mac),
        prefix: 128,
        mode: LanRouteMode::Reachable,
    }
}

/// Starts router advertisement on interfaces.
pub struct IPV6RAService<R, P> {
    pub route_service: R,
    pub prefix_map: P,
}

impl<R, P> IPV6RAService<R, P> {
    pub fn new(route_service: R, prefix_map: P) -> (r: Self)
        ensures
            r.route_service == route_service,
            r.prefix_map == prefix_map,
    {
        IPV6RAService { route_service, prefix_map }
    }

    /// What starting router advertisement does: nothing unless it is
    /// enabled and its interface was found.
    pub fn start(&self, config: IPV6RAServiceConfig, iface: Option<Iface>) -> (r: Option<RaStart>)
        ensures
            match r {
                None => !(config.enable && iface.is_some()),
                Some(s) => config.enable && iface.is_some() && s.lease_key == config.iface_name && s.server
                    == match iface.unwrap().mac {
                    Some(m) => Some((m, ra_lan_route(iface.unwrap(), config.iface_name, m))),
                    None => None,
                },
            },
    {
        if !config.enable {
            return None;
        }
        match iface {
            None => None,
            Some(i) => {
                let server = match i.mac {
                    Some(m) => Some((
                        m,
                        LanRouteInfo {
                            ifindex: i.index,
                            iface_name: config.iface_name.clone(),
                            iface_ip: IpAddress::V6(0),
                            mac: Some(m),
                            prefix: 128,
                            mode: LanRouteMode::Reachable,
                        },
                    )),
                    None => None,
                };
                Some(RaStart { lease_key: config.iface_name, server })
            },
        }
    }
}

/// The prefix delegation client of an interface, with the MAC address it
/// identifies itself by.
pub struct IPV6PDServiceConfig {
    pub iface_name: String,
    pub enable: bool,
    pub mac: [u8; 6],
}

/// What the prefix delegation client runs with.
pub struct PdLaunch {
    pub iface_name: String,
    pub ifindex: u32,
    pub iface_mac: Option<[u8; 6]>,
    pub client_mac: [u8; 6],
    pub port: u16,
    pub route_info: RouteTargetInfo,
}

/// The default route the delegation client installs through its interface.
pub open spec fn pd_route(iface: Iface) -> RouteTargetInfo {
    RouteTargetInfo {
        ifindex: iface.index,
        weight: 1,
        mac: iface.mac,
        is_docker: false,
        iface_name: iface.name,
        iface_ip: IpAddress::V6(0),
        default_route: true,
        gateway_ip: IpAddress::V6(0),
    }
}

/// Starts the prefix delegation client on interfaces.
pub struct IPV6PDService<R, P> {
    pub route_service: R,
    pub prefix_map: P,
}

impl<R, P> IPV6PDService<R, P> {
    pub fn new(route_service: R, prefix_map: P) -> (r: Self)
        ensures
            r.route_service == route_service,
            r.prefix_map == prefix_map,
    {
        IPV6PDService { route_service, prefix_map }
    }

    /// The launch of the client: given when it is enabled and its interface
    /// was found.
    pub fn start(&self, config: IPV6PDServiceConfig, iface: Option<Iface>) -> (r: Option<PdLaunch>)
        ensures
            match r {
                None => !(config.enable && iface.is_some()),
                Some(l) => {
                    &&& config.enable && iface.is_some()
                    &&& l.iface_name == config.iface_name
                    &&& l.ifindex == iface.unwrap().index
                    &&& l.iface_mac == iface.unwrap().mac
                    &&& l.client_mac == config.mac
                    &&& l.port == DHCP_V6_CLIENT_PORT
                    &&& l.route_info == pd_route(iface.unwrap())
                },
            },
    {
        if !config.enable {
            return None;
        }
        match iface {
            None => None,
            Some(i) => {
                let route_info = RouteTargetInfo {
                    ifindex: i.index,
                    weight: 1,
                    mac: i.mac,
                    is_docker: false,
                    iface_name: i.name.clone(),
                    iface_ip: IpAddress::V6(0),
                    default_route: true,
                    gateway_ip: IpAddress::V6(0),
                };
                Some(PdLaunch {
                    iface_name: config.iface_name,
                    ifindex: i.index,
                    iface_mac: i.mac,
                    client_mac: config.mac,
                    port: DHCP_V6_CLIENT_PORT,
                    route_info,
                })
            },
        }
    }
}

} // verus!
