//! What the interface services decide when they are started: whether they
//! run, and with what they are launched. Looking an interface up, spawning
//! the workers and watching them are left to the caller, which hands in
//! what it found and carries out what is returned.
use crate::net::IpAddress;
use vstd::prelude::*;

pub mod ipconfig;
pub mod lan;
pub mod wifi;

verus! {

/// A network interface as the services see it.
pub struct Iface {
    pub name: String,
    pub index: u32,
    pub mac: Option<[u8; 6]>,
}

/// The life of a service.
#[derive(Clone, Copy, PartialEq, Eq, Structural, Debug)]
pub enum ServiceStatus {
    Staring,
    Running,
    Stopping,
    Stop,
}

/// What an interface observer reports.
pub enum IfaceObserverAction {
    Up(String),
    Down(String),
}

/// The interface whose service is restarted on a report: the one that came
/// up; none when one went down.
pub fn restart_target(action: &IfaceObserverAction) -> (r: Option<&String>)
    ensures
        match *action {
            IfaceObserverAction::Up(name) => r == Some(&name),
            IfaceObserverAction::Down(_) => r.is_none(),
        },
{
    match action {
        IfaceObserverAction::Up(name) => Some(name),
        IfaceObserverAction::Down(_) => None,
    }
}

/// What a packet filter attached to an interface is launched with: the
/// interface index, as the signed integer the loader takes, and whether the
/// interface has a link-layer address.
#[derive(Clone, Copy, PartialEq, Eq, Structural, Debug)]
pub struct FilterLaunch {
    pub ifindex: i32,
    pub has_mac: bool,
}

pub open spec fn filter_launch_of(iface: Iface) -> FilterLaunch {
    FilterLaunch { ifindex: iface.index as i32, has_mac: iface.mac.is_some() }
}

fn filter_launch(iface: &Iface) -> (r: FilterLaunch)
    ensures
        r == filter_launch_of(*iface),
{
    FilterLaunch { ifindex: iface.index as i32, has_mac: iface.mac.is_some() }
}

/// The firewall service of an interface.
pub struct FirewallServiceConfig {
    pub iface_name: String,
    pub enable: bool,
}

/// The MSS clamping service of an interface.
pub struct MSSClampServiceConfig {
    pub iface_name: String,
    pub enable: bool,
    pub clamp_size: u16,
}

/// The port ranges the NAT service maps into.
#[derive(Clone, Copy, PartialEq, Eq, Structural, Debug)]
pub struct NatConfig {
    pub tcp_range_start: u16,
    pub tcp_range_end: u16,
    pub udp_range_start: u16,
    pub udp_range_end: u16,
    pub icmp_in_range_start: u16,
    pub icmp_in_range_end: u16,
}

/// The NAT service of an interface.
pub struct NatServiceConfig {
    pub iface_name: String,
    pub enable: bool,
    pub nat_config: NatConfig,
}

/// Starts the firewall of an interface.
#[derive(Clone, Copy, Default)]
pub struct FirewallService {}

/// Starts the MSS clamping of an interface.
#[derive(Clone, Copy, Default)]
pub struct MssClampService;

/// Starts the NAT of an interface.
#[derive(Clone, Copy, Default)]
pub struct NatService;

impl FirewallService {
    /// The launch of the firewall: given when the service is enabled and its
    /// interface was found (`iface`, looked up by the configured name).
    pub fn start(&self, config: &FirewallServiceConfig, iface: Option<Iface>) -> (r: Option<FilterLaunch>)
        ensures
            r == if config.enable && iface.is_some() {
                Some(filter_launch_of(iface.unwrap()))
            } else {
                None
            },
    {
        if config.enable {
            match iface {
                Some(i) => Some(filter_launch(&i)),
                None => None,
            }
        } else {
            None
        }
    }
}

impl MssClampService {
    /// The launch of MSS clamping, with the clamp size: given when the
    /// service is enabled and its interface was found.
    pub fn start(&self, config: &MSSClampServiceConfig, iface: Option<Iface>) -> (r: Option<(FilterLaunch, u16)>)
        ensures
            r == if config.enable && iface.is_some() {
                Some((filter_launch_of(iface.unwrap()), config.clamp_size))
            } else {
                None
            },
    {
        if config.enable {
            match iface {
                Some(i) => Some((filter_launch(&i), config.clamp_size)),
                None => None,
            }
        } else {
            None
        }
    }
}

impl NatService {
    /// The launch of NAT, with its port ranges: given when the service is
    /// enabled and its interface was found.
    pub fn start(&self, config: &NatServiceConfig, iface: Option<Iface>) -> (r: Option<(FilterLaunch, NatConfig)>)
        ensures
            r == if config.enable && iface.is_some() {
                Some((filter_launch_of(iface.unwrap()), config.nat_config))
            } else {
                None
            },
    {
        if config.enable {
            match iface {
                Some(i) => Some((filter_launch(&i), config.nat_config)),
                None => None,
            }
        } else {
            None
        }
    }
}

/// How a route reaches the addresses behind a LAN interface.
#[derive(Clone, Copy, PartialEq, Eq, Structural, Debug)]
pub enum LanRouteMode {
    Reachable,
    NextHop,
}

/// A route to the network behind a LAN interface.
pub struct LanRouteInfo {
    pub ifindex: u32,
    pub iface_name: String,
    pub iface_ip: IpAddress,
    pub mac: Option<[u8; 6]>,
    pub prefix: u8,
    pub mode: LanRouteMode,
}

/// A route out through a WAN interface.
pub struct RouteTargetInfo {
    pub ifindex: u32,
    pub weight: u32,
    pub mac: Option<[u8; 6]>,
    pub is_docker: bool,
    pub iface_name: String,
    pub iface_ip: IpAddress,
    pub default_route: bool,
    pub gateway_ip: IpAddress,
}

} // verus!
