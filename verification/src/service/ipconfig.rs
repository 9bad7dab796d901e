//! The address service of an interface: from its configured model, the
//! steps that set the interface up, wait for the stop request and take the
//! settings down again, or the DHCP client it runs.
use crate::net::{ipv4_is_broadcast, ipv4_is_loopback, ipv4_is_unspecified, usable_gateway, IpAddress};
use crate::service::{Iface, LanRouteInfo, LanRouteMode, RouteTargetInfo, ServiceStatus};
use vstd::prelude::*;

verus! {

/// The port the DHCPv4 client sends from.
pub const DHCP_V4_CLIENT_PORT: u16 = 68;

/// How an interface gets its address.
pub enum IfaceIpModelConfig {
    Nothing,
    Static {
        default_router: bool,
        default_router_ip: Option<u32>,
        ipv4: Option<u32>,
        ipv4_mask: u8,
        ipv6: Option<u128>,
        ipv6_mask: u8,
    },
    PPPoE { username: String, password: String, mtu: u32 },
    DhcpClient { default_router: bool, hostname: Option<String> },
}

/// The address service configured for an interface.
pub struct IfaceIpServiceConfig {
    pub iface_name: String,
    pub enable: bool,
    pub ip_model: IfaceIpModelConfig,
}

/// One step of the address service on its interface.
#[allow(inconsistent_fields)]
pub enum IpAction {
    /// Report a status.
    Status(ServiceStatus),
    /// Add the address to the interface.
    AddAddress { ip: u32, prefix: u8 },
    /// Remove the address from the interface.
    DelAddress { ip: u32, prefix: u8 },
    /// Tell the packet path the WAN address of the interface.
    AddWanIp { ifindex: u32, ip: u32, gateway: Option<u32>, prefix: u8, mac: Option<[u8; 6]> },
    /// Withdraw the WAN address of the interface from the packet path.
    DelWanIp { ifindex: u32 },
    /// Install the route to the network of the interface.
    InsertLanRoute(LanRouteInfo),
    /// Remove the route to the network of the interface.
    RemoveLanRoute,
    /// Make the gateway the interface's default route, with weight 1.
    AddDefaultRoute { gateway: u32 },
    /// Drop the interface's default route.
    DelDefaultRoute,
    /// Install the route out through the interface.
    InsertWanRoute(RouteTargetInfo),
    /// Remove the route out through the interface.
    RemoveWanRoute,
    /// Wait until the service is asked to stop.
    WaitStop,
    /// Run the DHCPv4 client on the interface until it stops.
    RunDhcpClient { ifindex: u32, mac: [u8; 6], port: u16, hostname: String, default_router: bool },
}

/// The host name the DHCPv4 client sends: the configured one unless it is
/// missing or empty, else the router's own.
pub open spec fn dhcp_hostname(configured: Option<String>, own: String) -> String {
    match configured {
        Some(h) => if h@.len() > 0 { h } else { own },
        None => own,
    }
}

/// Whether a gateway address can be routed to.
pub open spec fn gateway_usable(a: u32) -> bool {
    !ipv4_is_broadcast(a) && !ipv4_is_unspecified(a) && !ipv4_is_loopback(a)
}

/// The route to the network of a statically addressed interface.
pub open spec fn static_lan_route(iface: Iface, ip: u32, mask: u8) -> LanRouteInfo {
    LanRouteInfo {
        ifindex: iface.index,
        iface_name: iface.name,
        iface_ip: IpAddress::V4(ip),
        mac: iface.mac,
        prefix: mask,
        mode: LanRouteMode::Reachable,
    }
}

/// The route out through a statically addressed interface.
pub open spec fn static_wan_route(iface: Iface, ip: u32, gateway: u32, default_router: bool) -> RouteTargetInfo {
    RouteTargetInfo {
        ifindex: iface.index,
        weight: 1,
        mac: iface.mac,
        is_docker: false,
        iface_name: iface.name,
        iface_ip: IpAddress::V4(ip),
        default_route: default_router,
        gateway_ip: IpAddress::V4(gateway),
    }
}

/// The gateway steps of a static address: with a gateway that can be routed
/// to, the default route is set or dropped as configured and the route out
/// is installed; otherwise nothing.
pub open spec fn gateway_steps(iface: Iface, ip: u32, gateway: Option<u32>, default_router: bool) -> Seq<IpAction> {
    match gateway {
        Some(g) => if gateway_usable(g) {
            seq![
                if default_router { IpAction::AddDefaultRoute { gateway: g } } else { IpAction::DelDefaultRoute },
                IpAction::InsertWanRoute(static_wan_route(iface, ip, g, default_router)),
            ]
        } else {
            Seq::empty()
        },
        None => Seq::empty(),
    }
}

/// The steps of a static address: set it up, report running, wait for the
/// stop request, take it down and report stopped.
pub open spec fn static_steps(iface: Iface, ip: u32, mask: u8, gateway: Option<u32>, default_router: bool) -> Seq<IpAction> {
    seq![
        IpAction::Status(ServiceStatus::Staring),
        IpAction::AddAddress { ip, prefix: mask },
        IpAction::AddWanIp { ifindex: iface.index, ip, gateway, prefix: mask, mac: iface.mac },
        IpAction::InsertLanRoute(static_lan_route(iface, ip, mask)),
    ] + gateway_steps(iface, ip, gateway, default_router) + seq![
        IpAction::Status(ServiceStatus::Running),
        IpAction::WaitStop,
        IpAction::DelAddress { ip, prefix: mask },
    ] + (if default_router { seq![IpAction::DelDefaultRoute] } else { Seq::empty() }) + seq![
        IpAction::RemoveWanRoute,
        IpAction::RemoveLanRoute,
        IpAction::DelWanIp { ifindex: iface.index },
        IpAction::Status(ServiceStatus::Stop),
    ]
}

/// The steps of the address service for a model on an interface.
pub open spec fn ip_plan(iface: Iface, model: IfaceIpModelConfig, own_hostname: String) -> Seq<IpAction> {
    match model {
        IfaceIpModelConfig::Static { default_router, default_router_ip, ipv4, ipv4_mask, .. } => match ipv4 {
            Some(ip) => static_steps(iface, ip, ipv4_mask, default_router_ip, default_router),
            None => Seq::empty(),
        },
        IfaceIpModelConfig::DhcpClient { default_router, hostname } => match iface.mac {
            Some(mac) => seq![IpAction::RunDhcpClient {
                ifindex: iface.index,
                mac,
                port: DHCP_V4_CLIENT_PORT,
                hostname: dhcp_hostname(hostname, own_hostname),
                default_router,
            }],
            None => seq![IpAction::Status(ServiceStatus::Stop)],
        },
        _ => Seq::empty(),
    }
}

fn hostname_for(configured: Option<String>, own: &String) -> (r: String)
    ensures
        r == dhcp_hostname(configured, *own),
{
    match configured {
        Some(h) => if !h.as_str().is_empty() { h } else { own.clone() },
        None => own.clone(),
    }
}

fn lan_route(iface: &Iface, ip: u32, mask: u8) -> (r: LanRouteInfo)
    ensures
        r == static_lan_route(*iface, ip, mask),
{
    LanRouteInfo {
        ifindex: iface.index,
        iface_name: iface.name.clone(),
        iface_ip: IpAddress::V4(ip),
        mac: iface.mac,
        prefix: mask,
        mode: LanRouteMode::Reachable,
    }
}

fn wan_route(iface: &Iface, ip: u32, gateway: u32, default_router: bool) -> (r: RouteTargetInfo)
    ensures
        r == static_wan_route(*iface, ip, gateway, default_router),
{
    RouteTargetInfo {
        ifindex: iface.index,
        weight: 1,
        mac: iface.mac,
        is_docker: false,
        iface_name: iface.name.clone(),
        iface_ip: IpAddress::V4(ip),
        default_route: default_router,
        gateway_ip: IpAddress::V4(gateway),
    }
}

/// The steps that set up a static address, keep it and take it down.
pub fn static_plan(iface: &Iface, ip: u32, mask: u8, gateway: Option<u32>, default_router: bool) -> (r: Vec<IpAction>)
    ensures
        r@ == static_steps(*iface, ip, mask, gateway, default_router),
{
    let mut r: Vec<IpAction> = Vec::new();
    r.push(IpAction::Status(ServiceStatus::Staring));
    r.push(IpAction::AddAddress { ip, prefix: mask });
    r.push(IpAction::AddWanIp { ifindex: iface.index, ip, gateway, prefix: mask, mac: iface.mac });
    r.push(IpAction::InsertLanRoute(lan_route(iface, ip, mask)));
    let ghost head = r@;
    match gateway {
        Some(g) => {
            if usable_gateway(g) {
                if default_router {
                    r.push(IpAction::AddDefaultRoute { gateway: g });
                } else {
                    r.push(IpAction::DelDefaultRoute);
                }
                r.push(IpAction::InsertWanRoute(wan_route(iface, ip, g, default_router)));
            }
        },
        None => {},
    }
    assert(r@ =~= head + gateway_steps(*iface, ip, gateway, default_router));
    let ghost mid = r@;
    r.push(IpAction::Status(ServiceStatus::Running));
    r.push(IpAction::WaitStop);
    r.push(IpAction::DelAddress { ip, prefix: mask });
    if default_router {
        r.push(IpAction::DelDefaultRoute);
    }
    r.push(IpAction::RemoveWanRoute);
    r.push(IpAction::RemoveLanRoute);
    r.push(IpAction::DelWanIp { ifindex: iface.index });
    r.push(IpAction::Status(ServiceStatus::Stop));
    assert(r@ =~= static_steps(*iface, ip, mask, gateway, default_router));
    r
}

/// The steps of the address service for a model on its interface; the
/// DHCPv4 client sends `own_hostname` when no host name is configured.
pub fn init_service_from_config(iface: &Iface, service_config: IfaceIpModelConfig, own_hostname: &String) -> (r: Vec<IpAction>)
    ensures
        r@ == ip_plan(*iface, service_config, *own_hostname),
{
    match service_config {
        IfaceIpModelConfig::Static { default_router, default_router_ip, ipv4, ipv4_mask, .. } => match ipv4 {
            Some(ip) => static_plan(iface, ip, ipv4_mask, default_router_ip, default_router),
            None => Vec::new(),
        },
        IfaceIpModelConfig::DhcpClient { default_router, hostname } => match iface.mac {
            Some(mac) => {
                let mut r: Vec<IpAction> = Vec::new();
                r.push(IpAction::RunDhcpClient {
                    ifindex: iface.index,
                    mac,
                    port: DHCP_V4_CLIENT_PORT,
                    hostname: hostname_for(hostname, own_hostname),
                    default_router,
                });
                assert(r@ =~= ip_plan(*iface, service_config, *own_hostname));
                r
            },
            None => {
                let mut r: Vec<IpAction> = Vec::new();
                r.push(IpAction::Status(ServiceStatus::Stop));
                assert(r@ =~= ip_plan(*iface, service_config, *own_hostname));
                r
            },
        },
        IfaceIpModelConfig::Nothing => Vec::new(),
        IfaceIpModelConfig::PPPoE { .. } => Vec::new(),
    }
}

/// Starts the address service of interfaces, installing routes through a
/// route service.
pub struct IPConfigService<R> {
    pub route_service: R,
}

impl<R> IPConfigService<R> {
    pub fn new(route_service: R) -> (r: Self)
        ensures
            r.route_service == route_service,
    {
        IPConfigService { route_service }
    }

    /// The steps of the service for a configuration: none unless it is
    /// enabled and its interface was found (`iface`, looked up by the
    /// configured name).
    pub fn start(&self, config: IfaceIpServiceConfig, iface: Option<Iface>, own_hostname: &String) -> (r: Option<Vec<IpAction>>)
        ensures
            match r {
                Some(steps) => config.enable && iface.is_some() && steps@ == ip_plan(iface.unwrap(), config.ip_model, *own_hostname),
                None => !(config.enable && iface.is_some()),
            },
    {
        if config.enable {
            match iface {
                Some(i) => Some(init_service_from_config(&i, config.ip_model, own_hostname)),
                None => None,
            }
        } else {
            None
        }
    }
}

} // verus!
