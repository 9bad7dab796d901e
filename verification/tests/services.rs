use landscape::net::IpAddress;
use landscape::service::ipconfig::{
    init_service_from_config, IPConfigService, IfaceIpModelConfig, IfaceIpServiceConfig, IpAction,
    DHCP_V4_CLIENT_PORT,
};
use landscape::service::lan::{
    bindings_to_records, check_ip_range_conflict, record_entry, DHCPv4ServerConfig, DHCPv4ServerStarter, DHCPv4ServiceConfig,
    EnrolledBinding, IPV6PDService, IPV6PDServiceConfig, IPV6RAService, IPV6RAServiceConfig, BINDING_EXPIRE_SECS,
    DHCP_V6_CLIENT_PORT,
};
use landscape::service::wifi::{hostapd_watch_step, ChildPoll, StopSignal, WifiService, WifiServiceConfig};
use landscape::service::{
    restart_target, FirewallService, FirewallServiceConfig, Iface, IfaceObserverAction,
    LanRouteMode, MSSClampServiceConfig, MssClampService, NatConfig, NatService, NatServiceConfig, ServiceStatus,
};

const MAC: [u8; 6] = [2, 0, 0, 0, 0, 1];

fn iface(index: u32, mac: Option<[u8; 6]>) -> Iface {
    Iface { name: "eth1".to_string(), index, mac }
}

fn static_model(ipv4: Option<u32>, gw: Option<u32>, default_router: bool) -> IfaceIpModelConfig {
    IfaceIpModelConfig::Static {
        default_router,
        default_router_ip: gw,
        ipv4,
        ipv4_mask: 24,
        ipv6: None,
        ipv6_mask: 0,
    }
}

fn names(plan: &[IpAction]) -> Vec<&'static str> {
    plan.iter()
        .map(|a| match a {
            IpAction::Status(ServiceStatus::Staring) => "staring",
            IpAction::Status(ServiceStatus::Running) => "running",
            IpAction::Status(ServiceStatus::Stop) => "stop",
            IpAction::Status(ServiceStatus::Stopping) => "stopping",
            IpAction::AddAddress { .. } => "add-addr",
            IpAction::DelAddress { .. } => "del-addr",
            IpAction::AddWanIp { .. } => "add-wan-ip",
            IpAction::DelWanIp { .. } => "del-wan-ip",
            IpAction::InsertLanRoute(_) => "lan-route",
            IpAction::RemoveLanRoute => "rm-lan-route",
            IpAction::AddDefaultRoute { .. } => "add-default",
            IpAction::DelDefaultRoute => "del-default",
            IpAction::InsertWanRoute(_) => "wan-route",
            IpAction::RemoveWanRoute => "rm-wan-route",
            IpAction::WaitStop => "wait",
            IpAction::RunDhcpClient { .. } => "dhcp",
        })
        .collect()
}

#[test]
fn filter_services_launch_only_when_enabled_and_found() {
    let fw = FirewallService::default();
    let on = FirewallServiceConfig { iface_name: "eth1".to_string(), enable: true };
    let l = fw.start(&on, Some(iface(7, Some(MAC)))).unwrap();
    assert_eq!((l.ifindex, l.has_mac), (7, true));
    assert!(fw.start(&on, None).is_none());
    let off = FirewallServiceConfig { iface_name: "eth1".to_string(), enable: false };
    assert!(fw.start(&off, Some(iface(7, None))).is_none());

    let mss = MssClampService::default();
    let c = MSSClampServiceConfig { iface_name: "ppp0".to_string(), enable: true, clamp_size: 1452 };
    let (l, size) = mss.start(&c, Some(iface(3, None))).unwrap();
    assert_eq!((l.ifindex, l.has_mac, size), (3, false, 1452));

    let nat = NatService::default();
    let ports = NatConfig {
        tcp_range_start: 32768,
        tcp_range_end: 65535,
        udp_range_start: 32768,
        udp_range_end: 65535,
        icmp_in_range_start: 32768,
        icmp_in_range_end: 65535,
    };
    let c = NatServiceConfig { iface_name: "eth0".to_string(), enable: true, nat_config: ports };
    let (l, p) = nat.start(&c, Some(iface(0x8000_0001, Some(MAC)))).unwrap();
    assert_eq!(l.ifindex, 0x8000_0001u32 as i32);
    assert_eq!(p, ports);
}

#[test]
fn observer_restarts_on_up_only() {
    assert_eq!(restart_target(&IfaceObserverAction::Up("eth0".to_string())), Some(&"eth0".to_string()));
    assert_eq!(restart_target(&IfaceObserverAction::Down("eth0".to_string())), None);
}

#[test]
fn static_address_with_default_gateway() {
    let plan = init_service_from_config(&iface(4, Some(MAC)), static_model(Some(0xc0a80102), Some(0xc0a80101), true), &"router".to_string());
    assert_eq!(
        names(&plan),
        vec![
            "staring", "add-addr", "add-wan-ip", "lan-route", "add-default", "wan-route", "running", "wait", "del-addr",
            "del-default", "rm-wan-route", "rm-lan-route", "del-wan-ip", "stop"
        ]
    );
    match &plan[3] {
        IpAction::InsertLanRoute(r) => {
            assert_eq!((r.ifindex, r.prefix, r.iface_ip, r.mac, r.mode), (4, 24, IpAddress::V4(0xc0a80102), Some(MAC), LanRouteMode::Reachable));
            assert_eq!(r.iface_name, "eth1");
        },
        _ => panic!("the LAN route comes fourth"),
    }
    match &plan[5] {
        IpAction::InsertWanRoute(r) => {
            assert_eq!((r.weight, r.default_route, r.is_docker), (1, true, false));
            assert_eq!(r.gateway_ip, IpAddress::V4(0xc0a80101));
        },
        _ => panic!("the WAN route follows the default route"),
    }
}

#[test]
fn static_address_without_default_router_drops_it() {
    let plan = init_service_from_config(&iface(4, None), static_model(Some(0xc0a80102), Some(0xc0a80101), false), &"r".to_string());
    assert_eq!(
        names(&plan),
        vec![
            "staring", "add-addr", "add-wan-ip", "lan-route", "del-default", "wan-route", "running", "wait", "del-addr",
            "rm-wan-route", "rm-lan-route", "del-wan-ip", "stop"
        ]
    );
}

#[test]
fn unusable_or_missing_gateway_installs_no_wan_route() {
    for gw in [None, Some(0xffff_ffff), Some(0), Some(0x7f00_0001)] {
        let plan = init_service_from_config(&iface(4, None), static_model(Some(0x0a000002), gw, true), &"r".to_string());
        assert_eq!(
            names(&plan),
            vec!["staring", "add-addr", "add-wan-ip", "lan-route", "running", "wait", "del-addr", "del-default", "rm-wan-route", "rm-lan-route", "del-wan-ip", "stop"]
        );
    }
}

#[test]
fn models_without_address_do_nothing() {
    let own = "r".to_string();
    assert!(init_service_from_config(&iface(1, None), static_model(None, None, true), &own).is_empty());
    assert!(init_service_from_config(&iface(1, None), IfaceIpModelConfig::Nothing, &own).is_empty());
    let pppoe = IfaceIpModelConfig::PPPoE { username: "u".to_string(), password: "p".to_string(), mtu: 1492 };
    assert!(init_service_from_config(&iface(1, None), pppoe, &own).is_empty());
}

#[test]
fn dhcp_client_uses_configured_or_own_hostname() {
    let own = "landscape".to_string();
    let plan = init_service_from_config(&iface(9, Some(MAC)), IfaceIpModelConfig::DhcpClient { default_router: true, hostname: Some("pc".to_string()) }, &own);
    match &plan[..] {
        [IpAction::RunDhcpClient { ifindex, mac, port, hostname, default_router }] => {
            assert_eq!((*ifindex, *mac, *port, *default_router), (9, MAC, DHCP_V4_CLIENT_PORT, true));
            assert_eq!(hostname, "pc");
        },
        _ => panic!("one DHCP client run"),
    }
    for h in [None, Some(String::new())] {
        let plan = init_service_from_config(&iface(9, Some(MAC)), IfaceIpModelConfig::DhcpClient { default_router: false, hostname: h }, &own);
        assert!(matches!(&plan[..], [IpAction::RunDhcpClient { hostname, .. }] if hostname == "landscape"));
    }
    let plan = init_service_from_config(&iface(9, None), IfaceIpModelConfig::DhcpClient { default_router: false, hostname: None }, &own);
    assert!(matches!(&plan[..], [IpAction::Status(ServiceStatus::Stop)]));
}

#[test]
fn ip_config_service_starts_enabled_found_interfaces() {
    let svc = IPConfigService::new(42u8);
    assert_eq!(svc.route_service, 42);
    let cfg = || IfaceIpServiceConfig { iface_name: "eth1".to_string(), enable: true, ip_model: IfaceIpModelConfig::Nothing };
    assert!(svc.start(cfg(), None, &"r".to_string()).is_none());
    assert_eq!(svc.start(cfg(), Some(iface(1, None)), &"r".to_string()).map(|p| p.len()), Some(0));
    let off = IfaceIpServiceConfig { iface_name: "eth1".to_string(), enable: false, ip_model: IfaceIpModelConfig::Nothing };
    assert!(svc.start(off, Some(iface(1, None)), &"r".to_string()).is_none());
}

fn dhcp_config(enable: bool) -> DHCPv4ServiceConfig {
    DHCPv4ServiceConfig {
        iface_name: "br0".to_string(),
        enable,
        config: DHCPv4ServerConfig {
            server_ip_addr: 0xc0a80101,
            network_mask: 24,
            ip_range_start: 0xc0a80102,
            ip_range_end: 0xc0a801fe,
            mac_binding_records: vec![],
        },
    }
}

#[test]
fn dhcp_bindings_keep_devices_with_addresses() {
    let b = vec![
        EnrolledBinding { mac: [1; 6], ipv4: Some(10) },
        EnrolledBinding { mac: [2; 6], ipv4: None },
        EnrolledBinding { mac: [3; 6], ipv4: Some(30) },
    ];
    let r = bindings_to_records(&b);
    assert_eq!(r.len(), 2);
    assert_eq!((r[0].mac, r[0].ip, r[0].expire_time), ([1; 6], 10, BINDING_EXPIRE_SECS));
    assert_eq!((r[1].mac, r[1].ip), ([3; 6], 30));
}

#[test]
fn dhcp_server_start_routes_then_serves() {
    let mut starter = DHCPv4ServerStarter::new((), ());
    let b = vec![EnrolledBinding { mac: [1; 6], ipv4: Some(0xc0a80164) }];
    assert!(starter.start(dhcp_config(true), None, &b, 10u8, 20u8).is_none());
    let s = starter.start(dhcp_config(false), Some(iface(5, Some(MAC))), &b, 10, 20).unwrap();
    assert!(s.server.is_none());
    assert!(starter.iface_lease_map.is_empty() && starter.iface_scan_map.is_empty());
    assert_eq!((s.lan_route.ifindex, s.lan_route.prefix, s.lan_route.iface_ip), (5, 24, IpAddress::V4(0xc0a80101)));
    assert_eq!(s.lan_route.iface_name, "br0");
    let s = starter.start(dhcp_config(true), Some(iface(5, Some(MAC))), &b, 10, 20).unwrap();
    let (c, lease, scan) = s.server.unwrap();
    assert_eq!(c.mac_binding_records.len(), 1);
    assert_eq!(c.mac_binding_records[0].ip, 0xc0a80164);
    assert_eq!(lease, 0);
    let (scan, at) = scan.unwrap();
    assert_eq!((scan.ifindex, scan.mac, scan.server_ip, scan.network_mask), (5, MAC, 0xc0a80101, 24));
    assert_eq!(at, 0);
    let s = starter.start(dhcp_config(true), Some(iface(5, None)), &b, 11, 21).unwrap();
    let (_, lease, scan) = s.server.unwrap();
    assert!(scan.is_none());
    assert_eq!(lease, 0);
    assert_eq!(starter.iface_lease_map, vec![("br0".to_string(), 10)]);
    assert_eq!(starter.iface_scan_map, vec![("br0".to_string(), 20)]);
}

#[test]
fn lease_record_is_reused_and_new_keys_are_added() {
    let mut records = vec![("br0".to_string(), 1u8)];
    assert_eq!(record_entry(&mut records, &"br0".to_string(), 9), 0);
    assert_eq!(records, vec![("br0".to_string(), 1)]);
    assert_eq!(record_entry(&mut records, &"br1".to_string(), 2), 1);
    assert_eq!(records, vec![("br0".to_string(), 1), ("br1".to_string(), 2)]);
}

#[test]
fn dhcp_range_conflicts_are_reported() {
    let c = dhcp_config(true);
    assert!(check_ip_range_conflict(Ok(None), &c).is_ok());
    assert_eq!(
        check_ip_range_conflict(Ok(Some("br1".to_string())), &c),
        Err("IP range conflict detected with interface 'br1'. New range: 192.168.1.2-192.168.1.254".to_string())
    );
    assert_eq!(
        check_ip_range_conflict(Err("db closed".to_string()), &c),
        Err("Failed to check IP range conflict: db closed".to_string())
    );
}

#[test]
fn router_advertisement_needs_a_mac() {
    let ra = IPV6RAService::new((), ());
    let cfg = || IPV6RAServiceConfig { iface_name: "br0".to_string(), enable: true };
    assert!(ra.start(cfg(), None).is_none());
    let s = ra.start(cfg(), Some(iface(3, None))).unwrap();
    assert_eq!(s.lease_key, "br0");
    assert!(s.server.is_none());
    let s = ra.start(cfg(), Some(iface(3, Some(MAC)))).unwrap();
    let (mac, route) = s.server.unwrap();
    assert_eq!(mac, MAC);
    assert_eq!((route.prefix, route.iface_ip, route.mac), (128, IpAddress::V6(0), Some(MAC)));
    assert!(ra.start(IPV6RAServiceConfig { iface_name: "br0".to_string(), enable: false }, Some(iface(3, Some(MAC)))).is_none());
}

#[test]
fn prefix_delegation_launch() {
    let pd = IPV6PDService::new((), ());
    let cfg = IPV6PDServiceConfig { iface_name: "wan".to_string(), enable: true, mac: [9; 6] };
    let l = pd.start(cfg, Some(iface(2, Some(MAC)))).unwrap();
    assert_eq!((l.ifindex, l.iface_mac, l.client_mac, l.port), (2, Some(MAC), [9; 6], DHCP_V6_CLIENT_PORT));
    assert_eq!(l.iface_name, "wan");
    assert_eq!((l.route_info.default_route, l.route_info.weight), (true, 1));
    assert_eq!(l.route_info.iface_name, "eth1");
    let cfg = IPV6PDServiceConfig { iface_name: "wan".to_string(), enable: true, mac: [9; 6] };
    assert!(pd.start(cfg, None).is_none());
}

#[test]
fn wifi_starts_with_interface_and_config() {
    let w = WifiService::default();
    let c = WifiServiceConfig { iface_name: "wlan0".to_string(), enable: true, config: "ssid=x".to_string() };
    assert_eq!(w.start(c, Some(iface(1, None))), Some(("wlan0".to_string(), "ssid=x".to_string())));
    let c = WifiServiceConfig { iface_name: "wlan0".to_string(), enable: true, config: "ssid=x".to_string() };
    assert_eq!(w.start(c, None), None);
}

#[test]
fn hostapd_watch_counts_errors_and_stops() {
    assert_eq!(hostapd_watch_step(2, ChildPoll::Running, StopSignal::Pending), Some(0));
    assert_eq!(hostapd_watch_step(0, ChildPoll::Exited, StopSignal::Pending), None);
    assert_eq!(hostapd_watch_step(0, ChildPoll::Running, StopSignal::Stop), None);
    let mut count = 0;
    let mut rounds = 0;
    while let Some(c) = hostapd_watch_step(count, ChildPoll::Error, StopSignal::Pending) {
        count = c;
        rounds += 1;
    }
    assert_eq!(rounds, 4);
    assert_eq!(count, 4);
}
