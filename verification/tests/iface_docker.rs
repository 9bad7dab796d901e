use landscape::docker::{
    container_name, handle_event, listen_step, parse_u32, read_igmp_index, summary_container_name, DockerEvent,
    DockerEventAction, DockerEventType, ListenStep, ListenWake,
};
use landscape::iface::{
    change_cpu_balance, change_dev_status, change_wifi_mode, change_zone, link_config, match_devices,
    old_read_ifaces, queue_balance_write, read_ifaces, reset_balance, set_controller, BalanceAction, CreateDevType,
    IfaceCpuSoftBalance, IfaceZoneType, NetworkIfaceConfig, WifiMode,
};

fn s(x: &str) -> String {
    x.to_string()
}

fn config(name: &str) -> NetworkIfaceConfig {
    NetworkIfaceConfig {
        name: s(name),
        create_dev_type: CreateDevType::NoNeedToCreate,
        controller_name: Some(s("br0")),
        zone_type: IfaceZoneType::Lan,
        enable_in_boot: true,
        wifi_mode: WifiMode::AP,
        xps_rps: None,
    }
}

fn balance(x: &str, r: &str) -> IfaceCpuSoftBalance {
    IfaceCpuSoftBalance { xps: s(x), rps: s(r) }
}

#[test]
fn devices_take_the_last_config_of_their_name_once() {
    let configs = vec![s("eth0"), s("eth1"), s("eth0")];
    let devs = vec![s("eth0"), s("lo"), s("eth0"), s("eth2"), s("eth1")];
    let m = match_devices(&configs, &devs, &vec![true; 5]);
    assert_eq!(m, vec![Some(2), None, None, None, Some(1)]);
    let r = read_ifaces(&configs, &devs, &vec![s("eth2"), s("eth0")]);
    assert_eq!(r.managed, vec![(0, 2), (4, 1)]);
    assert_eq!(r.unmanaged, vec![1, 2, 3]);
    assert_eq!(r.wifi, vec![Some(1), None, None, Some(0), None]);
}

#[test]
fn topology_skips_loopback_devices() {
    let configs = vec![s("lo"), s("eth0")];
    let devs = vec![s("lo"), s("eth0"), s("eth9")];
    let r = old_read_ifaces(&configs, &devs, &vec![true, false, false]);
    assert_eq!(r, vec![(1, Some(1)), (2, None)]);
}

#[test]
fn stored_config_wins_over_derived() {
    let c = link_config(Some(config("a")), Some(config("b"))).unwrap();
    assert_eq!(c.name, "a");
    assert_eq!(link_config(None, Some(config("b"))).unwrap().name, "b");
    assert!(link_config(None, None).is_none());
}

#[test]
fn wan_zone_releases_the_bridge() {
    let (release, c) = change_zone(config("eth0"), IfaceZoneType::Wan);
    assert!(release);
    assert!(c.controller_name.is_none());
    assert_eq!(c.zone_type, IfaceZoneType::Wan);
    let (release, c) = change_zone(config("eth0"), IfaceZoneType::Lan);
    assert!(!release);
    assert_eq!(c.controller_name, Some(s("br0")));
}

#[test]
fn wifi_client_releases_the_bridge() {
    let (release, c) = change_wifi_mode(config("wlan0"), WifiMode::Client);
    assert!(release && c.controller_name.is_none() && c.wifi_mode == WifiMode::Client);
    let (release, c) = change_wifi_mode(config("wlan0"), WifiMode::AP);
    assert!(!release && c.controller_name.is_some());
}

#[test]
fn boot_status_and_controller_are_recorded() {
    assert!(!change_dev_status(config("eth0"), false).enable_in_boot);
    assert_eq!(set_controller(config("eth0"), Some(s("br9"))).controller_name, Some(s("br9")));
    assert_eq!(set_controller(config("eth0"), None).controller_name, None);
}

#[test]
fn cpu_balance_decisions() {
    let (a, c) = change_cpu_balance(config("eth0"), Some(balance("3", "c")));
    assert!(matches!(a, BalanceAction::Apply(b) if b.xps == "3" && b.rps == "c"));
    assert_eq!(c.xps_rps.as_ref().map(|b| b.xps.clone()), Some(s("3")));
    let (a, c) = change_cpu_balance(c, None);
    assert!(matches!(a, BalanceAction::Reset));
    assert!(c.xps_rps.is_none());
    let (a, c) = change_cpu_balance(c, None);
    assert!(matches!(a, BalanceAction::Nothing));
    assert!(c.xps_rps.is_none());
    let r = reset_balance();
    assert_eq!((r.xps.as_str(), r.rps.as_str()), ("0", "0"));
}

#[test]
fn queue_files_by_direction() {
    let b = balance("6", "6");
    assert_eq!(queue_balance_write("tx-0", &b), Some((s("xps_cpus"), s("6"))));
    assert_eq!(queue_balance_write("rx-3", &balance("1", "f")), Some((s("rps_cpus"), s("f"))));
    assert_eq!(queue_balance_write("tx", &b), None);
    assert_eq!(queue_balance_write("byte_queue_limits", &b), None);
}

fn event(typ: Option<DockerEventType>, action: Option<&str>, id: Option<&str>, name: Option<&str>) -> DockerEvent {
    DockerEvent { typ, action: action.map(s), actor_id: id.map(s), actor_name: name.map(s) }
}

#[test]
fn docker_events_to_route_changes() {
    let a = handle_event(event(Some(DockerEventType::Container), Some("stop"), Some("abc"), Some("web")));
    assert!(matches!(a, DockerEventAction::RemoveContainerRoutes(n) if n == "web"));
    let a = handle_event(event(Some(DockerEventType::Container), Some("start"), Some("abc"), Some("web")));
    assert!(matches!(a, DockerEventAction::Ignore));
    let a = handle_event(event(Some(DockerEventType::Container), Some("stop"), Some("abc"), None));
    assert!(matches!(a, DockerEventAction::Ignore));
    let a = handle_event(event(Some(DockerEventType::Network), Some("create"), Some("n1"), None));
    assert!(matches!(a, DockerEventAction::AddNetworkRoute(n) if n == "n1"));
    let a = handle_event(event(Some(DockerEventType::Network), Some("destroy"), Some("n1"), None));
    assert!(matches!(a, DockerEventAction::RemoveNetworkRoute(n) if n == "n1"));
    let a = handle_event(event(Some(DockerEventType::Network), Some("connect"), Some("n1"), None));
    assert!(matches!(a, DockerEventAction::Ignore));
    let a = handle_event(event(Some(DockerEventType::Other), Some("stop"), None, None));
    assert!(matches!(a, DockerEventAction::Log));
    assert!(matches!(handle_event(event(None, None, None, None)), DockerEventAction::Log));
}

#[test]
fn listener_gives_up_after_three_failed_pings() {
    let mut t = 0;
    for _ in 0..2 {
        match listen_step(t, ListenWake::Tick { running: true, ping_ok: false }) {
            ListenStep::Continue(n) => t = n,
            _ => panic!("two failures are tolerated"),
        }
    }
    assert_eq!(t, 2);
    assert!(matches!(listen_step(t, ListenWake::Tick { running: true, ping_ok: true }), ListenStep::Continue(2)));
    assert!(matches!(listen_step(t, ListenWake::Tick { running: false, ping_ok: false }), ListenStep::Continue(2)));
    assert!(matches!(listen_step(t, ListenWake::Tick { running: true, ping_ok: false }), ListenStep::Stop));
    assert!(matches!(listen_step(0, ListenWake::Event(None)), ListenStep::Stop));
    assert!(matches!(listen_step(1, ListenWake::Event(Some(Err(())))), ListenStep::Continue(1)));
    assert!(matches!(listen_step(0, ListenWake::StatusChanged { watch_failed: false, exiting: true }), ListenStep::Stop));
    assert!(matches!(listen_step(0, ListenWake::StatusChanged { watch_failed: false, exiting: false }), ListenStep::Continue(0)));
    assert!(matches!(listen_step(0, ListenWake::Enroll), ListenStep::Enroll));
    let e = event(Some(DockerEventType::Container), Some("stop"), None, Some("db"));
    assert!(matches!(listen_step(0, ListenWake::Event(Some(Ok(e)))), ListenStep::Handle(DockerEventAction::RemoveContainerRoutes(_))));
}

#[test]
fn container_names_lose_the_leading_slash() {
    assert_eq!(container_name(s("/web")), "web");
    assert_eq!(container_name(s("web")), "web");
    assert_eq!(container_name(s("//x")), "/x");
    assert_eq!(summary_container_name(&Some(vec![s("/db"), s("/alias")])), Some(s("db")));
    assert_eq!(summary_container_name(&Some(vec![s("db")])), None);
    assert_eq!(summary_container_name(&Some(vec![])), None);
    assert_eq!(summary_container_name(&None), None);
}

#[test]
fn decimal_parse_like_std() {
    let p = |t: &str| parse_u32(&t.chars().collect());
    assert_eq!(p("42"), Some(42));
    assert_eq!(p("+7"), Some(7));
    assert_eq!(p("4294967295"), Some(u32::MAX));
    assert_eq!(p("4294967296"), None);
    assert_eq!(p(""), None);
    assert_eq!(p("+"), None);
    assert_eq!(p("1a"), None);
    for t in ["0", "123", "+5", "99999999999", "-1", "٣"] {
        assert_eq!(p(t), t.parse::<u32>().ok());
    }
}

#[test]
fn igmp_table_gives_the_first_usable_index() {
    let lines = vec![
        s("Idx\tDevice    : Count Querier\tGroup    Users Timer\tReporter"),
        s("1\tlo        :     1      V3"),
        s("\t\t\t\t010000E0     1 0:00000000\t\t0"),
        s("24\teth0      :     1      V3"),
        s("25\teth1      :     1      V3"),
    ];
    assert_eq!(read_igmp_index(&lines), Some(24));
    assert_eq!(read_igmp_index(&vec![s("1\tlo  :  1")]), None);
    assert_eq!(read_igmp_index(&vec![]), None);
    assert_eq!(read_igmp_index(&vec![s("99999999999 x"), s("3 eth0")]), Some(3));
}

#[test]
fn managing_a_device_stores_a_derived_config_once() {
    assert_eq!(landscape::iface::manage_dev(&None, Some(config("eth3"))).map(|c| c.name), Some(s("eth3")));
    assert!(landscape::iface::manage_dev(&Some(config("eth3")), Some(config("eth3"))).is_none());
    assert!(landscape::iface::manage_dev(&None, None).is_none());
}
