use landscape::config_service::geo_cache::{
    finish_download, next_update_after, refresh_plan, source_names, GeoCache, GeoConfigKey,
    GeoIpConfig, GeoIpDirectItem, GeoIpSource, GeoIpSourceConfig, IpConfig, RefreshStep, MILL_A_DAY,
};
use landscape::config_service::rules::{
    convert_config_to_runtime_rule, prepare_flow_rules, redirect_delete_events, resolve_configs,
    update_flow_dst_ip_map, update_many_dst_ip_rules, FirewallBlacklistConfig, FirewallBlacklistSource,
    WanIPRuleSource, WanIpRuleConfig,
};
use landscape::config_service::static_nat_mapping::{
    collect_enabled_items, default_static_mapping_rule, default_static_mapping_rule_with_new_ids,
    mapping_rule_into_hash, update_mapping_rules, StaticMapPair, StaticNatMappingConfig,
};
use landscape::net::IpAddress;

fn v4(a: u32, p: u8) -> IpConfig {
    IpConfig { ip: IpAddress::V4(a), prefix: p }
}

fn item(key: &str, ips: Vec<IpConfig>) -> GeoIpDirectItem {
    GeoIpDirectItem { key: key.to_string(), values: ips }
}

fn lookup(c: &GeoCache, name: &str, key: &str) -> Vec<IpConfig> {
    c.lookup(&name.to_string(), &key.to_string())
}

fn cache_with_cn() -> GeoCache {
    let mut c = GeoCache::new();
    c.set(GeoIpConfig { name: "geo".to_string(), key: "CN".to_string(), values: vec![v4(0x01000000, 8)] });
    c.set(GeoIpConfig { name: "geo".to_string(), key: "US".to_string(), values: vec![v4(0x03000000, 8)] });
    c
}

fn rule(index: u32, enable: bool, flow: u32, mark: u32, source: Vec<WanIPRuleSource>) -> WanIpRuleConfig {
    WanIpRuleConfig { id: index as u128, index, enable, mark, source, remark: String::new(), flow_id: flow }
}

#[test]
fn keys_are_stored_in_ascii_upper_case() {
    let mut c = GeoCache::new();
    c.replace_source(&"geo".to_string(), vec![item("cn-Private_é", vec![v4(1, 32)])]);
    assert_eq!(c.entries[0].key, "CN-PRIVATE_é");
    assert_eq!(lookup(&c, "geo", "Cn-pRivate_é"), vec![v4(1, 32)]);
    assert!(lookup(&c, "geo", "CN-PRIVATE_É").is_empty());
}

#[test]
fn cache_read_gives_back_the_last_write() {
    let mut c = cache_with_cn();
    assert_eq!(lookup(&c, "geo", "cn"), vec![v4(0x01000000, 8)]);
    c.set(GeoIpConfig { name: "geo".to_string(), key: "CN".to_string(), values: vec![v4(0x02000000, 8)] });
    assert_eq!(lookup(&c, "geo", "CN"), vec![v4(0x02000000, 8)]);
    assert_eq!(lookup(&c, "geo", "US"), vec![v4(0x03000000, 8)]);
    assert_eq!(c.entries.len(), 2);
    c.del(&"geo".to_string(), &"CN".to_string());
    assert!(lookup(&c, "geo", "CN").is_empty());
    assert_eq!(lookup(&c, "other", "US"), vec![]);
}

#[test]
fn replace_source_drops_keys_the_data_lacks() {
    let mut c = cache_with_cn();
    c.set(GeoIpConfig { name: "other".to_string(), key: "CN".to_string(), values: vec![v4(9, 32)] });
    c.replace_source(&"geo".to_string(), vec![item("jp", vec![v4(4, 32)]), item("Jp", vec![v4(5, 32)])]);
    assert!(lookup(&c, "geo", "CN").is_empty());
    assert!(lookup(&c, "geo", "US").is_empty());
    assert_eq!(lookup(&c, "geo", "JP"), vec![v4(5, 32)]);
    assert_eq!(lookup(&c, "other", "CN"), vec![v4(9, 32)]);
}

#[test]
fn merge_source_keeps_other_keys() {
    let mut c = cache_with_cn();
    c.merge_source(&"geo".to_string(), vec![item("us", vec![v4(6, 32)])]);
    assert_eq!(lookup(&c, "geo", "CN"), vec![v4(0x01000000, 8)]);
    assert_eq!(lookup(&c, "geo", "US"), vec![v4(6, 32)]);
}

#[test]
fn forced_refresh_keeps_configured_sources_only() {
    let mut c = cache_with_cn();
    c.set(GeoIpConfig { name: "gone".to_string(), key: "X".to_string(), values: vec![v4(1, 32)] });
    c.retain_sources(vec!["geo".to_string()]);
    assert!(lookup(&c, "gone", "X").is_empty());
    assert_eq!(lookup(&c, "geo", "US"), vec![v4(0x03000000, 8)]);
}

#[test]
fn refresh_downloads_due_sources_and_rewrites_direct_ones() {
    let configs = vec![
        GeoIpSourceConfig { id: 1, name: "a".to_string(), source: GeoIpSource::Url { url: "http://x".to_string(), next_update_at: 500 } },
        GeoIpSourceConfig { id: 2, name: "b".to_string(), source: GeoIpSource::Url { url: "http://y".to_string(), next_update_at: 2000 } },
        GeoIpSourceConfig { id: 3, name: "c".to_string(), source: GeoIpSource::Direct { data: vec![] } },
    ];
    assert_eq!(refresh_plan(&configs, false, 1000), vec![RefreshStep::Download(0), RefreshStep::WriteDirect(2)]);
    assert_eq!(
        refresh_plan(&configs, true, 1000),
        vec![RefreshStep::Download(0), RefreshStep::Download(1), RefreshStep::WriteDirect(2)]
    );
    assert_eq!(refresh_plan(&configs, false, 2000), vec![RefreshStep::Download(0), RefreshStep::WriteDirect(2)]);
    assert_eq!(source_names(&configs), vec!["a".to_string(), "b".to_string(), "c".to_string()]);
}

#[test]
fn finished_download_replaces_lists_and_moves_due_time() {
    let mut c = cache_with_cn();
    let mut cfg = GeoIpSourceConfig {
        id: 1,
        name: "geo".to_string(),
        source: GeoIpSource::Url { url: "http://x".to_string(), next_update_at: 0 },
    };
    finish_download(&mut c, &mut cfg, vec![item("de", vec![v4(7, 32)])], 1_000);
    assert!(lookup(&c, "geo", "CN").is_empty());
    assert_eq!(lookup(&c, "geo", "DE"), vec![v4(7, 32)]);
    match cfg.source {
        GeoIpSource::Url { next_update_at, url } => {
            assert_eq!(next_update_at, 1_000 + MILL_A_DAY);
            assert_eq!(url, "http://x");
        },
        _ => panic!("the source stays a download"),
    }
    assert_eq!(next_update_after(u64::MAX - 1), u64::MAX);
}

#[test]
fn dst_rules_expand_geo_keys_and_configs() {
    let c = cache_with_cn();
    let rules = vec![rule(
        4,
        true,
        1,
        0x20,
        vec![
            WanIPRuleSource::GeoKey(GeoConfigKey { name: "geo".to_string(), key: "cn".to_string() }),
            WanIPRuleSource::Config(v4(0x0a000000, 8)),
            WanIPRuleSource::GeoKey(GeoConfigKey { name: "geo".to_string(), key: "missing".to_string() }),
        ],
    )];
    let marks = convert_config_to_runtime_rule(&rules, &c);
    assert_eq!(marks.len(), 2);
    assert_eq!(marks[0].cidr, v4(0x01000000, 8));
    assert_eq!(marks[1].cidr, v4(0x0a000000, 8));
    assert!(marks.iter().all(|m| m.mark == 0x20 && m.priority == 4));
}

#[test]
fn flow_rules_applied_enabled_by_index() {
    let rules = vec![
        rule(5, true, 1, 1, vec![WanIPRuleSource::Config(v4(1, 32))]),
        rule(2, false, 1, 2, vec![WanIPRuleSource::Config(v4(2, 32))]),
        rule(1, true, 1, 3, vec![WanIPRuleSource::Config(v4(3, 32))]),
        rule(5, true, 1, 4, vec![WanIPRuleSource::Config(v4(4, 32))]),
    ];
    let applied = prepare_flow_rules(rules);
    let marks: Vec<u32> = applied.iter().map(|r| r.mark).collect();
    assert_eq!(marks, vec![3, 1, 4]);
    let c = GeoCache::new();
    let installed = update_flow_dst_ip_map(applied, &c);
    let cidrs: Vec<IpConfig> = installed.iter().map(|m| m.cidr).collect();
    assert_eq!(cidrs, vec![v4(3, 32), v4(1, 32), v4(4, 32)]);
}

#[test]
fn many_rules_grouped_per_flow_in_first_seen_order() {
    let rules = vec![
        rule(1, true, 7, 1, vec![WanIPRuleSource::Config(v4(1, 32))]),
        rule(1, true, 3, 2, vec![WanIPRuleSource::Config(v4(2, 32))]),
        rule(0, true, 7, 3, vec![WanIPRuleSource::Config(v4(3, 32))]),
        rule(0, false, 3, 4, vec![WanIPRuleSource::Config(v4(4, 32))]),
    ];
    let out = update_many_dst_ip_rules(rules, &GeoCache::new());
    assert_eq!(out.len(), 2);
    assert_eq!(out[0].0, 7);
    let m0: Vec<u32> = out[0].1.iter().map(|m| m.mark).collect();
    assert_eq!(m0, vec![3, 1]);
    assert_eq!(out[1].0, 3);
    let m1: Vec<u32> = out[1].1.iter().map(|m| m.mark).collect();
    assert_eq!(m1, vec![2]);
}

#[test]
fn blacklists_resolve_enabled_sources() {
    let c = cache_with_cn();
    let configs = vec![
        FirewallBlacklistConfig {
            id: 1,
            enable: true,
            source: vec![
                FirewallBlacklistSource::Config(v4(5, 32)),
                FirewallBlacklistSource::GeoKey(GeoConfigKey { name: "geo".to_string(), key: "US".to_string() }),
            ],
            remark: String::new(),
        },
        FirewallBlacklistConfig { id: 2, enable: false, source: vec![FirewallBlacklistSource::Config(v4(6, 32))], remark: String::new() },
    ];
    assert_eq!(resolve_configs(&configs, &c), vec![v4(5, 32), v4(0x03000000, 8)]);
}

#[test]
fn redirect_delete_events_per_flow_or_all() {
    assert_eq!(redirect_delete_events(&vec![]), vec![None]);
    assert_eq!(redirect_delete_events(&vec![2, 5]), vec![Some(2), Some(5)]);
}

fn mapping(id: u128, enable: bool, pairs: Vec<(u16, u16)>, v4: Option<u32>, protos: Vec<u8>) -> StaticNatMappingConfig {
    StaticNatMappingConfig {
        mapping_pair_ports: pairs.into_iter().map(|(w, l)| StaticMapPair { wan_port: w, lan_port: l }).collect(),
        wan_iface_name: None,
        lan_ipv4: v4,
        lan_ipv6: None,
        ipv4_l4_protocol: protos,
        ipv6_l4_protocol: vec![6],
        id,
        enable,
        remark: String::new(),
    }
}

#[test]
fn mapping_items_cover_pairs_and_protocols() {
    let m = mapping(1, true, vec![(80, 8080), (443, 8443)], Some(0x0a000002), vec![6, 17]);
    let items = m.convert_to_item();
    let seen: Vec<(u16, u16, u8)> = items.iter().map(|i| (i.wan_port, i.lan_port, i.l4_protocol)).collect();
    assert_eq!(seen, vec![(80, 8080, 6), (80, 8080, 17), (443, 8443, 6), (443, 8443, 17)]);
    let disabled = mapping(2, false, vec![(22, 22)], Some(1), vec![6]);
    assert_eq!(collect_enabled_items(&vec![m, disabled]).len(), 4);
}

#[test]
fn mapping_update_removes_and_adds_the_difference() {
    let old = vec![mapping(1, true, vec![(80, 80), (22, 22)], Some(1), vec![6])];
    let new = vec![mapping(1, true, vec![(80, 80), (25, 25)], Some(1), vec![6])];
    let (del, add) = update_mapping_rules(&new, &old);
    assert_eq!(del.len(), 1);
    assert_eq!(del[0].wan_port, 22);
    assert_eq!(add.len(), 1);
    assert_eq!(add[0].wan_port, 25);
    let (del, add) = update_mapping_rules(&old, &old);
    assert!(del.is_empty() && add.is_empty());
}

#[test]
fn mapping_hash_keeps_enabled_last_per_id() {
    let h = mapping_rule_into_hash(vec![
        mapping(1, true, vec![(1, 1)], None, vec![]),
        mapping(1, true, vec![(2, 2)], None, vec![]),
        mapping(2, false, vec![(3, 3)], None, vec![]),
    ]);
    assert_eq!(h.len(), 1);
    assert_eq!(h[&1].mapping_pair_ports[0].wan_port, 2);
}

#[test]
fn default_mappings_open_dhcp_client_ports() {
    let d = default_static_mapping_rule(10, 11);
    assert_eq!(d.len(), 2);
    assert_eq!(d[0].mapping_pair_ports, vec![StaticMapPair { wan_port: 68, lan_port: 68 }]);
    assert_eq!(d[0].lan_ipv4, Some(0));
    assert_eq!(d[0].ipv4_l4_protocol, vec![17]);
    assert_eq!(d[0].remark, "Default DHCPv4 Client Port");
    assert_eq!(d[1].mapping_pair_ports, vec![StaticMapPair { wan_port: 546, lan_port: 546 }]);
    assert_eq!(d[1].lan_ipv6, Some(0));
    assert_eq!(d[1].id, 11);
    let fresh = default_static_mapping_rule_with_new_ids();
    assert_ne!(fresh[0].id, fresh[1].id);
}

#[test]
fn blacklist_sync_resolves_new_and_old() {
    let c = cache_with_cn();
    let new = vec![FirewallBlacklistConfig {
        id: 1,
        enable: true,
        source: vec![FirewallBlacklistSource::GeoKey(GeoConfigKey { name: "geo".to_string(), key: "cn".to_string() })],
        remark: String::new(),
    }];
    let old = vec![FirewallBlacklistConfig { id: 1, enable: true, source: vec![FirewallBlacklistSource::Config(v4(9, 32))], remark: String::new() }];
    let (n, o) = landscape::config_service::rules::resolve_and_sync_blacklist(&new, &old, &c);
    assert_eq!(n, vec![v4(0x01000000, 8)]);
    assert_eq!(o, vec![v4(9, 32)]);
}
