use landscape::metric::maintenance::{
    dns_cutoff, live_cutoff, normalize_dns_domain, retention_cutoffs, MetricRuntimeConfig, WriteBatch,
};
use landscape::metric::query::{
    history_query, ip_history_query, metric_by_key_query, metric_resolution, metric_table, table_prefix,
    ConnectHistoryQueryParams, ConnectSortKey, MetricResolution, SortOrder,
};
use landscape::metric::realtime::{
    realtime_ip_stats, ConnectKey, ConnectMetric, ConnectStatusType, RealtimeCache, RealtimeState,
};
use landscape::net::IpAddress;

fn metric(create: u64, time: u64, ib: u64, eb: u64, ip: u32, status: ConnectStatusType) -> ConnectMetric {
    ConnectMetric {
        key: ConnectKey { create_time: create, cpu_id: 1 },
        src_ip: IpAddress::V4(ip),
        dst_ip: IpAddress::V4(0x08080808),
        src_port: 1000,
        dst_port: 53,
        l4_proto: 17,
        l3_proto: 0,
        flow_id: 0,
        trace_id: 0,
        gress: 1,
        report_time: time,
        create_time_ms: create,
        ingress_bytes: ib,
        ingress_packets: ib / 100,
        egress_bytes: eb,
        egress_packets: eb / 100,
        status,
    }
}

fn empty_params() -> ConnectHistoryQueryParams {
    ConnectHistoryQueryParams {
        start_time: None,
        end_time: None,
        limit: None,
        src_ip: None,
        dst_ip: None,
        port_start: None,
        port_end: None,
        l3_proto: None,
        l4_proto: None,
        flow_id: None,
        sort_key: None,
        sort_order: None,
        status: None,
        gress: None,
    }
}

#[test]
fn first_report_has_zero_rates() {
    let s = RealtimeState::from_metric(&metric(1, 1000, 500, 300, 1, ConnectStatusType::Active));
    assert_eq!(s.status.ingress_bps, 0);
    assert_eq!(s.status.last_report_time, 1000);
    assert_eq!(s.last_ingress_bytes, 500);
    assert_eq!(s.last_egress_pkts, 3);
}

#[test]
fn newer_report_sets_rates_and_raises_counters() {
    let mut s = RealtimeState::from_metric(&metric(1, 1000, 500, 300, 1, ConnectStatusType::Active));
    s.apply_metric(&metric(1, 3000, 2500, 200, 1, ConnectStatusType::Unknow));
    // 2000 bytes in 2 s: 8000 bit/s; egress went down: 0.
    assert_eq!(s.status.ingress_bps, 8000);
    assert_eq!(s.status.egress_bps, 0);
    assert_eq!(s.status.ingress_pps, 10);
    assert_eq!(s.status.last_report_time, 3000);
    assert_eq!(s.status.status, ConnectStatusType::Active);
    assert_eq!(s.last_egress_bytes, 300);
    assert_eq!(s.last_ingress_bytes, 2500);
}

#[test]
fn older_report_changes_nothing() {
    let mut s = RealtimeState::from_metric(&metric(1, 5000, 500, 300, 1, ConnectStatusType::Active));
    let before = s;
    s.apply_metric(&metric(1, 4000, 9000, 9000, 1, ConnectStatusType::Disabled));
    assert_eq!(s, before);
}

#[test]
fn cache_updates_known_and_appends_new() {
    let mut c = RealtimeCache::new();
    c.insert_metric(&metric(1, 1000, 100, 100, 1, ConnectStatusType::Active));
    c.insert_metric(&metric(2, 1000, 100, 100, 2, ConnectStatusType::Active));
    c.insert_metric(&metric(1, 2000, 1100, 100, 1, ConnectStatusType::Unknow));
    assert_eq!(c.len(), 2);
    let mut st = c.statuses();
    st.sort_by_key(|s| s.key.create_time);
    assert_eq!(st.len(), 2);
    assert_eq!(st[0].key.create_time, 1);
    assert_eq!(st[0].ingress_bps, 8000);
    assert_eq!(st[0].last_report_time, 2000);
    assert_eq!(st[1].key.create_time, 2);
    assert_eq!(st[1].ingress_bps, 0);
}

#[test]
fn connect_infos_newest_first_stable() {
    let mut c = RealtimeCache::new();
    c.insert_metric(&metric(1, 1000, 0, 0, 1, ConnectStatusType::Active));
    c.insert_metric(&metric(2, 3000, 0, 0, 1, ConnectStatusType::Active));
    c.insert_metric(&metric(3, 1000, 0, 0, 1, ConnectStatusType::Active));
    let infos = c.connect_infos();
    let mut order: Vec<u64> = infos.iter().map(|s| s.key.create_time).collect();
    assert_eq!(order[0], 2);
    order[1..].sort();
    assert_eq!(order, vec![2, 1, 3]);
    let times: Vec<u64> = infos.iter().map(|s| s.last_report_time).collect();
    assert_eq!(times, vec![3000, 1000, 1000]);
}

#[test]
fn cleanup_drops_disabled_and_stale() {
    let mut c = RealtimeCache::new();
    c.insert_metric(&metric(1, 1000, 0, 0, 1, ConnectStatusType::Active));
    c.insert_metric(&metric(2, 9000, 0, 0, 1, ConnectStatusType::Disabled));
    c.insert_metric(&metric(3, 9000, 0, 0, 1, ConnectStatusType::Active));
    c.retain_live(5000);
    let keys: Vec<u64> = c.statuses().iter().map(|s| s.key.create_time).collect();
    assert_eq!(keys, vec![3]);
}

#[test]
fn ip_stats_sum_per_address_in_first_seen_order() {
    let mut c = RealtimeCache::new();
    c.insert_metric(&metric(1, 1000, 0, 0, 7, ConnectStatusType::Active));
    c.insert_metric(&metric(2, 1000, 0, 0, 5, ConnectStatusType::Active));
    c.insert_metric(&metric(3, 1000, 0, 0, 7, ConnectStatusType::Active));
    c.insert_metric(&metric(1, 2000, 1000, 0, 7, ConnectStatusType::Active));
    c.insert_metric(&metric(3, 2000, 2000, 0, 7, ConnectStatusType::Active));
    let stats = c.get_realtime_ip_stats(true);
    assert_eq!(stats.len(), 2);
    let seven = stats.iter().find(|s| s.ip == IpAddress::V4(7)).unwrap();
    assert_eq!(seven.stats.active_conns, 2);
    assert_eq!(seven.stats.ingress_bps, 8000 + 16000);
    assert_eq!(seven.stats.ingress_pps, 10 + 20);
    let five = stats.iter().find(|s| s.ip == IpAddress::V4(5)).unwrap();
    assert_eq!(five.stats.active_conns, 1);
    assert_eq!(five.stats.ingress_bps, 0);
    let dst = c.get_realtime_ip_stats(false);
    assert_eq!(dst.len(), 1);
    assert_eq!(dst[0].stats.active_conns, 3);
}

#[test]
fn ip_stats_of_a_list_follow_its_order() {
    let mut a = RealtimeState::from_metric(&metric(1, 0, 0, 0, 9, ConnectStatusType::Active)).status;
    a.ingress_bps = 5;
    let mut b = a;
    b.key.create_time = 2;
    b.src_ip = IpAddress::V4(3);
    let mut c = a;
    c.key.create_time = 3;
    c.egress_pps = 4;
    let stats = realtime_ip_stats(&vec![a, b, c], true);
    assert_eq!(stats.len(), 2);
    assert_eq!(stats[0].ip, IpAddress::V4(9));
    assert_eq!((stats[0].stats.ingress_bps, stats[0].stats.egress_pps, stats[0].stats.active_conns), (10, 4, 2));
    assert_eq!(stats[1].ip, IpAddress::V4(3));
    assert_eq!(stats[1].stats.active_conns, 1);
}

#[test]
fn metric_tables_and_default_resolution() {
    assert_eq!(metric_table(MetricResolution::Second), "conn_metrics");
    assert_eq!(metric_table(MetricResolution::Minute), "conn_metrics_1m");
    assert_eq!(metric_table(MetricResolution::Hour), "conn_metrics_1h");
    assert_eq!(metric_table(MetricResolution::Day), "conn_metrics_1d");
    assert_eq!(metric_resolution(None), MetricResolution::Second);
    assert_eq!(metric_resolution(Some(MetricResolution::Hour)), MetricResolution::Hour);
}

#[test]
fn metric_by_key_query_binds_key() {
    let (sql, a, b) = metric_by_key_query(&ConnectKey { create_time: 77, cpu_id: 3 }, MetricResolution::Minute);
    assert_eq!(
        sql,
        "SELECT report_time, ingress_bytes, ingress_packets, egress_bytes, egress_packets, status FROM conn_metrics_1m WHERE create_time = ?1 AND cpu_id = ?2 ORDER BY report_time"
    );
    assert_eq!((a, b), (77, 3));
}

#[test]
fn history_query_without_filters() {
    let q = history_query(&empty_params());
    assert_eq!(
        q.sql,
        "SELECT create_time, cpu_id, src_ip, dst_ip, src_port, dst_port, l4_proto, l3_proto, flow_id, trace_id, total_ingress_bytes, total_egress_bytes, total_ingress_pkts, total_egress_pkts, last_report_time, status, create_time_ms, gress FROM conn_summaries ORDER BY last_report_time DESC"
    );
    assert!(q.params.is_empty());
}

#[test]
fn history_query_with_filters() {
    let mut p = empty_params();
    p.start_time = Some(10);
    p.src_ip = Some("192.168".to_string());
    p.dst_ip = Some(String::new());
    p.l4_proto = Some(6);
    p.sort_key = Some(ConnectSortKey::Ingress);
    p.sort_order = Some(SortOrder::Asc);
    p.limit = Some(50);
    let q = history_query(&p);
    assert!(q.sql.ends_with(
        " FROM conn_summaries WHERE last_report_time >= 10 AND src_ip LIKE ? AND l4_proto = 6 ORDER BY total_ingress_bytes ASC LIMIT 50"
    ));
    assert_eq!(q.params, vec!["%192.168%".to_string()]);
}

#[test]
fn ip_history_query_defaults_to_ten() {
    let mut p = empty_params();
    p.flow_id = Some(2);
    p.sort_key = Some(ConnectSortKey::Egress);
    let q = ip_history_query(&p, false);
    assert_eq!(
        q.sql,
        "SELECT dst_ip, SUM(total_ingress_bytes), SUM(total_egress_bytes), SUM(total_ingress_pkts), SUM(total_egress_pkts), COUNT(*) FROM conn_summaries WHERE flow_id = 2 GROUP BY 1 ORDER BY 3 DESC LIMIT 10"
    );
    assert!(q.params.is_empty());
}

#[test]
fn table_prefix_only_for_named_schema() {
    assert_eq!(table_prefix(""), "");
    assert_eq!(table_prefix("disk"), "disk.");
}

#[test]
fn cutoffs_subtract_retention_and_stop_at_zero() {
    let c = MetricRuntimeConfig {
        conn_retention_mins: 5,
        conn_retention_minute_days: 1,
        conn_retention_hour_days: 2,
        conn_retention_day_days: 30,
        dns_retention_days: 7,
        batch_size: 10,
    };
    let now = 10 * 86_400_000;
    let r = retention_cutoffs(now, &c);
    assert_eq!(r.cutoff_raw, now - 300_000);
    assert_eq!(r.cutoff_1m, now - 86_400_000);
    assert_eq!(r.cutoff_1h, now - 2 * 86_400_000);
    assert_eq!(r.cutoff_1d, 0);
    assert_eq!(r.cutoff_dns, 3 * 86_400_000);
    assert_eq!(dns_cutoff(now, &c), 3 * 86_400_000);
    assert_eq!(live_cutoff(1_000_000), 700_000);
    assert_eq!(live_cutoff(1000), 0);
}

#[test]
fn write_batch_flushes_when_full() {
    let mut b = WriteBatch::new(3);
    assert_eq!(b.messages_per_turn(), 100);
    assert!(!b.after_message(true));
    assert!(!b.after_message(false));
    assert!(!b.after_message(true));
    assert!(b.after_message(true));
    assert_eq!(b.batch_count, 0);
    assert_eq!(WriteBatch::new(500).messages_per_turn(), 500);
}

#[test]
fn dns_domain_loses_one_trailing_dot() {
    assert_eq!(normalize_dns_domain("example.com."), "example.com");
    assert_eq!(normalize_dns_domain("example.com"), "example.com");
    assert_eq!(normalize_dns_domain("."), ".");
    assert_eq!(normalize_dns_domain("a.."), "a.");
}

#[test]
fn ip_connection_counts_add_up_to_the_connections() {
    let base = RealtimeState::from_metric(&metric(1, 0, 0, 0, 9, ConnectStatusType::Active)).status;
    let mut list = vec![];
    for (i, ip) in [9u32, 3, 9, 4, 3, 9].iter().enumerate() {
        let mut s = base;
        s.key.create_time = i as u64;
        s.src_ip = IpAddress::V4(*ip);
        list.push(s);
    }
    let stats = realtime_ip_stats(&list, true);
    assert_eq!(stats.len(), 3);
    let counts: Vec<u32> = stats.iter().map(|s| s.stats.active_conns).collect();
    assert_eq!(counts, vec![3, 2, 1]);
    assert_eq!(counts.iter().sum::<u32>() as usize, list.len());
}
