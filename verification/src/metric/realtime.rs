//! The live connection table: the last counters of each connection, the
//! rates derived from successive reports, and the views the API serves.
use crate::sorting::{lemma_stable_sorted_ascending, lemma_stable_sorted_permutes, stable_sort_by_key, stable_sorted, SortKey};
use crate::net::IpAddress;
use dashmap::DashMap;
use vstd::prelude::*;

verus! {

/// Identifies a connection: its creation time and the CPU that tracked it.
#[derive(Clone, Copy, PartialEq, Eq, Structural, Debug)]
pub struct ConnectKey {
    pub create_time: u64,
    pub cpu_id: u32,
}

/// The state a connection report gives.
#[derive(Clone, Copy, PartialEq, Eq, Structural, Debug)]
pub enum ConnectStatusType {
    Unknow,
    Active,
    Disabled,
}

/// One report of a connection's counters.
#[derive(Clone, Copy, PartialEq, Eq, Structural, Debug)]
pub struct ConnectMetric {
    pub key: ConnectKey,
    pub src_ip: IpAddress,
    pub dst_ip: IpAddress,
    pub src_port: u16,
    pub dst_port: u16,
    pub l4_proto: u8,
    pub l3_proto: u8,
    pub flow_id: u8,
    pub trace_id: u8,
    pub gress: u8,
    pub report_time: u64,
    pub create_time_ms: u64,
    pub ingress_bytes: u64,
    pub ingress_packets: u64,
    pub egress_bytes: u64,
    pub egress_packets: u64,
    pub status: ConnectStatusType,
}

/// What the API shows of a live connection: its identity, its current rates
/// (bits and packets per second) and the time of its last report.
#[derive(Clone, Copy, PartialEq, Eq, Structural, Debug)]
pub struct ConnectRealtimeStatus {
    pub key: ConnectKey,
    pub src_ip: IpAddress,
    pub dst_ip: IpAddress,
    pub src_port: u16,
    pub dst_port: u16,
    pub l4_proto: u8,
    pub l3_proto: u8,
    pub flow_id: u8,
    pub trace_id: u8,
    pub gress: u8,
    pub create_time_ms: u64,
    pub ingress_bps: u64,
    pub egress_bps: u64,
    pub ingress_pps: u64,
    pub egress_pps: u64,
    pub last_report_time: u64,
    pub status: ConnectStatusType,
}

/// A live connection with the highest counters reported so far.
#[derive(Clone, Copy, PartialEq, Eq, Structural, Debug)]
pub struct RealtimeState {
    pub status: ConnectRealtimeStatus,
    pub last_ingress_bytes: u64,
    pub last_egress_bytes: u64,
    pub last_ingress_pkts: u64,
    pub last_egress_pkts: u64,
}

pub open spec fn sat_sub(a: u64, b: u64) -> int {
    if a >= b {
        a - b
    } else {
        0
    }
}

pub open spec fn max_u64(a: u64, b: u64) -> u64 {
    if a >= b {
        a
    } else {
        b
    }
}

/// The state of a connection first seen in a report: rates 0, counters as
/// reported.
pub open spec fn initial_state(m: ConnectMetric) -> RealtimeState {
    RealtimeState {
        status: ConnectRealtimeStatus {
            key: m.key,
            src_ip: m.src_ip,
            dst_ip: m.dst_ip,
            src_port: m.src_port,
            dst_port: m.dst_port,
            l4_proto: m.l4_proto,
            l3_proto: m.l3_proto,
            flow_id: m.flow_id,
            trace_id: m.trace_id,
            gress: m.gress,
            create_time_ms: m.create_time_ms,
            ingress_bps: 0,
            egress_bps: 0,
            ingress_pps: 0,
            egress_pps: 0,
            last_report_time: m.report_time,
            status: m.status,
        },
        last_ingress_bytes: m.ingress_bytes,
        last_egress_bytes: m.egress_bytes,
        last_ingress_pkts: m.ingress_packets,
        last_egress_pkts: m.egress_packets,
    }
}

/// A report that can be applied without overflow: when it is newer than the
/// state, each counter increase times its scale (8000 for bytes, 1000 for
/// packets) fits in 64 bits.
pub open spec fn rates_fit(e: RealtimeState, m: ConnectMetric) -> bool {
    m.report_time > e.status.last_report_time ==> {
        &&& sat_sub(m.ingress_bytes, e.last_ingress_bytes) * 8000 <= u64::MAX
        &&& sat_sub(m.egress_bytes, e.last_egress_bytes) * 8000 <= u64::MAX
        &&& sat_sub(m.ingress_packets, e.last_ingress_pkts) * 1000 <= u64::MAX
        &&& sat_sub(m.egress_packets, e.last_egress_pkts) * 1000 <= u64::MAX
    }
}

/// A known connection after a report. A report older than the last one
/// changes nothing. A newer one sets the rates from the counter increases over
/// the time between the two reports (bits per second from bytes, packets per
/// second), moves the report time, takes the reported status unless it is
/// `Unknow`, and raises each counter to the reported one if that is higher.
pub open spec fn updated_state(e: RealtimeState, m: ConnectMetric) -> RealtimeState {
    if m.report_time > e.status.last_report_time {
        let dt = m.report_time - e.status.last_report_time;
        RealtimeState {
            status: ConnectRealtimeStatus {
                ingress_bps: (sat_sub(m.ingress_bytes, e.last_ingress_bytes) * 8000 / dt) as u64,
                egress_bps: (sat_sub(m.egress_bytes, e.last_egress_bytes) * 8000 / dt) as u64,
                ingress_pps: (sat_sub(m.ingress_packets, e.last_ingress_pkts) * 1000 / dt) as u64,
                egress_pps: (sat_sub(m.egress_packets, e.last_egress_pkts) * 1000 / dt) as u64,
                last_report_time: m.report_time,
                status: if m.status != ConnectStatusType::Unknow {
                    m.status
                } else {
                    e.status.status
                },
                ..e.status
            },
            last_ingress_bytes: max_u64(e.last_ingress_bytes, m.ingress_bytes),
            last_egress_bytes: max_u64(e.last_egress_bytes, m.egress_bytes),
            last_ingress_pkts: max_u64(e.last_ingress_pkts, m.ingress_packets),
            last_egress_pkts: max_u64(e.last_egress_pkts, m.egress_packets),
        }
    } else {
        e
    }
}

fn rate(now_v: u64, last_v: u64, scale: u64, dt: u64) -> (r: u64)
    requires
        dt > 0,
        scale == 8000 || scale == 1000,
        sat_sub(now_v, last_v) * scale <= u64::MAX,
    ensures
        r == sat_sub(now_v, last_v) * scale / dt as int,
{
    let d = now_v.saturating_sub(last_v);
    assert(d == sat_sub(now_v, last_v));
    assert(d * scale <= u64::MAX);
    (d * scale) / dt
}

fn max_of(a: u64, b: u64) -> (r: u64)
    ensures
        r == max_u64(a, b),
{
    if a >= b {
        a
    } else {
        b
    }
}

impl RealtimeState {
    /// The state of a connection first seen in report `m`.
    pub fn from_metric(m: &ConnectMetric) -> (r: RealtimeState)
        ensures
            r == initial_state(*m),
    {
        RealtimeState {
            status: ConnectRealtimeStatus {
                key: m.key,
                src_ip: m.src_ip,
                dst_ip: m.dst_ip,
                src_port: m.src_port,
                dst_port: m.dst_port,
                l4_proto: m.l4_proto,
                l3_proto: m.l3_proto,
                flow_id: m.flow_id,
                trace_id: m.trace_id,
                gress: m.gress,
                create_time_ms: m.create_time_ms,
                ingress_bps: 0,
                egress_bps: 0,
                ingress_pps: 0,
                egress_pps: 0,
                last_report_time: m.report_time,
                status: m.status,
            },
            last_ingress_bytes: m.ingress_bytes,
            last_egress_bytes: m.egress_bytes,
            last_ingress_pkts: m.ingress_packets,
            last_egress_pkts: m.egress_packets,
        }
    }

    /// Applies report `m` to a known connection.
    pub fn apply_metric(&mut self, m: &ConnectMetric)
        requires
            rates_fit(*old(self), *m),
        ensures
            *final(self) == updated_state(*old(self), *m),
    {
        let now = m.report_time;
        if now > self.status.last_report_time {
            let delta_t = now - self.status.last_report_time;
            self.status.ingress_bps = rate(m.ingress_bytes, self.last_ingress_bytes, 8000, delta_t);
            self.status.egress_bps = rate(m.egress_bytes, self.last_egress_bytes, 8000, delta_t);
            self.status.ingress_pps = rate(m.ingress_packets, self.last_ingress_pkts, 1000, delta_t);
            self.status.egress_pps = rate(m.egress_packets, self.last_egress_pkts, 1000, delta_t);
            self.status.last_report_time = now;
            if m.status != ConnectStatusType::Unknow {
                self.status.status = m.status;
            }
            self.last_ingress_bytes = max_of(self.last_ingress_bytes, m.ingress_bytes);
            self.last_egress_bytes = max_of(self.last_egress_bytes, m.egress_bytes);
            self.last_ingress_pkts = max_of(self.last_ingress_pkts, m.ingress_packets);
            self.last_egress_pkts = max_of(self.last_egress_pkts, m.egress_packets);
        }
    }
}

/// Reports only ever raise a connection's counters and its report time, and
/// keep its identity.
pub proof fn lemma_update_monotone(e: RealtimeState, m: ConnectMetric)
    ensures
        updated_state(e, m).last_ingress_bytes >= e.last_ingress_bytes,
        updated_state(e, m).last_egress_bytes >= e.last_egress_bytes,
        updated_state(e, m).last_ingress_pkts >= e.last_ingress_pkts,
        updated_state(e, m).last_egress_pkts >= e.last_egress_pkts,
        updated_state(e, m).status.last_report_time >= e.status.last_report_time,
        updated_state(e, m).status.key == e.status.key,
        updated_state(e, m).status.src_ip == e.status.src_ip,
        updated_state(e, m).status.dst_ip == e.status.dst_ip,
{
}

/// A report with status `Unknow` never changes the status a connection shows.
pub proof fn lemma_unknown_status_kept(e: RealtimeState, m: ConnectMetric)
    requires
        m.status == ConnectStatusType::Unknow,
    ensures
        updated_state(e, m).status.status == e.status.status,
{
}

/// The increase of a counter from `last` to `now`, none when it went down.
pub open spec fn counter_increase(now: u64, last: u64) -> int {
    if now >= last {
        now - last
    } else {
        0
    }
}

/// `rate` is the whole part of `increase * scale / dt`: `rate * dt` does not
/// pass `increase * scale`, and `(rate + 1) * dt` does.
pub open spec fn is_rate(rate: u64, increase: int, scale: int, dt: int) -> bool {
    rate * dt <= increase * scale < (rate + 1) * dt
}

proof fn lemma_floor_div(x: int, d: int)
    requires
        x >= 0,
        d > 0,
    ensures
        (x / d) * d <= x < (x / d + 1) * d,
{
    assert((x / d) * d <= x < (x / d + 1) * d) by (nonlinear_arith)
        requires
            x >= 0,
            d > 0,
    ;
}

/// A newer report sets each rate from its own counter over the time since the
/// last report, in milliseconds: bits per second from the byte counters
/// (scale 8000), packets per second from the packet counters (scale 1000),
/// ingress from the ingress counters and egress from the egress counters.
pub proof fn lemma_rates_follow_their_counters(e: RealtimeState, m: ConnectMetric)
    requires
        m.report_time > e.status.last_report_time,
        rates_fit(e, m),
    ensures
        ({
            let dt = m.report_time - e.status.last_report_time;
            let u = updated_state(e, m).status;
            &&& is_rate(u.ingress_bps, counter_increase(m.ingress_bytes, e.last_ingress_bytes), 8000, dt)
            &&& is_rate(u.egress_bps, counter_increase(m.egress_bytes, e.last_egress_bytes), 8000, dt)
            &&& is_rate(u.ingress_pps, counter_increase(m.ingress_packets, e.last_ingress_pkts), 1000, dt)
            &&& is_rate(u.egress_pps, counter_increase(m.egress_packets, e.last_egress_pkts), 1000, dt)
        }),
{
    let dt: int = m.report_time - e.status.last_report_time;
    let ib = counter_increase(m.ingress_bytes, e.last_ingress_bytes) * 8000;
    let eb = counter_increase(m.egress_bytes, e.last_egress_bytes) * 8000;
    let ip = counter_increase(m.ingress_packets, e.last_ingress_pkts) * 1000;
    let ep = counter_increase(m.egress_packets, e.last_egress_pkts) * 1000;
    lemma_floor_div(ib, dt);
    lemma_floor_div(eb, dt);
    lemma_floor_div(ip, dt);
    lemma_floor_div(ep, dt);
    assert(0 <= ib / dt <= ib) by (nonlinear_arith)
        requires
            ib >= 0,
            dt > 0,
    ;
    assert(0 <= eb / dt <= eb) by (nonlinear_arith)
        requires
            eb >= 0,
            dt > 0,
    ;
    assert(0 <= ip / dt <= ip) by (nonlinear_arith)
        requires
            ip >= 0,
            dt > 0,
    ;
    assert(0 <= ep / dt <= ep) by (nonlinear_arith)
        requires
            ep >= 0,
            dt > 0,
    ;
}

/// A newer report moves the report time to its own, shows its status unless
/// that is `Unknow`, and leaves each counter at the larger of the one held
/// and the one reported.
pub proof fn lemma_newer_report_moves_state(e: RealtimeState, m: ConnectMetric)
    requires
        m.report_time > e.status.last_report_time,
    ensures
        ({
            let u = updated_state(e, m);
            &&& u.status.last_report_time == m.report_time
            &&& m.status != ConnectStatusType::Unknow ==> u.status.status == m.status
            &&& u.last_ingress_bytes >= e.last_ingress_bytes && u.last_ingress_bytes >= m.ingress_bytes
            &&& (u.last_ingress_bytes == e.last_ingress_bytes || u.last_ingress_bytes == m.ingress_bytes)
            &&& u.last_egress_bytes >= e.last_egress_bytes && u.last_egress_bytes >= m.egress_bytes
            &&& (u.last_egress_bytes == e.last_egress_bytes || u.last_egress_bytes == m.egress_bytes)
            &&& u.last_ingress_pkts >= e.last_ingress_pkts && u.last_ingress_pkts >= m.ingress_packets
            &&& (u.last_ingress_pkts == e.last_ingress_pkts || u.last_ingress_pkts == m.ingress_packets)
            &&& u.last_egress_pkts >= e.last_egress_pkts && u.last_egress_pkts >= m.egress_packets
            &&& (u.last_egress_pkts == e.last_egress_pkts || u.last_egress_pkts == m.egress_packets)
            &&& u.status.key == e.status.key && u.status.src_ip == e.status.src_ip && u.status.dst_ip == e.status.dst_ip
            &&& u.status.src_port == e.status.src_port && u.status.dst_port == e.status.dst_port
            &&& u.status.create_time_ms == e.status.create_time_ms
        }),
{
}

/// A connection first seen in a report starts with no rates and with the
/// report's counters, time, status and identity.
pub proof fn lemma_first_report(m: ConnectMetric)
    ensures
        ({
            let s = initial_state(m);
            &&& s.status.ingress_bps == 0 && s.status.egress_bps == 0
            &&& s.status.ingress_pps == 0 && s.status.egress_pps == 0
            &&& s.last_ingress_bytes == m.ingress_bytes && s.last_egress_bytes == m.egress_bytes
            &&& s.last_ingress_pkts == m.ingress_packets && s.last_egress_pkts == m.egress_packets
            &&& s.status.last_report_time == m.report_time && s.status.status == m.status
            &&& s.status.key == m.key && s.status.src_ip == m.src_ip && s.status.dst_ip == m.dst_ip
        }),
{
}

/// A report older than the last one, or as old, leaves the connection as it is.
pub proof fn lemma_stale_report_ignored(e: RealtimeState, m: ConnectMetric)
    requires
        m.report_time <= e.status.last_report_time,
    ensures
        updated_state(e, m) == e,
{
}

/// Whether the periodic cleanup keeps a live connection: it is not disabled
/// and reported at or after the cutoff.
pub open spec fn stays_live(e: RealtimeState, cutoff_live: u64) -> bool {
    e.status.status != ConnectStatusType::Disabled && !(e.status.last_report_time < cutoff_live)
}

// ---------------------------------------------------------------------------
// The table of live connections.
// ---------------------------------------------------------------------------

#[verifier::external_type_specification]
#[verifier::external_body]
#[verifier::reject_recursive_types(K)]
#[verifier::reject_recursive_types(V)]
#[verifier::reject_recursive_types(S)]
pub struct ExDashMap<K, V, S>(DashMap<K, V, S>);

/// The pair a live connection is held under: its creation time and CPU.
pub type ConnPair = (u64, u32);

/// A table of live connections, shared by the writer and the readers.
pub type LiveTable = DashMap<ConnPair, RealtimeState>;

/// What a table of live connections holds: the state of each connection by
/// its (creation time, CPU) pair.
pub uninterp spec fn live_entries(m: LiveTable) -> Map<ConnPair, RealtimeState>;

/// The pair a connection is held under.
pub open spec fn key_pair(k: ConnectKey) -> ConnPair {
    (k.create_time, k.cpu_id)
}

/// The connections of a table that the periodic cleanup keeps.
pub open spec fn live_only(e: Map<ConnPair, RealtimeState>, cutoff_live: u64) -> Map<ConnPair, RealtimeState> {
    Map::new(|k: ConnPair| e.contains_key(k) && stays_live(e[k], cutoff_live), |k: ConnPair| e[k])
}

/// A table after a report: the connection's state updated, or its first
/// state added.
pub open spec fn after_report(e: Map<ConnPair, RealtimeState>, m: ConnectMetric) -> Map<ConnPair, RealtimeState> {
    let k = key_pair(m.key);
    e.insert(k, if e.contains_key(k) { updated_state(e[k], m) } else { initial_state(m) })
}

/// Creates an empty table with `DashMap::new`.
#[verifier::external_body]
fn live_table_new() -> (r: LiveTable)
    ensures
        live_entries(r).dom().len() == 0 && live_entries(r).dom().finite(),
{
    DashMap::new()
}

/// Records a report with `DashMap::entry`: `Entry::and_modify` applies it to
/// the state held under the report's key, `Entry::or_insert_with` adds the
/// first state when there is none; other keys are untouched.
#[verifier::external_body]
fn live_table_report(m: &mut LiveTable, metric: &ConnectMetric)
    requires
        live_entries(*old(m)).contains_key(key_pair(metric.key)) ==> rates_fit(
            live_entries(*old(m))[key_pair(metric.key)],
            *metric,
        ),
    ensures
        live_entries(*final(m)) == after_report(live_entries(*old(m)), *metric),
{
    m.entry((metric.key.create_time, metric.key.cpu_id))
        .and_modify(|e| e.apply_metric(metric))
        .or_insert_with(|| RealtimeState::from_metric(metric));
}

fn keeps_live(e: &RealtimeState, cutoff_live: u64) -> (r: bool)
    ensures
        r == stays_live(*e, cutoff_live),
{
    e.status.status != ConnectStatusType::Disabled && !(e.status.last_report_time < cutoff_live)
}

/// Drops the connections the cleanup does not keep, with `DashMap::retain`.
#[verifier::external_body]
fn live_table_retain(m: &mut LiveTable, cutoff_live: u64)
    ensures
        live_entries(*final(m)) == live_only(live_entries(*old(m)), cutoff_live),
{
    m.retain(|_, v| keeps_live(v, cutoff_live));
}

/// The entries of a table, each once, in the order `DashMap::iter` walks
/// them (which the crate leaves open).
#[verifier::external_body]
fn live_table_snapshot(m: &LiveTable) -> (r: Vec<(ConnPair, RealtimeState)>)
    ensures
        forall|k: ConnPair| #[trigger] live_entries(*m).contains_key(k) ==> exists|i: int| 0 <= i < r.len() && (#[trigger] r@[i]).0 == k,
        forall|i: int|
            0 <= i < r.len() ==> live_entries(*m).contains_key(#[trigger] r@[i].0) && live_entries(*m)[r@[i].0]
                == r@[i].1,
        forall|i: int, j: int| 0 <= i < j < r.len() ==> (#[trigger] r@[i]).0 != (#[trigger] r@[j]).0,
{
    m.iter().map(|e| (*e.key(), *e.value())).collect()
}

/// The number of entries of a table, with `DashMap::len`.
#[verifier::external_body]
fn live_table_len(m: &LiveTable) -> (r: usize)
    ensures
        r == live_entries(*m).dom().len(),
{
    m.len()
}

/// Every state of a table is held under its own connection's pair.
pub open spec fn keys_match(e: Map<ConnPair, RealtimeState>) -> bool {
    forall|k: ConnPair| #[trigger] e.contains_key(k) ==> key_pair(e[k].status.key) == k
}

/// A list of the shown states of a table's connections: each connection
/// once, in some order.
pub open spec fn is_status_snapshot(e: Map<ConnPair, RealtimeState>, s: Seq<ConnectRealtimeStatus>) -> bool {
    &&& forall|k: ConnPair| #[trigger] e.contains_key(k) ==> exists|i: int| 0 <= i < s.len() && key_pair(#[trigger] s[i].key) == k
    &&& forall|i: int|
        0 <= i < s.len() ==> e.contains_key(key_pair(#[trigger] s[i].key)) && e[key_pair(s[i].key)].status == s[i]
    &&& forall|i: int, j: int| 0 <= i < j < s.len() ==> (#[trigger] s[i]).key != (#[trigger] s[j]).key
}

/// The live connections, shared between the metric writer and the API.
pub struct RealtimeCache {
    table: LiveTable,
}

impl RealtimeCache {
    /// Every connection is held under its own pair.
    pub closed spec fn wf(&self) -> bool {
        keys_match(live_entries(self.table))
    }

    /// The connections of the table, by their pairs.
    pub closed spec fn entries(&self) -> Map<ConnPair, RealtimeState> {
        live_entries(self.table)
    }

    pub fn new() -> (r: RealtimeCache)
        ensures
            r.wf(),
            r.entries().dom().len() == 0,
            r.entries().dom().finite(),
    {
        let table = live_table_new();
        RealtimeCache { table }
    }

    /// The number of live connections.
    pub fn len(&self) -> (r: usize)
        ensures
            r == self.entries().dom().len(),
    {
        live_table_len(&self.table)
    }

    /// Records a report: a known connection is updated, an unknown one added.
    pub fn insert_metric(&mut self, m: &ConnectMetric)
        requires
            old(self).wf(),
            old(self).entries().contains_key(key_pair(m.key)) ==> rates_fit(
                old(self).entries()[key_pair(m.key)],
                *m,
            ),
        ensures
            final(self).wf(),
            final(self).entries() == after_report(old(self).entries(), *m),
    {
        let ghost before = live_entries(self.table);
        proof {
            let k = key_pair(m.key);
            if before.contains_key(k) {
                lemma_update_monotone(before[k], *m);
            }
        }
        live_table_report(&mut self.table, m);
        proof {
            let after = live_entries(self.table);
            assert forall|k: ConnPair| #[trigger] after.contains_key(k) implies key_pair(after[k].status.key) == k by {
                if k != key_pair(m.key) {
                    assert(before.contains_key(k));
                }
            }
        }
    }

    /// The periodic cleanup: drops disabled connections and those not
    /// reported since `cutoff_live`.
    pub fn retain_live(&mut self, cutoff_live: u64)
        requires
            old(self).wf(),
        ensures
            final(self).wf(),
            final(self).entries() == live_only(old(self).entries(), cutoff_live),
    {
        live_table_retain(&mut self.table, cutoff_live);
    }

    /// The shown state of each live connection, in the table's walking order.
    pub fn statuses(&self) -> (r: Vec<ConnectRealtimeStatus>)
        requires
            self.wf(),
        ensures
            is_status_snapshot(self.entries(), r@),
    {
        let snap = live_table_snapshot(&self.table);
        let ghost e = live_entries(self.table);
        let mut r: Vec<ConnectRealtimeStatus> = Vec::new();
        let mut i: usize = 0;
        while i < snap.len()
            invariant
                i <= snap.len(),
                e == live_entries(self.table),
                keys_match(e),
                r.len() == i,
                forall|x: int| 0 <= x < snap.len() ==> e.contains_key(#[trigger] snap@[x].0) && e[snap@[x].0] == snap@[x].1,
                forall|k: ConnPair| #[trigger] e.contains_key(k) ==> exists|x: int| 0 <= x < snap.len() && (#[trigger] snap@[x]).0 == k,
                forall|j: int| 0 <= j < i ==> (#[trigger] r@[j]) == snap@[j].1.status,
            decreases snap.len() - i,
        {
            r.push(snap[i].1.status);
            i = i + 1;
        }
        proof {
            assert forall|x: int| 0 <= x < r.len() implies key_pair((#[trigger] r@[x]).key) == snap@[x].0 by {
                assert(e.contains_key(snap@[x].0));
            }
            assert forall|k: ConnPair| #[trigger] e.contains_key(k) implies exists|x: int| 0 <= x < r.len() && key_pair(#[trigger] r@[x].key) == k by {
                let x = choose|x: int| 0 <= x < snap.len() && (#[trigger] snap@[x]).0 == k;
                assert(e.contains_key(snap@[x].0));
                assert(key_pair(r@[x].key) == snap@[x].0);
            }
            assert forall|x: int, y: int| 0 <= x < y < r.len() implies (#[trigger] r@[x]).key != (#[trigger] r@[y]).key by {
                assert(key_pair(r@[x].key) == snap@[x].0);
                assert(key_pair(r@[y].key) == snap@[y].0);
                assert(snap@[x].0 != snap@[y].0);
            }
        }
        r
    }

    /// The live connections for the API, most recently reported first.
    pub fn connect_infos(&self) -> (r: Vec<ConnectRealtimeStatus>)
        requires
            self.wf(),
        ensures
            exists|s: Seq<ConnectRealtimeStatus>| is_status_snapshot(self.entries(), s) && r@ == stable_sorted(s),
    {
        let s = self.statuses();
        let r = stable_sort_by_key(s);
        r
    }
}


/// Connections order for the API by descending report time.
impl SortKey for ConnectRealtimeStatus {
    open spec fn sort_key(&self) -> u64 {
        (u64::MAX - self.last_report_time) as u64
    }

    fn get_sort_key(&self) -> (r: u64) {
        u64::MAX - self.last_report_time
    }
}

/// The connection list the API shows is ordered by descending report time
/// and holds every live connection exactly once.
pub proof fn lemma_connect_infos_order(cache_statuses: Seq<ConnectRealtimeStatus>)
    ensures
        forall|i: int, j: int|
            0 <= i <= j < stable_sorted(cache_statuses).len() ==> stable_sorted(cache_statuses)[i].last_report_time
                >= stable_sorted(cache_statuses)[j].last_report_time,
        stable_sorted(cache_statuses).to_multiset() == cache_statuses.to_multiset(),
{
    lemma_stable_sorted_ascending(cache_statuses);
    lemma_stable_sorted_permutes(cache_statuses);
    let s = stable_sorted(cache_statuses);
    assert forall|i: int, j: int| 0 <= i <= j < s.len() implies s[i].last_report_time >= s[j].last_report_time by {
        assert(s[i].sort_key() <= s[j].sort_key());
    }
}

// ---------------------------------------------------------------------------
// Rates per address.
// ---------------------------------------------------------------------------

/// The summed rates of the live connections of one address.
#[derive(Clone, Copy, PartialEq, Eq, Structural, Debug)]
pub struct IpAggregatedStats {
    pub ingress_bps: u64,
    pub egress_bps: u64,
    pub ingress_pps: u64,
    pub egress_pps: u64,
    pub active_conns: u32,
}

#[derive(Clone, Copy, PartialEq, Eq, Structural, Debug)]
pub struct IpRealtimeStat {
    pub ip: IpAddress,
    pub stats: IpAggregatedStats,
}

/// The source or the destination address of a connection.
pub open spec fn ip_of(s: ConnectRealtimeStatus, is_src: bool) -> IpAddress {
    if is_src {
        s.src_ip
    } else {
        s.dst_ip
    }
}

/// The addresses of the connections, each once, in order of first appearance.
pub open spec fn distinct_ips(s: Seq<ConnectRealtimeStatus>, is_src: bool) -> Seq<IpAddress>
    decreases s.len(),
{
    if s.len() == 0 {
        Seq::empty()
    } else {
        let d = distinct_ips(s.drop_last(), is_src);
        if d.contains(ip_of(s.last(), is_src)) {
            d
        } else {
            d.push(ip_of(s.last(), is_src))
        }
    }
}

/// The sums over the connections of address `ip`: ingress and egress bits
/// per second, ingress and egress packets per second, and their number.
pub open spec fn ip_sums(s: Seq<ConnectRealtimeStatus>, is_src: bool, ip: IpAddress) -> (int, int, int, int, int)
    decreases s.len(),
{
    if s.len() == 0 {
        (0, 0, 0, 0, 0)
    } else {
        let p = ip_sums(s.drop_last(), is_src, ip);
        let e = s.last();
        if ip_of(e, is_src) == ip {
            (p.0 + e.ingress_bps, p.1 + e.egress_bps, p.2 + e.ingress_pps, p.3 + e.egress_pps, p.4 + 1)
        } else {
            p
        }
    }
}

/// Every address's sums fit their counters.
pub open spec fn ip_sums_fit(s: Seq<ConnectRealtimeStatus>, is_src: bool) -> bool {
    forall|ip: IpAddress|
        #![trigger ip_sums(s, is_src, ip)]
        {
            let t = ip_sums(s, is_src, ip);
            t.0 <= u64::MAX && t.1 <= u64::MAX && t.2 <= u64::MAX && t.3 <= u64::MAX && t.4 <= u32::MAX
        }
}

pub open spec fn stat_matches(r: IpRealtimeStat, t: (int, int, int, int, int)) -> bool {
    &&& r.stats.ingress_bps == t.0
    &&& r.stats.egress_bps == t.1
    &&& r.stats.ingress_pps == t.2
    &&& r.stats.egress_pps == t.3
    &&& r.stats.active_conns == t.4
}

proof fn lemma_ip_sums_prefix(s: Seq<ConnectRealtimeStatus>, is_src: bool, ip: IpAddress, i: int)
    requires
        0 <= i <= s.len(),
    ensures
        ({
            let a = ip_sums(s.take(i), is_src, ip);
            let b = ip_sums(s, is_src, ip);
            0 <= a.0 <= b.0 && 0 <= a.1 <= b.1 && 0 <= a.2 <= b.2 && 0 <= a.3 <= b.3 && 0 <= a.4 <= b.4
        }),
    decreases s.len() - i,
{
    if i == s.len() {
        assert(s.take(i) =~= s);
        lemma_ip_sums_nonneg(s, is_src, ip);
    } else {
        lemma_ip_sums_prefix(s, is_src, ip, i + 1);
        assert(s.take(i + 1).drop_last() =~= s.take(i));
        lemma_ip_sums_nonneg(s.take(i), is_src, ip);
    }
}

proof fn lemma_ip_sums_nonneg(s: Seq<ConnectRealtimeStatus>, is_src: bool, ip: IpAddress)
    ensures
        ({
            let a = ip_sums(s, is_src, ip);
            0 <= a.0 && 0 <= a.1 && 0 <= a.2 && 0 <= a.3 && 0 <= a.4
        }),
    decreases s.len(),
{
    if s.len() > 0 {
        lemma_ip_sums_nonneg(s.drop_last(), is_src, ip);
    }
}

/// The connection counts of the addresses in `ips`, added up.
pub open spec fn count_total(s: Seq<ConnectRealtimeStatus>, is_src: bool, ips: Seq<IpAddress>) -> int
    decreases ips.len(),
{
    if ips.len() == 0 {
        0
    } else {
        count_total(s, is_src, ips.drop_last()) + ip_sums(s, is_src, ips.last()).4
    }
}

/// How often an address occurs in a list.
spec fn occurrences(ips: Seq<IpAddress>, x: IpAddress) -> int
    decreases ips.len(),
{
    if ips.len() == 0 {
        0
    } else {
        occurrences(ips.drop_last(), x) + if ips.last() == x { 1int } else { 0int }
    }
}

proof fn lemma_count_total_push(s: Seq<ConnectRealtimeStatus>, is_src: bool, e: ConnectRealtimeStatus, ips: Seq<IpAddress>)
    ensures
        count_total(s.push(e), is_src, ips) == count_total(s, is_src, ips) + occurrences(ips, ip_of(e, is_src)),
    decreases ips.len(),
{
    assert(s.push(e).drop_last() =~= s);
    if ips.len() > 0 {
        lemma_count_total_push(s, is_src, e, ips.drop_last());
    }
}

proof fn lemma_distinct_ips_facts(s: Seq<ConnectRealtimeStatus>, is_src: bool, x: IpAddress)
    ensures
        distinct_ips(s, is_src).contains(x) ==> occurrences(distinct_ips(s, is_src), x) == 1,
        !distinct_ips(s, is_src).contains(x) ==> occurrences(distinct_ips(s, is_src), x) == 0
            && ip_sums(s, is_src, x).4 == 0,
    decreases s.len(),
{
    if s.len() > 0 {
        let d = distinct_ips(s.drop_last(), is_src);
        lemma_distinct_ips_facts(s.drop_last(), is_src, x);
        let y = ip_of(s.last(), is_src);
        let ds = distinct_ips(s, is_src);
        if !d.contains(y) {
            assert(ds == d.push(y));
            assert(d.push(y).drop_last() =~= d);
            assert(ds[d.len() as int] == y);
            if d.contains(x) {
                let k = choose|k: int| 0 <= k < d.len() && d[k] == x;
                assert(ds[k] == x);
            }
            if x != y {
                assert forall|k: int| 0 <= k < ds.len() && ds[k] == x implies d.contains(x) by {
                    assert(d[k] == x);
                }
            }
        } else {
            assert(ds == d);
        }
        if !ds.contains(x) {
            assert(x != y);
            assert(!d.contains(x));
        }
    }
}

/// Every connection is counted under exactly one address: the connection
/// counts of the distinct addresses add up to the number of connections.
pub proof fn lemma_ip_counts_cover_connections(s: Seq<ConnectRealtimeStatus>, is_src: bool)
    ensures
        count_total(s, is_src, distinct_ips(s, is_src)) == s.len(),
    decreases s.len(),
{
    if s.len() > 0 {
        let t = s.drop_last();
        let e = s.last();
        let x = ip_of(e, is_src);
        let d = distinct_ips(t, is_src);
        assert(t.push(e) =~= s);
        lemma_ip_counts_cover_connections(t, is_src);
        lemma_count_total_push(t, is_src, e, d);
        lemma_distinct_ips_facts(t, is_src, x);
        if !d.contains(x) {
            assert(d.push(x).drop_last() =~= d);
            assert(ip_sums(s, is_src, x).4 == ip_sums(t, is_src, x).4 + 1);
        }
    }
}

/// Sums the rates of the connections per source (or destination) address:
/// one entry per address, in order of first appearance, with the summed
/// rates and the number of its connections.
pub fn realtime_ip_stats(statuses: &Vec<ConnectRealtimeStatus>, is_src: bool) -> (r: Vec<IpRealtimeStat>)
    requires
        ip_sums_fit(statuses@, is_src),
    ensures
        r.len() == distinct_ips(statuses@, is_src).len(),
        forall|j: int|
            0 <= j < r.len() ==> #[trigger] r@[j].ip == distinct_ips(statuses@, is_src)[j] && stat_matches(
                r@[j],
                ip_sums(statuses@, is_src, r@[j].ip),
            ),
{
    let ghost s = statuses@;
    let mut res: Vec<IpRealtimeStat> = Vec::new();
    let mut i: usize = 0;
    while i < statuses.len()
        invariant
            s == statuses@,
            i <= s.len(),
            ip_sums_fit(s, is_src),
            res.len() == distinct_ips(s.take(i as int), is_src).len(),
            forall|j: int|
                0 <= j < res.len() ==> #[trigger] res@[j].ip == distinct_ips(s.take(i as int), is_src)[j]
                    && stat_matches(res@[j], ip_sums(s.take(i as int), is_src, res@[j].ip)),
        decreases s.len() - i,
    {
        let e = statuses[i];
        let ip = if is_src {
            e.src_ip
        } else {
            e.dst_ip
        };
        let ghost before = s.take(i as int);
        let ghost after = s.take(i + 1);
        proof {
            assert(after.drop_last() =~= before);
            assert(after.last() == e);
            lemma_ip_sums_prefix(s, is_src, ip, i + 1);
            assert(ip_sums(s, is_src, ip) == ip_sums(s, is_src, ip));
        }
        let mut k: usize = 0;
        let mut found = false;
        while !found && k < res.len()
            invariant
                k <= res.len(),
                forall|j: int| 0 <= j < k ==> res@[j].ip != ip,
                found ==> k < res.len() && res@[k as int].ip == ip,
            decreases res.len() - k + if found { 0int } else { 1int },
        {
            if res[k].ip == ip {
                found = true;
            } else {
                k = k + 1;
            }
        }
        proof {
            lemma_distinct_ips_unique(before, is_src);
        }
        if found {
            let old_stat = res[k];
            proof {
                assert(distinct_ips(before, is_src).contains(ip)) by {
                    assert(distinct_ips(before, is_src)[k as int] == ip);
                }
                let t = ip_sums(after, is_src, ip);
                assert(t.0 <= u64::MAX && t.1 <= u64::MAX && t.2 <= u64::MAX && t.3 <= u64::MAX && t.4 <= u32::MAX);
            }
            let new_stat = IpRealtimeStat {
                ip,
                stats: IpAggregatedStats {
                    ingress_bps: old_stat.stats.ingress_bps + e.ingress_bps,
                    egress_bps: old_stat.stats.egress_bps + e.egress_bps,
                    ingress_pps: old_stat.stats.ingress_pps + e.ingress_pps,
                    egress_pps: old_stat.stats.egress_pps + e.egress_pps,
                    active_conns: old_stat.stats.active_conns + 1,
                },
            };
            let ghost res_old = res@;
            res.set(k, new_stat);
            proof {
                assert(distinct_ips(after, is_src) == distinct_ips(before, is_src));
                assert forall|j: int| 0 <= j < res.len() implies #[trigger] res@[j].ip == distinct_ips(after, is_src)[j]
                    && stat_matches(res@[j], ip_sums(after, is_src, res@[j].ip)) by {
                    if j != k as int {
                        assert(res@[j] == res_old[j]);
                        assert(res_old[j].ip != ip);
                    }
                }
            }
        } else {
            proof {
                assert(!distinct_ips(before, is_src).contains(ip)) by {
                    if distinct_ips(before, is_src).contains(ip) {
                        let j = choose|j: int| 0 <= j < distinct_ips(before, is_src).len() && distinct_ips(before, is_src)[j] == ip;
                        assert(res@[j].ip == ip);
                    }
                }
                assert(ip_sums(before, is_src, ip).4 == 0) by {
                    lemma_sums_zero_when_absent(before, is_src, ip);
                }
                lemma_ip_sums_nonneg(before, is_src, ip);
                lemma_sums_zero_when_absent(before, is_src, ip);
            }
            res.push(
                IpRealtimeStat {
                    ip,
                    stats: IpAggregatedStats {
                        ingress_bps: e.ingress_bps,
                        egress_bps: e.egress_bps,
                        ingress_pps: e.ingress_pps,
                        egress_pps: e.egress_pps,
                        active_conns: 1,
                    },
                },
            );
            proof {
                assert(distinct_ips(after, is_src) == distinct_ips(before, is_src).push(ip));
                assert forall|j: int| 0 <= j < res.len() implies #[trigger] res@[j].ip == distinct_ips(after, is_src)[j]
                    && stat_matches(res@[j], ip_sums(after, is_src, res@[j].ip)) by {
                    if j < res.len() - 1 {
                        assert(res@[j].ip != ip);
                    }
                }
            }
        }
        i = i + 1;
    }
    assert(s.take(s.len() as int) =~= s);
    res
}

proof fn lemma_distinct_ips_unique(s: Seq<ConnectRealtimeStatus>, is_src: bool)
    ensures
        forall|a: int, b: int|
            0 <= a < b < distinct_ips(s, is_src).len() ==> distinct_ips(s, is_src)[a] != distinct_ips(s, is_src)[b],
    decreases s.len(),
{
    if s.len() > 0 {
        lemma_distinct_ips_unique(s.drop_last(), is_src);
        let d = distinct_ips(s.drop_last(), is_src);
        if !d.contains(ip_of(s.last(), is_src)) {
            assert forall|a: int, b: int|
                0 <= a < b < distinct_ips(s, is_src).len() implies distinct_ips(s, is_src)[a] != distinct_ips(s, is_src)[b] by {
                if b == d.len() {
                    if d[a] == ip_of(s.last(), is_src) {
                        assert(d.contains(ip_of(s.last(), is_src)));
                    }
                }
            }
        }
    }
}

proof fn lemma_sums_zero_when_absent(s: Seq<ConnectRealtimeStatus>, is_src: bool, ip: IpAddress)
    requires
        !distinct_ips(s, is_src).contains(ip),
    ensures
        ip_sums(s, is_src, ip) == (0int, 0int, 0int, 0int, 0int),
    decreases s.len(),
{
    if s.len() > 0 {
        let d = distinct_ips(s.drop_last(), is_src);
        if d.contains(ip) {
            assert(distinct_ips(s, is_src).contains(ip) || distinct_ips(s, is_src) == d.push(ip_of(s.last(), is_src)));
            let j = choose|j: int| 0 <= j < d.len() && d[j] == ip;
            if !d.contains(ip_of(s.last(), is_src)) {
                assert(d.push(ip_of(s.last(), is_src))[j] == ip);
            }
        }
        lemma_sums_zero_when_absent(s.drop_last(), is_src, ip);
        if ip_of(s.last(), is_src) == ip {
            if d.contains(ip) {
            } else {
                assert(distinct_ips(s, is_src)[d.len() as int] == ip);
            }
        }
    }
}

impl RealtimeCache {
    /// The summed rates of the live connections per source (`is_src`) or
    /// destination address: one entry per address, in the order the table
    /// is walked.
    pub fn get_realtime_ip_stats(&self, is_src: bool) -> (r: Vec<IpRealtimeStat>)
        requires
            self.wf(),
            forall|s: Seq<ConnectRealtimeStatus>|
                #[trigger] is_status_snapshot(self.entries(), s) ==> ip_sums_fit(s, is_src),
        ensures
            exists|s: Seq<ConnectRealtimeStatus>|
                {
                    &&& is_status_snapshot(self.entries(), s)
                    &&& r.len() == distinct_ips(s, is_src).len()
                    &&& forall|j: int|
                        0 <= j < r.len() ==> #[trigger] r@[j].ip == distinct_ips(s, is_src)[j] && stat_matches(
                            r@[j],
                            ip_sums(s, is_src, r@[j].ip),
                        )
                },
    {
        let statuses = self.statuses();
        assert(is_status_snapshot(self.entries(), statuses@));
        realtime_ip_stats(&statuses, is_src)
    }
}

} // verus!
