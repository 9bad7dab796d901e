//! The SQL text of the metric queries, built from the query parameters.
use crate::metric::realtime::ConnectKey;
use crate::text::{decimal, join_strings, join_with, push_decimal};
use vstd::prelude::*;
use vstd::string::StringExecFns;

verus! {

/// How finely stored connection metrics are bucketed.
#[derive(Clone, Copy, PartialEq, Eq, Structural, Debug)]
pub enum MetricResolution {
    Second,
    Minute,
    Hour,
    Day,
}

/// What the connection history is sorted by.
#[derive(Clone, Copy, PartialEq, Eq, Structural, Debug)]
pub enum ConnectSortKey {
    Port,
    Ingress,
    Egress,
    Time,
    Duration,
}

#[derive(Clone, Copy, PartialEq, Eq, Structural, Debug)]
pub enum SortOrder {
    Asc,
    Desc,
}

/// The filters, order and limit of a connection history query.
pub struct ConnectHistoryQueryParams {
    pub start_time: Option<u64>,
    pub end_time: Option<u64>,
    pub limit: Option<u64>,
    pub src_ip: Option<String>,
    pub dst_ip: Option<String>,
    pub port_start: Option<u16>,
    pub port_end: Option<u16>,
    pub l3_proto: Option<u8>,
    pub l4_proto: Option<u8>,
    pub flow_id: Option<u8>,
    pub sort_key: Option<ConnectSortKey>,
    pub sort_order: Option<SortOrder>,
    pub status: Option<u8>,
    pub gress: Option<u8>,
}

/// A query ready for the database: its text and the values bound to its
/// `?` placeholders, in order.
pub struct SqlQuery {
    pub sql: String,
    pub params: Vec<String>,
}

// ---------------------------------------------------------------------------
// Specifications.
// ---------------------------------------------------------------------------

pub open spec fn string_views(v: Seq<String>) -> Seq<Seq<char>> {
    v.map_values(|s: String| s@)
}

/// The resolution a metric query uses when none is given.
pub open spec fn resolution_or_default(r: Option<MetricResolution>) -> MetricResolution {
    match r {
        Some(x) => x,
        None => MetricResolution::Second,
    }
}

/// The table that holds metrics of a resolution.
pub open spec fn spec_metric_table(r: MetricResolution) -> Seq<char> {
    match r {
        MetricResolution::Second => "conn_metrics"@,
        MetricResolution::Minute => "conn_metrics_1m"@,
        MetricResolution::Hour => "conn_metrics_1h"@,
        MetricResolution::Day => "conn_metrics_1d"@,
    }
}

/// A clause "head N" for a given number, none for an absent one.
pub open spec fn num_clause(v: Option<nat>, head: Seq<char>) -> Seq<Seq<char>> {
    match v {
        Some(n) => seq![head + decimal(n)],
        None => Seq::empty(),
    }
}

/// A pattern clause for a non-empty address filter, none otherwise.
pub open spec fn like_clause(v: Option<String>, clause: Seq<char>) -> Seq<Seq<char>> {
    match v {
        Some(s) => if s@.len() > 0 {
            seq![clause]
        } else {
            Seq::empty()
        },
        None => Seq::empty(),
    }
}

/// The pattern bound for a non-empty address filter: the address anywhere
/// in the column.
pub open spec fn like_param(v: Option<String>) -> Seq<Seq<char>> {
    match v {
        Some(s) => if s@.len() > 0 {
            seq!["%"@ + s@ + "%"@]
        } else {
            Seq::empty()
        },
        None => Seq::empty(),
    }
}

pub open spec fn nat_of_u64(v: Option<u64>) -> Option<nat> {
    match v {
        Some(n) => Some(n as nat),
        None => None,
    }
}

pub open spec fn nat_of_u16(v: Option<u16>) -> Option<nat> {
    match v {
        Some(n) => Some(n as nat),
        None => None,
    }
}

pub open spec fn nat_of_u8(v: Option<u8>) -> Option<nat> {
    match v {
        Some(n) => Some(n as nat),
        None => None,
    }
}

/// The filter clauses of a connection history query, in order.
pub open spec fn history_clauses(p: ConnectHistoryQueryParams) -> Seq<Seq<char>> {
    num_clause(nat_of_u64(p.start_time), "last_report_time >= "@) + num_clause(
        nat_of_u64(p.end_time),
        "last_report_time <= "@,
    ) + like_clause(p.src_ip, "src_ip LIKE ?"@) + like_clause(p.dst_ip, "dst_ip LIKE ?"@) + num_clause(
        nat_of_u16(p.port_start),
        "src_port = "@,
    ) + num_clause(nat_of_u16(p.port_end), "dst_port = "@) + num_clause(nat_of_u8(p.l3_proto), "l3_proto = "@)
        + num_clause(nat_of_u8(p.l4_proto), "l4_proto = "@) + num_clause(nat_of_u8(p.flow_id), "flow_id = "@)
        + num_clause(nat_of_u8(p.status), "status = "@) + num_clause(nat_of_u8(p.gress), "gress = "@)
}

/// The values bound to the pattern clauses of a connection history query.
pub open spec fn history_params(p: ConnectHistoryQueryParams) -> Seq<Seq<char>> {
    like_param(p.src_ip) + like_param(p.dst_ip)
}

/// "WHERE" and the clauses joined by "AND", nothing without clauses.
pub open spec fn where_part(clauses: Seq<Seq<char>>) -> Seq<char> {
    if clauses.len() == 0 {
        Seq::empty()
    } else {
        " WHERE "@ + join_with(clauses, " AND "@)
    }
}

/// The history sort column; the default sort is by report time.
pub open spec fn history_sort_column(k: Option<ConnectSortKey>) -> Seq<char> {
    match k {
        Some(ConnectSortKey::Port) => "src_port"@,
        Some(ConnectSortKey::Ingress) => "total_ingress_bytes"@,
        Some(ConnectSortKey::Egress) => "total_egress_bytes"@,
        Some(ConnectSortKey::Duration) => "(CAST(last_report_time AS BIGINT) - CAST(create_time_ms AS BIGINT))"@,
        _ => "last_report_time"@,
    }
}

/// The sort direction; the default is descending.
pub open spec fn sort_direction(o: Option<SortOrder>) -> Seq<char> {
    match o {
        Some(SortOrder::Asc) => "ASC"@,
        _ => "DESC"@,
    }
}

pub open spec fn history_select() -> Seq<char> {
    "SELECT create_time, cpu_id, src_ip, dst_ip, src_port, dst_port, l4_proto, l3_proto, flow_id, trace_id, total_ingress_bytes, total_egress_bytes, total_ingress_pkts, total_egress_pkts, last_report_time, status, create_time_ms, gress FROM conn_summaries"@
}

/// The text of a connection history query.
pub open spec fn history_sql(p: ConnectHistoryQueryParams) -> Seq<char> {
    history_select() + where_part(history_clauses(p)) + " ORDER BY "@ + history_sort_column(p.sort_key) + " "@
        + sort_direction(p.sort_order) + match p.limit {
        Some(l) => " LIMIT "@ + decimal(l as nat),
        None => Seq::empty(),
    }
}

/// The filter clauses of a per-address history query, in order.
pub open spec fn ip_history_clauses(p: ConnectHistoryQueryParams) -> Seq<Seq<char>> {
    num_clause(nat_of_u64(p.start_time), "last_report_time >= "@) + num_clause(
        nat_of_u64(p.end_time),
        "last_report_time <= "@,
    ) + num_clause(nat_of_u8(p.flow_id), "flow_id = "@) + like_clause(p.src_ip, "src_ip LIKE ?"@) + like_clause(
        p.dst_ip,
        "dst_ip LIKE ?"@,
    )
}

/// The per-address sort column: the summed ingress (column 2) unless the
/// egress (column 3) is asked for.
pub open spec fn ip_history_sort_column(k: Option<ConnectSortKey>) -> Seq<char> {
    match k {
        Some(ConnectSortKey::Egress) => "3"@,
        _ => "2"@,
    }
}

/// The text of a per-address history query: traffic summed per source (or
/// destination) address, the 10 largest unless a limit is given.
pub open spec fn ip_history_sql(p: ConnectHistoryQueryParams, is_src: bool) -> Seq<char> {
    "SELECT "@ + (if is_src {
        "src_ip"@
    } else {
        "dst_ip"@
    }) + ", SUM(total_ingress_bytes), SUM(total_egress_bytes), SUM(total_ingress_pkts), SUM(total_egress_pkts), COUNT(*) FROM conn_summaries"@
        + where_part(ip_history_clauses(p)) + " GROUP BY 1 ORDER BY "@ + ip_history_sort_column(p.sort_key) + " "@
        + sort_direction(p.sort_order) + " LIMIT "@ + decimal(
        match p.limit {
            Some(l) => l as nat,
            None => 10nat,
        },
    )
}

// ---------------------------------------------------------------------------
// The time window of the history queries.
// ---------------------------------------------------------------------------

/// Whether `x` occurs in `s` as a run of consecutive characters.
pub open spec fn has_substring(s: Seq<char>, x: Seq<char>) -> bool {
    exists|i: int| 0 <= i && i + x.len() <= s.len() && #[trigger] s.subrange(i, i + x.len()) == x
}

/// The clause that keeps connections last reported at or after `t`.
pub open spec fn reported_since(t: u64) -> Seq<char> {
    "last_report_time >= "@ + decimal(t as nat)
}

/// The clause that keeps connections last reported at or before `t`.
pub open spec fn reported_until(t: u64) -> Seq<char> {
    "last_report_time <= "@ + decimal(t as nat)
}

proof fn lemma_substring_within(a: Seq<char>, b: Seq<char>, c: Seq<char>, x: Seq<char>)
    requires
        has_substring(b, x),
    ensures
        has_substring(a + b + c, x),
{
    let i = choose|i: int| 0 <= i && i + x.len() <= b.len() && #[trigger] b.subrange(i, i + x.len()) == x;
    let j = a.len() + i;
    assert((a + b + c).subrange(j, j + x.len()) =~= b.subrange(i, i + x.len()));
}

proof fn lemma_join_holds_part(parts: Seq<Seq<char>>, sep: Seq<char>, k: int)
    requires
        0 <= k < parts.len(),
    ensures
        has_substring(join_with(parts, sep), parts[k]),
    decreases parts.len(),
{
    let x = parts[k];
    let j = join_with(parts, sep);
    if parts.len() == 1 {
        assert(j == x);
        assert(j.subrange(0int, 0int + x.len()) =~= x);
    } else if k == parts.len() - 1 {
        let pre = join_with(parts.drop_last(), sep) + sep;
        assert(j == pre + parts.last());
        let i: int = pre.len() as int;
        assert(j.subrange(i, i + x.len()) =~= x);
    } else {
        lemma_join_holds_part(parts.drop_last(), sep, k);
        assert(parts.drop_last()[k] == parts[k]);
        lemma_substring_within(Seq::empty(), join_with(parts.drop_last(), sep), sep + parts.last(), parts[k]);
        assert(Seq::<char>::empty() + join_with(parts.drop_last(), sep) + (sep + parts.last()) =~= join_with(parts, sep));
    }
}

proof fn lemma_where_holds_clause(clauses: Seq<Seq<char>>, x: Seq<char>)
    requires
        clauses.contains(x),
    ensures
        has_substring(where_part(clauses), x),
{
    let k = choose|k: int| 0 <= k < clauses.len() && clauses[k] == x;
    lemma_join_holds_part(clauses, " AND "@, k);
    lemma_substring_within(" WHERE "@, join_with(clauses, " AND "@), Seq::empty(), x);
    assert(" WHERE "@ + join_with(clauses, " AND "@) + Seq::<char>::empty() =~= where_part(clauses));
}

proof fn lemma_clause_added(a: Seq<Seq<char>>, c: Seq<Seq<char>>, x: Seq<char>)
    requires
        c.len() == 1,
        c[0] == x,
    ensures
        (a + c).contains(x),
{
    assert((a + c)[a.len() as int] == x);
}

proof fn lemma_clause_kept(a: Seq<Seq<char>>, b: Seq<Seq<char>>, x: Seq<char>)
    requires
        a.contains(x),
    ensures
        (a + b).contains(x),
{
    let i = choose|i: int| 0 <= i < a.len() && a[i] == x;
    assert((a + b)[i] == x);
}

proof fn lemma_history_filter_start_time(p: ConnectHistoryQueryParams)
    ensures
        p.start_time matches Some(n) ==> history_clauses(p).contains("last_report_time >= "@ + decimal(n as nat)),
{
    let c1 = num_clause(nat_of_u64(p.start_time), "last_report_time >= "@);
    let c2 = num_clause(nat_of_u64(p.end_time), "last_report_time <= "@);
    let c3 = like_clause(p.src_ip, "src_ip LIKE ?"@);
    let c4 = like_clause(p.dst_ip, "dst_ip LIKE ?"@);
    let c5 = num_clause(nat_of_u16(p.port_start), "src_port = "@);
    let c6 = num_clause(nat_of_u16(p.port_end), "dst_port = "@);
    let c7 = num_clause(nat_of_u8(p.l3_proto), "l3_proto = "@);
    let c8 = num_clause(nat_of_u8(p.l4_proto), "l4_proto = "@);
    let c9 = num_clause(nat_of_u8(p.flow_id), "flow_id = "@);
    let c10 = num_clause(nat_of_u8(p.status), "status = "@);
    let c11 = num_clause(nat_of_u8(p.gress), "gress = "@);
    let q1 = c1;
    let q2 = q1 + c2;
    let q3 = q2 + c3;
    let q4 = q3 + c4;
    let q5 = q4 + c5;
    let q6 = q5 + c6;
    let q7 = q6 + c7;
    let q8 = q7 + c8;
    let q9 = q8 + c9;
    let q10 = q9 + c10;
    let q11 = q10 + c11;
    assert(history_clauses(p) =~= q11);
    if let Some(n) = p.start_time {
        assert(Seq::<Seq<char>>::empty() + c1 =~= q1);
        lemma_clause_added(Seq::<Seq<char>>::empty(), c1, "last_report_time >= "@ + decimal(n as nat));
        lemma_clause_kept(q1, c2, "last_report_time >= "@ + decimal(n as nat));
        lemma_clause_kept(q2, c3, "last_report_time >= "@ + decimal(n as nat));
        lemma_clause_kept(q3, c4, "last_report_time >= "@ + decimal(n as nat));
        lemma_clause_kept(q4, c5, "last_report_time >= "@ + decimal(n as nat));
        lemma_clause_kept(q5, c6, "last_report_time >= "@ + decimal(n as nat));
        lemma_clause_kept(q6, c7, "last_report_time >= "@ + decimal(n as nat));
        lemma_clause_kept(q7, c8, "last_report_time >= "@ + decimal(n as nat));
        lemma_clause_kept(q8, c9, "last_report_time >= "@ + decimal(n as nat));
        lemma_clause_kept(q9, c10, "last_report_time >= "@ + decimal(n as nat));
        lemma_clause_kept(q10, c11, "last_report_time >= "@ + decimal(n as nat));
    }
}

proof fn lemma_history_filter_end_time(p: ConnectHistoryQueryParams)
    ensures
        p.end_time matches Some(n) ==> history_clauses(p).contains("last_report_time <= "@ + decimal(n as nat)),
{
    let c1 = num_clause(nat_of_u64(p.start_time), "last_report_time >= "@);
    let c2 = num_clause(nat_of_u64(p.end_time), "last_report_time <= "@);
    let c3 = like_clause(p.src_ip, "src_ip LIKE ?"@);
    let c4 = like_clause(p.dst_ip, "dst_ip LIKE ?"@);
    let c5 = num_clause(nat_of_u16(p.port_start), "src_port = "@);
    let c6 = num_clause(nat_of_u16(p.port_end), "dst_port = "@);
    let c7 = num_clause(nat_of_u8(p.l3_proto), "l3_proto = "@);
    let c8 = num_clause(nat_of_u8(p.l4_proto), "l4_proto = "@);
    let c9 = num_clause(nat_of_u8(p.flow_id), "flow_id = "@);
    let c10 = num_clause(nat_of_u8(p.status), "status = "@);
    let c11 = num_clause(nat_of_u8(p.gress), "gress = "@);
    let q1 = c1;
    let q2 = q1 + c2;
    let q3 = q2 + c3;
    let q4 = q3 + c4;
    let q5 = q4 + c5;
    let q6 = q5 + c6;
    let q7 = q6 + c7;
    let q8 = q7 + c8;
    let q9 = q8 + c9;
    let q10 = q9 + c10;
    let q11 = q10 + c11;
    assert(history_clauses(p) =~= q11);
    if let Some(n) = p.end_time {
        lemma_clause_added(q1, c2, "last_report_time <= "@ + decimal(n as nat));
        lemma_clause_kept(q2, c3, "last_report_time <= "@ + decimal(n as nat));
        lemma_clause_kept(q3, c4, "last_report_time <= "@ + decimal(n as nat));
        lemma_clause_kept(q4, c5, "last_report_time <= "@ + decimal(n as nat));
        lemma_clause_kept(q5, c6, "last_report_time <= "@ + decimal(n as nat));
        lemma_clause_kept(q6, c7, "last_report_time <= "@ + decimal(n as nat));
        lemma_clause_kept(q7, c8, "last_report_time <= "@ + decimal(n as nat));
        lemma_clause_kept(q8, c9, "last_report_time <= "@ + decimal(n as nat));
        lemma_clause_kept(q9, c10, "last_report_time <= "@ + decimal(n as nat));
        lemma_clause_kept(q10, c11, "last_report_time <= "@ + decimal(n as nat));
    }
}

proof fn lemma_history_filter_src_ip(p: ConnectHistoryQueryParams)
    ensures
        p.src_ip matches Some(s) && s@.len() > 0 ==> history_clauses(p).contains("src_ip LIKE ?"@),
{
    let c1 = num_clause(nat_of_u64(p.start_time), "last_report_time >= "@);
    let c2 = num_clause(nat_of_u64(p.end_time), "last_report_time <= "@);
    let c3 = like_clause(p.src_ip, "src_ip LIKE ?"@);
    let c4 = like_clause(p.dst_ip, "dst_ip LIKE ?"@);
    let c5 = num_clause(nat_of_u16(p.port_start), "src_port = "@);
    let c6 = num_clause(nat_of_u16(p.port_end), "dst_port = "@);
    let c7 = num_clause(nat_of_u8(p.l3_proto), "l3_proto = "@);
    let c8 = num_clause(nat_of_u8(p.l4_proto), "l4_proto = "@);
    let c9 = num_clause(nat_of_u8(p.flow_id), "flow_id = "@);
    let c10 = num_clause(nat_of_u8(p.status), "status = "@);
    let c11 = num_clause(nat_of_u8(p.gress), "gress = "@);
    let q1 = c1;
    let q2 = q1 + c2;
    let q3 = q2 + c3;
    let q4 = q3 + c4;
    let q5 = q4 + c5;
    let q6 = q5 + c6;
    let q7 = q6 + c7;
    let q8 = q7 + c8;
    let q9 = q8 + c9;
    let q10 = q9 + c10;
    let q11 = q10 + c11;
    assert(history_clauses(p) =~= q11);
    if let Some(s) = p.src_ip {
        if s@.len() > 0 {
            lemma_clause_added(q2, c3, "src_ip LIKE ?"@);
            lemma_clause_kept(q3, c4, "src_ip LIKE ?"@);
            lemma_clause_kept(q4, c5, "src_ip LIKE ?"@);
            lemma_clause_kept(q5, c6, "src_ip LIKE ?"@);
            lemma_clause_kept(q6, c7, "src_ip LIKE ?"@);
            lemma_clause_kept(q7, c8, "src_ip LIKE ?"@);
            lemma_clause_kept(q8, c9, "src_ip LIKE ?"@);
            lemma_clause_kept(q9, c10, "src_ip LIKE ?"@);
            lemma_clause_kept(q10, c11, "src_ip LIKE ?"@);
        }
    }
}

proof fn lemma_history_filter_dst_ip(p: ConnectHistoryQueryParams)
    ensures
        p.dst_ip matches Some(s) && s@.len() > 0 ==> history_clauses(p).contains("dst_ip LIKE ?"@),
{
    let c1 = num_clause(nat_of_u64(p.start_time), "last_report_time >= "@);
    let c2 = num_clause(nat_of_u64(p.end_time), "last_report_time <= "@);
    let c3 = like_clause(p.src_ip, "src_ip LIKE ?"@);
    let c4 = like_clause(p.dst_ip, "dst_ip LIKE ?"@);
    let c5 = num_clause(nat_of_u16(p.port_start), "src_port = "@);
    let c6 = num_clause(nat_of_u16(p.port_end), "dst_port = "@);
    let c7 = num_clause(nat_of_u8(p.l3_proto), "l3_proto = "@);
    let c8 = num_clause(nat_of_u8(p.l4_proto), "l4_proto = "@);
    let c9 = num_clause(nat_of_u8(p.flow_id), "flow_id = "@);
    let c10 = num_clause(nat_of_u8(p.status), "status = "@);
    let c11 = num_clause(nat_of_u8(p.gress), "gress = "@);
    let q1 = c1;
    let q2 = q1 + c2;
    let q3 = q2 + c3;
    let q4 = q3 + c4;
    let q5 = q4 + c5;
    let q6 = q5 + c6;
    let q7 = q6 + c7;
    let q8 = q7 + c8;
    let q9 = q8 + c9;
    let q10 = q9 + c10;
    let q11 = q10 + c11;
    assert(history_clauses(p) =~= q11);
    if let Some(s) = p.dst_ip {
        if s@.len() > 0 {
            lemma_clause_added(q3, c4, "dst_ip LIKE ?"@);
            lemma_clause_kept(q4, c5, "dst_ip LIKE ?"@);
            lemma_clause_kept(q5, c6, "dst_ip LIKE ?"@);
            lemma_clause_kept(q6, c7, "dst_ip LIKE ?"@);
            lemma_clause_kept(q7, c8, "dst_ip LIKE ?"@);
            lemma_clause_kept(q8, c9, "dst_ip LIKE ?"@);
            lemma_clause_kept(q9, c10, "dst_ip LIKE ?"@);
            lemma_clause_kept(q10, c11, "dst_ip LIKE ?"@);
        }
    }
}

proof fn lemma_history_filter_port_start(p: ConnectHistoryQueryParams)
    ensures
        p.port_start matches Some(n) ==> history_clauses(p).contains("src_port = "@ + decimal(n as nat)),
{
    let c1 = num_clause(nat_of_u64(p.start_time), "last_report_time >= "@);
    let c2 = num_clause(nat_of_u64(p.end_time), "last_report_time <= "@);
    let c3 = like_clause(p.src_ip, "src_ip LIKE ?"@);
    let c4 = like_clause(p.dst_ip, "dst_ip LIKE ?"@);
    let c5 = num_clause(nat_of_u16(p.port_start), "src_port = "@);
    let c6 = num_clause(nat_of_u16(p.port_end), "dst_port = "@);
    let c7 = num_clause(nat_of_u8(p.l3_proto), "l3_proto = "@);
    let c8 = num_clause(nat_of_u8(p.l4_proto), "l4_proto = "@);
    let c9 = num_clause(nat_of_u8(p.flow_id), "flow_id = "@);
    let c10 = num_clause(nat_of_u8(p.status), "status = "@);
    let c11 = num_clause(nat_of_u8(p.gress), "gress = "@);
    let q1 = c1;
    let q2 = q1 + c2;
    let q3 = q2 + c3;
    let q4 = q3 + c4;
    let q5 = q4 + c5;
    let q6 = q5 + c6;
    let q7 = q6 + c7;
    let q8 = q7 + c8;
    let q9 = q8 + c9;
    let q10 = q9 + c10;
    let q11 = q10 + c11;
    assert(history_clauses(p) =~= q11);
    if let Some(n) = p.port_start {
        lemma_clause_added(q4, c5, "src_port = "@ + decimal(n as nat));
        lemma_clause_kept(q5, c6, "src_port = "@ + decimal(n as nat));
        lemma_clause_kept(q6, c7, "src_port = "@ + decimal(n as nat));
        lemma_clause_kept(q7, c8, "src_port = "@ + decimal(n as nat));
        lemma_clause_kept(q8, c9, "src_port = "@ + decimal(n as nat));
        lemma_clause_kept(q9, c10, "src_port = "@ + decimal(n as nat));
        lemma_clause_kept(q10, c11, "src_port = "@ + decimal(n as nat));
    }
}

proof fn lemma_history_filter_port_end(p: ConnectHistoryQueryParams)
    ensures
        p.port_end matches Some(n) ==> history_clauses(p).contains("dst_port = "@ + decimal(n as nat)),
{
    let c1 = num_clause(nat_of_u64(p.start_time), "last_report_time >= "@);
    let c2 = num_clause(nat_of_u64(p.end_time), "last_report_time <= "@);
    let c3 = like_clause(p.src_ip, "src_ip LIKE ?"@);
    let c4 = like_clause(p.dst_ip, "dst_ip LIKE ?"@);
    let c5 = num_clause(nat_of_u16(p.port_start), "src_port = "@);
    let c6 = num_clause(nat_of_u16(p.port_end), "dst_port = "@);
    let c7 = num_clause(nat_of_u8(p.l3_proto), "l3_proto = "@);
    let c8 = num_clause(nat_of_u8(p.l4_proto), "l4_proto = "@);
    let c9 = num_clause(nat_of_u8(p.flow_id), "flow_id = "@);
    let c10 = num_clause(nat_of_u8(p.status), "status = "@);
    let c11 = num_clause(nat_of_u8(p.gress), "gress = "@);
    let q1 = c1;
    let q2 = q1 + c2;
    let q3 = q2 + c3;
    let q4 = q3 + c4;
    let q5 = q4 + c5;
    let q6 = q5 + c6;
    let q7 = q6 + c7;
    let q8 = q7 + c8;
    let q9 = q8 + c9;
    let q10 = q9 + c10;
    let q11 = q10 + c11;
    assert(history_clauses(p) =~= q11);
    if let Some(n) = p.port_end {
        lemma_clause_added(q5, c6, "dst_port = "@ + decimal(n as nat));
        lemma_clause_kept(q6, c7, "dst_port = "@ + decimal(n as nat));
        lemma_clause_kept(q7, c8, "dst_port = "@ + decimal(n as nat));
        lemma_clause_kept(q8, c9, "dst_port = "@ + decimal(n as nat));
        lemma_clause_kept(q9, c10, "dst_port = "@ + decimal(n as nat));
        lemma_clause_kept(q10, c11, "dst_port = "@ + decimal(n as nat));
    }
}

proof fn lemma_history_filter_l3_proto(p: ConnectHistoryQueryParams)
    ensures
        p.l3_proto matches Some(n) ==> history_clauses(p).contains("l3_proto = "@ + decimal(n as nat)),
{
    let c1 = num_clause(nat_of_u64(p.start_time), "last_report_time >= "@);
    let c2 = num_clause(nat_of_u64(p.end_time), "last_report_time <= "@);
    let c3 = like_clause(p.src_ip, "src_ip LIKE ?"@);
    let c4 = like_clause(p.dst_ip, "dst_ip LIKE ?"@);
    let c5 = num_clause(nat_of_u16(p.port_start), "src_port = "@);
    let c6 = num_clause(nat_of_u16(p.port_end), "dst_port = "@);
    let c7 = num_clause(nat_of_u8(p.l3_proto), "l3_proto = "@);
    let c8 = num_clause(nat_of_u8(p.l4_proto), "l4_proto = "@);
    let c9 = num_clause(nat_of_u8(p.flow_id), "flow_id = "@);
    let c10 = num_clause(nat_of_u8(p.status), "status = "@);
    let c11 = num_clause(nat_of_u8(p.gress), "gress = "@);
    let q1 = c1;
    let q2 = q1 + c2;
    let q3 = q2 + c3;
    let q4 = q3 + c4;
    let q5 = q4 + c5;
    let q6 = q5 + c6;
    let q7 = q6 + c7;
    let q8 = q7 + c8;
    let q9 = q8 + c9;
    let q10 = q9 + c10;
    let q11 = q10 + c11;
    assert(history_clauses(p) =~= q11);
    if let Some(n) = p.l3_proto {
        lemma_clause_added(q6, c7, "l3_proto = "@ + decimal(n as nat));
        lemma_clause_kept(q7, c8, "l3_proto = "@ + decimal(n as nat));
        lemma_clause_kept(q8, c9, "l3_proto = "@ + decimal(n as nat));
        lemma_clause_kept(q9, c10, "l3_proto = "@ + decimal(n as nat));
        lemma_clause_kept(q10, c11, "l3_proto = "@ + decimal(n as nat));
    }
}

proof fn lemma_history_filter_l4_proto(p: ConnectHistoryQueryParams)
    ensures
        p.l4_proto matches Some(n) ==> history_clauses(p).contains("l4_proto = "@ + decimal(n as nat)),
{
    let c1 = num_clause(nat_of_u64(p.start_time), "last_report_time >= "@);
    let c2 = num_clause(nat_of_u64(p.end_time), "last_report_time <= "@);
    let c3 = like_clause(p.src_ip, "src_ip LIKE ?"@);
    let c4 = like_clause(p.dst_ip, "dst_ip LIKE ?"@);
    let c5 = num_clause(nat_of_u16(p.port_start), "src_port = "@);
    let c6 = num_clause(nat_of_u16(p.port_end), "dst_port = "@);
    let c7 = num_clause(nat_of_u8(p.l3_proto), "l3_proto = "@);
    let c8 = num_clause(nat_of_u8(p.l4_proto), "l4_proto = "@);
    let c9 = num_clause(nat_of_u8(p.flow_id), "flow_id = "@);
    let c10 = num_clause(nat_of_u8(p.status), "status = "@);
    let c11 = num_clause(nat_of_u8(p.gress), "gress = "@);
    let q1 = c1;
    let q2 = q1 + c2;
    let q3 = q2 + c3;
    let q4 = q3 + c4;
    let q5 = q4 + c5;
    let q6 = q5 + c6;
    let q7 = q6 + c7;
    let q8 = q7 + c8;
    let q9 = q8 + c9;
    let q10 = q9 + c10;
    let q11 = q10 + c11;
    assert(history_clauses(p) =~= q11);
    if let Some(n) = p.l4_proto {
        lemma_clause_added(q7, c8, "l4_proto = "@ + decimal(n as nat));
        lemma_clause_kept(q8, c9, "l4_proto = "@ + decimal(n as nat));
        lemma_clause_kept(q9, c10, "l4_proto = "@ + decimal(n as nat));
        lemma_clause_kept(q10, c11, "l4_proto = "@ + decimal(n as nat));
    }
}

proof fn lemma_history_filter_flow_id(p: ConnectHistoryQueryParams)
    ensures
        p.flow_id matches Some(n) ==> history_clauses(p).contains("flow_id = "@ + decimal(n as nat)),
{
    let c1 = num_clause(nat_of_u64(p.start_time), "last_report_time >= "@);
    let c2 = num_clause(nat_of_u64(p.end_time), "last_report_time <= "@);
    let c3 = like_clause(p.src_ip, "src_ip LIKE ?"@);
    let c4 = like_clause(p.dst_ip, "dst_ip LIKE ?"@);
    let c5 = num_clause(nat_of_u16(p.port_start), "src_port = "@);
    let c6 = num_clause(nat_of_u16(p.port_end), "dst_port = "@);
    let c7 = num_clause(nat_of_u8(p.l3_proto), "l3_proto = "@);
    let c8 = num_clause(nat_of_u8(p.l4_proto), "l4_proto = "@);
    let c9 = num_clause(nat_of_u8(p.flow_id), "flow_id = "@);
    let c10 = num_clause(nat_of_u8(p.status), "status = "@);
    let c11 = num_clause(nat_of_u8(p.gress), "gress = "@);
    let q1 = c1;
    let q2 = q1 + c2;
    let q3 = q2 + c3;
    let q4 = q3 + c4;
    let q5 = q4 + c5;
    let q6 = q5 + c6;
    let q7 = q6 + c7;
    let q8 = q7 + c8;
    let q9 = q8 + c9;
    let q10 = q9 + c10;
    let q11 = q10 + c11;
    assert(history_clauses(p) =~= q11);
    if let Some(n) = p.flow_id {
        lemma_clause_added(q8, c9, "flow_id = "@ + decimal(n as nat));
        lemma_clause_kept(q9, c10, "flow_id = "@ + decimal(n as nat));
        lemma_clause_kept(q10, c11, "flow_id = "@ + decimal(n as nat));
    }
}

proof fn lemma_history_filter_status(p: ConnectHistoryQueryParams)
    ensures
        p.status matches Some(n) ==> history_clauses(p).contains("status = "@ + decimal(n as nat)),
{
    let c1 = num_clause(nat_of_u64(p.start_time), "last_report_time >= "@);
    let c2 = num_clause(nat_of_u64(p.end_time), "last_report_time <= "@);
    let c3 = like_clause(p.src_ip, "src_ip LIKE ?"@);
    let c4 = like_clause(p.dst_ip, "dst_ip LIKE ?"@);
    let c5 = num_clause(nat_of_u16(p.port_start), "src_port = "@);
    let c6 = num_clause(nat_of_u16(p.port_end), "dst_port = "@);
    let c7 = num_clause(nat_of_u8(p.l3_proto), "l3_proto = "@);
    let c8 = num_clause(nat_of_u8(p.l4_proto), "l4_proto = "@);
    let c9 = num_clause(nat_of_u8(p.flow_id), "flow_id = "@);
    let c10 = num_clause(nat_of_u8(p.status), "status = "@);
    let c11 = num_clause(nat_of_u8(p.gress), "gress = "@);
    let q1 = c1;
    let q2 = q1 + c2;
    let q3 = q2 + c3;
    let q4 = q3 + c4;
    let q5 = q4 + c5;
    let q6 = q5 + c6;
    let q7 = q6 + c7;
    let q8 = q7 + c8;
    let q9 = q8 + c9;
    let q10 = q9 + c10;
    let q11 = q10 + c11;
    assert(history_clauses(p) =~= q11);
    if let Some(n) = p.status {
        lemma_clause_added(q9, c10, "status = "@ + decimal(n as nat));
        lemma_clause_kept(q10, c11, "status = "@ + decimal(n as nat));
    }
}

proof fn lemma_history_filter_gress(p: ConnectHistoryQueryParams)
    ensures
        p.gress matches Some(n) ==> history_clauses(p).contains("gress = "@ + decimal(n as nat)),
{
    let c1 = num_clause(nat_of_u64(p.start_time), "last_report_time >= "@);
    let c2 = num_clause(nat_of_u64(p.end_time), "last_report_time <= "@);
    let c3 = like_clause(p.src_ip, "src_ip LIKE ?"@);
    let c4 = like_clause(p.dst_ip, "dst_ip LIKE ?"@);
    let c5 = num_clause(nat_of_u16(p.port_start), "src_port = "@);
    let c6 = num_clause(nat_of_u16(p.port_end), "dst_port = "@);
    let c7 = num_clause(nat_of_u8(p.l3_proto), "l3_proto = "@);
    let c8 = num_clause(nat_of_u8(p.l4_proto), "l4_proto = "@);
    let c9 = num_clause(nat_of_u8(p.flow_id), "flow_id = "@);
    let c10 = num_clause(nat_of_u8(p.status), "status = "@);
    let c11 = num_clause(nat_of_u8(p.gress), "gress = "@);
    let q1 = c1;
    let q2 = q1 + c2;
    let q3 = q2 + c3;
    let q4 = q3 + c4;
    let q5 = q4 + c5;
    let q6 = q5 + c6;
    let q7 = q6 + c7;
    let q8 = q7 + c8;
    let q9 = q8 + c9;
    let q10 = q9 + c10;
    let q11 = q10 + c11;
    assert(history_clauses(p) =~= q11);
    if let Some(n) = p.gress {
        lemma_clause_added(q10, c11, "gress = "@ + decimal(n as nat));
    }
}

/// The number of filters a history query is given: each bound, port,
/// protocol, flow, status and direction present, and each non-empty address
/// pattern.
pub open spec fn given_filters(p: ConnectHistoryQueryParams) -> int {
    (if p.start_time is Some { 1int } else { 0int }) + (if p.end_time is Some { 1int } else { 0int }) + (match p.src_ip { Some(s) => if s@.len() > 0 { 1int } else { 0int }, None => 0int }) + (match p.dst_ip { Some(s) => if s@.len() > 0 { 1int } else { 0int }, None => 0int }) + (if p.port_start is Some { 1int } else { 0int }) + (if p.port_end is Some { 1int } else { 0int }) + (if p.l3_proto is Some { 1int } else { 0int }) + (if p.l4_proto is Some { 1int } else { 0int }) + (if p.flow_id is Some { 1int } else { 0int }) + (if p.status is Some { 1int } else { 0int }) + (if p.gress is Some { 1int } else { 0int })
}

/// A history query holds one clause per filter it is given, and for each
/// given filter the clause that tests its column against its value: the
/// start and end of the time window, the address patterns, the source and
/// destination ports, the protocols, the flow, the status and the direction.
pub proof fn lemma_history_filters(p: ConnectHistoryQueryParams)
    ensures
        history_clauses(p).len() == given_filters(p),
        p.start_time matches Some(n) ==> history_clauses(p).contains("last_report_time >= "@ + decimal(n as nat)),
        p.end_time matches Some(n) ==> history_clauses(p).contains("last_report_time <= "@ + decimal(n as nat)),
        p.src_ip matches Some(s) && s@.len() > 0 ==> history_clauses(p).contains("src_ip LIKE ?"@),
        p.dst_ip matches Some(s) && s@.len() > 0 ==> history_clauses(p).contains("dst_ip LIKE ?"@),
        p.port_start matches Some(n) ==> history_clauses(p).contains("src_port = "@ + decimal(n as nat)),
        p.port_end matches Some(n) ==> history_clauses(p).contains("dst_port = "@ + decimal(n as nat)),
        p.l3_proto matches Some(n) ==> history_clauses(p).contains("l3_proto = "@ + decimal(n as nat)),
        p.l4_proto matches Some(n) ==> history_clauses(p).contains("l4_proto = "@ + decimal(n as nat)),
        p.flow_id matches Some(n) ==> history_clauses(p).contains("flow_id = "@ + decimal(n as nat)),
        p.status matches Some(n) ==> history_clauses(p).contains("status = "@ + decimal(n as nat)),
        p.gress matches Some(n) ==> history_clauses(p).contains("gress = "@ + decimal(n as nat)),
{
    let c1 = num_clause(nat_of_u64(p.start_time), "last_report_time >= "@);
    let c2 = num_clause(nat_of_u64(p.end_time), "last_report_time <= "@);
    let c3 = like_clause(p.src_ip, "src_ip LIKE ?"@);
    let c4 = like_clause(p.dst_ip, "dst_ip LIKE ?"@);
    let c5 = num_clause(nat_of_u16(p.port_start), "src_port = "@);
    let c6 = num_clause(nat_of_u16(p.port_end), "dst_port = "@);
    let c7 = num_clause(nat_of_u8(p.l3_proto), "l3_proto = "@);
    let c8 = num_clause(nat_of_u8(p.l4_proto), "l4_proto = "@);
    let c9 = num_clause(nat_of_u8(p.flow_id), "flow_id = "@);
    let c10 = num_clause(nat_of_u8(p.status), "status = "@);
    let c11 = num_clause(nat_of_u8(p.gress), "gress = "@);
    let q1 = c1;
    let q2 = q1 + c2;
    let q3 = q2 + c3;
    let q4 = q3 + c4;
    let q5 = q4 + c5;
    let q6 = q5 + c6;
    let q7 = q6 + c7;
    let q8 = q7 + c8;
    let q9 = q8 + c9;
    let q10 = q9 + c10;
    let q11 = q10 + c11;
    assert(history_clauses(p) =~= q11);
    lemma_history_filter_start_time(p);
    lemma_history_filter_end_time(p);
    lemma_history_filter_src_ip(p);
    lemma_history_filter_dst_ip(p);
    lemma_history_filter_port_start(p);
    lemma_history_filter_port_end(p);
    lemma_history_filter_l3_proto(p);
    lemma_history_filter_l4_proto(p);
    lemma_history_filter_flow_id(p);
    lemma_history_filter_status(p);
    lemma_history_filter_gress(p);
}

/// A history query keeps only connections inside its time window: a start
/// time gives the clause bounding the report time from below, an end time
/// the clause bounding it from above, each in the query's filters and in its
/// text; and the two bounds are different clauses.
pub proof fn lemma_history_time_window(p: ConnectHistoryQueryParams)
    ensures
        p.start_time matches Some(t) ==> history_clauses(p).contains(reported_since(t)) && has_substring(
            history_sql(p),
            reported_since(t),
        ),
        p.end_time matches Some(t) ==> history_clauses(p).contains(reported_until(t)) && has_substring(
            history_sql(p),
            reported_until(t),
        ),
        forall|t1: u64, t2: u64| reported_since(t1) != reported_until(t2),
{
    let rest = history_clauses(p).skip(2);
    let lim = match p.limit {
        Some(l) => " LIMIT "@ + decimal(l as nat),
        None => Seq::empty(),
    };
    let tail = " ORDER BY "@ + history_sort_column(p.sort_key) + " "@ + sort_direction(p.sort_order) + lim;
    assert(history_sql(p) =~= history_select() + where_part(history_clauses(p)) + tail);
    if let Some(t) = p.start_time {
        assert(history_clauses(p)[0] == reported_since(t));
        lemma_where_holds_clause(history_clauses(p), reported_since(t));
        lemma_substring_within(history_select(), where_part(history_clauses(p)), tail, reported_since(t));
    }
    if let Some(t) = p.end_time {
        let k: int = if p.start_time is Some { 1 } else { 0 };
        assert(history_clauses(p)[k] == reported_until(t));
        lemma_where_holds_clause(history_clauses(p), reported_until(t));
        lemma_substring_within(history_select(), where_part(history_clauses(p)), tail, reported_until(t));
    }
    assert forall|t1: u64, t2: u64| reported_since(t1) != reported_until(t2) by {
        reveal_strlit("last_report_time >= ");
        reveal_strlit("last_report_time <= ");
        assert(reported_since(t1)[17] != reported_until(t2)[17]);
    }
}

/// The per-address history query keeps the same time window.
pub proof fn lemma_ip_history_time_window(p: ConnectHistoryQueryParams, is_src: bool)
    ensures
        p.start_time matches Some(t) ==> ip_history_clauses(p).contains(reported_since(t)) && has_substring(
            ip_history_sql(p, is_src),
            reported_since(t),
        ),
        p.end_time matches Some(t) ==> ip_history_clauses(p).contains(reported_until(t)) && has_substring(
            ip_history_sql(p, is_src),
            reported_until(t),
        ),
{
    let head = "SELECT "@ + (if is_src {
        "src_ip"@
    } else {
        "dst_ip"@
    }) + ", SUM(total_ingress_bytes), SUM(total_egress_bytes), SUM(total_ingress_pkts), SUM(total_egress_pkts), COUNT(*) FROM conn_summaries"@;
    let tail = " GROUP BY 1 ORDER BY "@ + ip_history_sort_column(p.sort_key) + " "@ + sort_direction(p.sort_order)
        + " LIMIT "@ + decimal(
        match p.limit {
            Some(l) => l as nat,
            None => 10nat,
        },
    );
    assert(ip_history_sql(p, is_src) =~= head + where_part(ip_history_clauses(p)) + tail);
    if let Some(t) = p.start_time {
        assert(ip_history_clauses(p)[0] == reported_since(t));
        lemma_where_holds_clause(ip_history_clauses(p), reported_since(t));
        lemma_substring_within(head, where_part(ip_history_clauses(p)), tail, reported_since(t));
    }
    if let Some(t) = p.end_time {
        let k: int = if p.start_time is Some { 1 } else { 0 };
        assert(ip_history_clauses(p)[k] == reported_until(t));
        lemma_where_holds_clause(ip_history_clauses(p), reported_until(t));
        lemma_substring_within(head, where_part(ip_history_clauses(p)), tail, reported_until(t));
    }
}

// ---------------------------------------------------------------------------
// Builders.
// ---------------------------------------------------------------------------

/// The table that holds metrics of a resolution.
pub fn metric_table(r: MetricResolution) -> (t: &'static str)
    ensures
        t@ == spec_metric_table(r),
{
    match r {
        MetricResolution::Second => "conn_metrics",
        MetricResolution::Minute => "conn_metrics_1m",
        MetricResolution::Hour => "conn_metrics_1h",
        MetricResolution::Day => "conn_metrics_1d",
    }
}

/// The resolution of a metric query: per second unless another is asked for.
pub fn metric_resolution(r: Option<MetricResolution>) -> (x: MetricResolution)
    ensures
        x == resolution_or_default(r),
{
    match r {
        Some(x) => x,
        None => MetricResolution::Second,
    }
}

/// The query for the stored points of one connection at a resolution, in
/// report order, and the two values it binds: the key's creation time and
/// CPU, as 64-bit signed integers.
pub fn metric_by_key_query(key: &ConnectKey, resolution: MetricResolution) -> (r: (String, i64, i64))
    ensures
        r.0@ == "SELECT report_time, ingress_bytes, ingress_packets, egress_bytes, egress_packets, status FROM "@
            + spec_metric_table(resolution) + " WHERE create_time = ?1 AND cpu_id = ?2 ORDER BY report_time"@,
        r.1 == key.create_time as i64,
        r.2 == key.cpu_id as i64,
{
    let mut sql = String::from_str(
        "SELECT report_time, ingress_bytes, ingress_packets, egress_bytes, egress_packets, status FROM ",
    );
    sql.append(metric_table(resolution));
    sql.append(" WHERE create_time = ?1 AND cpu_id = ?2 ORDER BY report_time");
    (sql, key.create_time as i64, key.cpu_id as i64)
}

fn push_num_clause(clauses: &mut Vec<String>, head: &str, v: u64)
    ensures
        string_views(final(clauses)@) == string_views(old(clauses)@).push(head@ + decimal(v as nat)),
{
    let mut c = String::from_str(head);
    push_decimal(&mut c, v);
    clauses.push(c);
    assert(string_views(clauses@) =~= string_views(old(clauses)@).push(head@ + decimal(v as nat)));
}

fn push_opt_u64(clauses: &mut Vec<String>, head: &str, v: Option<u64>)
    ensures
        string_views(final(clauses)@) == string_views(old(clauses)@) + num_clause(nat_of_u64(v), head@),
{
    match v {
        Some(n) => push_num_clause(clauses, head, n),
        None => {
            assert(string_views(clauses@) =~= string_views(clauses@) + Seq::<Seq<char>>::empty());
        },
    }
}

fn push_opt_u16(clauses: &mut Vec<String>, head: &str, v: Option<u16>)
    ensures
        string_views(final(clauses)@) == string_views(old(clauses)@) + num_clause(nat_of_u16(v), head@),
{
    match v {
        Some(n) => push_num_clause(clauses, head, n as u64),
        None => {
            assert(string_views(clauses@) =~= string_views(clauses@) + Seq::<Seq<char>>::empty());
        },
    }
}

fn push_opt_u8(clauses: &mut Vec<String>, head: &str, v: Option<u8>)
    ensures
        string_views(final(clauses)@) == string_views(old(clauses)@) + num_clause(nat_of_u8(v), head@),
{
    match v {
        Some(n) => push_num_clause(clauses, head, n as u64),
        None => {
            assert(string_views(clauses@) =~= string_views(clauses@) + Seq::<Seq<char>>::empty());
        },
    }
}

fn push_like(clauses: &mut Vec<String>, params: &mut Vec<String>, clause: &str, v: &Option<String>)
    ensures
        string_views(final(clauses)@) == string_views(old(clauses)@) + like_clause(*v, clause@),
        string_views(final(params)@) == string_views(old(params)@) + like_param(*v),
{
    match v {
        Some(ip) => {
            if ip.as_str().unicode_len() > 0 {
                clauses.push(String::from_str(clause));
                let mut pat = String::from_str("%");
                pat.append(ip.as_str());
                pat.append("%");
                params.push(pat);
                assert(string_views(clauses@) =~= string_views(old(clauses)@) + like_clause(*v, clause@));
                assert(string_views(params@) =~= string_views(old(params)@) + like_param(*v));
            } else {
                assert(string_views(clauses@) =~= string_views(clauses@) + Seq::<Seq<char>>::empty());
                assert(string_views(params@) =~= string_views(params@) + Seq::<Seq<char>>::empty());
            }
        },
        None => {
            assert(string_views(clauses@) =~= string_views(clauses@) + Seq::<Seq<char>>::empty());
            assert(string_views(params@) =~= string_views(params@) + Seq::<Seq<char>>::empty());
        },
    }
}

fn append_where(sql: &mut String, clauses: &Vec<String>)
    ensures
        final(sql)@ == old(sql)@ + where_part(string_views(clauses@)),
{
    if clauses.len() > 0 {
        sql.append(" WHERE ");
        let joined = join_strings(clauses, " AND ");
        sql.append(joined.as_str());
    } else {
        assert(sql@ =~= sql@ + Seq::<char>::empty());
    }
}

fn append_direction(sql: &mut String, o: Option<SortOrder>)
    ensures
        final(sql)@ == old(sql)@ + sort_direction(o),
{
    match o {
        Some(SortOrder::Asc) => sql.append("ASC"),
        _ => sql.append("DESC"),
    }
}

/// The connection history query: the filters given (a time window, address
/// patterns, ports, protocols, flow, status, direction), joined by AND, the
/// order asked for (by report time, descending, by default), and the limit.
pub fn history_query(p: &ConnectHistoryQueryParams) -> (r: SqlQuery)
    ensures
        r.sql@ == history_sql(*p),
        string_views(r.params@) == history_params(*p),
{
    let mut clauses: Vec<String> = Vec::new();
    let mut params: Vec<String> = Vec::new();
    assert(string_views(clauses@) =~= Seq::<Seq<char>>::empty());
    assert(string_views(params@) =~= Seq::<Seq<char>>::empty());
    push_opt_u64(&mut clauses, "last_report_time >= ", p.start_time);
    push_opt_u64(&mut clauses, "last_report_time <= ", p.end_time);
    push_like(&mut clauses, &mut params, "src_ip LIKE ?", &p.src_ip);
    push_like(&mut clauses, &mut params, "dst_ip LIKE ?", &p.dst_ip);
    push_opt_u16(&mut clauses, "src_port = ", p.port_start);
    push_opt_u16(&mut clauses, "dst_port = ", p.port_end);
    push_opt_u8(&mut clauses, "l3_proto = ", p.l3_proto);
    push_opt_u8(&mut clauses, "l4_proto = ", p.l4_proto);
    push_opt_u8(&mut clauses, "flow_id = ", p.flow_id);
    push_opt_u8(&mut clauses, "status = ", p.status);
    push_opt_u8(&mut clauses, "gress = ", p.gress);
    assert(string_views(clauses@) =~= history_clauses(*p));
    assert(string_views(params@) =~= history_params(*p));
    let mut sql = String::from_str(
        "SELECT create_time, cpu_id, src_ip, dst_ip, src_port, dst_port, l4_proto, l3_proto, flow_id, trace_id, total_ingress_bytes, total_egress_bytes, total_ingress_pkts, total_egress_pkts, last_report_time, status, create_time_ms, gress FROM conn_summaries",
    );
    append_where(&mut sql, &clauses);
    sql.append(" ORDER BY ");
    let col = match p.sort_key {
        Some(ConnectSortKey::Port) => "src_port",
        Some(ConnectSortKey::Ingress) => "total_ingress_bytes",
        Some(ConnectSortKey::Egress) => "total_egress_bytes",
        Some(ConnectSortKey::Duration) => "(CAST(last_report_time AS BIGINT) - CAST(create_time_ms AS BIGINT))",
        _ => "last_report_time",
    };
    sql.append(col);
    sql.append(" ");
    append_direction(&mut sql, p.sort_order);
    match p.limit {
        Some(l) => {
            sql.append(" LIMIT ");
            push_decimal(&mut sql, l);
        },
        None => {},
    }
    assert(sql@ =~= history_sql(*p));
    SqlQuery { sql, params }
}

/// The per-address history query: traffic summed per source (`is_src`) or
/// destination address over the filters given (time window, flow, address
/// patterns), ordered by summed ingress or egress, the 10 largest by default.
pub fn ip_history_query(p: &ConnectHistoryQueryParams, is_src: bool) -> (r: SqlQuery)
    ensures
        r.sql@ == ip_history_sql(*p, is_src),
        string_views(r.params@) == history_params(*p),
{
    let mut clauses: Vec<String> = Vec::new();
    let mut params: Vec<String> = Vec::new();
    assert(string_views(clauses@) =~= Seq::<Seq<char>>::empty());
    assert(string_views(params@) =~= Seq::<Seq<char>>::empty());
    push_opt_u64(&mut clauses, "last_report_time >= ", p.start_time);
    push_opt_u64(&mut clauses, "last_report_time <= ", p.end_time);
    push_opt_u8(&mut clauses, "flow_id = ", p.flow_id);
    push_like(&mut clauses, &mut params, "src_ip LIKE ?", &p.src_ip);
    push_like(&mut clauses, &mut params, "dst_ip LIKE ?", &p.dst_ip);
    assert(string_views(clauses@) =~= ip_history_clauses(*p));
    assert(string_views(params@) =~= history_params(*p));
    let mut sql = String::from_str("SELECT ");
    if is_src {
        sql.append("src_ip");
    } else {
        sql.append("dst_ip");
    }
    sql.append(
        ", SUM(total_ingress_bytes), SUM(total_egress_bytes), SUM(total_ingress_pkts), SUM(total_egress_pkts), COUNT(*) FROM conn_summaries",
    );
    append_where(&mut sql, &clauses);
    sql.append(" GROUP BY 1 ORDER BY ");
    let col = match p.sort_key {
        Some(ConnectSortKey::Egress) => "3",
        _ => "2",
    };
    sql.append(col);
    sql.append(" ");
    append_direction(&mut sql, p.sort_order);
    sql.append(" LIMIT ");
    let limit_val = match p.limit {
        Some(l) => l,
        None => 10,
    };
    push_decimal(&mut sql, limit_val);
    assert(sql@ =~= ip_history_sql(*p, is_src));
    SqlQuery { sql, params }
}

/// The schema prefix of a table name: the schema and a dot, nothing for the
/// default schema.
pub fn table_prefix(schema: &str) -> (r: String)
    ensures
        r@ == if schema@.len() == 0 {
            Seq::<char>::empty()
        } else {
            schema@ + "."@
        },
{
    if schema.unicode_len() == 0 {
        String::new()
    } else {
        let mut r = String::from_str(schema);
        r.append(".");
        r
    }
}

} // verus!
