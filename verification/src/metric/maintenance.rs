//! The bookkeeping of the metric writer: retention cutoffs, stale live
//! connections, write batches, and the normalisation of DNS names.
use crate::text::ends_with_char;
use vstd::prelude::*;
use vstd::string::{StrSliceExecFns, StringExecFns};

verus! {

pub const A_MIN: u64 = 60000;
pub const MS_PER_MINUTE: u64 = A_MIN;
pub const MS_PER_DAY: u64 = 86_400_000;
/// A live connection not reported for five minutes is dropped.
pub const STALE_TIMEOUT_MS: u64 = 300_000;
/// The least number of queued messages handled in one turn.
pub const MIN_MESSAGES_PER_TURN: usize = 100;

/// How long each kind of metric is kept.
#[derive(Clone, Copy, PartialEq, Eq, Structural, Debug)]
pub struct MetricRuntimeConfig {
    pub conn_retention_mins: u64,
    pub conn_retention_minute_days: u64,
    pub conn_retention_hour_days: u64,
    pub conn_retention_day_days: u64,
    pub dns_retention_days: u64,
    pub batch_size: usize,
}

/// The report times before which each kind of metric is deleted.
#[derive(Clone, Copy, PartialEq, Eq, Structural, Debug)]
pub struct RetentionCutoffs {
    pub cutoff_raw: u64,
    pub cutoff_1m: u64,
    pub cutoff_1h: u64,
    pub cutoff_1d: u64,
    pub cutoff_dns: u64,
}

pub open spec fn sat_sub_spec(a: u64, b: int) -> u64 {
    if a >= b {
        (a - b) as u64
    } else {
        0
    }
}

/// Retention periods that can be turned into milliseconds.
pub open spec fn retention_fits(c: MetricRuntimeConfig) -> bool {
    &&& c.conn_retention_mins * MS_PER_MINUTE <= u64::MAX
    &&& c.conn_retention_minute_days * MS_PER_DAY <= u64::MAX
    &&& c.conn_retention_hour_days * MS_PER_DAY <= u64::MAX
    &&& c.conn_retention_day_days * MS_PER_DAY <= u64::MAX
    &&& c.dns_retention_days * MS_PER_DAY <= u64::MAX
}

/// The cutoffs at time `now_ms`: now minus each retention period, 0 when the
/// period reaches back before the epoch.
pub fn retention_cutoffs(now_ms: u64, c: &MetricRuntimeConfig) -> (r: RetentionCutoffs)
    requires
        retention_fits(*c),
    ensures
        r.cutoff_raw == sat_sub_spec(now_ms, c.conn_retention_mins * MS_PER_MINUTE),
        r.cutoff_1m == sat_sub_spec(now_ms, c.conn_retention_minute_days * MS_PER_DAY),
        r.cutoff_1h == sat_sub_spec(now_ms, c.conn_retention_hour_days * MS_PER_DAY),
        r.cutoff_1d == sat_sub_spec(now_ms, c.conn_retention_day_days * MS_PER_DAY),
        r.cutoff_dns == sat_sub_spec(now_ms, c.dns_retention_days * MS_PER_DAY),
{
    RetentionCutoffs {
        cutoff_raw: now_ms.saturating_sub(c.conn_retention_mins * MS_PER_MINUTE),
        cutoff_1m: now_ms.saturating_sub(c.conn_retention_minute_days * MS_PER_DAY),
        cutoff_1h: now_ms.saturating_sub(c.conn_retention_hour_days * MS_PER_DAY),
        cutoff_1d: now_ms.saturating_sub(c.conn_retention_day_days * MS_PER_DAY),
        cutoff_dns: now_ms.saturating_sub(c.dns_retention_days * MS_PER_DAY),
    }
}

/// The DNS cutoff used when old connection metrics are collected on request.
pub fn dns_cutoff(now_ms: u64, c: &MetricRuntimeConfig) -> (r: u64)
    requires
        c.dns_retention_days * MS_PER_DAY <= u64::MAX,
    ensures
        r == sat_sub_spec(now_ms, c.dns_retention_days * MS_PER_DAY),
{
    now_ms.saturating_sub(c.dns_retention_days * MS_PER_DAY)
}

/// The report time before which a live connection counts as stale.
pub fn live_cutoff(now_ms: u64) -> (r: u64)
    ensures
        r == sat_sub_spec(now_ms, STALE_TIMEOUT_MS as int),
{
    now_ms.saturating_sub(STALE_TIMEOUT_MS)
}

/// The write batch of the metric writer: connection metrics appended since
/// the last flush.
pub struct WriteBatch {
    pub batch_count: usize,
    pub batch_size: usize,
}

impl WriteBatch {
    /// A batch holds fewer appended metrics than its size, or none.
    pub open spec fn wf(&self) -> bool {
        self.batch_count < self.batch_size || self.batch_count == 0
    }

    pub fn new(batch_size: usize) -> (r: WriteBatch)
        ensures
            r.batch_count == 0,
            r.batch_size == batch_size,
            r.wf(),
    {
        WriteBatch { batch_count: 0, batch_size }
    }

    /// How many queued messages one turn handles: the batch size, at least 100.
    pub fn messages_per_turn(&self) -> (r: usize)
        ensures
            r == if self.batch_size >= MIN_MESSAGES_PER_TURN {
                self.batch_size
            } else {
                MIN_MESSAGES_PER_TURN
            },
    {
        if self.batch_size >= MIN_MESSAGES_PER_TURN {
            self.batch_size
        } else {
            MIN_MESSAGES_PER_TURN
        }
    }

    /// After a message has been handled: a connection metric counts towards
    /// the batch; once the batch is full the writers are flushed (the result
    /// is `true`) and the count starts over.
    pub fn after_message(&mut self, is_connect_metric: bool) -> (flush: bool)
        requires
            old(self).wf(),
        ensures
            final(self).batch_size == old(self).batch_size,
            final(self).wf(),
            ({
                let n = if is_connect_metric {
                    old(self).batch_count + 1
                } else {
                    old(self).batch_count as int
                };
                &&& flush == (n >= old(self).batch_size)
                &&& final(self).batch_count == if flush {
                    0
                } else {
                    n
                }
            }),
    {
        if is_connect_metric {
            self.batch_count = self.batch_count + 1;
        }
        if self.batch_count >= self.batch_size {
            self.batch_count = 0;
            true
        } else {
            false
        }
    }
}

/// A DNS name as stored: one trailing dot removed, unless the name is only
/// the dot.
pub fn normalize_dns_domain(domain: &str) -> (r: String)
    ensures
        r@ == if domain@.len() > 1 && domain@.last() == '.' {
            domain@.drop_last()
        } else {
            domain@
        },
{
    let n = domain.unicode_len();
    if ends_with_char(domain, '.') && n > 1 {
        domain.substring_char(0, n - 1).to_owned()
    } else {
        domain.to_owned()
    }
}

} // verus!
