//! Metrics about observed HTTP exchanges: a bounded store with amortised
//! eviction, snapshot copies, windowed filtering, on-demand aggregation,
//! and a latency histogram — shared safely between concurrent tasks.

use std::collections::HashMap;
use vstd::pervasive::VecAdditionalExecFns;
use vstd::prelude::*;
use vstd::rwlock::{RwLock, RwLockPredicate};

verus! {

broadcast use vstd::std_specs::hash::group_hash_axioms;

/// One observed HTTP exchange. Immutable once recorded.
pub struct RequestMetric {
    /// Unique request id (an opaque 36-character token).
    pub id: String,
    /// HTTP method.
    pub method: String,
    /// Request path or target.
    pub path: String,
    /// Response status code; absent when no response was received.
    pub status_code: Option<u16>,
    /// Processing time in whole milliseconds.
    pub latency_ms: u64,
    /// When the request was received: milliseconds since the Unix epoch, UTC.
    pub timestamp_ms: i64,
    /// Whether this exchange was proxied.
    pub proxied: bool,
}

/// Mathematical model of a [`RequestMetric`].
pub struct RecordView {
    pub id: Seq<char>,
    pub method: Seq<char>,
    pub path: Seq<char>,
    pub status_code: Option<u16>,
    pub latency_ms: u64,
    pub timestamp_ms: i64,
    pub proxied: bool,
}

impl View for RequestMetric {
    type V = RecordView;

    open spec fn view(&self) -> RecordView {
        RecordView {
            id: self.id@,
            method: self.method@,
            path: self.path@,
            status_code: self.status_code,
            latency_ms: self.latency_ms,
            timestamp_ms: self.timestamp_ms,
            proxied: self.proxied,
        }
    }
}

/// Relies on chrono's `Utc::now` and `DateTime::timestamp_millis`: reads the
/// wall clock as whole milliseconds since the Unix epoch. Nothing can be
/// promised of a clock reading.
#[verifier::external_body]
fn now_millis() -> i64 {
    chrono::Utc::now().timestamp_millis()
}

/// Relies on uuid's `Uuid::new_v4` and its `Display` impl: a freshly drawn
/// random identifier in the hyphenated form, which is always 36 characters
/// (`Hyphenated::LENGTH`). Nothing more can be promised of a random value.
#[verifier::external_body]
fn fresh_id() -> (r: String)
    ensures
        r@.len() == 36,
{
    uuid::Uuid::new_v4().to_string()
}

impl RequestMetric {
    /// A new record for one exchange, stamped with a fresh id and the
    /// current time, with no status, zero latency, and not proxied.
    pub fn new(method: String, path: String) -> (r: Self)
        ensures
            r@.method == method@,
            r@.path == path@,
            r@.status_code is None,
            r@.latency_ms == 0,
            r@.proxied == false,
            r@.id.len() == 36,
    {
        RequestMetric {
            id: fresh_id(),
            method,
            path,
            status_code: None,
            latency_ms: 0,
            timestamp_ms: now_millis(),
            proxied: false,
        }
    }

    /// The same record with the status code set.
    pub fn with_status(self, status: u16) -> (r: Self)
        ensures
            r@ == (RecordView { status_code: Some(status), ..self@ }),
    {
        RequestMetric { status_code: Some(status), ..self }
    }

    /// The same record with the latency set.
    pub fn with_latency(self, latency_ms: u64) -> (r: Self)
        ensures
            r@ == (RecordView { latency_ms: latency_ms, ..self@ }),
    {
        RequestMetric { latency_ms, ..self }
    }

    /// The same record with the proxied flag set.
    pub fn with_proxied(self, proxied: bool) -> (r: Self)
        ensures
            r@ == (RecordView { proxied: proxied, ..self@ }),
    {
        RequestMetric { proxied, ..self }
    }
}

impl Clone for RequestMetric {
    fn clone(&self) -> (r: Self)
        ensures
            r@ == self@,
    {
        RequestMetric {
            id: self.id.clone(),
            method: self.method.clone(),
            path: self.path.clone(),
            status_code: self.status_code,
            latency_ms: self.latency_ms,
            timestamp_ms: self.timestamp_ms,
            proxied: self.proxied,
        }
    }
}

/// The models of a sequence of records.
pub open spec fn views_of(ms: Seq<RequestMetric>) -> Seq<RecordView> {
    ms.map_values(|m: RequestMetric| m@)
}

/// How many records a store may hold: the configured maximum, except that a
/// store configured with capacity 0 still holds up to one record, since every
/// insertion first evicts and then appends.
pub open spec fn bound_of(max_entries: usize) -> nat {
    if max_entries == 0 {
        1
    } else {
        max_entries as nat
    }
}

/// How many oldest records one insertion at capacity evicts: a tenth of the
/// capacity, but at least one, and never more than are stored.
pub open spec fn evict_count_of(max_entries: usize, len: nat) -> nat {
    let tenth = if max_entries / 10 == 0 {
        1nat
    } else {
        (max_entries / 10) as nat
    };
    if tenth > len {
        len
    } else {
        tenth
    }
}

/// What one insertion does to the stored sequence: evict the oldest batch
/// when the store is at capacity, then append.
pub open spec fn record_model(rs: Seq<RecordView>, max_entries: usize, m: RecordView) -> Seq<
    RecordView,
> {
    let kept = if rs.len() >= max_entries {
        rs.skip(evict_count_of(max_entries, rs.len()) as int)
    } else {
        rs
    };
    kept.push(m)
}

/// The sequential core of the metrics store: a bounded record list in
/// insertion order. All aggregation is specified against its model, a
/// sequence of [`RecordView`]s.
pub struct MetricsStore {
    records: Vec<RequestMetric>,
    max_entries: usize,
}

impl View for MetricsStore {
    type V = Seq<RecordView>;

    closed spec fn view(&self) -> Seq<RecordView> {
        views_of(self.records@)
    }
}

impl MetricsStore {
    /// The configured maximum number of records.
    pub closed spec fn capacity(&self) -> usize {
        self.max_entries
    }

    /// The store never holds more records than its bound.
    pub open spec fn wf(&self) -> bool {
        self@.len() <= bound_of(self.capacity())
    }

    /// An empty store with the given capacity.
    pub fn new(max_entries: usize) -> (r: Self)
        ensures
            r@ == Seq::<RecordView>::empty(),
            r.capacity() == max_entries,
            r.wf(),
    {
        let r = MetricsStore { records: Vec::new(), max_entries };
        proof {
            assert(r@ =~= Seq::<RecordView>::empty());
        }
        r
    }

    /// Current record count.
    pub fn count(&self) -> (r: usize)
        ensures
            r == self@.len(),
    {
        self.records.len()
    }

    /// Appends one record, first evicting the oldest tenth when the store is
    /// at capacity. Always succeeds.
    pub fn record(&mut self, metric: RequestMetric)
        requires
            old(self).wf(),
        ensures
            final(self).wf(),
            final(self).capacity() == old(self).capacity(),
            final(self)@ == record_model(old(self)@, old(self).capacity(), metric@),
    {
        let ghost orig = self.records@;
        if self.records.len() >= self.max_entries {
            let mut k = self.max_entries / 10;
            if k == 0 {
                k = 1;
            }
            if k > self.records.len() {
                k = self.records.len();
            }
            assert(k == evict_count_of(self.max_entries, orig.len()));
            let kept = self.records.split_off(k);
            self.records = kept;
            proof {
                assert(self.records@ =~= orig.skip(k as int));
                assert(views_of(orig.skip(k as int)) =~= views_of(orig).skip(k as int));
            }
        }
        let ghost kept_records = self.records@;
        self.records.push(metric);
        proof {
            assert(views_of(kept_records.push(metric)) =~= views_of(kept_records).push(metric@));
        }
    }

    /// Discards all records.
    pub fn clear(&mut self)
        ensures
            final(self)@ == Seq::<RecordView>::empty(),
            final(self).capacity() == old(self).capacity(),
            final(self).wf(),
    {
        self.records.clear();
        proof {
            assert(self@ =~= Seq::<RecordView>::empty());
        }
    }

    /// A snapshot copy of all records, in insertion order.
    pub fn get_all(&self) -> (r: Vec<RequestMetric>)
        ensures
            views_of(r@) == self@,
    {
        let mut r: Vec<RequestMetric> = Vec::new();
        let mut i: usize = 0;
        while i < self.records.len()
            invariant
                i <= self.records@.len(),
                r@.len() == i,
                forall|j: int| 0 <= j < i ==> #[trigger] r@[j]@ == self.records@[j]@,
            decreases self.records@.len() - i,
        {
            r.push(self.records[i].clone());
            i += 1;
        }
        proof {
            assert(views_of(r@) =~= views_of(self.records@));
        }
        r
    }
}

/// Whether a record counts as successful: a status in [200, 300).
pub open spec fn is_success(r: RecordView) -> bool {
    r.status_code matches Some(s) && 200 <= s < 300
}

/// Whether a record counts as failed: a status of 400 or above.
pub open spec fn is_failure(r: RecordView) -> bool {
    r.status_code matches Some(s) && s >= 400
}

/// Count of successful records.
pub open spec fn successful_of(rs: Seq<RecordView>) -> nat
    decreases rs.len(),
{
    if rs.len() == 0 {
        0
    } else {
        successful_of(rs.drop_last()) + if is_success(rs.last()) {
            1nat
        } else {
            0nat
        }
    }
}

/// Count of failed records.
pub open spec fn failed_of(rs: Seq<RecordView>) -> nat
    decreases rs.len(),
{
    if rs.len() == 0 {
        0
    } else {
        failed_of(rs.drop_last()) + if is_failure(rs.last()) {
            1nat
        } else {
            0nat
        }
    }
}

/// Count of proxied records.
pub open spec fn proxied_of(rs: Seq<RecordView>) -> nat
    decreases rs.len(),
{
    if rs.len() == 0 {
        0
    } else {
        proxied_of(rs.drop_last()) + if rs.last().proxied {
            1nat
        } else {
            0nat
        }
    }
}

/// Sum of all latencies.
pub open spec fn sum_latency_of(rs: Seq<RecordView>) -> nat
    decreases rs.len(),
{
    if rs.len() == 0 {
        0
    } else {
        sum_latency_of(rs.drop_last()) + rs.last().latency_ms as nat
    }
}

/// Least latency; `u64::MAX` for an empty sequence, so that folding in one
/// more record is always a plain minimum.
pub open spec fn min_latency_of(rs: Seq<RecordView>) -> u64
    decreases rs.len(),
{
    if rs.len() == 0 {
        u64::MAX
    } else {
        let m = min_latency_of(rs.drop_last());
        if rs.last().latency_ms < m {
            rs.last().latency_ms
        } else {
            m
        }
    }
}

/// Greatest latency; 0 for an empty sequence.
pub open spec fn max_latency_of(rs: Seq<RecordView>) -> u64
    decreases rs.len(),
{
    if rs.len() == 0 {
        0
    } else {
        let m = max_latency_of(rs.drop_last());
        if rs.last().latency_ms > m {
            rs.last().latency_ms
        } else {
            m
        }
    }
}

/// The records whose timestamp is strictly newer than the cutoff, in order.
pub open spec fn recent_of(rs: Seq<RecordView>, cutoff: int) -> Seq<RecordView>
    decreases rs.len(),
{
    if rs.len() == 0 {
        Seq::empty()
    } else {
        let prefix = recent_of(rs.drop_last(), cutoff);
        if rs.last().timestamp_ms > cutoff {
            prefix.push(rs.last())
        } else {
            prefix
        }
    }
}

/// The cutoff instant of a trailing window: `seconds` before `now`, in
/// milliseconds, computed without wrap-around.
pub open spec fn cutoff_of(now_ms: i64, seconds: i64) -> int {
    now_ms - seconds * 1000
}

/// How often a status occurs according to a distribution map; 0 when absent.
pub open spec fn dist_count(d: Map<u16, u64>, s: u16) -> u64 {
    if d.contains_key(s) {
        d[s]
    } else {
        0
    }
}

/// Status-code distribution: how often each status code occurs. Records
/// without a status count toward no key.
pub open spec fn dist_of(rs: Seq<RecordView>) -> Map<u16, u64>
    decreases rs.len(),
{
    if rs.len() == 0 {
        Map::empty()
    } else {
        let d = dist_of(rs.drop_last());
        match rs.last().status_code {
            Some(s) => d.insert(s, (dist_count(d, s) + 1) as u64),
            None => d,
        }
    }
}

/// Aggregated point-in-time summary of a record set.
pub struct MetricsSummary {
    /// Total number of records.
    pub total_requests: u64,
    /// Records with a status in [200, 300).
    pub successful_requests: u64,
    /// Records with a status of 400 or above.
    pub failed_requests: u64,
    /// Mean latency in milliseconds (0 when the set is empty).
    pub avg_latency_ms: u64,
    /// Least latency in milliseconds (0 when the set is empty).
    pub min_latency_ms: u64,
    /// Greatest latency in milliseconds (0 when the set is empty).
    pub max_latency_ms: u64,
    /// Records that were proxied.
    pub proxied_requests: u64,
    /// How often each status code occurs.
    pub status_distribution: HashMap<u16, u64>,
    /// Records per second over the trailing 60-second window.
    pub requests_per_second: u64,
}

impl Default for MetricsSummary {
    fn default() -> (r: Self)
        ensures
            r.total_requests == 0,
            r.successful_requests == 0,
            r.failed_requests == 0,
            r.avg_latency_ms == 0,
            r.min_latency_ms == 0,
            r.max_latency_ms == 0,
            r.proxied_requests == 0,
            r.status_distribution@ == Map::<u16, u64>::empty(),
            r.requests_per_second == 0,
    {
        MetricsSummary {
            total_requests: 0,
            successful_requests: 0,
            failed_requests: 0,
            avg_latency_ms: 0,
            min_latency_ms: 0,
            max_latency_ms: 0,
            proxied_requests: 0,
            status_distribution: HashMap::new(),
            requests_per_second: 0,
        }
    }
}

/// Whether a summary is exactly the aggregation of a record set as observed
/// at instant `now_ms`.
pub open spec fn summary_matches(rs: Seq<RecordView>, now_ms: i64, s: MetricsSummary) -> bool {
    &&& s.total_requests == rs.len()
    &&& s.successful_requests == successful_of(rs)
    &&& s.failed_requests == failed_of(rs)
    &&& s.proxied_requests == proxied_of(rs)
    &&& s.avg_latency_ms == if rs.len() == 0 {
        0int
    } else {
        sum_latency_of(rs) as int / rs.len() as int
    }
    &&& s.min_latency_ms == if rs.len() == 0 {
        0u64
    } else {
        min_latency_of(rs)
    }
    &&& s.max_latency_ms == max_latency_of(rs)
    &&& s.status_distribution@ == dist_of(rs)
    &&& s.requests_per_second == recent_of(rs, now_ms - 60000).len() / 60
}

/// Unfolds every aggregate by one step: extending the scanned prefix by one
/// record changes each aggregate exactly by that record's contribution.
proof fn lemma_aggregates_step(rs: Seq<RecordView>, i: int)
    requires
        0 <= i < rs.len(),
    ensures
        successful_of(rs.take(i + 1)) == successful_of(rs.take(i)) + (if is_success(rs[i]) {
            1nat
        } else {
            0nat
        }),
        failed_of(rs.take(i + 1)) == failed_of(rs.take(i)) + (if is_failure(rs[i]) {
            1nat
        } else {
            0nat
        }),
        proxied_of(rs.take(i + 1)) == proxied_of(rs.take(i)) + (if rs[i].proxied {
            1nat
        } else {
            0nat
        }),
        sum_latency_of(rs.take(i + 1)) == sum_latency_of(rs.take(i)) + rs[i].latency_ms,
        min_latency_of(rs.take(i + 1)) == (if rs[i].latency_ms < min_latency_of(rs.take(i)) {
            rs[i].latency_ms
        } else {
            min_latency_of(rs.take(i))
        }),
        max_latency_of(rs.take(i + 1)) == (if rs[i].latency_ms > max_latency_of(rs.take(i)) {
            rs[i].latency_ms
        } else {
            max_latency_of(rs.take(i))
        }),
        dist_of(rs.take(i + 1)) == (match rs[i].status_code {
            Some(st) => dist_of(rs.take(i)).insert(
                st,
                (dist_count(dist_of(rs.take(i)), st) + 1) as u64,
            ),
            None => dist_of(rs.take(i)),
        }),
{
    assert(rs.take(i + 1).drop_last() =~= rs.take(i));
    assert(rs.take(i + 1).last() == rs[i]);
}

/// Unfolds the trailing-window filter by one step.
proof fn lemma_recent_step(rs: Seq<RecordView>, i: int, cutoff: int)
    requires
        0 <= i < rs.len(),
    ensures
        recent_of(rs.take(i + 1), cutoff) == (if rs[i].timestamp_ms > cutoff {
            recent_of(rs.take(i), cutoff).push(rs[i])
        } else {
            recent_of(rs.take(i), cutoff)
        }),
{
    assert(rs.take(i + 1).drop_last() =~= rs.take(i));
    assert(rs.take(i + 1).last() == rs[i]);
}

/// The trailing-window filter never returns more records than it scanned.
pub proof fn lemma_recent_len(rs: Seq<RecordView>, cutoff: int)
    ensures
        recent_of(rs, cutoff).len() <= rs.len(),
    decreases rs.len(),
{
    if rs.len() > 0 {
        lemma_recent_len(rs.drop_last(), cutoff);
    }
}

/// Every count in a status distribution is at most the number of records.
proof fn lemma_dist_bound(rs: Seq<RecordView>)
    requires
        rs.len() <= u64::MAX,
    ensures
        forall|s: u16| dist_of(rs).contains_key(s) ==> dist_of(rs)[s] <= rs.len(),
    decreases rs.len(),
{
    if rs.len() > 0 {
        lemma_dist_bound(rs.drop_last());
        let d = dist_of(rs.drop_last());
        match rs.last().status_code {
            Some(s) => {
                assert(dist_count(d, s) <= rs.len() - 1);
                assert(dist_of(rs) == d.insert(s, (dist_count(d, s) + 1) as u64));
                assert forall|k: u16| dist_of(rs).contains_key(k) implies dist_of(rs)[k]
                    <= rs.len() by {
                    if k != s {
                        assert(d.contains_key(k) && dist_of(rs)[k] == d[k]);
                    }
                }
            },
            None => {},
        }
    }
}

/// The latency sum is bounded by the record count times the largest latency
/// a record can hold.
proof fn lemma_sum_latency_bound(rs: Seq<RecordView>)
    ensures
        sum_latency_of(rs) <= rs.len() * (u64::MAX as nat),
    decreases rs.len(),
{
    if rs.len() > 0 {
        lemma_sum_latency_bound(rs.drop_last());
        assert((rs.len() - 1) * (u64::MAX as nat) + (u64::MAX as nat) == rs.len() * (
        u64::MAX as nat)) by (nonlinear_arith);
    }
}

/// Successes and failures never overlap: together they never outnumber the
/// records, and they account for every record exactly when each record
/// carries a status that is either in [200, 300) or at least 400 — in
/// particular, never one in [300, 400).
pub proof fn lemma_success_failure_split(rs: Seq<RecordView>)
    ensures
        successful_of(rs) + failed_of(rs) <= rs.len(),
        (successful_of(rs) + failed_of(rs) == rs.len()) <==> (forall|i: int|
            0 <= i < rs.len() ==> is_success(#[trigger] rs[i]) || is_failure(rs[i])),
        (successful_of(rs) + failed_of(rs) == rs.len()) ==> (forall|i: int|
            0 <= i < rs.len() ==> !(#[trigger] rs[i].status_code matches Some(st) && 300 <= st
                < 400)),
    decreases rs.len(),
{
    if rs.len() > 0 {
        lemma_success_failure_split(rs.drop_last());
        assert(forall|i: int| 0 <= i < rs.len() - 1 ==> rs.drop_last()[i] == rs[i]);
        assert(rs.last() == rs[rs.len() - 1]);
    }
}

/// On an empty record set every aggregate of the summary is zero: no
/// division happens and no error value appears.
pub proof fn lemma_summary_of_empty(s: MetricsSummary, now_ms: i64)
    requires
        summary_matches(Seq::<RecordView>::empty(), now_ms, s),
    ensures
        s.total_requests == 0,
        s.successful_requests == 0,
        s.failed_requests == 0,
        s.proxied_requests == 0,
        s.avg_latency_ms == 0,
        s.min_latency_ms == 0,
        s.max_latency_ms == 0,
        s.requests_per_second == 0,
        s.status_distribution@ == Map::<u16, u64>::empty(),
{
}

impl MetricsStore {
    /// The records from the trailing `seconds`-second window before the
    /// instant `now_ms`: exactly those strictly newer than the cutoff.
    /// A non-positive `seconds` places the cutoff at or after `now_ms`, which
    /// naturally yields few or no records; no input is special-cased.
    pub fn get_recent_at(&self, now_ms: i64, seconds: i64) -> (r: Vec<RequestMetric>)
        ensures
            views_of(r@) == recent_of(self@, cutoff_of(now_ms, seconds)),
    {
        let cutoff: i128 = (now_ms as i128) - (seconds as i128) * 1000;
        let ghost rs = self@;
        let mut r: Vec<RequestMetric> = Vec::new();
        let mut i: usize = 0;
        proof {
            assert(views_of(r@) =~= recent_of(rs.take(0), cutoff as int));
        }
        while i < self.records.len()
            invariant
                i <= self.records@.len(),
                rs == self@,
                rs.len() == self.records@.len(),
                rs == views_of(self.records@),
                cutoff == cutoff_of(now_ms, seconds),
                views_of(r@) == recent_of(rs.take(i as int), cutoff as int),
            decreases self.records@.len() - i,
        {
            proof {
                lemma_recent_step(rs, i as int, cutoff as int);
            }
            let ghost prev = r@;
            if (self.records[i].timestamp_ms as i128) > cutoff {
                r.push(self.records[i].clone());
                proof {
                    assert(views_of(prev.push(r@[prev.len() as int])) =~= views_of(prev).push(
                        rs[i as int],
                    ));
                }
            }
            i += 1;
        }
        proof {
            assert(rs.take(rs.len() as int) =~= rs);
        }
        r
    }

    /// The aggregated summary of all records, with the trailing-window rate
    /// computed against the instant `now_ms`. One pass; an empty store gives
    /// the all-zero summary.
    pub fn summary_at(&self, now_ms: i64) -> (s: MetricsSummary)
        ensures
            summary_matches(self@, now_ms, s),
    {
        let ghost rs = self@;
        let n = self.records.len();
        if n == 0 {
            let s = MetricsSummary::default();
            proof {
                assert(rs =~= Seq::<RecordView>::empty());
            }
            return s;
        }
        let cutoff: i128 = (now_ms as i128) - 60000;
        let mut successful: u64 = 0;
        let mut failed: u64 = 0;
        let mut proxied: u64 = 0;
        let mut sum: u128 = 0;
        let mut min_lat: u64 = u64::MAX;
        let mut max_lat: u64 = 0;
        let mut recent: u64 = 0;
        let mut dist: HashMap<u16, u64> = HashMap::new();
        let mut i: usize = 0;
        proof {
            assert(rs.take(0) =~= Seq::<RecordView>::empty());
            assert(dist@ =~= dist_of(rs.take(0)));
        }
        while i < n
            invariant
                i <= n,
                n == self.records@.len(),
                rs == self@,
                rs == views_of(self.records@),
                rs.len() == n,
                cutoff == now_ms - 60000,
                successful == successful_of(rs.take(i as int)),
                failed == failed_of(rs.take(i as int)),
                proxied == proxied_of(rs.take(i as int)),
                successful <= i,
                failed <= i,
                proxied <= i,
                recent <= i,
                sum == sum_latency_of(rs.take(i as int)),
                min_lat == min_latency_of(rs.take(i as int)),
                max_lat == max_latency_of(rs.take(i as int)),
                recent == recent_of(rs.take(i as int), cutoff as int).len(),
                dist@ == dist_of(rs.take(i as int)),
                forall|k: u16| dist@.contains_key(k) ==> dist@[k] <= i,
            decreases n - i,
        {
            proof {
                lemma_aggregates_step(rs, i as int);
                lemma_recent_step(rs, i as int, cutoff as int);
                lemma_sum_latency_bound(rs.take(i as int));
                assert((i as nat) * (u64::MAX as nat) + (u64::MAX as nat) == (i as nat + 1) * (
                u64::MAX as nat)) by (nonlinear_arith);
                assert((i as nat + 1) * (u64::MAX as nat) <= (u64::MAX as nat) * (u64::MAX as nat))
                    by (nonlinear_arith)
                    requires
                        i as nat + 1 <= u64::MAX as nat,
                ;
                assert((u64::MAX as nat) * (u64::MAX as nat) < u128::MAX as nat)
                    by (nonlinear_arith);
            }
            let m = &self.records[i];
            let lat = m.latency_ms;
            sum = sum + (lat as u128);
            if lat < min_lat {
                min_lat = lat;
            }
            if lat > max_lat {
                max_lat = lat;
            }
            if m.proxied {
                proxied = proxied + 1;
            }
            match m.status_code {
                Some(st) => {
                    let prev = match dist.get(&st) {
                        Some(c) => *c,
                        None => 0,
                    };
                    dist.insert(st, prev + 1);
                    if 200 <= st && st < 300 {
                        successful = successful + 1;
                    } else if st >= 400 {
                        failed = failed + 1;
                    }
                },
                None => {},
            }
            if (m.timestamp_ms as i128) > cutoff {
                recent = recent + 1;
            }
            i += 1;
        }
        proof {
            assert(rs.take(n as int) =~= rs);
            lemma_sum_latency_bound(rs);
            vstd::arithmetic::div_mod::lemma_div_is_ordered(
                sum as int,
                rs.len() * (u64::MAX as int),
                rs.len() as int,
            );
            vstd::arithmetic::div_mod::lemma_div_multiples_vanish(
                u64::MAX as int,
                rs.len() as int,
            );
            assert(rs.len() * (u64::MAX as int) == (u64::MAX as int) * rs.len()) by (
            nonlinear_arith);
        }
        let avg = (sum / (n as u128)) as u64;
        MetricsSummary {
            total_requests: n as u64,
            successful_requests: successful,
            failed_requests: failed,
            avg_latency_ms: avg,
            min_latency_ms: min_lat,
            max_latency_ms: max_lat,
            proxied_requests: proxied,
            status_distribution: dist,
            requests_per_second: recent / 60,
        }
    }
}

/// The width of one histogram bucket: the observed latency range divided
/// evenly over the buckets (integer division).
pub open spec fn bucket_width_of(rs: Seq<RecordView>, buckets: usize) -> int {
    (max_latency_of(rs) - min_latency_of(rs)) / (buckets as int)
}

/// Whether the histogram collapses to a single bucket: no buckets were asked
/// for, or the latency range is too narrow to split (in particular when all
/// latencies are identical).
pub open spec fn hist_degenerate(rs: Seq<RecordView>, buckets: usize) -> bool {
    buckets == 0 || bucket_width_of(rs, buckets) == 0
}

/// Which bucket a latency falls in: its offset from the least latency divided
/// by the bucket width, clamped into the last bucket (so the greatest latency
/// lands in the last bucket by clamping, not by boundary arithmetic).
pub open spec fn bucket_index_of(lat: u64, min: u64, width: int, buckets: usize) -> int {
    let q = (lat - min) / width;
    if q > buckets as int - 1 {
        buckets as int - 1
    } else {
        q
    }
}

/// How many records fall in bucket `b`.
pub open spec fn bucket_count_of(
    rs: Seq<RecordView>,
    min: u64,
    width: int,
    buckets: usize,
    b: int,
) -> nat
    decreases rs.len(),
{
    if rs.len() == 0 {
        0
    } else {
        bucket_count_of(rs.drop_last(), min, width, buckets, b) + if bucket_index_of(
            rs.last().latency_ms,
            min,
            width,
            buckets,
        ) == b {
            1nat
        } else {
            0nat
        }
    }
}

/// Whether `out` is exactly the latency histogram of `rs` over `buckets`
/// equal-width buckets: empty for an empty record set; a single
/// (least latency, total count) pair in the degenerate cases; otherwise one
/// (bucket start, member count) pair per bucket.
pub open spec fn histogram_matches(rs: Seq<RecordView>, buckets: usize, out: Seq<(u64, u64)>) -> bool {
    if rs.len() == 0 {
        out == Seq::<(u64, u64)>::empty()
    } else if hist_degenerate(rs, buckets) {
        out == seq![(min_latency_of(rs), rs.len() as u64)]
    } else {
        let min = min_latency_of(rs);
        let width = bucket_width_of(rs, buckets);
        &&& out.len() == buckets
        &&& forall|b: int|
            0 <= b < buckets ==> out[b] == (
                ((min + b * width) as u64, bucket_count_of(rs, min, width, buckets, b) as u64)
            )
    }
}

/// Every latency lies between the least and greatest one, and both extremes
/// are attained.
pub proof fn lemma_latency_bounds(rs: Seq<RecordView>)
    requires
        rs.len() > 0,
    ensures
        min_latency_of(rs) <= max_latency_of(rs),
        forall|i: int|
            0 <= i < rs.len() ==> min_latency_of(rs) <= #[trigger] rs[i].latency_ms
                && rs[i].latency_ms <= max_latency_of(rs),
        exists|i: int| 0 <= i < rs.len() && rs[i].latency_ms == min_latency_of(rs),
        exists|i: int| 0 <= i < rs.len() && rs[i].latency_ms == max_latency_of(rs),
    decreases rs.len(),
{
    if rs.len() == 1 {
        assert(rs[0] == rs.last());
    } else {
        lemma_latency_bounds(rs.drop_last());
        assert(forall|i: int| 0 <= i < rs.len() - 1 ==> rs.drop_last()[i] == rs[i]);
        assert(rs.last() == rs[rs.len() - 1]);
        let prior = rs.drop_last();
        let j = choose|j: int| 0 <= j < prior.len() && prior[j].latency_ms == min_latency_of(prior);
        let k = choose|k: int| 0 <= k < prior.len() && prior[k].latency_ms == max_latency_of(prior);
        if rs.last().latency_ms < min_latency_of(prior) {
            assert(rs[rs.len() - 1].latency_ms == min_latency_of(rs));
        } else {
            assert(rs[j].latency_ms == min_latency_of(rs));
        }
        if rs.last().latency_ms > max_latency_of(prior) {
            assert(rs[rs.len() - 1].latency_ms == max_latency_of(rs));
        } else {
            assert(rs[k].latency_ms == max_latency_of(rs));
        }
    }
}

/// Unfolds the bucket counts by one step, for every bucket at once.
proof fn lemma_bucket_step(rs: Seq<RecordView>, i: int, min: u64, width: int, buckets: usize)
    requires
        0 <= i < rs.len(),
    ensures
        forall|b: int|
            #[trigger] bucket_count_of(rs.take(i + 1), min, width, buckets, b) == bucket_count_of(
                rs.take(i),
                min,
                width,
                buckets,
                b,
            ) + (if bucket_index_of(rs[i].latency_ms, min, width, buckets) == b {
                1nat
            } else {
                0nat
            }),
{
    assert(rs.take(i + 1).drop_last() =~= rs.take(i));
    assert(rs.take(i + 1).last() == rs[i]);
    assert forall|b: int|
        #[trigger] bucket_count_of(rs.take(i + 1), min, width, buckets, b) == bucket_count_of(
            rs.take(i),
            min,
            width,
            buckets,
            b,
        ) + (if bucket_index_of(rs[i].latency_ms, min, width, buckets) == b {
            1nat
        } else {
            0nat
        }) by {
        assert(rs.take(i + 1).len() == i + 1);
    }
}

/// The (timestamp, latency) pairs of a record sequence, in order.
pub open spec fn series_of(rs: Seq<RecordView>) -> Seq<(i64, u64)> {
    rs.map_values(|r: RecordView| (r.timestamp_ms, r.latency_ms))
}

/// Where the most-recent-`points` window of a record sequence starts.
pub open spec fn series_start(len: nat, points: usize) -> int {
    if len <= points {
        0
    } else {
        len - points
    }
}

impl MetricsStore {
    /// The least and greatest latency over all records.
    fn min_max_latency(&self) -> (r: (u64, u64))
        requires
            self@.len() > 0,
        ensures
            r.0 == min_latency_of(self@),
            r.1 == max_latency_of(self@),
    {
        let ghost rs = self@;
        let mut min_lat: u64 = u64::MAX;
        let mut max_lat: u64 = 0;
        let mut i: usize = 0;
        proof {
            assert(rs.take(0) =~= Seq::<RecordView>::empty());
        }
        while i < self.records.len()
            invariant
                i <= self.records@.len(),
                rs == self@,
                rs == views_of(self.records@),
                rs.len() == self.records@.len(),
                min_lat == min_latency_of(rs.take(i as int)),
                max_lat == max_latency_of(rs.take(i as int)),
            decreases self.records@.len() - i,
        {
            proof {
                lemma_aggregates_step(rs, i as int);
            }
            let lat = self.records[i].latency_ms;
            if lat < min_lat {
                min_lat = lat;
            }
            if lat > max_lat {
                max_lat = lat;
            }
            i += 1;
        }
        proof {
            assert(rs.take(rs.len() as int) =~= rs);
        }
        (min_lat, max_lat)
    }

    /// The latency histogram: the observed latency range split into `buckets`
    /// equal-width buckets, each with its member count. The degenerate cases
    /// (empty store, no buckets asked for, or a range too narrow to split —
    /// in particular all latencies identical) collapse to a single bucket
    /// holding the full count, and never divide by zero or index out of
    /// range.
    pub fn latency_histogram(&self, buckets: usize) -> (r: Vec<(u64, u64)>)
        ensures
            histogram_matches(self@, buckets, r@),
    {
        let ghost rs = self@;
        let n = self.records.len();
        if n == 0 {
            let r: Vec<(u64, u64)> = Vec::new();
            proof {
                assert(rs =~= Seq::<RecordView>::empty());
                assert(r@ =~= Seq::<(u64, u64)>::empty());
            }
            return r;
        }
        let (min_lat, max_lat) = self.min_max_latency();
        proof {
            lemma_latency_bounds(rs);
        }
        if buckets == 0 {
            let mut r: Vec<(u64, u64)> = Vec::new();
            r.push((min_lat, n as u64));
            proof {
                assert(r@ =~= seq![(min_latency_of(rs), rs.len() as u64)]);
            }
            return r;
        }
        let width = (max_lat - min_lat) / (buckets as u64);
        if width == 0 {
            let mut r: Vec<(u64, u64)> = Vec::new();
            r.push((min_lat, n as u64));
            proof {
                assert(r@ =~= seq![(min_latency_of(rs), rs.len() as u64)]);
            }
            return r;
        }
        let mut hist: Vec<u64> = Vec::new();
        let mut b: usize = 0;
        while b < buckets
            invariant
                b <= buckets,
                hist@.len() == b,
                forall|j: int| 0 <= j < b ==> hist@[j] == 0,
            decreases buckets - b,
        {
            hist.push(0);
            b += 1;
        }
        proof {
            assert(rs.take(0) =~= Seq::<RecordView>::empty());
        }
        let mut i: usize = 0;
        while i < n
            invariant
                i <= n,
                n == self.records@.len(),
                rs == self@,
                rs == views_of(self.records@),
                rs.len() == n,
                buckets >= 1,
                width >= 1,
                min_lat == min_latency_of(rs),
                width as int == bucket_width_of(rs, buckets),
                forall|i2: int|
                    0 <= i2 < rs.len() ==> min_lat <= #[trigger] rs[i2].latency_ms,
                hist@.len() == buckets,
                forall|j: int|
                    0 <= j < buckets ==> #[trigger] hist@[j] == bucket_count_of(
                        rs.take(i as int),
                        min_lat,
                        width as int,
                        buckets,
                        j,
                    ) && hist@[j] <= i,
            decreases n - i,
        {
            proof {
                lemma_bucket_step(rs, i as int, min_lat, width as int, buckets);
                assert(views_of(self.records@)[i as int] == self.records@[i as int]@);
                assert(rs[i as int].latency_ms >= min_lat);
            }
            let lat = self.records[i].latency_ms;
            let q = (lat - min_lat) / width;
            let idx = if q >= buckets as u64 {
                buckets - 1
            } else {
                q as usize
            };
            proof {
                assert(idx as int == bucket_index_of(lat, min_lat, width as int, buckets));
            }
            let cur = hist[idx];
            hist.set(idx, cur + 1);
            i += 1;
        }
        proof {
            assert(rs.take(n as int) =~= rs);
        }
        let mut out: Vec<(u64, u64)> = Vec::new();
        let mut b2: usize = 0;
        while b2 < buckets
            invariant
                b2 <= buckets,
                out@.len() == b2,
                n == self.records@.len(),
                rs == self@,
                rs.len() == n,
                n > 0,
                buckets >= 1,
                width >= 1,
                min_lat == min_latency_of(rs),
                max_lat == max_latency_of(rs),
                min_lat <= max_lat,
                width as int == bucket_width_of(rs, buckets),
                hist@.len() == buckets,
                forall|j: int|
                    0 <= j < buckets ==> #[trigger] hist@[j] == bucket_count_of(
                        rs,
                        min_lat,
                        width as int,
                        buckets,
                        j,
                    ) && hist@[j] <= n,
                forall|j: int|
                    0 <= j < b2 ==> #[trigger] out@[j] == (
                        ((min_lat + j * (width as int)) as u64, hist@[j])
                    ),
            decreases buckets - b2,
        {
            proof {
                vstd::arithmetic::mul::lemma_mul_inequality(
                    b2 as int,
                    buckets as int,
                    width as int,
                );
                vstd::arithmetic::div_mod::lemma_fundamental_div_mod(
                    max_lat - min_lat,
                    buckets as int,
                );
                vstd::arithmetic::div_mod::lemma_mod_division_less_than_divisor(
                    max_lat - min_lat,
                    buckets as int,
                );
                assert((buckets as int) * (width as int) <= max_lat - min_lat);
                assert((b2 as int) * (width as int) <= max_lat - min_lat);
            }
            let start = min_lat + (b2 as u64) * width;
            out.push((start, hist[b2]));
            b2 += 1;
        }
        out
    }

    /// The most recent `points` (timestamp, latency) pairs, oldest of the
    /// selected window first.
    pub fn time_series(&self, points: usize) -> (r: Vec<(i64, u64)>)
        ensures
            r@ == series_of(self@.skip(series_start(self@.len(), points))),
    {
        let ghost rs = self@;
        let n = self.records.len();
        let start = if points >= n {
            0
        } else {
            n - points
        };
        let mut r: Vec<(i64, u64)> = Vec::new();
        let mut i: usize = start;
        while i < n
            invariant
                start <= i <= n,
                n == self.records@.len(),
                rs == self@,
                rs == views_of(self.records@),
                rs.len() == n,
                r@.len() == i - start,
                forall|j: int|
                    0 <= j < i - start ==> #[trigger] r@[j] == (
                        (rs[start + j].timestamp_ms, rs[start + j].latency_ms)
                    ),
            decreases n - i,
        {
            let m = &self.records[i];
            r.push((m.timestamp_ms, m.latency_ms));
            i += 1;
        }
        proof {
            assert(r@ =~= series_of(rs.skip(series_start(rs.len(), points))));
        }
        r
    }
}

/// One insertion keeps the store within its bound and changes the count
/// exactly as the eviction policy says: below capacity the count grows by
/// one; at capacity, one batch of the oldest records — a tenth of the
/// capacity, at least one — leaves first, so for a capacity of at least ten
/// the occupancy right after eviction stays between nine tenths of the
/// capacity and the capacity itself.
pub proof fn lemma_record_occupancy(rs: Seq<RecordView>, max_entries: usize, m: RecordView)
    requires
        rs.len() <= bound_of(max_entries),
    ensures
        record_model(rs, max_entries, m).len() <= bound_of(max_entries),
        rs.len() < max_entries ==> record_model(rs, max_entries, m).len() == rs.len() + 1,
        rs.len() >= max_entries ==> record_model(rs, max_entries, m).len() == rs.len()
            - evict_count_of(max_entries, rs.len()) + 1,
        max_entries >= 10 && rs.len() == max_entries ==> {
            let occupancy = record_model(rs, max_entries, m).len();
            &&& 10 * occupancy >= 9 * max_entries
            &&& occupancy <= max_entries
        },
{
    if max_entries >= 10 && rs.len() == max_entries {
        vstd::arithmetic::div_mod::lemma_fundamental_div_mod(max_entries as int, 10);
        vstd::arithmetic::div_mod::lemma_mod_division_less_than_divisor(max_entries as int, 10);
        assert(10 * (max_entries as int / 10) <= max_entries);
        assert(max_entries as int / 10 >= 1);
    }
}

/// With no buckets asked for, a non-empty record set yields exactly one
/// bucket holding the full count.
pub proof fn lemma_histogram_bucketless(rs: Seq<RecordView>, out: Seq<(u64, u64)>)
    requires
        rs.len() > 0,
        histogram_matches(rs, 0, out),
    ensures
        out == seq![(min_latency_of(rs), rs.len() as u64)],
{
}

/// When every record shares one latency value, the histogram collapses to a
/// single bucket holding the full count, whatever bucket count was asked
/// for: no zero-width bucket is ever divided by.
pub proof fn lemma_histogram_uniform(rs: Seq<RecordView>, buckets: usize, out: Seq<(u64, u64)>)
    requires
        rs.len() > 0,
        forall|i: int| 0 <= i < rs.len() ==> #[trigger] rs[i].latency_ms == rs[0].latency_ms,
        histogram_matches(rs, buckets, out),
    ensures
        out == seq![(rs[0].latency_ms, rs.len() as u64)],
{
    lemma_latency_bounds(rs);
    let j = choose|j: int| 0 <= j < rs.len() && rs[j].latency_ms == min_latency_of(rs);
    let k = choose|k: int| 0 <= k < rs.len() && rs[k].latency_ms == max_latency_of(rs);
    assert(min_latency_of(rs) == rs[0].latency_ms);
    assert(max_latency_of(rs) == rs[0].latency_ms);
    if buckets != 0 {
        assert(bucket_width_of(rs, buckets) == 0int / (buckets as int));
        assert(0int / (buckets as int) == 0) by (nonlinear_arith)
            requires
                buckets >= 1,
        ;
    }
}

/// Lock predicate for the shared metrics store: the store is well-formed and
/// keeps the capacity the collector was created with.
struct StoreInv {
    max: usize,
}

impl RwLockPredicate<MetricsStore> for StoreInv {
    closed spec fn inv(self, v: MetricsStore) -> bool {
        v.wf() && v.capacity() == self.max
    }
}

/// A bounded, thread-safe metrics store. All operations may be invoked
/// concurrently from any number of tasks: each one works under a verified
/// reader-writer lock, so readers never observe a partially appended record
/// and the evict-then-append step of [`MetricsCollector::record`] is atomic
/// with respect to other operations.
pub struct MetricsCollector {
    store: RwLock<MetricsStore, StoreInv>,
}

impl MetricsCollector {
    /// The configured maximum number of records.
    pub closed spec fn capacity(&self) -> usize {
        self.store.pred().max
    }

    /// A new collector that keeps at most `max_entries` records.
    pub fn new(max_entries: usize) -> (r: Self)
        ensures
            r.capacity() == max_entries,
    {
        let store = MetricsStore::new(max_entries);
        MetricsCollector { store: RwLock::new(store, Ghost(StoreInv { max: max_entries })) }
    }

    /// Records one metric: evicts the oldest tenth if the store is at
    /// capacity, then appends, atomically with respect to all other
    /// operations on this collector. Always succeeds.
    pub fn record(&self, metric: RequestMetric) {
        let (mut store, handle) = self.store.acquire_write();
        store.record(metric);
        handle.release_write(store);
    }

    /// Current record count; never exceeds the store's bound.
    pub fn count(&self) -> (r: usize)
        ensures
            r <= bound_of(self.capacity()),
    {
        let handle = self.store.acquire_read();
        let r = handle.borrow().count();
        handle.release_read();
        r
    }

    /// Discards all records.
    pub fn clear(&self) {
        let (mut store, handle) = self.store.acquire_write();
        store.clear();
        handle.release_write(store);
    }

    /// A snapshot copy of all records, in insertion order, taken under one
    /// lock acquisition.
    pub fn get_all(&self) -> (r: Vec<RequestMetric>)
        ensures
            r@.len() <= bound_of(self.capacity()),
    {
        let handle = self.store.acquire_read();
        let r = handle.borrow().get_all();
        handle.release_read();
        r
    }

    /// The records of the trailing `seconds`-second window before now: one
    /// consistent snapshot, filtered by timestamp. A non-positive `seconds`
    /// naturally yields few or no records.
    pub fn get_recent(&self, seconds: i64) -> (r: Vec<RequestMetric>)
        ensures
            exists|rs: Seq<RecordView>, now: i64|
                rs.len() <= bound_of(self.capacity()) && views_of(r@) == recent_of(
                    rs,
                    cutoff_of(now, seconds),
                ),
            r@.len() <= bound_of(self.capacity()),
    {
        let handle = self.store.acquire_read();
        let now = now_millis();
        let r = handle.borrow().get_recent_at(now, seconds);
        proof {
            let rs = handle.view()@;
            lemma_recent_len(rs, cutoff_of(now, seconds));
            assert(rs.len() <= bound_of(self.capacity()) && views_of(r@) == recent_of(
                rs,
                cutoff_of(now, seconds),
            ));
        }
        handle.release_read();
        r
    }

    /// The aggregated summary, computed in one pass under a single consistent
    /// snapshot: no concurrent append can mix two record sets into one
    /// summary. On an empty store every figure is zero; successes and
    /// failures never outnumber the records.
    pub fn get_summary(&self) -> (s: MetricsSummary)
        ensures
            exists|rs: Seq<RecordView>, now: i64|
                rs.len() <= bound_of(self.capacity()) && summary_matches(rs, now, s),
            s.successful_requests + s.failed_requests <= s.total_requests,
            s.total_requests <= bound_of(self.capacity()),
            s.total_requests == 0 ==> s.min_latency_ms == 0 && s.max_latency_ms == 0
                && s.avg_latency_ms == 0 && s.requests_per_second == 0,
    {
        let handle = self.store.acquire_read();
        let now = now_millis();
        let s = handle.borrow().summary_at(now);
        proof {
            let rs = handle.view()@;
            lemma_success_failure_split(rs);
            if s.total_requests == 0 {
                assert(rs =~= Seq::<RecordView>::empty());
                lemma_summary_of_empty(s, now);
            }
            assert(rs.len() <= bound_of(self.capacity()) && summary_matches(rs, now, s));
        }
        handle.release_read();
        s
    }

    /// The latency histogram of one consistent snapshot. With no buckets
    /// asked for (or a store whose latencies cannot be split) the result is
    /// at most one bucket holding the full count — never a division by zero.
    pub fn get_latency_histogram(&self, buckets: usize) -> (r: Vec<(u64, u64)>)
        ensures
            exists|rs: Seq<RecordView>|
                rs.len() <= bound_of(self.capacity()) && histogram_matches(rs, buckets, r@),
            buckets == 0 ==> r@.len() <= 1,
    {
        let handle = self.store.acquire_read();
        let r = handle.borrow().latency_histogram(buckets);
        proof {
            let rs = handle.view()@;
            assert(rs.len() <= bound_of(self.capacity()) && histogram_matches(rs, buckets, r@));
            if buckets == 0 && rs.len() > 0 {
                lemma_histogram_bucketless(rs, r@);
            }
        }
        handle.release_read();
        r
    }

    /// The most recent `points` (timestamp, latency) pairs of one consistent
    /// snapshot, oldest of the selected window first.
    pub fn get_time_series(&self, points: usize) -> (r: Vec<(i64, u64)>)
        ensures
            exists|rs: Seq<RecordView>|
                rs.len() <= bound_of(self.capacity()) && r@ == series_of(
                    rs.skip(series_start(rs.len(), points)),
                ),
            r@.len() <= points,
            r@.len() <= bound_of(self.capacity()),
    {
        let handle = self.store.acquire_read();
        let r = handle.borrow().time_series(points);
        proof {
            let rs = handle.view()@;
            assert(rs.len() <= bound_of(self.capacity()) && r@ == series_of(
                rs.skip(series_start(rs.len(), points)),
            ));
        }
        handle.release_read();
        r
    }
}

/// A metrics collector shared across tasks.
pub type SharedMetrics = std::sync::Arc<MetricsCollector>;

/// A new shared collector that keeps at most `max_entries` records.
pub fn create_shared_metrics(max_entries: usize) -> (r: SharedMetrics)
    ensures
        (*r).capacity() == max_entries,
{
    std::sync::Arc::new(MetricsCollector::new(max_entries))
}

} // verus!
