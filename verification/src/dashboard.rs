//! The dashboard's data side: bounded history rings for the charts, the
//! success-rate gauge, and a sorted view of the status-code distribution.
//! The terminal rendering that displays these is the embedding layer's; it
//! only reads what is computed here.

use vstd::multiset::Multiset;
use vstd::prelude::*;

verus! {

broadcast use {vstd::seq_lib::group_to_multiset_ensures, vstd::multiset::group_multiset_axioms};

/// How many samples each history ring keeps.
pub open spec fn history_cap() -> nat {
    100
}

/// A ring update: append one sample, and drop the oldest one once the ring
/// is over its cap.
pub open spec fn capped_push(s: Seq<u64>, x: u64) -> Seq<u64> {
    let t = s.push(x);
    if t.len() > history_cap() {
        t.subrange(1, t.len() as int)
    } else {
        t
    }
}

/// The chart histories the dashboard redraws on every tick: recent average
/// latencies, recent request arrivals, and the record count last seen.
pub struct DashboardHistory {
    latency_history: Vec<u64>,
    request_history: Vec<u64>,
    last_request_count: usize,
}

impl DashboardHistory {
    /// The latency samples, oldest first.
    pub closed spec fn latencies(&self) -> Seq<u64> {
        self.latency_history@
    }

    /// The arrival samples, oldest first.
    pub closed spec fn arrivals(&self) -> Seq<u64> {
        self.request_history@
    }

    /// The record count as of the previous tick.
    pub closed spec fn last_count(&self) -> usize {
        self.last_request_count
    }

    /// Both rings stay within their cap.
    pub open spec fn wf(&self) -> bool {
        self.latencies().len() <= history_cap() && self.arrivals().len() <= history_cap()
    }

    /// Empty histories.
    pub fn new() -> (r: Self)
        ensures
            r.wf(),
            r.latencies() == Seq::<u64>::empty(),
            r.arrivals() == Seq::<u64>::empty(),
            r.last_count() == 0,
    {
        let r = DashboardHistory {
            latency_history: Vec::new(),
            request_history: Vec::new(),
            last_request_count: 0,
        };
        proof {
            assert(r.latencies() =~= Seq::<u64>::empty());
            assert(r.arrivals() =~= Seq::<u64>::empty());
        }
        r
    }

    /// The latency ring, oldest first, for the latency chart.
    pub fn latency_samples(&self) -> (r: &Vec<u64>)
        ensures
            r@ == self.latencies(),
    {
        &self.latency_history
    }

    /// The arrival ring, oldest first, for the request-rate chart.
    pub fn arrival_samples(&self) -> (r: &Vec<u64>)
        ensures
            r@ == self.arrivals(),
    {
        &self.request_history
    }

    /// One dashboard tick: when any request has been seen, the average
    /// latency joins the latency ring; the number of records that arrived
    /// since the last tick (never negative, whatever a concurrent `clear`
    /// did to the count) joins the arrival ring; and the count is
    /// remembered for the next tick.
    pub fn update(&mut self, total_requests: u64, avg_latency_ms: u64, current_count: usize)
        requires
            old(self).wf(),
        ensures
            final(self).wf(),
            final(self).latencies() == if total_requests > 0 {
                capped_push(old(self).latencies(), avg_latency_ms)
            } else {
                old(self).latencies()
            },
            final(self).arrivals() == capped_push(
                old(self).arrivals(),
                (if current_count >= old(self).last_count() {
                    (current_count - old(self).last_count()) as u64
                } else {
                    0u64
                }),
            ),
            final(self).last_count() == current_count,
    {
        if total_requests > 0 {
            let ghost before = self.latency_history@;
            self.latency_history.push(avg_latency_ms);
            if self.latency_history.len() > 100 {
                self.latency_history.remove(0);
                proof {
                    assert(self.latency_history@ =~= capped_push(before, avg_latency_ms));
                }
            }
        }
        let arrived = if current_count >= self.last_request_count {
            (current_count - self.last_request_count) as u64
        } else {
            0
        };
        let ghost before = self.request_history@;
        self.request_history.push(arrived);
        if self.request_history.len() > 100 {
            self.request_history.remove(0);
            proof {
                assert(self.request_history@ =~= capped_push(before, arrived));
            }
        }
        self.last_request_count = current_count;
    }
}

/// The share of successful requests, in whole percent (0 for no requests;
/// never above 100).
pub fn success_rate_percent(successful: u64, total: u64) -> (r: u16)
    requires
        successful <= total,
    ensures
        r == if total == 0 {
            0int
        } else {
            successful as int * 100 / total as int
        },
        r <= 100,
{
    if total == 0 {
        return 0;
    }
    let pct = ((successful as u128) * 100) / (total as u128);
    proof {
        vstd::arithmetic::mul::lemma_mul_inequality(successful as int, total as int, 100);
        vstd::arithmetic::div_mod::lemma_div_is_ordered(
            successful as int * 100,
            total as int * 100,
            total as int,
        );
        vstd::arithmetic::div_mod::lemma_div_multiples_vanish(100, total as int);
        assert(total as int * 100 == (total as int) * 100) by (nonlinear_arith);
    }
    pct as u16
}

/// Orders a status-code distribution by status code, ascending: the result
/// holds exactly the given entries (as a multiset) and is sorted on the
/// code. The distribution arrives as a plain entry list since a hash map
/// hands its entries out in no fixed order.
pub fn sort_status_counts(entries: Vec<(u16, u64)>) -> (r: Vec<(u16, u64)>)
    ensures
        r@.len() == entries@.len(),
        forall|i: int, j: int| 0 <= i < j < r@.len() ==> #[trigger] r@[i].0 <= #[trigger] r@[j].0,
        r@.to_multiset() == entries@.to_multiset(),
{
    let ghost original = entries@;
    let mut src = entries;
    let mut out: Vec<(u16, u64)> = Vec::new();
    proof {
        assert(out@.to_multiset() =~= Multiset::<(u16, u64)>::empty());
        assert(out@.to_multiset().add(src@.to_multiset()) =~= original.to_multiset());
    }
    while src.len() > 0
        invariant
            out@.len() + src@.len() == original.len(),
            out@.to_multiset().add(src@.to_multiset()) == original.to_multiset(),
            forall|i: int, j: int|
                0 <= i < j < out@.len() ==> #[trigger] out@[i].0 <= #[trigger] out@[j].0,
            forall|i: int, j: int|
                0 <= i < out@.len() && 0 <= j < src@.len() ==> #[trigger] out@[i].0
                    <= #[trigger] src@[j].0,
        decreases src@.len(),
    {
        let mut min_idx: usize = 0;
        let mut k: usize = 1;
        while k < src.len()
            invariant
                min_idx < k <= src@.len(),
                src@.len() > 0,
                forall|j: int| 0 <= j < k ==> src@[min_idx as int].0 <= #[trigger] src@[j].0,
            decreases src@.len() - k,
        {
            if src[k].0 < src[min_idx].0 {
                min_idx = k;
            }
            k += 1;
        }
        let ghost src_before = src@;
        let ghost out_before = out@;
        let x = src.remove(min_idx);
        out.push(x);
        proof {
            assert(src_before.to_multiset().count(x) > 0) by {
                assert(src_before.contains(x));
            }
            assert(out@.to_multiset().add(src@.to_multiset()) =~= out_before.to_multiset().add(
                src_before.to_multiset(),
            ));
            assert(forall|j: int|
                0 <= j < src@.len() ==> #[trigger] src@[j].0 >= x.0) by {
                assert(forall|j: int|
                    0 <= j < src@.len() ==> src@[j] == src_before[if j < min_idx {
                        j
                    } else {
                        j + 1
                    }]);
            }
        }
    }
    proof {
        assert(src@.to_multiset() =~= Multiset::<(u16, u64)>::empty());
        assert(out@.to_multiset().add(Multiset::<(u16, u64)>::empty()) =~= out@.to_multiset());
        assert(out@.to_multiset().len() == out@.len());
        assert(original.to_multiset().len() == original.len());
    }
    out
}

} // verus!
