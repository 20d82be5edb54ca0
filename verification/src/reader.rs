//! Reader worker: cancellable measurement bookkeeping and the reduction to
//! a per-query throughput report.

use vstd::prelude::*;
use crate::WorkerBehaviour;
use crate::error::{HttpFailure, WorkerError};
use crate::query_gen::QueryGenerator;

verus! {

/// What one measured request produced.
pub enum MeasureEvent {
    /// The server answered and the whole body was read; the measured wall
    /// time covers sending the request and draining the body.
    Completed { status: u16, nanos: u64 },
    /// The server answered but reading the body failed; the rendered cause.
    BodyFailed { status: u16, detail: String },
    /// The request could not be sent or answered; the rendered cause.
    SendFailed { detail: String },
}

/// The reader's reaction to one measured request.
pub enum MeasureStep {
    /// A valid sample of this many nanoseconds.
    Sample(u64),
    /// The sample is dropped and the loop goes on.
    Drop,
    /// Terminal failure.
    Fail(HttpFailure),
}

/// How a measurement outcome is classified: only a fully read success body
/// counts as a sample, a non-2xx status is a protocol error whatever the
/// behaviour, and transport loss drops the sample exactly under
/// `IgnoreConnectionError`.
pub open spec fn measure_step_spec(behav: WorkerBehaviour, ev: MeasureEvent) -> MeasureStep {
    match ev {
        MeasureEvent::Completed { status, nanos } => if crate::update::is_success(status) {
            MeasureStep::Sample(nanos)
        } else {
            MeasureStep::Fail(HttpFailure::Status(status))
        },
        MeasureEvent::BodyFailed { status, detail } => if !crate::update::is_success(status) {
            MeasureStep::Fail(HttpFailure::Status(status))
        } else if behav == WorkerBehaviour::IgnoreConnectionError {
            MeasureStep::Drop
        } else {
            MeasureStep::Fail(HttpFailure::Transport(detail))
        },
        MeasureEvent::SendFailed { detail } => if behav
            == WorkerBehaviour::IgnoreConnectionError {
            MeasureStep::Drop
        } else {
            MeasureStep::Fail(HttpFailure::Transport(detail))
        },
    }
}

/// Classifies one measured request.
pub fn classify_measure(behav: WorkerBehaviour, ev: MeasureEvent) -> (r: MeasureStep)
    ensures
        r == measure_step_spec(behav, ev),
{
    match ev {
        MeasureEvent::Completed { status, nanos } => {
            if 200 <= status && status < 300 {
                MeasureStep::Sample(nanos)
            } else {
                MeasureStep::Fail(HttpFailure::Status(status))
            }
        },
        MeasureEvent::BodyFailed { status, detail } => {
            if !(200 <= status && status < 300) {
                MeasureStep::Fail(HttpFailure::Status(status))
            } else if behav == WorkerBehaviour::IgnoreConnectionError {
                MeasureStep::Drop
            } else {
                MeasureStep::Fail(HttpFailure::Transport(detail))
            }
        },
        MeasureEvent::SendFailed { detail } => {
            if behav == WorkerBehaviour::IgnoreConnectionError {
                MeasureStep::Drop
            } else {
                MeasureStep::Fail(HttpFailure::Transport(detail))
            }
        },
    }
}

/// The sum of a list of durations.
pub open spec fn sum_nanos(s: Seq<u64>) -> int
    decreases s.len(),
{
    if s.len() == 0 {
        0
    } else {
        s[0] + sum_nanos(s.drop_first())
    }
}

/// A bucket's reduction. The reported throughput of the bucket is
/// `samples` divided by the total duration in seconds: queries per second
/// with the durations averaged before inverting.
pub struct QpsEstimate {
    /// How many samples the bucket holds.
    pub samples: u64,
    /// The summed duration of all its samples, in nanoseconds.
    pub total_nanos: u128,
}

/// The sum stays within the count times the largest sample.
proof fn lemma_sum_nanos_bound(s: Seq<u64>)
    ensures
        0 <= sum_nanos(s) <= s.len() * (u64::MAX as int),
    decreases s.len(),
{
    if s.len() == 0 {
    } else {
        lemma_sum_nanos_bound(s.drop_first());
        assert(s.drop_first().len() == s.len() - 1);
        assert((s.len() - 1) * (u64::MAX as int) + (u64::MAX as int) == s.len() * (
        u64::MAX as int)) by (nonlinear_arith);
    }
}

/// `sum_nanos` over a prefix grows by the next element.
proof fn lemma_sum_nanos_take(s: Seq<u64>, k: int)
    requires
        0 <= k < s.len(),
    ensures
        sum_nanos(s.take(k + 1)) == sum_nanos(s.take(k)) + s[k],
    decreases k,
{
    if k == 0 {
        assert(s.take(1) =~= seq![s[0]]);
        assert(s.take(1).drop_first() =~= Seq::<u64>::empty());
        assert(s.take(0) =~= Seq::<u64>::empty());
    } else {
        assert(s.take(k + 1)[0] == s[0]);
        assert(s.take(k)[0] == s[0]);
        assert(s.take(k + 1).drop_first() =~= s.drop_first().take(k));
        assert(s.take(k).drop_first() =~= s.drop_first().take(k - 1));
        lemma_sum_nanos_take(s.drop_first(), k - 1);
        assert(s.drop_first()[k - 1] == s[k]);
    }
}

/// Sums a bucket's samples. A u128 cannot overflow here: there are at most
/// `usize::MAX` samples of at most `u64::MAX` nanoseconds each.
fn sum_bucket(ds: &Vec<u64>) -> (r: u128)
    ensures
        r as int == sum_nanos(ds@),
{
    let mut acc: u128 = 0;
    let mut k: usize = 0;
    proof {
        assert(ds@.take(0) =~= Seq::<u64>::empty());
    }
    while k < ds.len()
        invariant
            k <= ds@.len(),
            acc as int == sum_nanos(ds@.take(k as int)),
        decreases ds.len() - k,
    {
        proof {
            lemma_sum_nanos_take(ds@, k as int);
            lemma_sum_nanos_bound(ds@.take(k as int));
            assert(ds@.take(k as int).len() * (u64::MAX as int) + (u64::MAX as int) <= (
            u64::MAX as int) * (u64::MAX as int) + (u64::MAX as int)) by (nonlinear_arith)
                requires
                    ds@.take(k as int).len() <= (u64::MAX as int) - 1,
            ;
            assert((u64::MAX as int) * (u64::MAX as int) + (u64::MAX as int) <= u128::MAX as int)
                by (nonlinear_arith);
        }
        acc = acc + (ds[k] as u128);
        k = k + 1;
    }
    proof {
        assert(ds@.take(ds@.len() as int) =~= ds@);
    }
    acc
}

/// Issues queries from its generator, records one latency sample per fully
/// answered identified query, and reduces the buckets to one throughput
/// estimate per stable query index when it stops.
pub struct RandomReadWorker<G: QueryGenerator> {
    endpoint: String,
    query_gen: G,
    behav: WorkerBehaviour,
    buckets: Vec<(usize, Vec<u64>)>,
}

/// The recorded buckets, as pairs of stable index and samples in arrival
/// order.
pub open spec fn buckets_view(bs: Seq<(usize, Vec<u64>)>) -> Seq<(usize, Seq<u64>)> {
    bs.map_values(|p: (usize, Vec<u64>)| (p.0, p.1@))
}

/// The index of the first bucket with this key, or the length if none.
pub open spec fn bucket_index(bs: Seq<(usize, Seq<u64>)>, id: usize) -> int
    decreases bs.len(),
{
    if bs.len() == 0 {
        0
    } else if bs[0].0 == id {
        0
    } else {
        1 + bucket_index(bs.drop_first(), id)
    }
}

/// Where a new bucket with this key belongs: before the first larger key.
pub open spec fn bucket_insert_pos(bs: Seq<(usize, Seq<u64>)>, id: usize) -> int
    decreases bs.len(),
{
    if bs.len() == 0 {
        0
    } else if bs[0].0 >= id {
        0
    } else {
        1 + bucket_insert_pos(bs.drop_first(), id)
    }
}

/// The buckets after recording one sample: appended to its key's bucket,
/// or opening a new bucket in key order.
pub open spec fn record_spec(bs: Seq<(usize, Seq<u64>)>, id: usize, nanos: u64) -> Seq<
    (usize, Seq<u64>),
> {
    let j = bucket_index(bs, id);
    if j < bs.len() {
        bs.update(j, (id, bs[j].1.push(nanos)))
    } else {
        bs.insert(bucket_insert_pos(bs, id), (id, seq![nanos]))
    }
}

impl<G: QueryGenerator> RandomReadWorker<G> {
    /// The endpoint queried.
    pub closed spec fn endpoint_spec(&self) -> Seq<char> {
        self.endpoint@
    }

    /// How transport failures are treated.
    pub closed spec fn behaviour(&self) -> WorkerBehaviour {
        self.behav
    }

    /// The query generator.
    pub closed spec fn generator(&self) -> G {
        self.query_gen
    }

    /// The recorded buckets.
    pub closed spec fn buckets_spec(&self) -> Seq<(usize, Seq<u64>)> {
        buckets_view(self.buckets@)
    }

    /// Buckets are sorted by strictly increasing stable index, and the
    /// generator is in a usable state.
    pub open spec fn wf(&self) -> bool {
        &&& self.generator().wf()
        &&& forall|i: int, j: int|
            0 <= i < j < self.buckets_spec().len() ==> (#[trigger] self.buckets_spec()[i]).0 < (
            #[trigger] self.buckets_spec()[j]).0
    }

    /// Builds a reader around a generator and an endpoint, with no samples
    /// recorded yet.
    pub fn new(query_gen: G, endpoint: String, behav: WorkerBehaviour) -> (r: RandomReadWorker<G>)
        requires
            query_gen.wf(),
        ensures
            r.wf(),
            r.endpoint_spec() == endpoint@,
            r.behaviour() == behav,
            r.generator() == query_gen,
            r.buckets_spec() == Seq::<(usize, Seq<u64>)>::empty(),
    {
        let r = RandomReadWorker { endpoint, query_gen, behav, buckets: Vec::new() };
        proof {
            assert(r.buckets_spec() =~= Seq::<(usize, Seq<u64>)>::empty());
        }
        r
    }

    /// Draws the next query from the generator.
    pub fn next_query(&mut self) -> (r: (Option<usize>, String))
        requires
            old(self).wf(),
        ensures
            final(self).wf(),
            old(self).generator().next_ens(final(self).generator(), r),
            final(self).buckets_spec() == old(self).buckets_spec(),
            final(self).behaviour() == old(self).behaviour(),
            final(self).endpoint_spec() == old(self).endpoint_spec(),
    {
        let r = self.query_gen.next_query();
        proof {
            assert(self.buckets_spec() == old(self).buckets_spec());
        }
        r
    }

    /// Feeds one measured request back: a valid sample of an identified
    /// query is recorded under its stable index, an unidentified or dropped
    /// sample changes nothing, and a terminal outcome reports `ReadFailed`
    /// with the query that caused it.
    pub fn on_measure_event(&mut self, qid: Option<usize>, query: String, ev: MeasureEvent) -> (r:
        Result<(), WorkerError>)
        requires
            old(self).wf(),
        ensures
            final(self).wf(),
            final(self).generator() == old(self).generator(),
            final(self).behaviour() == old(self).behaviour(),
            final(self).endpoint_spec() == old(self).endpoint_spec(),
            measure_step_spec(old(self).behaviour(), ev) matches MeasureStep::Sample(nanos)
                ==> (qid matches Some(id) ==> {
                &&& final(self).buckets_spec() == record_spec(old(self).buckets_spec(), id, nanos)
                &&& r is Ok
            }),
            measure_step_spec(old(self).behaviour(), ev) is Sample && qid is None ==> {
                &&& final(self).buckets_spec() == old(self).buckets_spec()
                &&& r is Ok
            },
            measure_step_spec(old(self).behaviour(), ev) is Drop ==> {
                &&& final(self).buckets_spec() == old(self).buckets_spec()
                &&& r is Ok
            },
            measure_step_spec(old(self).behaviour(), ev) matches MeasureStep::Fail(f) ==> {
                &&& final(self).buckets_spec() == old(self).buckets_spec()
                &&& (r matches Err(e) && e matches WorkerError::ReadFailed {
                    query: q,
                    err,
                } && q == query && err == f)
            },
    {
        let step = classify_measure(self.behav, ev);
        match step {
            MeasureStep::Sample(nanos) => {
                proof {
                    assert(measure_step_spec(old(self).behaviour(), ev) == MeasureStep::Sample(
                        nanos,
                    ));
                }
                match qid {
                    Some(id) => {
                        self.record(id, nanos);
                        proof {
                            assert(self.buckets_spec() == record_spec(
                                old(self).buckets_spec(),
                                id,
                                nanos,
                            ));
                        }
                        Ok(())
                    },
                    None => Ok(()),
                }
            },
            MeasureStep::Drop => Ok(()),
            MeasureStep::Fail(f) => Err(WorkerError::ReadFailed { query, err: f }),
        }
    }

    /// Records one sample under its stable index.
    fn record(&mut self, id: usize, nanos: u64)
        requires
            old(self).wf(),
        ensures
            final(self).wf(),
            final(self).generator() == old(self).generator(),
            final(self).behaviour() == old(self).behaviour(),
            final(self).endpoint_spec() == old(self).endpoint_spec(),
            final(self).buckets_spec() == record_spec(old(self).buckets_spec(), id, nanos),
    {
        let ghost bs = self.buckets_spec();
        let n = self.buckets.len();
        let mut j: usize = 0;
        while j < n && self.buckets[j].0 < id
            invariant
                j <= n,
                n == self.buckets@.len(),
                bs == self.buckets_spec(),
                bs.len() == self.buckets@.len(),
                forall|k: int| 0 <= k < j ==> (#[trigger] bs[k]).0 < id,
            decreases n - j,
        {
            proof {
                assert(bs[j as int].0 == self.buckets@[j as int].0);
            }
            j = j + 1;
        }
        proof {
            if j < n {
                assert(bs[j as int].0 == self.buckets@[j as int].0);
            }
            lemma_bucket_scan(bs, id, j as int);
        }
        if j < n && self.buckets[j].0 == id {
            let mut pair = self.buckets.remove(j);
            pair.1.push(nanos);
            self.buckets.insert(j, pair);
            proof {
                assert(final(self).buckets_spec() =~= bs.update(
                    j as int,
                    (id, bs[j as int].1.push(nanos)),
                ));
            }
        } else {
            let mut samples: Vec<u64> = Vec::new();
            samples.push(nanos);
            self.buckets.insert(j, (id, samples));
            proof {
                assert(samples@ =~= seq![nanos]);
                assert(final(self).buckets_spec() =~= bs.insert(j as int, (id, seq![nanos])));
            }
        }
        proof {
            lemma_record_sorted(bs, id, nanos);
        }
    }

    /// Cancellation ends the measurement loop quietly: a reader stopped by
    /// cancellation alone reports its reduced buckets as a success, never
    /// an error.
    pub fn on_cancel(self) -> (r: Result<Vec<(usize, QpsEstimate)>, WorkerError>)
        requires
            self.wf(),
        ensures
            r matches Ok(report) && ({
                &&& report@.len() == self.buckets_spec().len()
                &&& forall|k: int|
                    0 <= k < report@.len() ==> {
                        &&& (#[trigger] report@[k]).0 == self.buckets_spec()[k].0
                        &&& report@[k].1.samples as int == self.buckets_spec()[k].1.len()
                        &&& report@[k].1.total_nanos as int == sum_nanos(self.buckets_spec()[k].1)
                    }
            }),
    {
        Ok(self.finish())
    }

    /// Reduces the buckets: one estimate per stable index, in increasing
    /// index order, holding exactly the bucket's sample count and summed
    /// duration. Cancellation cannot fail this step: every recorded sample
    /// stays valid and the report is total.
    pub fn finish(self) -> (r: Vec<(usize, QpsEstimate)>)
        requires
            self.wf(),
        ensures
            r@.len() == self.buckets_spec().len(),
            forall|k: int|
                0 <= k < r@.len() ==> {
                    &&& (#[trigger] r@[k]).0 == self.buckets_spec()[k].0
                    &&& r@[k].1.samples as int == self.buckets_spec()[k].1.len()
                    &&& r@[k].1.total_nanos as int == sum_nanos(self.buckets_spec()[k].1)
                },
    {
        let ghost bs = self.buckets_spec();
        let mut r: Vec<(usize, QpsEstimate)> = Vec::new();
        let mut k: usize = 0;
        let buckets = self.buckets;
        while k < buckets.len()
            invariant
                k <= buckets@.len(),
                bs == buckets_view(buckets@),
                bs.len() == buckets@.len(),
                r@.len() == k,
                forall|i: int|
                    0 <= i < k ==> {
                        &&& (#[trigger] r@[i]).0 == bs[i].0
                        &&& r@[i].1.samples as int == bs[i].1.len()
                        &&& r@[i].1.total_nanos as int == sum_nanos(bs[i].1)
                    },
            decreases buckets.len() - k,
        {
            let id = buckets[k].0;
            let count = buckets[k].1.len() as u64;
            let total = sum_bucket(&buckets[k].1);
            r.push((id, QpsEstimate { samples: count, total_nanos: total }));
            proof {
                assert(bs[k as int].0 == buckets@[k as int].0);
                assert(bs[k as int].1 == buckets@[k as int].1@);
            }
            k = k + 1;
        }
        r
    }
}

/// After scanning past all smaller keys, the scan position is both the
/// key's bucket index (when the key is present) and its insertion point.
proof fn lemma_bucket_scan(bs: Seq<(usize, Seq<u64>)>, id: usize, j: int)
    requires
        0 <= j <= bs.len(),
        forall|k: int| 0 <= k < j ==> (#[trigger] bs[k]).0 < id,
        j < bs.len() ==> bs[j].0 >= id,
        forall|i: int, k: int|
            0 <= i < k < bs.len() ==> (#[trigger] bs[i]).0 < (#[trigger] bs[k]).0,
    ensures
        bucket_insert_pos(bs, id) == j,
        j < bs.len() && bs[j].0 == id ==> bucket_index(bs, id) == j,
        (j == bs.len() || bs[j].0 != id) ==> bucket_index(bs, id) == bs.len(),
    decreases j,
{
    if j == 0 {
        if bs.len() > 0 && bs[0].0 != id && bs[0].0 >= id {
            lemma_bucket_index_absent(bs, id);
        }
    } else {
        assert(bs[0].0 < id);
        let d = bs.drop_first();
        assert(forall|k: int| 0 <= k < j - 1 ==> (#[trigger] d[k]).0 == bs[k + 1].0 && d[k].0 < id);
        assert(forall|i: int, k: int|
            0 <= i < k < d.len() ==> (#[trigger] d[i]).0 < (#[trigger] d[k]).0) by {
            assert(forall|i: int, k: int|
                0 <= i < k < d.len() ==> d[i] == bs[i + 1] && d[k] == bs[k + 1]);
        }
        if j - 1 < d.len() {
            assert(d[j - 1] == bs[j]);
        }
        lemma_bucket_scan(d, id, j - 1);
    }
}

/// In a run of keys all different from the key, the key has no bucket.
proof fn lemma_bucket_index_absent(bs: Seq<(usize, Seq<u64>)>, id: usize)
    requires
        forall|i: int, k: int|
            0 <= i < k < bs.len() ==> (#[trigger] bs[i]).0 < (#[trigger] bs[k]).0,
        bs.len() > 0 ==> bs[0].0 > id,
    ensures
        bucket_index(bs, id) == bs.len(),
    decreases bs.len(),
{
    if bs.len() > 0 {
        assert(bs[0].0 != id);
        let d = bs.drop_first();
        assert(forall|i: int, k: int|
            0 <= i < k < d.len() ==> (#[trigger] d[i]).0 < (#[trigger] d[k]).0) by {
            assert(forall|i: int, k: int|
                0 <= i < k < d.len() ==> d[i] == bs[i + 1] && d[k] == bs[k + 1]);
        }
        if d.len() > 0 {
            assert(d[0] == bs[1]);
            assert(bs[0].0 < bs[1].0);
        }
        lemma_bucket_index_absent(d, id);
    }
}

/// Recording keeps the buckets sorted by strictly increasing key.
proof fn lemma_record_sorted(bs: Seq<(usize, Seq<u64>)>, id: usize, nanos: u64)
    requires
        forall|i: int, k: int|
            0 <= i < k < bs.len() ==> (#[trigger] bs[i]).0 < (#[trigger] bs[k]).0,
    ensures
        ({
            let r = record_spec(bs, id, nanos);
            forall|i: int, k: int|
                0 <= i < k < r.len() ==> (#[trigger] r[i]).0 < (#[trigger] r[k]).0
        }),
{
    let j = bucket_index(bs, id);
    lemma_bucket_index_key(bs, id);
    if j < bs.len() {
        let r = bs.update(j, (id, bs[j].1.push(nanos)));
        assert forall|i: int, k: int| 0 <= i < k < r.len() implies (#[trigger] r[i]).0 < (
        #[trigger] r[k]).0 by {
            assert(r[i].0 == bs[i].0);
            assert(r[k].0 == bs[k].0);
        }
    } else {
        let p = bucket_insert_pos(bs, id);
        lemma_bucket_insert_pos_bounds(bs, id);
        let r = bs.insert(p, (id, seq![nanos]));
        bs.insert_ensures(p, (id, seq![nanos]));
        assert forall|i: int, k: int| 0 <= i < k < r.len() implies (#[trigger] r[i]).0 < (
        #[trigger] r[k]).0 by {
            if i < p && k == p {
                assert(r[i].0 == bs[i].0);
                assert(bs[i].0 < id);
            } else if i == p && k > p {
                assert(r[k].0 == bs[k - 1].0);
                assert(bs[k - 1].0 > id);
            } else if k < p || (i < p && k > p) {
                assert(r[i].0 == bs[i].0 || (i == p));
                if i < p && k > p {
                    assert(r[i].0 == bs[i].0);
                    assert(r[k].0 == bs[k - 1].0);
                    assert(bs[i].0 < bs[k - 1].0 || i == k - 1);
                    assert(bs[i].0 < id && id < bs[k - 1].0);
                } else {
                    assert(r[i].0 == bs[i].0);
                    assert(r[k].0 == bs[k].0);
                }
            } else {
                assert(i > p && k > p);
                assert(r[i].0 == bs[i - 1].0);
                assert(r[k].0 == bs[k - 1].0);
            }
        }
    }
}

/// When the key has a bucket, that bucket carries the key; when it has
/// none, every position before the insertion point has a smaller key and
/// every one from it on a larger key.
proof fn lemma_bucket_index_key(bs: Seq<(usize, Seq<u64>)>, id: usize)
    ensures
        bucket_index(bs, id) < bs.len() ==> bs[bucket_index(bs, id)].0 == id,
        0 <= bucket_index(bs, id) <= bs.len(),
    decreases bs.len(),
{
    if bs.len() > 0 && bs[0].0 != id {
        lemma_bucket_index_key(bs.drop_first(), id);
        if bucket_index(bs, id) < bs.len() {
            assert(bs.drop_first()[bucket_index(bs.drop_first(), id)] == bs[bucket_index(bs, id)]);
        }
    }
}

/// The insertion point splits the keys: smaller before it, larger after.
proof fn lemma_bucket_insert_pos_bounds(bs: Seq<(usize, Seq<u64>)>, id: usize)
    requires
        forall|i: int, k: int|
            0 <= i < k < bs.len() ==> (#[trigger] bs[i]).0 < (#[trigger] bs[k]).0,
        bucket_index(bs, id) == bs.len(),
    ensures
        0 <= bucket_insert_pos(bs, id) <= bs.len(),
        forall|i: int| 0 <= i < bucket_insert_pos(bs, id) ==> (#[trigger] bs[i]).0 < id,
        forall|i: int|
            bucket_insert_pos(bs, id) <= i < bs.len() ==> (#[trigger] bs[i]).0 > id,
    decreases bs.len(),
{
    if bs.len() > 0 {
        assert(bs[0].0 != id) by {
            lemma_bucket_index_key(bs, id);
            if bs[0].0 == id {
                assert(bucket_index(bs, id) == 0);
            }
        }
        let d = bs.drop_first();
        assert(forall|i: int, k: int|
            0 <= i < k < d.len() ==> (#[trigger] d[i]).0 < (#[trigger] d[k]).0) by {
            assert(forall|i: int, k: int|
                0 <= i < k < d.len() ==> d[i] == bs[i + 1] && d[k] == bs[k + 1]);
        }
        assert(bucket_index(d, id) == d.len()) by {
            assert(bucket_index(bs, id) == 1 + bucket_index(d, id));
        }
        lemma_bucket_insert_pos_bounds(d, id);
        if bs[0].0 >= id {
            assert(bucket_insert_pos(bs, id) == 0);
            assert forall|i: int| 0 <= i < bs.len() implies (#[trigger] bs[i]).0 > id by {
                if i == 0 {
                } else {
                    assert(bs[0].0 < bs[i].0);
                }
            }
        } else {
            assert(bucket_insert_pos(bs, id) == 1 + bucket_insert_pos(d, id));
            assert(forall|i: int|
                1 <= i < bs.len() ==> (#[trigger] bs[i]).0 == d[i - 1].0);
        }
    }
}

} // verus!
