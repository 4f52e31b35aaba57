//! Fixed-capacity per-process time series of CPU and memory samples.

use std::collections::HashMap;
use std::collections::VecDeque;
use vstd::prelude::*;

verus! {

broadcast use {
    vstd::std_specs::hash::group_hash_axioms,
    vstd::std_specs::vecdeque::group_vec_dequeue_axioms,
};

/// Number of samples kept per process: one minute at one tick per second.
pub const HISTORY_LEN: usize = 60;

/// One reading of a process: CPU in hundredths of a percent, resident
/// memory in KiB.
#[derive(Clone, Copy, Debug, PartialEq, Eq, Structural)]
pub struct MetricSample {
    pub cpu_percent_scaled: u64,
    pub resident_memory_kb: u64,
}

/// The series `s` after one more sample: appended at the newest end, the
/// oldest one evicted first when the series is full.
pub open spec fn push_bounded(s: Seq<MetricSample>, x: MetricSample) -> Seq<MetricSample> {
    if s.len() >= HISTORY_LEN {
        s.drop_first().push(x)
    } else {
        s.push(x)
    }
}

/// The most recent `HISTORY_LEN` entries of `s`, all of it when it is shorter.
pub open spec fn newest(s: Seq<MetricSample>) -> Seq<MetricSample> {
    if s.len() > HISTORY_LEN {
        s.subrange(s.len() - HISTORY_LEN, s.len() as int)
    } else {
        s
    }
}

/// The samples of every process seen so far, by process id. A series is
/// made when its id is first sampled and is never dropped.
pub struct MetricHistory {
    series: HashMap<usize, VecDeque<MetricSample>>,
}

impl View for MetricHistory {
    type V = Map<usize, Seq<MetricSample>>;

    closed spec fn view(&self) -> Map<usize, Seq<MetricSample>> {
        self.series@.map_values(|d: VecDeque<MetricSample>| d@)
    }
}

/// The series recorded for `id` in `m`, empty for an id never sampled.
pub open spec fn series_of(m: Map<usize, Seq<MetricSample>>, id: usize) -> Seq<MetricSample> {
    if m.contains_key(id) {
        m[id]
    } else {
        Seq::empty()
    }
}

/// Every series is within capacity.
pub open spec fn bounded(m: Map<usize, Seq<MetricSample>>) -> bool {
    forall|id: usize| m.contains_key(id) ==> (#[trigger] m[id]).len() <= HISTORY_LEN
}

/// The history `m` after `id` was sampled once for each entry of `xs`, in
/// order.
pub open spec fn after_samples(
    m: Map<usize, Seq<MetricSample>>,
    id: usize,
    xs: Seq<MetricSample>,
) -> Map<usize, Seq<MetricSample>>
    decreases xs.len(),
{
    if xs.len() == 0 {
        m
    } else {
        let before = after_samples(m, id, xs.drop_last());
        before.insert(id, push_bounded(series_of(before, id), xs.last()))
    }
}

/// However many samples one id receives, its series never exceeds
/// `HISTORY_LEN` entries and holds exactly the most recent ones, in the order
/// in which they came. The series of every other id is left as it was.
pub proof fn lemma_bounded_history(
    m: Map<usize, Seq<MetricSample>>,
    id: usize,
    xs: Seq<MetricSample>,
)
    requires
        bounded(m),
    ensures
        bounded(after_samples(m, id, xs)),
        series_of(after_samples(m, id, xs), id) == newest(series_of(m, id) + xs),
        series_of(after_samples(m, id, xs), id).len() <= HISTORY_LEN,
        forall|other: usize|
            other != id ==> series_of(after_samples(m, id, xs), other) == series_of(m, other),
    decreases xs.len(),
{
    if xs.len() == 0 {
        assert(series_of(m, id) + xs =~= series_of(m, id));
    } else {
        let front = xs.drop_last();
        lemma_bounded_history(m, id, front);
        let before = after_samples(m, id, front);
        let s = series_of(before, id);
        assert(series_of(m, id) + xs =~= (series_of(m, id) + front).push(xs.last()));
        assert(push_bounded(s, xs.last()) =~= newest(series_of(m, id) + xs));
    }
}

impl MetricHistory {
    /// Well-formedness: no series is over capacity.
    pub open spec fn wf(&self) -> bool {
        bounded(self@)
    }

    /// A history without any series.
    pub fn new() -> (h: Self)
        ensures
            h.wf(),
            h@ == Map::<usize, Seq<MetricSample>>::empty(),
    {
        let h = MetricHistory { series: HashMap::new() };
        assert(h@ =~= Map::<usize, Seq<MetricSample>>::empty());
        h
    }

    /// Records one sample for `id`, creating its series on first sight.
    pub fn sample(&mut self, id: usize, cpu_percent_scaled: u64, resident_memory_kb: u64)
        requires
            old(self).wf(),
        ensures
            final(self).wf(),
            final(self)@ == old(self)@.insert(
                id,
                push_bounded(
                    series_of(old(self)@, id),
                    (MetricSample { cpu_percent_scaled, resident_memory_kb }),
                ),
            ),
    {
        let x = MetricSample { cpu_percent_scaled, resident_memory_kb };
        let mut buf = match self.series.remove(&id) {
            Some(b) => b,
            None => VecDeque::with_capacity(HISTORY_LEN),
        };
        if buf.len() >= HISTORY_LEN {
            buf.pop_front();
        }
        buf.push_back(x);
        self.series.insert(id, buf);
        assert(self@ =~= old(self)@.insert(id, push_bounded(series_of(old(self)@, id), x)));
    }

    /// The samples recorded for `id`, oldest first; empty for an unknown id.
    pub fn series(&self, id: usize) -> (r: Vec<MetricSample>)
        requires
            self.wf(),
        ensures
            r@ == series_of(self@, id),
            r@.len() <= HISTORY_LEN,
    {
        let mut out: Vec<MetricSample> = Vec::new();
        match self.series.get(&id) {
            Some(buf) => {
                let n = buf.len();
                let mut i: usize = 0;
                while i < n
                    invariant
                        n == buf@.len(),
                        i <= n,
                        out@ == buf@.subrange(0, i as int),
                    decreases n - i,
                {
                    out.push(buf[i]);
                    i += 1;
                }
                assert(out@ =~= buf@);
                assert(self@.contains_key(id) && self@[id] == buf@);
            },
            None => {},
        }
        out
    }
}

} // verus!
