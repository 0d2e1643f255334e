use vstd::prelude::*;
use std::collections::HashMap;
use crate::heap::Heap;

verus! {

broadcast use vstd::std_specs::hash::group_hash_axioms;

/// The last readings of how long a callee took, in microseconds: ten slots,
/// filled in turn.
pub struct Timing {
    pub curr: u8,
    pub times: Vec<u128>,
}

impl Timing {
    /// Fewer than ten readings so far, in ten slots.
    pub open spec fn wf(self) -> bool {
        &&& self.curr < 10
        &&& self.times@.len() == 10
    }
}

impl Default for Timing {
    fn default() -> (r: Self)
        ensures
            r.wf(),
            r.curr == 0,
            r.times@ == Seq::new(10, |i: int| 0u128),
    {
        let times: Vec<u128> = vec![0u128, 0, 0, 0, 0, 0, 0, 0, 0, 0];
        proof {
            assert(times@ =~= Seq::new(10, |i: int| 0u128));
        }
        Timing { curr: 0, times }
    }
}

/// The sum of the readings.
pub open spec fn sum_spec(s: Seq<u128>) -> int
    decreases s.len(),
{
    if s.len() == 0 {
        0
    } else {
        sum_spec(s.drop_last()) + s.last()
    }
}

/// A heap of a running file, with what has been learnt of its callees:
/// which of them block (run for long) and the readings of those still
/// being timed, by the callee's identity.
pub struct AsyncHeapHelper {
    pub inner: Heap,
    pub blockmap: HashMap<u64, bool>,
    pub timings: HashMap<u64, Timing>,
}

/// Ten readings averaging at least this many microseconds mark a callee as
/// blocking: 200 for the work itself, 40 for moving it to a blocking thread.
pub open spec fn blocking_threshold() -> int {
    240
}

/// The readings of `f` so far: ten zeros before the first.
pub open spec fn prior_times(h: AsyncHeapHelper, f: u64) -> Seq<u128> {
    if h.timings@.contains_key(f) {
        h.timings@[f].times@
    } else {
        Seq::new(10, |i: int| 0u128)
    }
}

/// How many readings of `f` there are so far.
pub open spec fn prior_count(h: AsyncHeapHelper, f: u64) -> int {
    if h.timings@.contains_key(f) {
        h.timings@[f].curr as int
    } else {
        0
    }
}

/// `post` is `pre` after recording that `f` took `micros` microseconds.
pub open spec fn report_rel(pre: AsyncHeapHelper, f: u64, micros: u128, post: AsyncHeapHelper) -> bool {
    let c = prior_count(pre, f);
    let ts = prior_times(pre, f).update(c, micros);
    &&& post.wf()
    &&& post.inner == pre.inner
    &&& if c + 1 == 10 {
        &&& post.timings@ == pre.timings@.remove(f)
        &&& post.blockmap@ == pre.blockmap@.insert(f, sum_spec(ts) / 10 >= blocking_threshold())
    } else {
        &&& post.blockmap@ == pre.blockmap@
        &&& post.timings@.dom() == pre.timings@.dom().insert(f)
        &&& post.timings@[f].curr == c + 1
        &&& post.timings@[f].times@ == ts
        &&& forall|k: u64|
            k != f && #[trigger] pre.timings@.contains_key(k) ==> post.timings@[k] == pre.timings@[k]
    }
}

proof fn lemma_prefix_sum_le(s: Seq<u128>, i: int)
    requires
        0 <= i <= s.len(),
    ensures
        sum_spec(s.take(i)) <= sum_spec(s),
    decreases s.len(),
{
    if i < s.len() {
        lemma_prefix_sum_le(s.drop_last(), i);
        assert(s.drop_last().take(i) =~= s.take(i));
    } else {
        assert(s.take(i) =~= s);
    }
}

impl AsyncHeapHelper {
    /// Every callee being timed has fewer than ten readings of 64 bits.
    pub open spec fn wf(self) -> bool {
        forall|k: u64| #[trigger] self.timings@.contains_key(k) ==> self.timings@[k].wf()
    }

    /// Nothing learnt yet about the callees of `value`.
    pub fn from(value: Heap) -> (r: Self)
        ensures
            r.wf(),
            r.inner == value,
            r.blockmap@ == Map::<u64, bool>::empty(),
            r.timings@ == Map::<u64, Timing>::empty(),
    {
        AsyncHeapHelper { inner: value, blockmap: HashMap::new(), timings: HashMap::new() }
    }

    /// Whether the callee `f` is known to block.
    pub fn is_blocking(&self, f: u64) -> (r: Option<bool>)
        ensures
            r == if self.blockmap@.contains_key(f) {
                Some(self.blockmap@[f])
            } else {
                None
            },
    {
        match self.blockmap.get(&f) {
            Some(b) => Some(*b),
            None => None,
        }
    }

    /// Records that the callee `f` took `micros` microseconds. With its
    /// tenth reading, the callee is marked as blocking when the readings
    /// average at least 240 microseconds, and its readings are dropped. The
    /// ten readings must sum within 128 bits.
    pub fn report(&mut self, f: u64, micros: u128)
        requires
            old(self).wf(),
            prior_count(*old(self), f) + 1 == 10 ==> sum_spec(prior_times(*old(self), f).update(9, micros))
                <= u128::MAX,
        ensures
            report_rel(*old(self), f, micros, *final(self)),
    {
        let mut t = match self.timings.remove(&f) {
            Some(t) => t,
            None => Timing::default(),
        };
        let c = t.curr as usize;
        t.times.set(c, micros);
        t.curr = t.curr + 1;
        if t.curr == 10 {
            let mut sum: u128 = 0;
            let mut i: usize = 0;
            proof {
                assert(t.times@ == prior_times(*old(self), f).update(9, micros));
            }
            while i < 10
                invariant
                    i <= 10,
                    t.times@.len() == 10,
                    sum_spec(t.times@) <= u128::MAX,
                    sum == sum_spec(t.times@.take(i as int)),
                decreases 10 - i,
            {
                proof {
                    assert(t.times@.take(i + 1).drop_last() =~= t.times@.take(i as int));
                    lemma_prefix_sum_le(t.times@, i + 1);
                }
                sum = sum + t.times[i];
                i = i + 1;
            }
            proof {
                assert(t.times@.take(10) =~= t.times@);
            }
            self.blockmap.insert(f, sum / 10 >= 240);
        } else {
            self.timings.insert(f, t);
            proof {
                assert(self.timings@.dom() =~= old(self).timings@.dom().insert(f));
            }
        }
    }
}

proof fn lemma_readings_so_far(states: Seq<AsyncHeapHelper>, f: u64, ms: Seq<u128>, k: int)
    requires
        states.len() == 11,
        ms.len() == 10,
        0 <= k <= 9,
        !states[0].timings@.contains_key(f),
        !states[0].blockmap@.contains_key(f),
        forall|i: int| #![trigger states[i]] 0 <= i < 10 ==> report_rel(states[i], f, ms[i], states[i + 1]),
    ensures
        !states[k].blockmap@.contains_key(f),
        prior_count(states[k], f) == k,
        prior_times(states[k], f) == Seq::new(10, |j: int| if j < k { ms[j] } else { 0u128 }),
    decreases k,
{
    if k == 0 {
        assert(prior_times(states[0], f) =~= Seq::new(10, |j: int| if j < 0 { ms[j] } else { 0u128 }));
    } else {
        lemma_readings_so_far(states, f, ms, k - 1);
        assert(report_rel(states[k - 1], f, ms[k - 1], states[k]));
        assert(states[k].timings@.contains_key(f));
        assert(prior_times(states[k], f) =~= Seq::new(10, |j: int| if j < k { ms[j] } else { 0u128 }));
    }
}

/// Ten readings decide whether a callee blocks: after ten reports for a
/// callee that had none and was not yet judged, it is still unjudged before
/// the tenth, and after the tenth it is marked blocking exactly when the
/// ten readings average at least 240 microseconds, with no readings left.
pub proof fn law_ten_readings_decide(states: Seq<AsyncHeapHelper>, f: u64, ms: Seq<u128>)
    requires
        states.len() == 11,
        ms.len() == 10,
        !states[0].timings@.contains_key(f),
        !states[0].blockmap@.contains_key(f),
        forall|i: int| #![trigger states[i]] 0 <= i < 10 ==> report_rel(states[i], f, ms[i], states[i + 1]),
    ensures
        forall|i: int| 0 <= i < 10 ==> !(#[trigger] states[i].blockmap@.contains_key(f)),
        states[10].blockmap@.contains_key(f),
        states[10].blockmap@[f] == (sum_spec(ms) / 10 >= blocking_threshold()),
        !states[10].timings@.contains_key(f),
{
    assert forall|i: int| 0 <= i < 10 implies !(#[trigger] states[i].blockmap@.contains_key(f)) by {
        lemma_readings_so_far(states, f, ms, i);
    }
    lemma_readings_so_far(states, f, ms, 9);
    assert(report_rel(states[9], f, ms[9], states[10]));
    assert(prior_times(states[9], f).update(9, ms[9]) =~= ms);
}

} // verus!
