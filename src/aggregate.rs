use crate::error::TempoError;
use vstd::prelude::*;
use vstd::relations::{sorted_by, total_ordering};

verus! {

/// Bit pattern of the single-precision value `0.2`, the confidence floor.
pub const CONFIDENCE_FLOOR_BITS: u32 = 0x3E4C_CCCD;

/// Bit pattern of single-precision positive infinity.
pub const INFINITY_BITS: u32 = 0x7F80_0000;

/// One window's estimate, each value held as its IEEE-754 single-precision
/// bit pattern. For non-negative finite values the order of bit patterns is
/// the order of the values, which is what the filter and the median use.
#[derive(Clone, Copy, Debug, PartialEq, Eq, Structural)]
pub struct Observation {
    pub bpm_bits: u32,
    pub confidence_bits: u32,
}

/// A finite value strictly above zero: sign bit clear, not `+0.0`, below infinity.
pub open spec fn is_positive_finite(bits: u32) -> bool {
    0 < bits && bits < INFINITY_BITS
}

/// An observation counts when both values are finite, the tempo is above zero
/// and the confidence is above `0.2`.
pub open spec fn is_valid(o: Observation) -> bool {
    &&& is_positive_finite(o.bpm_bits)
    &&& CONFIDENCE_FLOOR_BITS < o.confidence_bits && o.confidence_bits < INFINITY_BITS
}

/// The tempo values of the valid observations, in arrival order.
pub open spec fn accepted(obs: Seq<Observation>) -> Seq<u32>
    decreases obs.len(),
{
    if obs.len() == 0 {
        Seq::empty()
    } else {
        let rest = accepted(obs.drop_last());
        if is_valid(obs.last()) {
            rest.push(obs.last().bpm_bits)
        } else {
            rest
        }
    }
}

pub open spec fn key_leq() -> spec_fn(u32, u32) -> bool {
    |a: u32, b: u32| a <= b
}

/// The values in ascending order.
pub open spec fn ascending(s: Seq<u32>) -> Seq<u32> {
    s.sort_by(key_leq())
}

/// The middle of a sorted, non-empty sequence: one value for an odd count,
/// the two central values (to be averaged) for an even count.
#[derive(Clone, Copy, Debug, PartialEq, Eq, Structural)]
pub enum Median {
    Single(u32),
    Pair(u32, u32),
}

pub open spec fn middle_of(t: Seq<u32>) -> Median {
    if t.len() % 2 == 1 {
        Median::Single(t[(t.len() / 2) as int])
    } else {
        Median::Pair(t[t.len() / 2 - 1], t[(t.len() / 2) as int])
    }
}

/// The median of a set of accepted tempo values, or `NoBeatsDetected` when
/// the set is empty.
pub open spec fn median_spec(s: Seq<u32>) -> Result<Median, TempoError> {
    if s.len() == 0 {
        Err(TempoError::NoBeatsDetected)
    } else {
        Ok(middle_of(ascending(s)))
    }
}

/// What a whole run of observations reduces to.
pub open spec fn aggregate_spec(obs: Seq<Observation>) -> Result<Median, TempoError> {
    median_spec(accepted(obs))
}

pub proof fn lemma_key_leq_total()
    ensures
        total_ordering(key_leq()),
{
}

/// Whether one observation passes the validity and confidence filter.
pub fn is_valid_observation(o: Observation) -> (r: bool)
    ensures
        r == is_valid(o),
{
    0 < o.bpm_bits && o.bpm_bits < INFINITY_BITS && CONFIDENCE_FLOOR_BITS < o.confidence_bits
        && o.confidence_bits < INFINITY_BITS
}

/// Sorts the values ascending by insertion.
pub fn sort_ascending(v: &Vec<u32>) -> (r: Vec<u32>)
    ensures
        r@ == ascending(v@),
        r@.len() == v@.len(),
{
    broadcast use vstd::seq_lib::group_to_multiset_ensures;

    let mut out: Vec<u32> = Vec::new();
    let mut i: usize = 0;
    while i < v.len()
        invariant
            i <= v.len(),
            out@.to_multiset() == v@.subrange(0, i as int).to_multiset(),
            sorted_by(out@, key_leq()),
        decreases v.len() - i,
    {
        let x = v[i];
        let mut j: usize = out.len();
        while j > 0 && out[j - 1] > x
            invariant
                j <= out.len(),
                forall|k: int| j <= k < out.len() ==> out@[k] > x,
            decreases j,
        {
            j = j - 1;
        }
        let ghost before = out@;
        out.insert(j, x);
        proof {
            assert(v@.subrange(0, i + 1) =~= v@.subrange(0, i as int).push(x));
            vstd::seq_lib::to_multiset_insert(before, j as int, x);
            assert(out@.to_multiset() == before.to_multiset().insert(x));
            vstd::seq_lib::to_multiset_build(v@.subrange(0, i as int), x);
            assert forall|a: int, b: int| 0 <= a < b < out@.len() implies #[trigger] (key_leq())(
                out@[a],
                out@[b],
            ) by {
                if b < j {
                } else if a < j && b == j {
                    assert((key_leq())(before[a], before[j - 1]));
                } else if a < j {
                    assert((key_leq())(before[a], before[b - 1]));
                } else if a == j {
                } else {
                    assert((key_leq())(before[a - 1], before[b - 1]));
                }
            }
        }
        i = i + 1;
    }
    proof {
        assert(v@.subrange(0, v@.len() as int) =~= v@);
        lemma_key_leq_total();
        v@.lemma_sort_by_ensures(key_leq());
        vstd::seq_lib::lemma_sorted_unique(out@, ascending(v@), key_leq());
        assert(out@.to_multiset().len() == v@.to_multiset().len());
    }
    out
}

/// Reduces non-empty values to their median; `NoBeatsDetected` when empty.
pub fn median_of(v: &Vec<u32>) -> (r: Result<Median, TempoError>)
    ensures
        r == median_spec(v@),
{
    let n = v.len();
    if n == 0 {
        return Err(TempoError::NoBeatsDetected);
    }
    let sorted = sort_ascending(v);
    let mid = n / 2;
    if n % 2 == 1 {
        Ok(Median::Single(sorted[mid]))
    } else {
        Ok(Median::Pair(sorted[mid - 1], sorted[mid]))
    }
}

/// Collects the tempo values of the valid observations of one run, in the
/// order the windows produced them.
pub struct BpmAggregator {
    accepted: Vec<u32>,
}

impl View for BpmAggregator {
    type V = Seq<u32>;

    closed spec fn view(&self) -> Seq<u32> {
        self.accepted@
    }
}

impl BpmAggregator {
    pub fn new() -> (r: BpmAggregator)
        ensures
            r@ == Seq::<u32>::empty(),
    {
        BpmAggregator { accepted: Vec::new() }
    }

    /// Keeps the observation's tempo when the observation is valid, and
    /// reports whether it was kept.
    pub fn observe(&mut self, o: Observation) -> (kept: bool)
        ensures
            kept == is_valid(o),
            final(self)@ == if is_valid(o) {
                old(self)@.push(o.bpm_bits)
            } else {
                old(self)@
            },
    {
        if is_valid_observation(o) {
            self.accepted.push(o.bpm_bits);
            true
        } else {
            false
        }
    }

    /// The median of the kept values, or `NoBeatsDetected` when none was kept.
    pub fn median(&self) -> (r: Result<Median, TempoError>)
        ensures
            r == median_spec(self@),
    {
        median_of(&self.accepted)
    }
}

/// Filters a run of observations and reduces the survivors to their median.
pub fn aggregate(obs: &Vec<Observation>) -> (r: Result<Median, TempoError>)
    ensures
        r == aggregate_spec(obs@),
{
    let mut agg = BpmAggregator::new();
    let mut i: usize = 0;
    while i < obs.len()
        invariant
            i <= obs.len(),
            agg@ == accepted(obs@.subrange(0, i as int)),
        decreases obs.len() - i,
    {
        agg.observe(obs[i]);
        proof {
            let next = obs@.subrange(0, i + 1);
            assert(next.drop_last() =~= obs@.subrange(0, i as int));
        }
        i = i + 1;
    }
    proof {
        assert(obs@.subrange(0, obs@.len() as int) =~= obs@);
    }
    agg.median()
}

proof fn lemma_accepted_concat(a: Seq<Observation>, b: Seq<Observation>)
    ensures
        accepted(a + b) == accepted(a) + accepted(b),
    decreases b.len(),
{
    if b.len() == 0 {
        assert(a + b =~= a);
        assert(accepted(a) + accepted(b) =~= accepted(a));
    } else {
        lemma_accepted_concat(a, b.drop_last());
        assert((a + b).drop_last() =~= a + b.drop_last());
        assert((a + b).last() == b.last());
        if is_valid(b.last()) {
            assert(accepted(a) + accepted(b) =~= (accepted(a) + accepted(b.drop_last())).push(
                b.last().bpm_bits,
            ));
        }
    }
}

/// An invalid observation leaves the outcome of a run unchanged wherever it
/// arrives: a filtered observation never takes part in the median.
pub proof fn lemma_invalid_observation_ignored(
    before: Seq<Observation>,
    o: Observation,
    after: Seq<Observation>,
)
    requires
        !is_valid(o),
    ensures
        aggregate_spec(before + seq![o] + after) == aggregate_spec(before + after),
{
    lemma_accepted_concat(before + seq![o], after);
    lemma_accepted_concat(before, seq![o]);
    lemma_accepted_concat(before, after);
    let one = seq![o];
    assert(one.drop_last() =~= Seq::<Observation>::empty());
    assert(one.last() == o);
    assert(accepted(Seq::<Observation>::empty()) =~= Seq::<u32>::empty());
    assert(accepted(one) =~= Seq::<u32>::empty());
    assert(accepted(before) + accepted(one) =~= accepted(before));
}

/// A run in which no observation passes the filter, a single failing one
/// included, ends in `NoBeatsDetected`.
pub proof fn lemma_no_valid_observation_no_beats(obs: Seq<Observation>)
    requires
        forall|i: int| 0 <= i < obs.len() ==> !is_valid(#[trigger] obs[i]),
    ensures
        aggregate_spec(obs) == Err::<Median, TempoError>(TempoError::NoBeatsDetected),
    decreases obs.len(),
{
    if obs.len() > 0 {
        let rest = obs.drop_last();
        assert forall|i: int| 0 <= i < rest.len() implies !is_valid(#[trigger] rest[i]) by {
            assert(rest[i] == obs[i]);
        }
        lemma_no_valid_observation_no_beats(rest);
        assert(!is_valid(obs[obs.len() - 1]));
    }
}

/// The median is taken from the accepted values in ascending order: they are
/// a sorted rearrangement of exactly the accepted values, and the result is
/// its middle value for an odd count and its two central values for an even
/// count.
pub proof fn lemma_median_of_sorted_values(s: Seq<u32>)
    requires
        s.len() > 0,
    ensures
        sorted_by(ascending(s), key_leq()),
        ascending(s).to_multiset() == s.to_multiset(),
        ascending(s).len() == s.len(),
        median_spec(s) == Ok::<Median, TempoError>(middle_of(ascending(s))),
        s.len() % 2 == 1 ==> middle_of(ascending(s)) == Median::Single(
            ascending(s)[(s.len() / 2) as int],
        ),
        s.len() % 2 == 0 ==> middle_of(ascending(s)) == Median::Pair(
            ascending(s)[s.len() / 2 - 1],
            ascending(s)[(s.len() / 2) as int],
        ),
{
    broadcast use vstd::seq_lib::group_to_multiset_ensures;

    lemma_key_leq_total();
    s.lemma_sort_by_ensures(key_leq());
    assert(ascending(s).to_multiset().len() == s.to_multiset().len());
}

} // verus!
