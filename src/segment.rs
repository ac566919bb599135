use crate::aggregate::{aggregate_spec, Median, Observation};
use crate::downmix::lemma_quotient_between;
use crate::error::TempoError;
use vstd::prelude::*;

verus! {

/// Analysis window length handed to the tempo estimator.
pub const WINDOW_SIZE: usize = 1024;

/// Stride between successive windows, and the length of each window buffer.
pub const HOP_SIZE: usize = 512;

/// Number of windows over `n` samples: one per started stride.
pub open spec fn window_count(n: nat, hop: nat) -> nat {
    if n == 0 {
        0
    } else {
        ((n - 1) as nat / hop + 1) as nat
    }
}

/// Window `k`: the `hop` samples from `k * hop`, zero where the sequence has ended.
pub open spec fn window_spec(s: Seq<i32>, hop: nat, k: int) -> Seq<i32> {
    Seq::new(hop, |j: int| if k * hop + j < s.len() { s[k * hop + j] } else { 0i32 })
}

/// Every window of the sequence, in order.
pub open spec fn windows_spec(s: Seq<i32>, hop: nat) -> Seq<Seq<i32>> {
    Seq::new(window_count(s.len(), hop), |k: int| window_spec(s, hop, k))
}

/// Copies `hop` samples from `start`, padding with zeros past the end.
pub fn window_from(mono: &Vec<i32>, start: usize, hop: usize) -> (r: Vec<i32>)
    requires
        start <= mono.len(),
    ensures
        r@ =~= Seq::new(
            hop as nat,
            |j: int| if start + j < mono@.len() { mono@[start + j] } else { 0i32 },
        ),
{
    let len = mono.len();
    let mut w: Vec<i32> = Vec::new();
    let mut j: usize = 0;
    while j < hop
        invariant
            j <= hop,
            start <= len,
            len == mono.len(),
            w@.len() == j,
            forall|t: int|
                0 <= t < j ==> w@[t] == if start + t < mono@.len() {
                    mono@[start + t]
                } else {
                    0i32
                },
        decreases hop - j,
    {
        if j < len - start {
            w.push(mono[start + j]);
        } else {
            w.push(0);
        }
        j = j + 1;
    }
    w
}

/// Slices the mono sequence into consecutive non-overlapping windows of
/// `hop` samples, the last one zero-padded.
pub fn windows(mono: &Vec<i32>, hop: usize) -> (r: Vec<Vec<i32>>)
    requires
        hop > 0,
    ensures
        r@.len() == window_count(mono@.len(), hop as nat),
        forall|k: int| 0 <= k < r@.len() ==> #[trigger] r@[k]@ == window_spec(mono@, hop as nat, k),
{
    let len = mono.len();
    let mut out: Vec<Vec<i32>> = Vec::new();
    let mut idx: usize = 0;
    let mut k: usize = 0;
    while idx < len
        invariant
            hop > 0,
            len == mono.len(),
            idx <= len,
            k <= idx,
            out@.len() == k,
            idx < len ==> idx == k * hop,
            idx == len ==> k == window_count(len as nat, hop as nat),
            forall|t: int| 0 <= t < k ==> #[trigger] out@[t]@ == window_spec(mono@, hop as nat, t),
        decreases len - idx,
    {
        proof {
            assert(k <= k * hop) by (nonlinear_arith)
                requires
                    hop >= 1,
            ;
        }
        let w = window_from(mono, idx, hop);
        assert(w@ =~= window_spec(mono@, hop as nat, k as int));
        out.push(w);
        if len - idx <= hop {
            proof {
                assert((k + 1) * hop == k * hop + hop) by (nonlinear_arith);
                lemma_quotient_between(len - 1, hop as int, k as int);
            }
            idx = len;
        } else {
            proof {
                assert((k + 1) * hop == k * hop + hop) by (nonlinear_arith);
            }
            idx = idx + hop;
        }
        k = k + 1;
    }
    proof {
        if len == 0 {
            assert(k == 0);
        }
    }
    out
}

/// Audio that decodes to no samples gives no windows, so a run that takes one
/// observation per window has none and ends in `NoBeatsDetected`.
pub proof fn lemma_empty_audio_no_beats(mono: Seq<i32>, obs: Seq<Observation>)
    requires
        mono.len() == 0,
        obs.len() == windows_spec(mono, HOP_SIZE as nat).len(),
    ensures
        windows_spec(mono, HOP_SIZE as nat).len() == 0,
        aggregate_spec(obs) == Err::<Median, TempoError>(TempoError::NoBeatsDetected),
{
    assert(obs.len() == 0);
}

/// The verified stages keep no state between runs: the same decoded samples
/// give the same windows, and the same observations give the same result.
pub proof fn lemma_runs_are_deterministic(
    mono1: Seq<i32>,
    mono2: Seq<i32>,
    obs1: Seq<Observation>,
    obs2: Seq<Observation>,
)
    requires
        mono1 == mono2,
        obs1 == obs2,
    ensures
        windows_spec(mono1, HOP_SIZE as nat) == windows_spec(mono2, HOP_SIZE as nat),
        aggregate_spec(obs1) == aggregate_spec(obs2),
{
}

} // verus!
