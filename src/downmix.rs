use vstd::prelude::*;

verus! {

/// The fixed-point value of one full-scale unit (`1.0`): samples are held as
/// `i32` with 24 fractional bits. Decoded values up to `±128.0` fit, so a
/// frame such as `[2.0, 4.0, 6.0]` is held exactly; whoever converts decoded
/// values into this form saturates them at the `i32` range, never at `±1.0`.
pub const FIXED_POINT_ONE: i32 = 16_777_216;

/// Sum of a run of samples.
pub open spec fn sum_of(s: Seq<i32>) -> int
    decreases s.len(),
{
    if s.len() == 0 {
        0
    } else {
        sum_of(s.drop_last()) + s.last()
    }
}

/// Integer mean of `count` values whose sum is `sum`, rounded toward zero.
pub open spec fn mean_toward_zero(sum: int, count: int) -> int {
    if sum >= 0 {
        sum / count
    } else {
        -((-sum) / count)
    }
}

/// The channel values of output frame `i` in an interleaved buffer.
pub open spec fn frame_at(s: Seq<i32>, channels: int, i: int) -> Seq<i32> {
    s.subrange(i * channels, i * channels + channels)
}

/// One mono sample per whole frame, each the mean of that frame's channel
/// values; a buffer without channels yields nothing.
pub open spec fn downmix_spec(s: Seq<i32>, channels: nat) -> Seq<i32> {
    if channels == 0 {
        Seq::empty()
    } else {
        Seq::new(
            s.len() / channels,
            |i: int| mean_toward_zero(sum_of(frame_at(s, channels as int, i)), channels as int) as i32,
        )
    }
}

pub proof fn lemma_quotient_between(x: int, d: int, q: int)
    requires
        d > 0,
        q * d <= x < q * d + d,
    ensures
        x / d == q,
{
    vstd::arithmetic::div_mod::lemma_fundamental_div_mod_converse(x, d, q, x - q * d);
}

/// The mean of `s[start .. start + count]`, rounded toward zero.
pub fn frame_mean(s: &Vec<i32>, start: usize, count: usize) -> (r: i32)
    requires
        count > 0,
        start + count <= s.len(),
    ensures
        r == mean_toward_zero(sum_of(s@.subrange(start as int, start + count)), count as int),
{
    let mut acc: i128 = 0;
    let mut k: usize = 0;
    while k < count
        invariant
            k <= count,
            start + count <= s.len(),
            acc == sum_of(s@.subrange(start as int, start + k)),
            -(k * 0x8000_0000) <= acc <= k * 0x7FFF_FFFF,
        decreases count - k,
    {
        proof {
            assert(s@.subrange(start as int, start + k + 1).drop_last() =~= s@.subrange(
                start as int,
                start + k,
            ));
        }
        acc = acc + s[start + k] as i128;
        k = k + 1;
    }
    let c = count as i128;
    if acc >= 0 {
        proof {
            let m: int = 0x7FFF_FFFF;
            assert((acc as int) / (c as int) <= m) by (nonlinear_arith)
                requires
                    0 <= acc <= c * m,
                    c > 0,
            ;
        }
        (acc / c) as i32
    } else {
        proof {
            let m: int = 0x8000_0000;
            assert((-acc) as int / (c as int) <= m) by (nonlinear_arith)
                requires
                    0 <= -acc <= c * m,
                    c > 0,
            ;
        }
        (-((-acc) / c)) as i32
    }
}

/// The mono sequence built from decoded frames, in decoding order. Samples
/// are fixed-point values scaled by `FIXED_POINT_ONE`; each mono sample is the
/// integer mean of its frame, rounded toward zero.
pub struct MonoBuffer {
    samples: Vec<i32>,
}

impl View for MonoBuffer {
    type V = Seq<i32>;

    closed spec fn view(&self) -> Seq<i32> {
        self.samples@
    }
}

impl MonoBuffer {
    pub fn new() -> (r: MonoBuffer)
        ensures
            r@ == Seq::<i32>::empty(),
    {
        MonoBuffer { samples: Vec::new() }
    }

    /// Appends the downmix of one interleaved decoded frame.
    pub fn push_frame(&mut self, interleaved: &Vec<i32>, channels: usize)
        ensures
            final(self)@ == old(self)@ + downmix_spec(interleaved@, channels as nat),
    {
        if channels == 0 {
            assert(old(self)@ + downmix_spec(interleaved@, 0) =~= old(self)@);
            return;
        }
        let len = interleaved.len();
        let ghost base = self.samples@;
        let ghost want = downmix_spec(interleaved@, channels as nat);
        let mut start: usize = 0;
        let mut f: usize = 0;
        while channels <= len - start
            invariant
                channels > 0,
                len == interleaved.len(),
                start <= len,
                start == f * channels,
                f <= (len as int) / (channels as int),
                want == downmix_spec(interleaved@, channels as nat),
                self.samples@ == base + want.subrange(0, f as int),
            decreases len - start,
        {
            proof {
                assert((f + 1) * channels == f * channels + channels) by (nonlinear_arith);
                lemma_quotient_between((start + channels) as int, channels as int, f + 1);
                vstd::arithmetic::div_mod::lemma_div_is_ordered(
                    (start + channels) as int,
                    len as int,
                    channels as int,
                );
            }
            let m = frame_mean(interleaved, start, channels);
            self.samples.push(m);
            proof {
                assert(want.subrange(0, f + 1) =~= want.subrange(0, f as int).push(m));
            }
            start = start + channels;
            f = f + 1;
        }
        proof {
            lemma_quotient_between(len as int, channels as int, f as int);
            assert(want.subrange(0, f as int) =~= want);
        }
    }

    /// The mono samples gathered so far.
    pub fn samples(&self) -> (r: &Vec<i32>)
        ensures
            r@ == self@,
    {
        &self.samples
    }
}

/// Downmixes one interleaved buffer of fixed-point samples (scaled by
/// `FIXED_POINT_ONE`) to mono.
pub fn downmix(interleaved: &Vec<i32>, channels: usize) -> (r: Vec<i32>)
    ensures
        r@ == downmix_spec(interleaved@, channels as nat),
{
    let mut buf = MonoBuffer::new();
    buf.push_frame(interleaved, channels);
    assert(Seq::<i32>::empty() + downmix_spec(interleaved@, channels as nat) =~= downmix_spec(
        interleaved@,
        channels as nat,
    ));
    buf.samples
}

/// Downmixing a stereo buffer whose two channels carry the same value at
/// every position reproduces that mono sequence exactly.
pub proof fn lemma_identical_stereo_channels(x: Seq<i32>, s: Seq<i32>)
    requires
        s.len() == 2 * x.len(),
        forall|i: int| 0 <= i < x.len() ==> #[trigger] s[2 * i] == x[i] && s[2 * i + 1] == x[i],
    ensures
        downmix_spec(s, 2) == x,
{
    let d = downmix_spec(s, 2);
    assert(s.len() / 2 == x.len());
    assert forall|i: int| 0 <= i < x.len() implies #[trigger] d[i] == x[i] by {
        let f = frame_at(s, 2, i);
        assert(s[2 * i] == x[i]);
        assert(f.len() == 2);
        assert(f.drop_last().drop_last() =~= Seq::<i32>::empty());
        assert(f.drop_last().last() == x[i]);
        assert(f.last() == x[i]);
        assert(sum_of(Seq::<i32>::empty()) == 0);
        assert(f.drop_last().len() == 1);
        assert(sum_of(f.drop_last()) == sum_of(f.drop_last().drop_last()) + f.drop_last().last());
        assert(sum_of(f.drop_last()) == x[i] as int);
        assert(sum_of(f) == 2 * x[i]);
    }
    assert(d =~= x);
}

} // verus!
