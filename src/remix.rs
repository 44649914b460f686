//! Channel remixing and crude resampling of interleaved buffers.
//!
//! Remixing lays the `from` source channels side by side on an axis, each one
//! unit wide (`[i, i + 1)`), and splits the same axis into `to` equal
//! destination intervals (`[j * from / to, (j + 1) * from / to)`). A
//! destination sample is the mean (rounded down, equal weights) of the source
//! samples of the same frame whose interval overlaps the destination's. The
//! overlap test is made exactly on the axis scaled by `to`, where every
//! boundary is an integer; intervals that only touch do not overlap.
use vstd::prelude::*;

use crate::sample::{floor_div, IntermediateSampleType};
use crate::samples::{Samples, SamplesMetadata};

verus! {

/// Whether destination channel `j` (of `to`) overlaps source channel `i` (of
/// `from`): on the axis scaled by `to`, source `i` spans
/// `[i * to, (i + 1) * to)` and destination `j` spans
/// `[j * from, (j + 1) * from)`.
pub open spec fn covers(from: int, to: int, j: int, i: int) -> bool {
    i * to < (j + 1) * from && (i + 1) * to > j * from
}

/// How many of the first `n` source channels destination `j` overlaps.
pub open spec fn source_count(from: int, to: int, j: int, n: int) -> int
    decreases n,
{
    if n <= 0 {
        0
    } else {
        source_count(from, to, j, n - 1) + if covers(from, to, j, n - 1) {
            1int
        } else {
            0int
        }
    }
}

/// The sum of the samples `s[base + i]`, for the first `n` source channels
/// `i` that destination `j` overlaps.
pub open spec fn source_sum(s: Seq<i64>, base: int, from: int, to: int, j: int, n: int) -> int
    decreases n,
{
    if n <= 0 {
        0
    } else {
        source_sum(s, base, from, to, j, n - 1) + if covers(from, to, j, n - 1) {
            s[base + n - 1] as int
        } else {
            0int
        }
    }
}

/// The sample of destination channel `j` in the frame that starts at `base`.
pub open spec fn mixed_sample(s: Seq<i64>, base: int, from: int, to: int, j: int) -> int {
    source_sum(s, base, from, to, j, from) / source_count(from, to, j, from)
}

/// An interleaved sequence of `from` channels remixed into `to` channels.
pub open spec fn remixed(s: Seq<i64>, from: int, to: int) -> Seq<i64> {
    Seq::new(
        (s.len() as int / from * to) as nat,
        |k: int| mixed_sample(s, (k / to) * from, from, to, k % to) as i64,
    )
}

/// The plain sum of the `n` samples that start at `base`.
pub open spec fn frame_sum(s: Seq<i64>, base: int, n: int) -> int
    decreases n,
{
    if n <= 0 {
        0
    } else {
        frame_sum(s, base, n - 1) + s[base + n - 1] as int
    }
}

/// The source frame that output frame `k` takes when a clip is resampled
/// from `from_rate` to `to_rate`: the nearest one, and never past the last.
pub open spec fn nearest_frame(k: int, from_rate: int, to_rate: int, frames: int) -> int {
    let q = (2 * k * from_rate + to_rate) / (2 * to_rate);
    if q < frames {
        q
    } else {
        frames - 1
    }
}

/// An interleaved sequence of `c` channels resampled from `from_rate` to
/// `to_rate` by nearest-frame index remapping.
pub open spec fn resampled<T>(s: Seq<T>, c: int, from_rate: int, to_rate: int) -> Seq<T> {
    let frames = s.len() as int / c;
    Seq::new(
        (frames * to_rate / from_rate * c) as nat,
        |k: int| s[nearest_frame(k / c, from_rate, to_rate, frames) * c + k % c],
    )
}

/// Every destination channel overlaps at least one source channel.
pub proof fn lemma_some_source(from: int, to: int, j: int)
    requires
        from >= 1,
        to >= 1,
        0 <= j < to,
    ensures
        source_count(from, to, j, from) >= 1,
{
    let i = (j * from) / to;
    assert(0 <= i < from && covers(from, to, j, i)) by (nonlinear_arith)
        requires
            from >= 1,
            to >= 1,
            0 <= j < to,
            i == (j * from) / to,
    {
        vstd::arithmetic::div_mod::lemma_fundamental_div_mod(j * from, to);
        assert(0 <= (j * from) % to < to);
        assert(to * i <= j * from < to * i + to);
        assert(j * from < to * from);
        assert(0 <= j * from);
    }
    lemma_count_at_least(from, to, j, i, from);
}

/// Once a covered channel `i` is counted, the count is at least one.
proof fn lemma_count_at_least(from: int, to: int, j: int, i: int, n: int)
    requires
        0 <= i < n,
        covers(from, to, j, i),
    ensures
        source_count(from, to, j, n) >= 1,
    decreases n,
{
    lemma_count_nonneg(from, to, j, n - 1);
    if i < n - 1 {
        lemma_count_at_least(from, to, j, i, n - 1);
    }
}

proof fn lemma_count_nonneg(from: int, to: int, j: int, n: int)
    ensures
        0 <= source_count(from, to, j, n) <= if n < 0 {
            0
        } else {
            n
        },
    decreases n,
{
    if n > 0 {
        lemma_count_nonneg(from, to, j, n - 1);
    }
}

/// The sum of covered samples lies between the count times the least and
/// the greatest `i64`.
proof fn lemma_sum_bounds(s: Seq<i64>, base: int, from: int, to: int, j: int, n: int)
    requires
        0 <= base,
        base + n <= s.len(),
    ensures
        source_count(from, to, j, n) * i64::MIN <= source_sum(s, base, from, to, j, n)
            <= source_count(from, to, j, n) * i64::MAX,
    decreases n,
{
    if n > 0 {
        lemma_sum_bounds(s, base, from, to, j, n - 1);
    }
}

/// A destination sample is a value of `i64`.
proof fn lemma_mixed_in_range(s: Seq<i64>, base: int, from: int, to: int, j: int)
    requires
        from >= 1,
        to >= 1,
        0 <= j < to,
        0 <= base,
        base + from <= s.len(),
    ensures
        i64::MIN <= mixed_sample(s, base, from, to, j) <= i64::MAX,
{
    lemma_some_source(from, to, j);
    lemma_sum_bounds(s, base, from, to, j, from);
    let c = source_count(from, to, j, from);
    let t = source_sum(s, base, from, to, j, from);
    assert(i64::MIN <= t / c <= i64::MAX) by (nonlinear_arith)
        requires
            c >= 1,
            c * i64::MIN <= t <= c * i64::MAX,
    {
        vstd::arithmetic::div_mod::lemma_fundamental_div_mod(t, c);
        assert(0 <= t % c < c);
        assert(t == c * (t / c) + t % c);
    }
}

/// Exec form of `covers`.
fn covers_exec(from: u16, to: u16, j: u16, i: u16) -> (r: bool)
    ensures
        r == covers(from as int, to as int, j as int, i as int),
{
    let from = from as u64;
    let to = to as u64;
    let j = j as u64;
    let i = i as u64;
    assert((i + 1) * to <= 65536 * 65535 && (j + 1) * from <= 65536 * 65535) by (nonlinear_arith)
        requires
            j <= 65535,
            from <= 65535,
            to <= 65535,
            i <= 65535,
    ;
    assert(i * to <= (i + 1) * to && j * from <= (j + 1) * from) by (nonlinear_arith);
    i * to < (j + 1) * from && (i + 1) * to > j * from
}

/// Remixes a working-representation buffer into `nb_channels` channels; the
/// sample rate and encoding tag are kept.
pub fn into_n_channels(samples: Samples<IntermediateSampleType>, nb_channels: u16) -> (r: Samples<
    IntermediateSampleType,
>)
    requires
        samples.wf(),
        nb_channels >= 1,
    ensures
        r.wf(),
        r.samples@ == remixed(samples.samples@, samples.metadata.channels as int, nb_channels as int),
        r.metadata == (SamplesMetadata { channels: nb_channels, ..samples.metadata }),
{
    let from = samples.metadata.channels;
    let to = nb_channels;
    let ghost s = samples.samples@;
    let ghost target = remixed(s, from as int, to as int);
    let n = from as usize;
    let frames = samples.samples.len() / n;
    proof {
        assert(s.len() == frames * n) by (nonlinear_arith)
            requires
                frames == s.len() as int / (n as int),
                s.len() as int % (n as int) == 0,
                n >= 1,
        {
            vstd::arithmetic::div_mod::lemma_fundamental_div_mod(s.len() as int, n as int);
        }
    }
    let mut out: Vec<IntermediateSampleType> = Vec::new();
    let mut f: usize = 0;
    while f < frames
        invariant
            s == samples.samples@,
            s.len() <= usize::MAX,
            n == from,
            from >= 1,
            to >= 1,
            s.len() == frames * n,
            frames == s.len() as int / from as int,
            target == remixed(s, from as int, to as int),
            f <= frames,
            out@ == target.subrange(0, f * to),
        decreases frames - f,
    {
        assert(f * n + n <= frames * n) by (nonlinear_arith)
            requires
                f < frames,
        ;
        let base = f * n;
        let mut j: u16 = 0;
        while j < to
            invariant
                s == samples.samples@,
                n == from,
                from >= 1,
                to >= 1,
                s.len() == frames * n,
                frames == s.len() as int / from as int,
                target == remixed(s, from as int, to as int),
                f < frames,
                base == f * n,
                base + n <= s.len(),
                s.len() <= usize::MAX,
                j <= to,
                out@ == target.subrange(0, f * to + j),
            decreases to - j,
        {
            let mut sum: i128 = 0;
            let mut count: i128 = 0;
            let mut i: u16 = 0;
            while i < from
                invariant
                    s == samples.samples@,
                    n == from,
                    from >= 1,
                    base + n <= s.len(),
                    s.len() <= usize::MAX,
                    i <= from,
                    sum == source_sum(s, base as int, from as int, to as int, j as int, i as int),
                    count == source_count(from as int, to as int, j as int, i as int),
                decreases from - i,
            {
                proof {
                    lemma_sum_bounds(s, base as int, from as int, to as int, j as int, i as int);
                    lemma_count_nonneg(from as int, to as int, j as int, i as int);
                    assert(count * i64::MIN >= 65535 * i64::MIN && count * i64::MAX <= 65535
                        * i64::MAX) by (nonlinear_arith)
                        requires
                            0 <= count <= 65535,
                    ;
                }
                if covers_exec(from, to, j, i) {
                    sum = sum + samples.samples[base + i as usize] as i128;
                    count = count + 1;
                }
                i = i + 1;
            }
            proof {
                lemma_some_source(from as int, to as int, j as int);
                lemma_sum_bounds(s, base as int, from as int, to as int, j as int, from as int);
                lemma_count_nonneg(from as int, to as int, j as int, from as int);
                lemma_mixed_in_range(s, base as int, from as int, to as int, j as int);
                assert(count * i64::MIN >= 65535 * i64::MIN && count * i64::MAX <= 65535
                    * i64::MAX) by (nonlinear_arith)
                    requires
                        0 <= count <= 65535,
                ;
                let k = f * to + j;
                assert(k / (to as int) == f && k % (to as int) == j) by (nonlinear_arith)
                    requires
                        k == f * to + j,
                        0 <= j < to,
                {
                    vstd::arithmetic::div_mod::lemma_fundamental_div_mod_converse(
                        k,
                        to as int,
                        f as int,
                        j as int,
                    );
                }
                assert(k < frames * to) by (nonlinear_arith)
                    requires
                        k == f * to + j,
                        j < to,
                        f < frames,
                ;
            }
            let mean = floor_div(sum, count) as i64;
            out.push(mean);
            proof {
                let k = f * to + j;
                assert(target[k as int] == mean);
                assert(out@ =~= target.subrange(0, f * to + j + 1));
            }
            j = j + 1;
        }
        proof {
            assert(f * to + to == (f + 1) * to) by (nonlinear_arith);
        }
        f = f + 1;
    }
    proof {
        assert(target.len() == frames * to);
        assert(out@ =~= target);
        assert((frames * to) % (to as int) == 0) by (nonlinear_arith)
            requires
                to >= 1,
        {
            vstd::arithmetic::div_mod::lemma_mod_multiples_basic(frames as int, to as int);
        }
    }
    Samples { samples: out, metadata: SamplesMetadata { channels: nb_channels, ..samples.metadata } }
}

/// Resamples a buffer to `sample_rate` by nearest-frame index remapping: the
/// frame count is scaled by `sample_rate / metadata.sample_rate` (rounded
/// down), and every output frame copies the source frame nearest to its time.
pub fn into_sample_rate<T: Copy>(samples: Samples<T>, sample_rate: u32) -> (r: Samples<T>)
    requires
        samples.wf(),
        sample_rate > 0,
    ensures
        r.wf(),
        r.samples@ == resampled(
            samples.samples@,
            samples.metadata.channels as int,
            samples.metadata.sample_rate as int,
            sample_rate as int,
        ),
        r.metadata == (SamplesMetadata { sample_rate, ..samples.metadata }),
{
    let ghost s = samples.samples@;
    let ghost target = resampled(
        s,
        samples.metadata.channels as int,
        samples.metadata.sample_rate as int,
        sample_rate as int,
    );
    let c = samples.metadata.channels as usize;
    let frames = samples.samples.len() / c;
    let orig = samples.metadata.sample_rate as u128;
    let tr = sample_rate as u128;
    proof {
        assert(s.len() == frames * c) by (nonlinear_arith)
            requires
                frames == s.len() as int / (c as int),
                s.len() as int % (c as int) == 0,
                c >= 1,
        {
            vstd::arithmetic::div_mod::lemma_fundamental_div_mod(s.len() as int, c as int);
        }
        assert(frames * tr <= 0x1_0000_0000_0000_0000 * 0x1_0000_0000) by (nonlinear_arith)
            requires
                frames <= usize::MAX,
                tr <= u32::MAX,
        ;
    }
    let new_frames: u128 = frames as u128 * tr / orig;
    let mut out: Vec<T> = Vec::new();
    let mut k: u128 = 0;
    while k < new_frames
        invariant
            s == samples.samples@,
            s.len() <= usize::MAX,
            c == samples.metadata.channels,
            c >= 1,
            orig == samples.metadata.sample_rate,
            orig >= 1,
            tr == sample_rate,
            tr >= 1,
            s.len() == frames * c,
            frames == s.len() as int / c as int,
            new_frames == (frames * tr) as int / orig as int,
            frames * tr <= 0x1_0000_0000_0000_0000 * 0x1_0000_0000,
            target == resampled(s, c as int, orig as int, tr as int),
            k <= new_frames,
            out@ == target.subrange(0, k * c),
        decreases new_frames - k,
    {
        proof {
            assert(k * orig <= frames * tr) by (nonlinear_arith)
                requires
                    k < new_frames,
                    new_frames == (frames * tr) as int / orig as int,
                    orig >= 1,
            {
                vstd::arithmetic::div_mod::lemma_fundamental_div_mod((frames * tr) as int, orig as int);
                assert(new_frames * orig <= frames * tr);
            }
            assert(frames >= 1) by (nonlinear_arith)
                requires
                    k < new_frames,
                    new_frames == (frames * tr) as int / orig as int,
                    orig >= 1,
                    frames >= 0,
                    tr >= 1,
            {
                if frames == 0 {
                    assert(frames * tr == 0);
                }
            }
        }
        assert(2 * k <= u128::MAX && 2 * k * orig + tr <= u128::MAX) by (nonlinear_arith)
            requires
                k * orig <= frames * tr,
                frames * tr <= 0x1_0000_0000_0000_0000 * 0x1_0000_0000,
                tr <= u32::MAX,
                orig >= 1,
        ;
        let q = (2 * k * orig + tr) / (2 * tr);
        let src: usize = if q < frames as u128 {
            q as usize
        } else {
            frames - 1
        };
        assert(src * c + c <= frames * c) by (nonlinear_arith)
            requires
                src < frames,
        ;
        let mut ch: usize = 0;
        while ch < c
            invariant
                s == samples.samples@,
                s.len() <= usize::MAX,
                c >= 1,
                s.len() == frames * c,
                src * c + c <= s.len(),
                src == nearest_frame(k as int, orig as int, tr as int, frames as int),
                target == resampled(s, c as int, orig as int, tr as int),
                k < new_frames,
                new_frames == (frames * tr) as int / orig as int,
                frames == s.len() as int / c as int,
                ch <= c,
                out@ == target.subrange(0, k * c + ch),
            decreases c - ch,
        {
            proof {
                let idx = k * c + ch;
                assert(idx / (c as int) == k && idx % (c as int) == ch) by (nonlinear_arith)
                    requires
                        idx == k * c + ch,
                        ch < c,
                {
                    vstd::arithmetic::div_mod::lemma_fundamental_div_mod_converse(
                        idx,
                        c as int,
                        k as int,
                        ch as int,
                    );
                }
                assert(idx < new_frames * c) by (nonlinear_arith)
                    requires
                        idx == k * c + ch,
                        ch < c,
                        k < new_frames,
                ;
            }
            out.push(samples.samples[src * c + ch]);
            proof {
                assert(out@ =~= target.subrange(0, k * c + ch + 1));
            }
            ch += 1;
        }
        proof {
            assert(k * c + c == (k + 1) * c) by (nonlinear_arith);
        }
        k += 1;
    }
    proof {
        assert(out@ =~= target);
        assert((new_frames * c) % (c as int) == 0) by (nonlinear_arith)
            requires
                c >= 1,
        {
            vstd::arithmetic::div_mod::lemma_mod_multiples_basic(new_frames as int, c as int);
        }
    }
    Samples { samples: out, metadata: SamplesMetadata { sample_rate, ..samples.metadata } }
}

/// With as many destinations as sources, destination `j` overlaps source `j`
/// alone.
proof fn lemma_covers_same(n: int, j: int, i: int)
    requires
        n >= 1,
        0 <= j,
        0 <= i,
    ensures
        covers(n, n, j, i) <==> i == j,
{
    if i < j {
        assert((i + 1) * n <= j * n) by (nonlinear_arith)
            requires
                i + 1 <= j,
                n >= 1,
        ;
    } else if i > j {
        assert((j + 1) * n <= i * n) by (nonlinear_arith)
            requires
                j + 1 <= i,
                n >= 1,
        ;
    } else {
        assert(i * n < (j + 1) * n && (i + 1) * n > j * n) by (nonlinear_arith)
            requires
                i == j,
                n >= 1,
        ;
    }
}

proof fn lemma_identity_prefix(s: Seq<i64>, base: int, n: int, j: int, k: int)
    requires
        n >= 1,
        0 <= j < n,
        0 <= k <= n,
    ensures
        source_count(n, n, j, k) == if j < k {
            1int
        } else {
            0int
        },
        source_sum(s, base, n, n, j, k) == if j < k {
            s[base + j] as int
        } else {
            0int
        },
    decreases k,
{
    if k > 0 {
        lemma_identity_prefix(s, base, n, j, k - 1);
        lemma_covers_same(n, j, k - 1);
    }
}

/// Remixing a buffer into its own channel count leaves it unchanged.
pub proof fn lemma_remix_identity(s: Seq<i64>, n: int)
    requires
        n >= 1,
        s.len() as int % n == 0,
    ensures
        remixed(s, n, n) == s,
{
    let r = remixed(s, n, n);
    assert(s.len() as int / n * n == s.len()) by (nonlinear_arith)
        requires
            n >= 1,
            s.len() as int % n == 0,
    {
        vstd::arithmetic::div_mod::lemma_fundamental_div_mod(s.len() as int, n);
    }
    assert forall|k: int| 0 <= k < r.len() implies r[k] == s[k] by {
        let f = k / n;
        let j = k % n;
        vstd::arithmetic::div_mod::lemma_fundamental_div_mod(k, n);
        assert(f * n == n * f) by (nonlinear_arith);
        lemma_identity_prefix(s, f * n, n, j, n);
    }
    assert(r =~= s);
}

proof fn lemma_downmix_prefix(s: Seq<i64>, base: int, n: int, k: int)
    requires
        n >= 1,
        0 <= k <= n,
    ensures
        source_count(n, 1, 0, k) == k,
        source_sum(s, base, n, 1, 0, k) == frame_sum(s, base, k),
    decreases k,
{
    if k > 0 {
        lemma_downmix_prefix(s, base, n, k - 1);
        let i = k - 1;
        assert(i * 1 < (0 + 1) * n && (i + 1) * 1 > 0 * n) by (nonlinear_arith)
            requires
                0 <= i < n,
        ;
        assert(covers(n, 1, 0, i));
    }
}

/// Remixing into one channel keeps the frame count, and each output sample
/// is the mean (rounded down) of all the channels of its frame.
pub proof fn lemma_remix_downmix(s: Seq<i64>, n: int)
    requires
        n >= 1,
        s.len() as int % n == 0,
    ensures
        remixed(s, n, 1).len() == s.len() as int / n,
        forall|f: int|
            0 <= f < s.len() as int / n ==> #[trigger] remixed(s, n, 1)[f] == frame_sum(s, f * n, n) / n,
{
    assert forall|f: int| 0 <= f < s.len() as int / n implies #[trigger] remixed(s, n, 1)[f] == frame_sum(
        s,
        f * n,
        n,
    ) / n by {
        assert(f / 1 == f && f % 1 == 0);
        assert((f / 1) * n == f * n);
        assert(f * n + n <= s.len()) by (nonlinear_arith)
            requires
                0 <= f < s.len() as int / n,
                n >= 1,
        {
            vstd::arithmetic::div_mod::lemma_fundamental_div_mod(s.len() as int, n);
        }
        assert(0 <= f * n) by (nonlinear_arith)
            requires
                0 <= f,
                n >= 1,
        ;
        lemma_mixed_in_range(s, f * n, n, 1, 0);
        lemma_downmix_prefix(s, f * n, n, n);
    }
}

/// A mono buffer remixed into two channels and back is unchanged.
pub proof fn lemma_mono_stereo_round_trip(s: Seq<i64>)
    ensures
        remixed(remixed(s, 1, 2), 2, 1) == s,
{
    let t = remixed(s, 1, 2);
    assert(s.len() as int / 1 == s.len());
    assert(t.len() == 2 * s.len());
    assert forall|k: int| 0 <= k < t.len() implies t[k] == s[k / 2] by {
        assert((k / 2) * 1 == k / 2 && 0 * 2 < ((k % 2) + 1) * 1 && (0 + 1) * 2 > (k % 2) * 1)
            by (nonlinear_arith)
            requires
                0 <= k % 2 < 2,
        ;
        assert(covers(1, 2, k % 2, 0));
        reveal_with_fuel(source_count, 2);
        reveal_with_fuel(source_sum, 2);
        assert(source_count(1, 2, k % 2, 1) == 1);
        assert(source_sum(s, k / 2, 1, 2, k % 2, 1) == s[k / 2] as int);
    }
    lemma_remix_downmix(t, 2);
    let r = remixed(t, 2, 1);
    assert forall|f: int| 0 <= f < s.len() implies r[f] == s[f] by {
        assert((2 * f) / 2 == f && (2 * f + 1) / 2 == f);
        assert(t[2 * f] == s[f] && t[2 * f + 1] == s[f]);
        reveal_with_fuel(frame_sum, 3);
        assert(f * 2 == 2 * f);
        assert(frame_sum(t, f * 2, 2) == 2 * s[f]);
    }
    assert(r =~= s);
}

} // verus!
