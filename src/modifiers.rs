//! Modifiers: pure transformations of working-representation buffers, and
//! the built-in ones (volume, looping, flattening, degrading).
use vstd::prelude::*;

use crate::remix::{into_n_channels, into_sample_rate, remixed, resampled};
use crate::sample::{clamp, floor_div, saturate_i64, IntermediateSampleType};
use crate::samples::{
    buffer_wf, copy_vec, encoded_as, working_of, Samples, SamplesMetadata,
};

verus! {

/// The low sample rate that `Shittify` passes the audio through.
pub const DEGRADED_SAMPLE_RATE: u32 = 12000;

/// A sample modifier (an effect): a pure function of its own parameters from
/// a working-representation buffer to another. With two channels the samples
/// are arranged left, right, left, right, ...
pub trait ModifierTrait {
    /// The buffer this modifier turns `b` into.
    spec fn modified(&self, b: (Seq<IntermediateSampleType>, SamplesMetadata)) -> (
        Seq<IntermediateSampleType>,
        SamplesMetadata,
    );

    /// Applies the modifier.
    fn modify(&self, samples: Samples<IntermediateSampleType>) -> (r: Samples<
        IntermediateSampleType,
    >)
        requires
            samples.wf(),
        ensures
            r.wf(),
            r@ == self.modified(samples@),
    ;
}

/// A working sample scaled by `numerator / denominator`, rounded down, and
/// limited to the range of the working representation. A zero denominator
/// is a gain of zero.
pub open spec fn scaled(w: IntermediateSampleType, numerator: i32, denominator: u32) -> IntermediateSampleType {
    if denominator == 0 {
        0
    } else {
        clamp(
            (w as int * numerator as int) / denominator as int,
            i64::MIN as int,
            i64::MAX as int,
        ) as i64
    }
}

/// `s` followed by itself, `times` times in all.
pub open spec fn repeated<T>(s: Seq<T>, times: int) -> Seq<T> {
    Seq::new((s.len() * times) as nat, |k: int| s[k % (s.len() as int)])
}

/// Multiplies the amplitude by the gain `numerator / denominator`.
#[derive(Debug, Clone, Copy)]
pub struct Volume {
    /// The numerator of the gain.
    pub numerator: i32,
    /// The denominator of the gain; zero silences.
    pub denominator: u32,
}

impl Volume {
    /// Well formed: the denominator is not zero.
    pub open spec fn wf(&self) -> bool {
        self.denominator > 0
    }

    /// The gain `numerator / denominator`.
    pub fn new(numerator: i32, denominator: u32) -> (r: Volume)
        requires
            denominator > 0,
        ensures
            r.numerator == numerator,
            r.denominator == denominator,
            r.wf(),
    {
        Volume { numerator, denominator }
    }

    /// Scales every sample.
    pub fn apply(&self, samples: Samples<IntermediateSampleType>) -> (r: Samples<
        IntermediateSampleType,
    >)
        requires
            self.wf(),
        ensures
            r.metadata == samples.metadata,
            r.samples@ == samples.samples@.map_values(
                |w: IntermediateSampleType| scaled(w, self.numerator, self.denominator),
            ),
    {
        let ghost target = samples.samples@.map_values(
            |w: IntermediateSampleType| scaled(w, self.numerator, self.denominator),
        );
        let mut out: Vec<IntermediateSampleType> = Vec::new();
        let mut i: usize = 0;
        while i < samples.samples.len()
            invariant
                self.wf(),
                i <= samples.samples.len(),
                target == samples.samples@.map_values(
                    |w: IntermediateSampleType| scaled(w, self.numerator, self.denominator),
                ),
                out@ == target.subrange(0, i as int),
            decreases samples.samples.len() - i,
        {
            let w = samples.samples[i];
            assert(i64::MIN * 4294967296 <= w * self.numerator <= i64::MAX * 4294967296)
                by (nonlinear_arith)
                requires
                    i64::MIN <= w <= i64::MAX,
                    i32::MIN <= self.numerator <= i32::MAX,
            ;
            let p = w as i128 * self.numerator as i128;
            out.push(saturate_i64(floor_div(p, self.denominator as i128)));
            assert(out@ =~= target.subrange(0, i + 1));
            i += 1;
        }
        assert(out@ =~= target);
        Samples { samples: out, metadata: samples.metadata }
    }
}

impl ModifierTrait for Volume {
    open spec fn modified(&self, b: (Seq<IntermediateSampleType>, SamplesMetadata)) -> (
        Seq<IntermediateSampleType>,
        SamplesMetadata,
    ) {
        (b.0.map_values(|w: IntermediateSampleType| scaled(w, self.numerator, self.denominator)), b.1)
    }

    fn modify(&self, samples: Samples<IntermediateSampleType>) -> (r: Samples<
        IntermediateSampleType,
    >) {
        if self.denominator == 0 {
            let silent = Volume { numerator: 0, denominator: 1 };
            let r = silent.apply(samples);
            assert(r.samples@ =~= self.modified(samples@).0);
            return r;
        }
        self.apply(samples)
    }
}

/// Appends `n` more copies of the buffer to itself.
#[derive(Debug, Clone, Copy)]
pub struct Loop(pub u32);

impl ModifierTrait for Loop {
    open spec fn modified(&self, b: (Seq<IntermediateSampleType>, SamplesMetadata)) -> (
        Seq<IntermediateSampleType>,
        SamplesMetadata,
    ) {
        (repeated(b.0, self.0 as int + 1), b.1)
    }

    fn modify(&self, samples: Samples<IntermediateSampleType>) -> (r: Samples<
        IntermediateSampleType,
    >) {
        let ghost s = samples.samples@;
        let mut out = copy_vec(&samples.samples);
        let mut k: u32 = 0;
        proof {
            assert forall|i: int| 0 <= i < s.len() implies #[trigger] s[i % (s.len() as int)] == s[i] by {
                vstd::arithmetic::div_mod::lemma_small_mod(i as nat, s.len());
            }
            assert(out@ =~= repeated(s, 1));
        }
        while k < self.0
            invariant
                s == samples.samples@,
                k <= self.0,
                out@ == repeated(s, k + 1),
            decreases self.0 - k,
        {
            let mut copy = copy_vec(&samples.samples);
            out.append(&mut copy);
            proof {
                let len = s.len() as int;
                assert(len * (k + 2) == len * (k + 1) + len) by (nonlinear_arith);
                assert forall|i: int| 0 <= i < out@.len() implies out@[i] == repeated(s, k + 2)[i] by {
                    if i >= len * (k + 1) {
                        assert(len * (k + 1) == (k + 1) * len) by (nonlinear_arith);
                        vstd::arithmetic::div_mod::lemma_fundamental_div_mod_converse(
                            i,
                            len,
                            (k + 1) as int,
                            i - len * (k + 1),
                        );
                        assert(len * (k + 1) == (k + 1) * len) by (nonlinear_arith);
                    }
                }
                assert(s.len() * (k + 2) == s.len() * (k + 1) + s.len()) by (nonlinear_arith);
                assert(out@ =~= repeated(s, k + 2));
            }
            k += 1;
        }
        proof {
            let n = samples.metadata.channels as int;
            let q = s.len() as int / n;
            let m = self.0 + 1;
            vstd::arithmetic::div_mod::lemma_fundamental_div_mod(s.len() as int, n);
            assert(s.len() * m == (q * m) * n) by (nonlinear_arith)
                requires
                    s.len() == n * q,
            ;
            vstd::arithmetic::div_mod::lemma_mod_multiples_basic(q * m, n);
        }
        Samples { samples: out, metadata: samples.metadata }
    }
}

/// Remixes to one channel and back to the original channel count: an audibly
/// mono signal with the original metadata.
#[derive(Debug, Clone, Copy)]
pub struct Flatten;

impl ModifierTrait for Flatten {
    open spec fn modified(&self, b: (Seq<IntermediateSampleType>, SamplesMetadata)) -> (
        Seq<IntermediateSampleType>,
        SamplesMetadata,
    ) {
        (remixed(remixed(b.0, b.1.channels as int, 1), 1, b.1.channels as int), b.1)
    }

    fn modify(&self, samples: Samples<IntermediateSampleType>) -> (r: Samples<
        IntermediateSampleType,
    >) {
        let original_metadata = samples.metadata;
        let one_channel_samples = into_n_channels(samples, 1);
        let original_channel_count_samples = into_n_channels(
            one_channel_samples,
            original_metadata.channels,
        );
        Samples { samples: original_channel_count_samples.samples, metadata: original_metadata }
    }
}

/// The samples of a buffer with metadata `m` after `Shittify`: downmixed,
/// taken down to `DEGRADED_SAMPLE_RATE`, re-encoded as `u8` and back, taken
/// back up to the original rate, and remixed to the original channel count.
pub open spec fn degraded(s: Seq<IntermediateSampleType>, m: SamplesMetadata) -> Seq<
    IntermediateSampleType,
> {
    let mono = remixed(s, m.channels as int, 1);
    let low = resampled(mono, 1, m.sample_rate as int, DEGRADED_SAMPLE_RATE as int);
    let narrow = encoded_as::<u8>(low);
    let back = resampled(narrow, 1, DEGRADED_SAMPLE_RATE as int, m.sample_rate as int);
    remixed(working_of(back), 1, m.channels as int)
}

/// Intentional fidelity loss: mono, a low sample rate and 8-bit quantization,
/// with the original sample rate and channel count restored.
#[derive(Debug, Clone, Copy)]
pub struct Shittify;

impl ModifierTrait for Shittify {
    open spec fn modified(&self, b: (Seq<IntermediateSampleType>, SamplesMetadata)) -> (
        Seq<IntermediateSampleType>,
        SamplesMetadata,
    ) {
        (degraded(b.0, b.1), b.1)
    }

    fn modify(&self, samples: Samples<IntermediateSampleType>) -> (r: Samples<
        IntermediateSampleType,
    >) {
        let original_metadata = samples.metadata;
        let one_channel_samples = into_n_channels(samples, 1);
        let low_sample_rate_samples = into_sample_rate(one_channel_samples, DEGRADED_SAMPLE_RATE);
        let u8_samples = low_sample_rate_samples.into_t_samples::<u8>();
        proof {
            assert(buffer_wf(u8_samples@));
        }
        let normal_sample_rate_samples = into_sample_rate(u8_samples, original_metadata.sample_rate);
        let normal_type_samples = normal_sample_rate_samples.into_generic_representation_samples();
        let normal_channel_nb_samples = into_n_channels(
            normal_type_samples,
            original_metadata.channels,
        );
        Samples { samples: normal_channel_nb_samples.samples, metadata: original_metadata }
    }
}

/// The built-in modifiers, as one type that a player can hold a list of.
#[derive(Debug, Clone, Copy)]
pub enum Modifier {
    Volume(Volume),
    Loop(Loop),
    Flatten(Flatten),
    Shittify(Shittify),
}

impl ModifierTrait for Modifier {
    open spec fn modified(&self, b: (Seq<IntermediateSampleType>, SamplesMetadata)) -> (
        Seq<IntermediateSampleType>,
        SamplesMetadata,
    ) {
        match self {
            Modifier::Volume(v) => v.modified(b),
            Modifier::Loop(l) => l.modified(b),
            Modifier::Flatten(f) => f.modified(b),
            Modifier::Shittify(d) => d.modified(b),
        }
    }

    fn modify(&self, samples: Samples<IntermediateSampleType>) -> (r: Samples<
        IntermediateSampleType,
    >) {
        match self {
            Modifier::Volume(v) => v.modify(samples),
            Modifier::Loop(l) => l.modify(samples),
            Modifier::Flatten(f) => f.modify(samples),
            Modifier::Shittify(d) => d.modify(samples),
        }
    }
}

/// A gain of zero silences every sample and keeps the length and metadata; a
/// gain of one changes nothing.
pub proof fn lemma_volume_silence_and_unity(b: (Seq<IntermediateSampleType>, SamplesMetadata))
    ensures
        (Volume { numerator: 0, denominator: 1 }).modified(b).0 == Seq::new(
            b.0.len(),
            |i: int| 0i64,
        ),
        (Volume { numerator: 0, denominator: 1 }).modified(b).1 == b.1,
        (Volume { numerator: 1, denominator: 1 }).modified(b) == b,
{
    let silent = Volume { numerator: 0, denominator: 1 };
    let unity = Volume { numerator: 1, denominator: 1 };
    assert(silent.modified(b).0 =~= Seq::new(b.0.len(), |i: int| 0i64));
    assert(unity.modified(b).0 =~= b.0);
}

/// Looping `n` times multiplies the length by `n + 1` and keeps the buffer
/// as it was at the start.
pub proof fn lemma_loop_length_and_prefix(b: (Seq<IntermediateSampleType>, SamplesMetadata), n: u32)
    ensures
        Loop(n).modified(b).0.len() == b.0.len() * (n + 1),
        Loop(n).modified(b).0.subrange(0, b.0.len() as int) == b.0,
        Loop(n).modified(b).1 == b.1,
{
    let r = Loop(n).modified(b).0;
    assert(b.0.len() <= b.0.len() * (n + 1)) by (nonlinear_arith);
    assert forall|i: int| 0 <= i < b.0.len() implies r[i] == b.0[i] by {
        vstd::arithmetic::div_mod::lemma_small_mod(i as nat, b.0.len());
    }
    assert(r.subrange(0, b.0.len() as int) =~= b.0);
}

} // verus!
