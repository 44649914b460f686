//! Sample buffers, their metadata, channel (de)interleaving, and the
//! conversion of a buffer to and from the working representation.
use vstd::prelude::*;

use crate::codec::AudioCodec;
use crate::sample::{IntermediateSampleType, Sample, SampleType};
use crate::traits::AudioMetadataTrait;

verus! {

/// Metadata about audio samples: how many channels are interleaved, how many
/// frames are consumed per second, and which encoding the samples carry.
#[derive(Debug, Clone, Copy, PartialEq, Eq, Structural)]
pub struct SamplesMetadata {
    /// Numbers of channels: mono = 1, stereo = 2, etc.
    pub channels: u16,
    /// The number of frames per second (Hz).
    pub sample_rate: u32,
    /// The encoding of the samples.
    pub sample_type: SampleType,
}

impl SamplesMetadata {
    /// At least one channel and a positive sample rate.
    pub open spec fn wf(&self) -> bool {
        self.channels >= 1 && self.sample_rate > 0
    }

    /// Creates metadata from its three parts.
    pub fn new(channels: u16, sample_rate: u32, sample_type: SampleType) -> (r: SamplesMetadata)
        ensures
            r.channels == channels,
            r.sample_rate == sample_rate,
            r.sample_type == sample_type,
    {
        SamplesMetadata { channels, sample_rate, sample_type }
    }
}

impl AudioMetadataTrait for SamplesMetadata {
    open spec fn channel_count(&self) -> u32 {
        self.channels as u32
    }

    fn file_path(&self) -> (r: Option<String>)
        ensures
            r.is_none(),
    {
        None
    }

    fn audio_codec(&self) -> (r: AudioCodec)
        ensures
            r == AudioCodec::LPcm,
    {
        AudioCodec::LPcm
    }

    fn channels(&self) -> (r: u32)
        ensures
            r == self.channels,
    {
        self.channels as u32
    }

    fn sample_rate(&self) -> (r: u32)
        ensures
            r == self.sample_rate,
    {
        self.sample_rate
    }

    fn sample_type(&self) -> (r: Option<SampleType>)
        ensures
            r == Some(self.sample_type),
    {
        Some(self.sample_type)
    }
}

/// A buffer of channel-interleaved samples with its metadata: for `C`
/// channels, element `i` belongs to channel `i % C` and frame `i / C`.
#[derive(Debug, Clone)]
pub struct Samples<T> {
    /// The interleaved samples.
    pub samples: Vec<T>,
    /// The metadata describing `samples`.
    pub metadata: SamplesMetadata,
}

impl<T> View for Samples<T> {
    type V = (Seq<T>, SamplesMetadata);

    open spec fn view(&self) -> (Seq<T>, SamplesMetadata) {
        (self.samples@, self.metadata)
    }
}

/// A buffer view is well formed: valid metadata and whole frames only.
pub open spec fn buffer_wf<T>(b: (Seq<T>, SamplesMetadata)) -> bool {
    b.1.wf() && b.0.len() as int % (b.1.channels as int) == 0
}

/// The samples of channel `c` of an interleaved sequence with `n` channels.
pub open spec fn channel_of<T>(s: Seq<T>, n: int, c: int) -> Seq<T> {
    Seq::new((s.len() as int / n) as nat, |f: int| s[f * n + c])
}

/// The interleaving of `channels`, `frames` frames long.
pub open spec fn interleaved<T>(channels: Seq<Seq<T>>, frames: int) -> Seq<T> {
    Seq::new(
        (frames * channels.len()) as nat,
        |k: int| channels[k % channels.len() as int][k / channels.len() as int],
    )
}

/// The working-representation view of a sequence of samples.
pub open spec fn working_of<T: Sample>(s: Seq<T>) -> Seq<IntermediateSampleType> {
    s.map_values(|x: T| x.to_working_spec())
}

/// The samples of encoding `T` that stand for a sequence of working values.
pub open spec fn encoded_as<T: Sample>(s: Seq<IntermediateSampleType>) -> Seq<T> {
    s.map_values(|w: IntermediateSampleType| T::from_working_spec(w))
}

/// The metadata `m` with the encoding tag of `T`.
pub open spec fn tagged_as<T: Sample>(m: SamplesMetadata) -> SamplesMetadata {
    SamplesMetadata { sample_type: T::sample_type_spec(), ..m }
}

/// Copies the contents of a vector.
pub(crate) fn copy_vec<T: Copy>(v: &Vec<T>) -> (r: Vec<T>)
    ensures
        r@ == v@,
{
    let mut r: Vec<T> = Vec::new();
    let mut i: usize = 0;
    while i < v.len()
        invariant
            i <= v.len(),
            r@ == v@.subrange(0, i as int),
        decreases v.len() - i,
    {
        r.push(v[i]);
        i += 1;
    }
    assert(r@ =~= v@);
    r
}

/// Another name for `SamplesMetadata`.
pub type SampleMetadata = SamplesMetadata;

impl<T: Copy> Samples<T> {
    /// Well formed: valid metadata and whole frames only.
    pub open spec fn wf(&self) -> bool {
        buffer_wf(self@)
    }

    /// Creates a new buffer.
    pub fn new(samples: Vec<T>, metadata: SamplesMetadata) -> (r: Samples<T>)
        ensures
            r.samples == samples,
            r.metadata == metadata,
    {
        Samples { samples, metadata }
    }

    /// Gives up the buffer and returns its samples.
    pub fn samples(self) -> (r: Vec<T>)
        ensures
            r == self.samples,
    {
        self.samples
    }

    /// Returns the metadata of the buffer.
    pub fn metadata(&self) -> (r: &SamplesMetadata)
        ensures
            *r == self.metadata,
    {
        &self.metadata
    }

    /// Copies the buffer.
    pub fn duplicate(&self) -> (r: Samples<T>)
        ensures
            r@ == self@,
    {
        Samples { samples: copy_vec(&self.samples), metadata: self.metadata }
    }
}

impl<T: Sample> Samples<T> {
    /// Updates the encoding tag of the metadata to the encoding of the
    /// samples, when there is at least one sample.
    pub fn update_sample_type(&mut self)
        ensures
            final(self).samples == old(self).samples,
            old(self).samples@.len() > 0 ==> final(self).metadata == tagged_as::<T>(
                old(self).metadata,
            ),
            old(self).samples@.len() == 0 ==> final(self).metadata == old(self).metadata,
    {
        if self.samples.len() > 0 {
            self.metadata.sample_type = T::sample_type();
        }
    }

    /// Converts the buffer into the working representation. The metadata,
    /// including the encoding tag, is kept: it records the encoding the
    /// samples came from.
    pub fn into_generic_representation_samples(self) -> (r: Samples<IntermediateSampleType>)
        ensures
            r.samples@ == working_of(self.samples@),
            r.metadata == self.metadata,
    {
        let mut out: Vec<IntermediateSampleType> = Vec::new();
        let mut i: usize = 0;
        while i < self.samples.len()
            invariant
                i <= self.samples.len(),
                out@ == working_of(self.samples@.subrange(0, i as int)),
            decreases self.samples.len() - i,
        {
            out.push(self.samples[i].to_working());
            proof {
                assert(working_of(self.samples@.subrange(0, i + 1)) =~= working_of(
                    self.samples@.subrange(0, i as int),
                ).push(self.samples@[i as int].to_working_spec()));
            }
            i += 1;
        }
        assert(self.samples@.subrange(0, i as int) =~= self.samples@);
        Samples { samples: out, metadata: self.metadata }
    }

    /// Makes a working-representation copy of the buffer.
    pub fn generic_representation_samples(&self) -> (r: Samples<IntermediateSampleType>)
        ensures
            r.samples@ == working_of(self.samples@),
            r.metadata == self.metadata,
    {
        self.duplicate().into_generic_representation_samples()
    }
}

impl Samples<IntermediateSampleType> {
    /// Converts a working-representation buffer into the encoding `T`,
    /// saturating values outside its range; the encoding tag becomes `T`'s,
    /// empty buffers included.
    pub fn into_t_samples<T: Sample>(self) -> (r: Samples<T>)
        ensures
            r.samples@ == encoded_as::<T>(self.samples@),
            r.metadata == tagged_as::<T>(self.metadata),
    {
        let mut out: Vec<T> = Vec::new();
        let mut i: usize = 0;
        while i < self.samples.len()
            invariant
                i <= self.samples.len(),
                out@ == encoded_as::<T>(self.samples@.subrange(0, i as int)),
            decreases self.samples.len() - i,
        {
            out.push(T::from_working(self.samples[i]));
            proof {
                assert(encoded_as::<T>(self.samples@.subrange(0, i + 1)) =~= encoded_as::<T>(
                    self.samples@.subrange(0, i as int),
                ).push(T::from_working_spec(self.samples@[i as int])));
            }
            i += 1;
        }
        assert(self.samples@.subrange(0, i as int) =~= self.samples@);
        let metadata = SamplesMetadata { sample_type: T::sample_type(), ..self.metadata };
        Samples { samples: out, metadata }
    }
}

/// Tells the encoding of a buffer from the type of its samples.
pub trait GetRealSampleType {
    /// Returns the encoding of the samples, if it is a known one.
    fn get_real_sample_type(&self) -> Option<SampleType> {
        None
    }
}

impl<T: Sample> GetRealSampleType for Samples<T> {
    fn get_real_sample_type(&self) -> (r: Option<SampleType>)
        ensures
            r == Some(T::sample_type_spec()),
    {
        Some(T::sample_type())
    }
}

/// Separates an interleaved buffer into one vector per channel.
pub fn seperate_channels<T: Copy>(samples: Samples<T>) -> (r: Vec<Vec<T>>)
    requires
        samples.wf(),
    ensures
        r.len() == samples.metadata.channels,
        forall|c: int|
            0 <= c < r.len() ==> #[trigger] r[c]@ == channel_of(
                samples.samples@,
                samples.metadata.channels as int,
                c,
            ),
{
    let n = samples.metadata.channels as usize;
    let frames = samples.samples.len() / n;
    let ghost s = samples.samples@;
    let mut channels: Vec<Vec<T>> = Vec::new();
    assert(s.len() == samples.samples.len());
    let mut c: usize = 0;
    while c < n
        invariant
            n == samples.metadata.channels,
            n >= 1,
            frames == s.len() as int / (n as int),
            s.len() as int % (n as int) == 0,
            s == samples.samples@,
            s.len() <= usize::MAX,
            c <= n,
            channels.len() == c,
            forall|k: int| 0 <= k < c ==> #[trigger] channels[k]@ == channel_of(s, n as int, k),
        decreases n - c,
    {
        let mut channel: Vec<T> = Vec::new();
        let mut f: usize = 0;
        while f < frames
            invariant
                n == samples.metadata.channels,
                n >= 1,
                frames == s.len() as int / (n as int),
                s.len() as int % (n as int) == 0,
                s == samples.samples@,
                s.len() <= usize::MAX,
                c < n,
                f <= frames,
                channel@ == channel_of(s, n as int, c as int).subrange(0, f as int),
            decreases frames - f,
        {
            assert(f * n + c < s.len()) by (nonlinear_arith)
                requires
                    f < frames,
                    c < n,
                    frames == s.len() as int / (n as int),
                    s.len() as int % (n as int) == 0,
                    n >= 1,
            {
                assert(s.len() == frames * n);
            }
            channel.push(samples.samples[f * n + c]);
            proof {
                assert(channel@ =~= channel_of(s, n as int, c as int).subrange(0, f + 1));
            }
            f += 1;
        }
        assert(channel@ =~= channel_of(s, n as int, c as int));
        channels.push(channel);
        c += 1;
    }
    channels
}

/// Joins per-channel vectors into one interleaved vector, as many frames long
/// as the first channel.
pub fn join_channels<T: Copy>(seperated_channels: Vec<Vec<T>>) -> (r: Vec<T>)
    requires
        seperated_channels.len() >= 1,
        forall|c: int|
            0 <= c < seperated_channels.len() ==> #[trigger] seperated_channels[c].len()
                >= seperated_channels[0].len(),
    ensures
        r@ == interleaved(
            seperated_channels@.map_values(|v: Vec<T>| v@),
            seperated_channels[0].len() as int,
        ),
{
    let ghost chans = seperated_channels@.map_values(|v: Vec<T>| v@);
    let n = seperated_channels.len();
    let lenght = seperated_channels[0].len();
    let mut coalescence: Vec<T> = Vec::new();
    let mut i: usize = 0;
    while i < lenght
        invariant
            n == seperated_channels.len(),
            n >= 1,
            lenght == seperated_channels[0].len(),
            chans == seperated_channels@.map_values(|v: Vec<T>| v@),
            forall|c: int|
                0 <= c < seperated_channels.len() ==> #[trigger] seperated_channels[c].len()
                    >= lenght,
            i <= lenght,
            coalescence@ == interleaved(chans, lenght as int).subrange(0, i * n),
        decreases lenght - i,
    {
        let mut c: usize = 0;
        while c < n
            invariant
                n == seperated_channels.len(),
                n >= 1,
                lenght == seperated_channels[0].len(),
                chans == seperated_channels@.map_values(|v: Vec<T>| v@),
                forall|c: int|
                    0 <= c < seperated_channels.len() ==> #[trigger] seperated_channels[c].len()
                        >= lenght,
                i < lenght,
                c <= n,
                coalescence@ == interleaved(chans, lenght as int).subrange(0, i * n + c),
            decreases n - c,
        {
            proof {
                assert(i * n + c < lenght * n) by (nonlinear_arith)
                    requires
                        i < lenght,
                        c < n,
                ;
                assert((i * n + c) % (n as int) == c && (i * n + c) / (n as int) == i)
                    by (nonlinear_arith)
                    requires
                        c < n,
                        n >= 1,
                {
                    vstd::arithmetic::div_mod::lemma_fundamental_div_mod_converse(
                        (i * n + c) as int,
                        n as int,
                        i as int,
                        c as int,
                    );
                }
            }
            assert(seperated_channels[c as int].len() >= lenght);
            coalescence.push(seperated_channels[c][i]);
            proof {
                assert(coalescence@ =~= interleaved(chans, lenght as int).subrange(
                    0,
                    i * n + c + 1,
                ));
            }
            c += 1;
        }
        proof {
            assert(i * n + n == (i + 1) * n) by (nonlinear_arith);
        }
        i += 1;
    }
    assert(coalescence@ =~= interleaved(chans, lenght as int));
    coalescence
}

/// Converting a buffer to the working representation and back keeps its
/// length and its working values exactly, changes each sample's level by
/// less than its encoding's quantum (never upwards), and gives equilibrium
/// back for equilibrium.
pub proof fn lemma_buffer_round_trip<T: Sample>(s: Seq<T>)
    ensures
        encoded_as::<T>(working_of(s)).len() == s.len(),
        working_of(encoded_as::<T>(working_of(s))) == working_of(s),
        forall|i: int|
            0 <= i < s.len() ==> s[i].level() - T::quantum() < #[trigger] encoded_as::<T>(
                working_of(s),
            )[i].level() <= s[i].level(),
        forall|i: int|
            0 <= i < s.len() && s[i] == T::equilibrium_spec() ==> #[trigger] encoded_as::<T>(
                working_of(s),
            )[i] == T::equilibrium_spec(),
{
    assert forall|i: int| 0 <= i < s.len() implies s[i].level() - T::quantum()
        < #[trigger] encoded_as::<T>(working_of(s))[i].level() <= s[i].level() by {
        T::lemma_round_trip(s[i]);
    }
    assert forall|i: int| 0 <= i < s.len() implies #[trigger] working_of(
        encoded_as::<T>(working_of(s)),
    )[i] == working_of(s)[i] by {
        T::lemma_round_trip(s[i]);
    }
    assert(working_of(encoded_as::<T>(working_of(s))) =~= working_of(s));
    T::lemma_equilibrium();
}

/// A working buffer of silence re-encodes as equilibrium in every encoding.
pub proof fn lemma_silence_is_equilibrium<T: Sample>(n: nat)
    ensures
        encoded_as::<T>(Seq::new(n, |i: int| 0i64)) == Seq::new(n, |i: int| T::equilibrium_spec()),
{
    T::lemma_equilibrium();
    assert(encoded_as::<T>(Seq::new(n, |i: int| 0i64)) =~= Seq::new(
        n,
        |i: int| T::equilibrium_spec(),
    ));
}

} // verus!
