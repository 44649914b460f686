//! The player: an original buffer, an ordered chain of modifiers, and the
//! effective buffer that always equals the whole chain applied to a fresh
//! working copy of the original; plus the lifecycle of its output stream and
//! the reads that the realtime consumer makes of the effective buffer.
use vstd::prelude::*;

use crate::config::{find_fitting_stream_config, negotiated, SupportedConfigRange};
use crate::errors::PlayError;
use crate::modifiers::ModifierTrait;
use crate::sample::{IntermediateSampleType, Sample};
use crate::samples::{buffer_wf, encoded_as, tagged_as, working_of, Samples, SamplesMetadata};

verus! {

/// The buffer that applying `mods`, in order, to `b` gives.
pub open spec fn apply_chain<M: ModifierTrait>(
    mods: Seq<M>,
    b: (Seq<IntermediateSampleType>, SamplesMetadata),
) -> (Seq<IntermediateSampleType>, SamplesMetadata)
    decreases mods.len(),
{
    if mods.len() == 0 {
        b
    } else {
        mods.last().modified(apply_chain(mods.drop_last(), b))
    }
}

/// The effective buffer of a player: the original converted to the working
/// representation, run through the whole chain, and re-encoded as `T`.
pub open spec fn effective_of<T: Sample, M: ModifierTrait>(
    original: (Seq<T>, SamplesMetadata),
    mods: Seq<M>,
) -> (Seq<T>, SamplesMetadata) {
    let w = apply_chain(mods, (working_of(original.0), original.1));
    (encoded_as::<T>(w.0), tagged_as::<T>(w.1))
}

/// The lifecycle of a player's output stream.
#[derive(Debug, Clone, Copy, PartialEq, Eq, Structural)]
pub enum StreamState {
    /// No output stream exists.
    Idle,
    /// A stream exists and consumes samples.
    Streaming,
    /// A stream exists and is paused.
    Paused,
}

/// Holds an original buffer and a chain of modifiers, and keeps the effective
/// buffer up to date with every change of the chain.
pub struct SamplesPlayer<T, M> {
    original_samples: Samples<T>,
    modifiers: Vec<M>,
    samples_with_modifiers: Samples<T>,
    stream_state: StreamState,
}

impl<T: Sample, M: ModifierTrait> SamplesPlayer<T, M> {
    /// The original buffer, fixed for the player's lifetime.
    pub closed spec fn original(&self) -> (Seq<T>, SamplesMetadata) {
        self.original_samples@
    }

    /// The chain of modifiers, in order of application.
    pub closed spec fn modifier_list(&self) -> Seq<M> {
        self.modifiers@
    }

    /// The effective buffer.
    pub closed spec fn effective(&self) -> (Seq<T>, SamplesMetadata) {
        self.samples_with_modifiers@
    }

    /// The state of the output stream.
    pub closed spec fn state(&self) -> StreamState {
        self.stream_state
    }

    /// The original is well formed and the effective buffer is the chain
    /// applied to it.
    pub open spec fn wf(&self) -> bool {
        &&& buffer_wf(self.original())
        &&& self.effective() == effective_of(self.original(), self.modifier_list())
    }

    /// Runs the whole chain on a fresh working copy of `original`.
    fn evaluate(original: &Samples<T>, modifiers: &Vec<M>) -> (r: Samples<T>)
        requires
            original.wf(),
        ensures
            r@ == effective_of(original@, modifiers@),
    {
        let mut modified_samples = original.generic_representation_samples();
        let ghost start = modified_samples@;
        let mut i: usize = 0;
        while i < modifiers.len()
            invariant
                i <= modifiers.len(),
                start == (working_of(original.samples@), original.metadata),
                modified_samples.wf(),
                modified_samples@ == apply_chain(modifiers@.subrange(0, i as int), start),
            decreases modifiers.len() - i,
        {
            modified_samples = modifiers[i].modify(modified_samples);
            proof {
                let prefix = modifiers@.subrange(0, i + 1);
                assert(prefix.drop_last() =~= modifiers@.subrange(0, i as int));
                assert(prefix.last() == modifiers@[i as int]);
            }
            i += 1;
        }
        assert(modifiers@.subrange(0, i as int) =~= modifiers@);
        modified_samples.into_t_samples::<T>()
    }

    /// Creates a player with an empty chain and no output stream.
    pub fn new(samples: Samples<T>) -> (r: Self)
        requires
            samples.wf(),
        ensures
            r.wf(),
            r.effective() == effective_of(samples@, Seq::<M>::empty()),
            r.original() == samples@,
            r.modifier_list() == Seq::<M>::empty(),
            r.state() == StreamState::Idle,
    {
        let modifiers: Vec<M> = Vec::new();
        let samples_with_modifiers = Self::evaluate(&samples, &modifiers);
        SamplesPlayer {
            original_samples: samples,
            modifiers,
            samples_with_modifiers,
            stream_state: StreamState::Idle,
        }
    }

    /// Returns the metadata of the original buffer.
    pub fn metadata(&self) -> (r: SamplesMetadata)
        ensures
            r == self.original().1,
    {
        self.original_samples.metadata
    }

    /// Returns the effective buffer, the one to publish to the consumer.
    pub fn samples_with_modifiers(&self) -> (r: &Samples<T>)
        ensures
            r@ == self.effective(),
    {
        &self.samples_with_modifiers
    }

    /// Returns the state of the output stream.
    pub fn stream_state(&self) -> (r: StreamState)
        ensures
            r == self.state(),
    {
        self.stream_state
    }

    /// Recomputes the effective buffer from a fresh working copy of the
    /// original; it depends on the original and the chain alone.
    pub fn apply_modifiers(&mut self)
        requires
            buffer_wf(old(self).original()),
        ensures
            final(self).wf(),
            final(self).effective() == effective_of(final(self).original(), final(self).modifier_list()),
            final(self).original() == old(self).original(),
            final(self).modifier_list() == old(self).modifier_list(),
            final(self).state() == old(self).state(),
    {
        self.samples_with_modifiers = Self::evaluate(&self.original_samples, &self.modifiers);
    }

    /// Appends a modifier to the chain and re-evaluates the whole chain.
    pub fn add_modifier(&mut self, modifier: M)
        requires
            old(self).wf(),
        ensures
            final(self).wf(),
            final(self).effective() == effective_of(final(self).original(), final(self).modifier_list()),
            final(self).original() == old(self).original(),
            final(self).modifier_list() == old(self).modifier_list().push(modifier),
            final(self).state() == old(self).state(),
    {
        self.modifiers.push(modifier);
        self.apply_modifiers();
    }

    /// Empties the chain and re-evaluates it.
    pub fn clear_modifiers(&mut self)
        requires
            old(self).wf(),
        ensures
            final(self).wf(),
            final(self).effective() == effective_of(final(self).original(), final(self).modifier_list()),
            final(self).original() == old(self).original(),
            final(self).modifier_list() == Seq::<M>::empty(),
            final(self).state() == old(self).state(),
    {
        self.modifiers = Vec::new();
        self.apply_modifiers();
    }

    /// Prepares playing on a device that advertises `configs`: re-evaluates
    /// the chain and negotiates a configuration for the original metadata.
    /// The stream state is unchanged; `set_stream` records a started stream.
    pub fn play_on_device(&mut self, configs: &Vec<SupportedConfigRange>) -> (r: Result<
        SupportedConfigRange,
        PlayError,
    >)
        requires
            old(self).wf(),
        ensures
            final(self).wf(),
            final(self).effective() == effective_of(final(self).original(), final(self).modifier_list()),
            final(self).original() == old(self).original(),
            final(self).modifier_list() == old(self).modifier_list(),
            final(self).state() == old(self).state(),
            negotiated(configs@, old(self).original().1, r),
    {
        self.apply_modifiers();
        find_fitting_stream_config(&self.original_samples.metadata, configs)
    }

    /// Records that an output stream was created and started.
    pub fn set_stream(&mut self)
        requires
            old(self).wf(),
        ensures
            final(self).wf(),
            final(self).effective() == effective_of(final(self).original(), final(self).modifier_list()),
            final(self).original() == old(self).original(),
            final(self).modifier_list() == old(self).modifier_list(),
            final(self).state() == StreamState::Streaming,
    {
        self.stream_state = StreamState::Streaming;
    }

    /// Starts or continues the stream. Returns whether there is a stream to
    /// start; without one this is a no-op.
    pub fn start(&mut self) -> (r: bool)
        requires
            old(self).wf(),
        ensures
            final(self).wf(),
            final(self).effective() == effective_of(final(self).original(), final(self).modifier_list()),
            final(self).original() == old(self).original(),
            final(self).modifier_list() == old(self).modifier_list(),
            r == (old(self).state() != StreamState::Idle),
            final(self).state() == if r {
                StreamState::Streaming
            } else {
                StreamState::Idle
            },
    {
        if self.stream_state == StreamState::Idle {
            false
        } else {
            self.stream_state = StreamState::Streaming;
            true
        }
    }

    /// Pauses the stream. Returns whether there is a stream to pause;
    /// without one this is a no-op.
    pub fn stop(&mut self) -> (r: bool)
        requires
            old(self).wf(),
        ensures
            final(self).wf(),
            final(self).effective() == effective_of(final(self).original(), final(self).modifier_list()),
            final(self).original() == old(self).original(),
            final(self).modifier_list() == old(self).modifier_list(),
            r == (old(self).state() != StreamState::Idle),
            final(self).state() == if r {
                StreamState::Paused
            } else {
                StreamState::Idle
            },
    {
        if self.stream_state == StreamState::Idle {
            false
        } else {
            self.stream_state = StreamState::Paused;
            true
        }
    }
}

/// With an empty chain the effective buffer is the original re-encoded: the
/// same working values and metadata, tagged with the encoding `T`.
pub proof fn lemma_empty_chain_is_original<T: Sample, M: ModifierTrait>(
    original: (Seq<T>, SamplesMetadata),
)
    ensures
        working_of(effective_of(original, Seq::<M>::empty()).0) == working_of(original.0),
        effective_of(original, Seq::<M>::empty()).1 == tagged_as::<T>(original.1),
{
    crate::samples::lemma_buffer_round_trip(original.0);
}

/// A player that hands the consumer samples in the original encoding; every
/// `SamplesPlayer` does.
pub type ExactSamplesPlayer<T, M> = SamplesPlayer<T, M>;

/// Two players with the same original buffer and the same chain have the
/// same effective buffer: evaluation keeps no hidden state.
pub proof fn lemma_chain_determinism<T: Sample, M: ModifierTrait>(
    a: &SamplesPlayer<T, M>,
    b: &SamplesPlayer<T, M>,
)
    requires
        a.wf(),
        b.wf(),
        a.original() == b.original(),
        a.modifier_list() == b.modifier_list(),
    ensures
        a.effective() == b.effective(),
{
}

/// The next `count` samples of a playback buffer from `cursor` on, padded
/// with equilibrium past its end.
pub fn playback_chunk<T: Sample>(samples: &Vec<T>, cursor: usize, count: usize) -> (r: Vec<T>)
    ensures
        r.len() == count,
        forall|k: int|
            0 <= k < count ==> #[trigger] r[k] == if cursor + k < samples.len() {
                samples[cursor + k]
            } else {
                T::equilibrium_spec()
            },
{
    let mut out: Vec<T> = Vec::new();
    let mut k: usize = 0;
    while k < count
        invariant
            k <= count,
            out.len() == k,
            forall|j: int|
                0 <= j < k ==> #[trigger] out[j] == if cursor + j < samples.len() {
                    samples[cursor + j]
                } else {
                    T::equilibrium_spec()
                },
        decreases count - k,
    {
        if cursor < samples.len() && k < samples.len() - cursor {
            out.push(samples[cursor + k]);
        } else {
            out.push(T::equilibrium());
        }
        k += 1;
    }
    out
}

/// `count` equilibrium samples: what the consumer plays when it cannot read
/// the playback buffer at once.
pub fn silence<T: Sample>(count: usize) -> (r: Vec<T>)
    ensures
        r.len() == count,
        forall|k: int| 0 <= k < count ==> #[trigger] r[k] == T::equilibrium_spec(),
{
    let mut out: Vec<T> = Vec::new();
    let mut k: usize = 0;
    while k < count
        invariant
            k <= count,
            out.len() == k,
            forall|j: int| 0 <= j < k ==> #[trigger] out[j] == T::equilibrium_spec(),
        decreases count - k,
    {
        out.push(T::equilibrium());
        k += 1;
    }
    out
}

} // verus!
