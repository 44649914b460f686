//! The capability interface shared by every kind of audio metadata.
use vstd::prelude::*;

use crate::codec::AudioCodec;
use crate::sample::SampleType;

verus! {

/// Implemented by all audio metadata.
pub trait AudioMetadataTrait {
    /// The path of the file the audio came from, if any.
    fn file_path(&self) -> Option<String>;

    /// The codec used to decode the audio.
    fn audio_codec(&self) -> AudioCodec;

    /// The number of channels of the audio, as a specification.
    spec fn channel_count(&self) -> u32;

    /// The number of channels of the audio.
    fn channels(&self) -> (r: u32)
        ensures
            r == self.channel_count(),
    ;

    /// The number of frames per second (Hz).
    fn sample_rate(&self) -> u32;

    /// The encoding of the samples, if it is a known one.
    fn sample_type(&self) -> Option<SampleType>;
}

} // verus!
