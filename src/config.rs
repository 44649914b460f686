//! Negotiation of an output configuration: which of the configuration ranges a
//! device advertises can play a buffer, or which settings none of them has.
use vstd::prelude::*;

use crate::errors::{AudioSettings, PlayError};
use crate::sample::SampleType;
use crate::samples::SamplesMetadata;

verus! {

/// A range of output configurations that a device supports: a channel
/// count, an inclusive range of sample rates, and an encoding.
#[derive(Debug, Clone, Copy, PartialEq, Eq, Structural)]
pub struct SupportedConfigRange {
    /// The number of channels.
    pub channels: u16,
    /// The lowest supported sample rate (Hz).
    pub min_sample_rate: u32,
    /// The highest supported sample rate (Hz).
    pub max_sample_rate: u32,
    /// The encoding of the samples.
    pub sample_type: SampleType,
}

/// The range has the encoding of the metadata.
pub open spec fn type_fits(c: SupportedConfigRange, m: SamplesMetadata) -> bool {
    c.sample_type == m.sample_type
}

/// The range holds the sample rate of the metadata.
pub open spec fn rate_fits(c: SupportedConfigRange, m: SamplesMetadata) -> bool {
    c.min_sample_rate <= m.sample_rate <= c.max_sample_rate
}

/// The range has the channel count of the metadata.
pub open spec fn channels_fit(c: SupportedConfigRange, m: SamplesMetadata) -> bool {
    c.channels == m.channels
}

/// The range can play samples described by the metadata.
pub open spec fn fits(c: SupportedConfigRange, m: SamplesMetadata) -> bool {
    type_fits(c, m) && rate_fits(c, m) && channels_fit(c, m)
}

/// The settings that no range satisfies on its own, in the order encoding,
/// rate, channels; when each is satisfied by some range, only the
/// combination is reported.
pub open spec fn failed_settings(cs: Seq<SupportedConfigRange>, m: SamplesMetadata) -> Seq<
    AudioSettings,
> {
    let by_type = if exists|i: int| 0 <= i < cs.len() && type_fits(#[trigger] cs[i], m) {
        seq![]
    } else {
        seq![AudioSettings::SampleType(Some(m.sample_type))]
    };
    let by_rate = if exists|i: int| 0 <= i < cs.len() && rate_fits(#[trigger] cs[i], m) {
        seq![]
    } else {
        seq![AudioSettings::SampleRate(m.sample_rate)]
    };
    let by_channels = if exists|i: int| 0 <= i < cs.len() && channels_fit(#[trigger] cs[i], m) {
        seq![]
    } else {
        seq![AudioSettings::Channels(m.channels as u32)]
    };
    let all = by_type + by_rate + by_channels;
    if all.len() == 0 {
        seq![AudioSettings::Combinaison]
    } else {
        all
    }
}

/// What negotiating `configs` for metadata `m` returns.
pub open spec fn negotiated(
    configs: Seq<SupportedConfigRange>,
    m: SamplesMetadata,
    r: Result<SupportedConfigRange, PlayError>,
) -> bool {
    match r {
        Ok(c) => exists|i: int|
            0 <= i < configs.len() && c == configs[i] && fits(c, m) && forall|j: int|
                0 <= j < i ==> !fits(#[trigger] configs[j], m),
        Err(e) => (forall|i: int| 0 <= i < configs.len() ==> !fits(#[trigger] configs[i], m)) && (e matches PlayError::DeviceDoesNotSupportAudioSettings(l)
            && l@ == failed_settings(configs, m)),
    }
}

/// Finds the first configuration range whose encoding and channel count
/// match the metadata exactly and whose rate range holds its sample rate.
/// When there is none, the error lists which settings no range satisfies.
pub fn find_fitting_stream_config(
    metadata: &SamplesMetadata,
    configs: &Vec<SupportedConfigRange>,
) -> (r: Result<SupportedConfigRange, PlayError>)
    ensures
        negotiated(configs@, *metadata, r),
{
    let m = *metadata;
    let mut any_type = false;
    let mut any_rate = false;
    let mut any_channels = false;
    let mut i: usize = 0;
    while i < configs.len()
        invariant
            m == *metadata,
            i <= configs.len(),
            forall|j: int| 0 <= j < i ==> !fits(#[trigger] configs[j], m),
            any_type == exists|j: int| 0 <= j < i && type_fits(#[trigger] configs[j], m),
            any_rate == exists|j: int| 0 <= j < i && rate_fits(#[trigger] configs[j], m),
            any_channels == exists|j: int| 0 <= j < i && channels_fit(#[trigger] configs[j], m),
        decreases configs.len() - i,
    {
        let c = configs[i];
        let t = c.sample_type == m.sample_type;
        let rate = c.min_sample_rate <= m.sample_rate && m.sample_rate <= c.max_sample_rate;
        let ch = c.channels == m.channels;
        if t && rate && ch {
            return Ok(c);
        }
        proof {
            if t {
                assert(type_fits(configs[i as int], m));
            }
            if rate {
                assert(rate_fits(configs[i as int], m));
            }
            if ch {
                assert(channels_fit(configs[i as int], m));
            }
        }
        any_type = any_type || t;
        any_rate = any_rate || rate;
        any_channels = any_channels || ch;
        i += 1;
    }
    let mut error_list: Vec<AudioSettings> = Vec::new();
    if !any_type {
        error_list.push(AudioSettings::SampleType(Some(m.sample_type)));
    }
    if !any_rate {
        error_list.push(AudioSettings::SampleRate(m.sample_rate));
    }
    if !any_channels {
        error_list.push(AudioSettings::Channels(m.channels as u32));
    }
    if error_list.len() == 0 {
        error_list.push(AudioSettings::Combinaison);
    }
    proof {
        assert(error_list@ =~= failed_settings(configs@, m));
    }
    Err(PlayError::DeviceDoesNotSupportAudioSettings(error_list))
}

} // verus!
