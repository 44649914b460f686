//! The error type of the library.
use vstd::prelude::*;

use crate::sample::SampleType;

verus! {

/// The error type used throughout the library.
#[derive(Debug, Clone)]
pub enum PlayError {
    /// The time specified is out of bounds.
    TimeOutOfBounds,
    /// The file is not accessible, does not exist, or ends too early.
    FileNotAccessible(String),
    /// The data is not of the expected file type.
    WrongFileType,
    /// Error while communicating with the device.
    DeviceIoError(String),
    /// The device supports no configuration that can play the samples; the
    /// list says which settings had no matching configuration at all.
    DeviceDoesNotSupportAudioSettings(Vec<AudioSettings>),
    /// The device does not exist.
    DeviceDoesNotExist { name: String },
    /// Error while communicating with a stream.
    StreamIoError(String),
    /// The encoding, codec or operation is not supported.
    Unsupported(String),
}

/// A setting that a device could not satisfy, used in
/// `PlayError::DeviceDoesNotSupportAudioSettings`.
#[derive(Debug, Clone, Copy, PartialEq, Eq, Structural)]
pub enum AudioSettings {
    /// No configuration has the encoding.
    SampleType(Option<SampleType>),
    /// No configuration's rate range holds the sample rate.
    SampleRate(u32),
    /// No configuration has the channel count.
    Channels(u32),
    /// Each setting is supported by some configuration, but no configuration
    /// supports all of them together.
    Combinaison,
}

} // verus!
