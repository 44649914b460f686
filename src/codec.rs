//! Audio codecs: how the bytes of a file's data chunk become samples.
use vstd::prelude::*;

use crate::errors::PlayError;
use crate::samples::{Samples, SamplesMetadata};
use crate::traits::AudioMetadataTrait;

verus! {

/// The signed 16-bit integer stored little-endian in `lo`, `hi`.
pub open spec fn le_i16(lo: u8, hi: u8) -> i16 {
    let v = lo as int + 256 * hi as int;
    (if v >= 32768 { v - 65536 } else { v }) as i16
}

/// The samples read from `bytes` as little-endian signed 16-bit integers;
/// an odd last byte is ignored.
pub open spec fn i16_samples_of(bytes: Seq<u8>) -> Seq<i16> {
    Seq::new((bytes.len() / 2) as nat, |i: int| le_i16(bytes[2 * i], bytes[2 * i + 1]))
}

/// Reads a little-endian signed 16-bit integer.
fn i16_from_le(lo: u8, hi: u8) -> (r: i16)
    ensures
        r == le_i16(lo, hi),
{
    let v: i32 = lo as i32 + 256 * hi as i32;
    if v >= 32768 {
        (v - 65536) as i16
    } else {
        v as i16
    }
}

/// Implemented by all audio decoders: turns the bytes of the data chunk into
/// samples. A codec that cannot produce an encoding answers `Unsupported`.
pub trait AudioCodecTrait {
    /// Transforms bytes into u8 samples.
    fn bytes_to_u8_samples<M: AudioMetadataTrait>(&self, bytes: &Vec<u8>, metadata: &M) -> Result<Vec<u8>, PlayError> {
        Err(PlayError::Unsupported("bytes to u8 samples for this audio codec".to_string()))
    }

    /// Transforms bytes into i16 samples.
    fn bytes_to_i16_samples<M: AudioMetadataTrait>(&self, bytes: &Vec<u8>, metadata: &M) -> Result<Vec<i16>, PlayError> {
        Err(PlayError::Unsupported("bytes to i16 samples for this audio codec".to_string()))
    }
}

/// Linear pulse-code modulation: samples stored one after the other,
/// little-endian.
#[derive(Debug, Clone, Copy, Default)]
pub struct LPcm;

impl LPcm {
    /// Each byte is one unsigned 8-bit sample.
    pub fn decode_u8(bytes: &Vec<u8>) -> (r: Vec<u8>)
        ensures
            r@ == bytes@,
    {
        crate::samples::copy_vec(bytes)
    }

    /// Each pair of bytes is one little-endian signed 16-bit sample; an odd
    /// last byte is ignored.
    pub fn decode_i16(bytes: &Vec<u8>) -> (r: Vec<i16>)
        ensures
            r@ == i16_samples_of(bytes@),
    {
        let mut samples_array: Vec<i16> = Vec::new();
        let n = bytes.len() / 2;
        let mut i: usize = 0;
        while i < n
            invariant
                n == bytes.len() / 2,
                i <= n,
                samples_array@ == i16_samples_of(bytes@).subrange(0, i as int),
            decreases n - i,
        {
            samples_array.push(i16_from_le(bytes[i * 2], bytes[i * 2 + 1]));
            assert(samples_array@ =~= i16_samples_of(bytes@).subrange(0, i + 1));
            i += 1;
        }
        assert(samples_array@ =~= i16_samples_of(bytes@));
        samples_array
    }
}

impl AudioCodecTrait for LPcm {
    fn bytes_to_u8_samples<M: AudioMetadataTrait>(&self, bytes: &Vec<u8>, metadata: &M) -> (r: Result<Vec<u8>, PlayError>)
        ensures
            r matches Ok(v) && v@ == bytes@,
    {
        Ok(LPcm::decode_u8(bytes))
    }

    fn bytes_to_i16_samples<M: AudioMetadataTrait>(&self, bytes: &Vec<u8>, metadata: &M) -> (r: Result<Vec<i16>, PlayError>)
        ensures
            r matches Ok(v) && v@ == i16_samples_of(bytes@),
    {
        Ok(LPcm::decode_i16(bytes))
    }
}

/// All the audio codecs, for static dispatch on decoding.
#[derive(Debug, Clone, Copy, PartialEq, Eq, Structural)]
pub enum AudioCodec {
    LPcm,
}

impl AudioCodecTrait for AudioCodec {
    fn bytes_to_u8_samples<M: AudioMetadataTrait>(&self, bytes: &Vec<u8>, metadata: &M) -> (r: Result<Vec<u8>, PlayError>)
        ensures
            r matches Ok(v) && v@ == bytes@,
    {
        match self {
            AudioCodec::LPcm => Ok(LPcm::decode_u8(bytes)),
        }
    }

    fn bytes_to_i16_samples<M: AudioMetadataTrait>(&self, bytes: &Vec<u8>, metadata: &M) -> (r: Result<Vec<i16>, PlayError>)
        ensures
            r matches Ok(v) && v@ == i16_samples_of(bytes@),
    {
        match self {
            AudioCodec::LPcm => Ok(LPcm::decode_i16(bytes)),
        }
    }
}

/// The data formats a file may store its samples in.
#[derive(Debug, Clone, Copy, PartialEq, Eq, Structural)]
pub enum AudioFormat {
    LPcm,
}

impl AudioFormat {
    /// Decodes bytes into a buffer of unsigned 8-bit samples.
    pub fn bytes_to_u8_samples(&self, bytes: &Vec<u8>, metadata: SamplesMetadata) -> (r: Result<
        Samples<u8>,
        PlayError,
    >)
        ensures
            r matches Ok(v) && v.samples@ == bytes@ && v.metadata == metadata,
    {
        match self {
            AudioFormat::LPcm => Ok(Samples::new(LPcm::decode_u8(bytes), metadata)),
        }
    }

    /// Decodes bytes into a buffer of signed 16-bit samples.
    pub fn bytes_to_i16_samples(&self, bytes: &Vec<u8>, metadata: SamplesMetadata) -> (r: Result<
        Samples<i16>,
        PlayError,
    >)
        ensures
            r matches Ok(v) && v.samples@ == i16_samples_of(bytes@) && v.metadata == metadata,
    {
        match self {
            AudioFormat::LPcm => Ok(Samples::new(LPcm::decode_i16(bytes), metadata)),
        }
    }
}

} // verus!
