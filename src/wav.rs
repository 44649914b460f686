//! WAVE files held in memory: recognising them, reading the fields of the
//! `fmt ` block that the pipeline needs, and decoding the data chunk.
use vstd::prelude::*;

use crate::codec::{i16_samples_of, AudioCodec, AudioCodecTrait};
use crate::errors::PlayError;
use crate::modifiers::ModifierTrait;
use crate::player::{SamplesPlayer, StreamState};
use crate::sample::SampleType;
use crate::samples::{buffer_wf, Samples, SamplesMetadata};
use crate::traits::AudioMetadataTrait;

verus! {

/// The bytes of the `fmt ` block after its identifier that are read.
pub const FMT_BLOCK_SIZE: usize = 20;

/// The length of the header in which the file type is recognised.
pub const HEADER_SIZE: usize = 44;

/// `pat` occurs in `s` at `i`.
pub open spec fn occurs_at(s: Seq<u8>, pat: Seq<u8>, i: int) -> bool {
    0 <= i && i + pat.len() <= s.len() && s.subrange(i, i + pat.len() as int) == pat
}

/// `pat` occurs somewhere in `s`.
pub open spec fn occurs_in(s: Seq<u8>, pat: Seq<u8>) -> bool {
    exists|i: int| occurs_at(s, pat, i)
}

/// The ASCII bytes of "RIFF".
pub open spec fn riff_tag() -> Seq<u8> {
    seq![82u8, 73u8, 70u8, 70u8]
}

/// The ASCII bytes of "WAVE".
pub open spec fn wave_tag() -> Seq<u8> {
    seq![87u8, 65u8, 86u8, 69u8]
}

/// The position just past the first occurrence of the four bytes `tag` in
/// `s` at or after `from`, or the end of `s` if there is none.
pub open spec fn skip_tag(s: Seq<u8>, from: int, tag: Seq<u8>) -> int
    decreases s.len() - from,
{
    if from < 0 || from + 4 > s.len() {
        s.len() as int
    } else if occurs_at(s, tag, from) {
        from + 4
    } else {
        skip_tag(s, from + 1, tag)
    }
}

/// The ASCII bytes of "fmt ".
pub open spec fn fmt_tag() -> Seq<u8> {
    seq![102u8, 109u8, 116u8, 32u8]
}

/// The ASCII bytes of "data".
pub open spec fn data_tag() -> Seq<u8> {
    seq![100u8, 97u8, 116u8, 97u8]
}

/// The little-endian unsigned 16-bit integer at `i`.
pub open spec fn le_u16_at(s: Seq<u8>, i: int) -> int {
    s[i] as int + 256 * s[i + 1] as int
}

/// The little-endian unsigned 32-bit integer at `i`.
pub open spec fn le_u32_at(s: Seq<u8>, i: int) -> int {
    le_u16_at(s, i) + 65536 * le_u16_at(s, i + 2)
}

/// Where the `fmt ` chunk's contents start: just past its identifier.
pub open spec fn fmt_start(s: Seq<u8>) -> int {
    skip_tag(s, 0, fmt_tag())
}

/// Where the samples start: past the identifier of the first `data` chunk
/// after the `fmt ` identifier, and past that chunk's four-byte size.
pub open spec fn data_start(s: Seq<u8>) -> int {
    skip_tag(s, fmt_start(s), data_tag()) + 4
}

/// Returns the position just past the first occurrence of `tag` at or after
/// `from`, or the end of `bytes`.
fn find_tag(bytes: &Vec<u8>, from: usize, tag: [u8; 4]) -> (r: usize)
    requires
        from <= bytes.len(),
    ensures
        r == skip_tag(bytes@, from as int, tag@),
        from <= r <= bytes.len(),
{
    let n = bytes.len();
    let mut i = from;
    while i < n && n - i >= 4
        invariant
            n == bytes.len(),
            from <= i <= n,
            tag@.len() == 4,
            skip_tag(bytes@, from as int, tag@) == skip_tag(bytes@, i as int, tag@),
        decreases n - i,
    {
        if bytes[i] == tag[0] && bytes[i + 1] == tag[1] && bytes[i + 2] == tag[2] && bytes[i + 3]
            == tag[3] {
            proof {
                assert(bytes@.subrange(i as int, i + 4) =~= tag@);
            }
            return i + 4;
        }
        proof {
            if occurs_at(bytes@, tag@, i as int) {
                assert(bytes@.subrange(i as int, i + 4)[0] == tag@[0]);
                assert(bytes@.subrange(i as int, i + 4)[1] == tag@[1]);
                assert(bytes@.subrange(i as int, i + 4)[2] == tag@[2]);
                assert(bytes@.subrange(i as int, i + 4)[3] == tag@[3]);
            }
        }
        i += 1;
    }
    n
}

/// Whether the four bytes `pat` occur in `bytes`.
fn contains_tag(bytes: &Vec<u8>, pat: [u8; 4]) -> (r: bool)
    ensures
        r == occurs_in(bytes@, pat@),
{
    let n = bytes.len();
    if n < 4 {
        proof {
            assert forall|i: int| !occurs_at(bytes@, pat@, i) by {}
        }
        return false;
    }
    let mut i: usize = 0;
    while i <= n - 4
        invariant
            n == bytes.len(),
            n >= 4,
            i <= n - 3,
            pat@.len() == 4,
            forall|j: int| 0 <= j < i ==> !occurs_at(bytes@, pat@, j),
        decreases n - i,
    {
        if bytes[i] == pat[0] && bytes[i + 1] == pat[1] && bytes[i + 2] == pat[2] && bytes[i + 3]
            == pat[3] {
            proof {
                assert(bytes@.subrange(i as int, i + 4) =~= pat@);
                assert(occurs_at(bytes@, pat@, i as int));
            }
            return true;
        }
        proof {
            if occurs_at(bytes@, pat@, i as int) {
                assert(bytes@.subrange(i as int, i + 4)[0] == pat@[0]);
                assert(bytes@.subrange(i as int, i + 4)[1] == pat@[1]);
                assert(bytes@.subrange(i as int, i + 4)[2] == pat@[2]);
                assert(bytes@.subrange(i as int, i + 4)[3] == pat@[3]);
            }
        }
        i += 1;
    }
    proof {
        assert forall|j: int| !occurs_at(bytes@, pat@, j) by {
            if 0 <= j && j >= i {
                assert(j + 4 > n);
            }
        }
        assert(!occurs_in(bytes@, pat@));
    }
    false
}

/// Copies `bytes[from..]`.
fn tail_from(bytes: &Vec<u8>, from: usize) -> (r: Vec<u8>)
    requires
        from <= bytes.len(),
    ensures
        r@ == bytes@.subrange(from as int, bytes@.len() as int),
{
    let mut out: Vec<u8> = Vec::new();
    let mut i = from;
    while i < bytes.len()
        invariant
            from <= i <= bytes.len(),
            out@ == bytes@.subrange(from as int, i as int),
        decreases bytes.len() - i,
    {
        out.push(bytes[i]);
        assert(out@ =~= bytes@.subrange(from as int, i + 1));
        i += 1;
    }
    out
}

/// Tells whether audio data is a WAVE file from its first 44 bytes: they
/// must hold both "RIFF" and "WAVE". Data shorter than that is an error.
pub fn reader_is_wav(bytes: &Vec<u8>) -> (r: Result<bool, PlayError>)
    ensures
        bytes.len() < HEADER_SIZE ==> r matches Err(PlayError::FileNotAccessible(_)),
        bytes.len() >= HEADER_SIZE ==> r == Ok::<bool, PlayError>(
            occurs_in(bytes@.subrange(0, HEADER_SIZE as int), riff_tag()) && occurs_in(
                bytes@.subrange(0, HEADER_SIZE as int),
                wave_tag(),
            ),
        ),
{
    if bytes.len() < HEADER_SIZE {
        return Err(PlayError::FileNotAccessible("the data ends before the header".to_string()));
    }
    let mut header: Vec<u8> = Vec::new();
    let mut i: usize = 0;
    while i < HEADER_SIZE
        invariant
            bytes.len() >= HEADER_SIZE,
            i <= HEADER_SIZE,
            header@ == bytes@.subrange(0, i as int),
        decreases HEADER_SIZE - i,
    {
        header.push(bytes[i]);
        assert(header@ =~= bytes@.subrange(0, i + 1));
        i += 1;
    }
    let riff = contains_tag(&header, [82u8, 73u8, 70u8, 70u8]);
    let wave = contains_tag(&header, [87u8, 65u8, 86u8, 69u8]);
    proof {
        assert([82u8, 73u8, 70u8, 70u8]@ =~= riff_tag());
        assert([87u8, 65u8, 86u8, 69u8]@ =~= wave_tag());
    }
    Ok(wave && riff)
}

/// Returns the position just past the `fmt ` identifier, or the end of the
/// data when there is none.
pub fn read_until_fmt_block_and_pass(bytes: &Vec<u8>) -> (r: usize)
    ensures
        r == fmt_start(bytes@),
        r <= bytes.len(),
{
    proof {
        assert([102u8, 109u8, 116u8, 32u8]@ =~= fmt_tag());
    }
    find_tag(bytes, 0, [102u8, 109u8, 116u8, 32u8])
}

/// Returns the position at which the samples start, or an error when the
/// data ends before it.
pub fn read_all_of_header(bytes: &Vec<u8>) -> (r: Result<usize, PlayError>)
    ensures
        data_start(bytes@) <= bytes.len() ==> (r matches Ok(p) && p == data_start(bytes@)),
        data_start(bytes@) > bytes.len() ==> r matches Err(PlayError::FileNotAccessible(_)),
{
    let p = read_until_fmt_block_and_pass(bytes);
    proof {
        assert([100u8, 97u8, 116u8, 97u8]@ =~= data_tag());
    }
    let q = find_tag(bytes, p, [100u8, 97u8, 116u8, 97u8]);
    if bytes.len() - q < 4 {
        return Err(PlayError::FileNotAccessible("the data ends inside the header".to_string()));
    }
    Ok(q + 4)
}

/// The fields of a WAVE header that the pipeline uses.
#[derive(Debug, Clone)]
pub struct WavAudioMetadata {
    /// Where the file is, if it came from one.
    file_path: Option<String>,
    /// The codec in which the data is stored.
    audio_codec: AudioCodec,
    /// Number of channels: mono = 1, stereo = 2, etc.
    channels: u16,
    /// The number of frames per second.
    sample_rate: u32,
    /// The number of bits in a sample; 8-bit samples are unsigned, 16-bit
    /// ones signed.
    bits_per_sample: u16,
}

/// The encoding that a WAVE file with `bits` bits per sample stores.
pub open spec fn sample_type_of_bits(bits: u16) -> Option<SampleType> {
    if bits == 8 {
        Some(SampleType::U8)
    } else if bits == 16 {
        Some(SampleType::I16)
    } else {
        None
    }
}

/// The `fmt ` block of `s` declares linear PCM (codec 1).
pub open spec fn is_lpcm(s: Seq<u8>) -> bool {
    le_u16_at(s, fmt_start(s) + 4) == 1
}

impl WavAudioMetadata {
    /// The metadata holds the fields of the `fmt ` block of `s`, and no path.
    pub open spec fn read_from(&self, s: Seq<u8>) -> bool {
        let p = fmt_start(s);
        &&& self.spec_audio_codec() == AudioCodec::LPcm
        &&& self.spec_channels() == le_u16_at(s, p + 6)
        &&& self.spec_sample_rate() == le_u32_at(s, p + 8)
        &&& self.spec_bits_per_sample() == le_u16_at(s, p + 18)
        &&& self.spec_file_path().is_none()
    }

    /// The channel count field.
    pub closed spec fn spec_channels(&self) -> u16 {
        self.channels
    }

    /// The sample rate field.
    pub closed spec fn spec_sample_rate(&self) -> u32 {
        self.sample_rate
    }

    /// The bits-per-sample field.
    pub closed spec fn spec_bits_per_sample(&self) -> u16 {
        self.bits_per_sample
    }

    /// The codec field.
    pub closed spec fn spec_audio_codec(&self) -> AudioCodec {
        self.audio_codec
    }

    /// The file path field.
    pub closed spec fn spec_file_path(&self) -> Option<String> {
        self.file_path
    }

    /// Reads the metadata from the `fmt ` block of a WAVE file. Only linear
    /// PCM (codec 1) is supported.
    pub fn build_from_bytes(bytes: &Vec<u8>) -> (r: Result<WavAudioMetadata, PlayError>)
        ensures
            fmt_start(bytes@) + FMT_BLOCK_SIZE > bytes.len() ==> r matches Err(
                PlayError::FileNotAccessible(_),
            ),
            fmt_start(bytes@) + FMT_BLOCK_SIZE <= bytes.len() && !is_lpcm(bytes@) ==> r matches Err(
                PlayError::Unsupported(_),
            ),
            fmt_start(bytes@) + FMT_BLOCK_SIZE <= bytes.len() && is_lpcm(bytes@) ==> (r matches Ok(m)
                && m.read_from(bytes@)),
    {
        let p = read_until_fmt_block_and_pass(bytes);
        if bytes.len() - p < FMT_BLOCK_SIZE {
            return Err(
                PlayError::FileNotAccessible("the data ends inside the fmt block".to_string()),
            );
        }
        let audio_codec_value = bytes[p + 4] as u16 + 256 * bytes[p + 5] as u16;
        if audio_codec_value != 1 {
            return Err(PlayError::Unsupported("audio format other than LPCM".to_string()));
        }
        let channels = bytes[p + 6] as u16 + 256 * bytes[p + 7] as u16;
        let sample_rate = bytes[p + 8] as u32 + 256 * bytes[p + 9] as u32 + 65536 * (bytes[p
            + 10] as u32 + 256 * bytes[p + 11] as u32);
        let bits_per_sample = bytes[p + 18] as u16 + 256 * bytes[p + 19] as u16;
        Ok(
            WavAudioMetadata {
                file_path: None,
                audio_codec: AudioCodec::LPcm,
                channels,
                sample_rate,
                bits_per_sample,
            },
        )
    }

    /// Records the path of the file the metadata came from.
    pub fn set_file_path(&mut self, path: String)
        ensures
            final(self).spec_file_path() == Some(path),
            final(self).spec_channels() == old(self).spec_channels(),
            final(self).spec_sample_rate() == old(self).spec_sample_rate(),
            final(self).spec_bits_per_sample() == old(self).spec_bits_per_sample(),
            final(self).spec_audio_codec() == old(self).spec_audio_codec(),
    {
        self.file_path = Some(path);
    }

    /// Returns the file path.
    pub fn file_path(&self) -> (r: Option<String>)
        ensures
            r.is_some() == self.spec_file_path().is_some(),
            r.is_some() ==> r.unwrap()@ == self.spec_file_path().unwrap()@,
    {
        match &self.file_path {
            Some(p) => Some(p.clone()),
            None => None,
        }
    }

    /// Returns the codec.
    pub fn audio_codec(&self) -> (r: AudioCodec)
        ensures
            r == self.spec_audio_codec(),
    {
        self.audio_codec
    }

    /// Returns the number of channels.
    pub fn channels(&self) -> (r: u16)
        ensures
            r == self.spec_channels(),
    {
        self.channels
    }

    /// Returns the number of frames per second (Hz).
    pub fn sample_rate(&self) -> (r: u32)
        ensures
            r == self.spec_sample_rate(),
    {
        self.sample_rate
    }

    /// Returns the number of bits in a sample.
    pub fn bits_per_sample(&self) -> (r: u16)
        ensures
            r == self.spec_bits_per_sample(),
    {
        self.bits_per_sample
    }

    /// The byte rate: `sample_rate * channels * bits_per_sample / 8`.
    pub fn byte_rate(&self) -> (r: u64)
        ensures
            r == self.spec_sample_rate() * self.spec_channels() * self.spec_bits_per_sample() / 8,
    {
        let ghost (a, b, c) = (self.sample_rate as int, self.channels as int, self.bits_per_sample as int);
        assert(a * b <= u32::MAX * 65535 && a * b * c <= u32::MAX * 65535 * 65535)
            by (nonlinear_arith)
            requires
                0 <= a <= u32::MAX,
                0 <= b <= 65535,
                0 <= c <= 65535,
        ;
        (self.sample_rate as u64 * self.channels as u64 * self.bits_per_sample as u64) / 8
    }

    /// The block alignment: `channels * bits_per_sample / 8`.
    pub fn block_align(&self) -> (r: u32)
        ensures
            r == self.spec_channels() * self.spec_bits_per_sample() / 8,
    {
        let ghost (b, c) = (self.channels as int, self.bits_per_sample as int);
        assert(b * c <= 65535 * 65535) by (nonlinear_arith)
            requires
                0 <= b <= 65535,
                0 <= c <= 65535,
        ;
        (self.channels as u32 * self.bits_per_sample as u32) / 8
    }

    /// The encoding given by the bits per sample: unsigned 8-bit or signed
    /// 16-bit; no other depth is supported.
    pub fn sample_type(&self) -> (r: Option<SampleType>)
        ensures
            r == sample_type_of_bits(self.spec_bits_per_sample()),
    {
        if self.bits_per_sample == 8 {
            Some(SampleType::U8)
        } else if self.bits_per_sample == 16 {
            Some(SampleType::I16)
        } else {
            None
        }
    }

    /// The metadata of the samples the file holds, when their encoding is
    /// supported.
    pub fn samples_metadata(&self) -> (r: Result<SamplesMetadata, PlayError>)
        ensures
            match sample_type_of_bits(self.spec_bits_per_sample()) {
                Some(t) => r == Ok::<SamplesMetadata, PlayError>(
                    SamplesMetadata {
                        channels: self.spec_channels(),
                        sample_rate: self.spec_sample_rate(),
                        sample_type: t,
                    },
                ),
                None => r matches Err(PlayError::Unsupported(_)),
            },
    {
        match self.sample_type() {
            Some(t) => Ok(SamplesMetadata::new(self.channels, self.sample_rate, t)),
            None => Err(PlayError::Unsupported("bit depth of the WAVE file".to_string())),
        }
    }
}

impl AudioMetadataTrait for WavAudioMetadata {
    fn file_path(&self) -> (r: Option<String>)
        ensures
            r.is_some() == self.spec_file_path().is_some(),
            r.is_some() ==> r.unwrap()@ == self.spec_file_path().unwrap()@,
    {
        WavAudioMetadata::file_path(self)
    }

    fn audio_codec(&self) -> (r: AudioCodec)
        ensures
            r == self.spec_audio_codec(),
    {
        self.audio_codec
    }

    open spec fn channel_count(&self) -> u32 {
        self.spec_channels() as u32
    }

    fn channels(&self) -> u32 {
        self.channels as u32
    }

    fn sample_rate(&self) -> (r: u32)
        ensures
            r == self.spec_sample_rate(),
    {
        self.sample_rate
    }

    fn sample_type(&self) -> (r: Option<SampleType>)
        ensures
            r == sample_type_of_bits(self.spec_bits_per_sample()),
    {
        WavAudioMetadata::sample_type(self)
    }
}

/// The decoded samples of a WAVE file, in the encoding it stores.
#[derive(Debug, Clone)]
pub enum WavSamples {
    U8(Samples<u8>),
    I16(Samples<i16>),
}

/// A WAVE file held in memory, with its metadata.
#[derive(Debug, Clone)]
pub struct WavAudio {
    data: Vec<u8>,
    metadata: WavAudioMetadata,
}

impl WavAudio {
    /// The bytes of the file.
    pub closed spec fn spec_data(&self) -> Seq<u8> {
        self.data@
    }

    /// The metadata read from the file.
    pub closed spec fn spec_metadata(&self) -> WavAudioMetadata {
        self.metadata
    }

    /// Reads the metadata of a WAVE file and keeps its bytes.
    pub fn build_from_bytes(data: Vec<u8>) -> (r: Result<WavAudio, PlayError>)
        ensures
            fmt_start(data@) + FMT_BLOCK_SIZE > data@.len() ==> r matches Err(
                PlayError::FileNotAccessible(_),
            ),
            fmt_start(data@) + FMT_BLOCK_SIZE <= data@.len() && !is_lpcm(data@) ==> r matches Err(
                PlayError::Unsupported(_),
            ),
            fmt_start(data@) + FMT_BLOCK_SIZE <= data@.len() && is_lpcm(data@) ==> (r matches Ok(w)
                && w.spec_data() == data@ && w.spec_metadata().read_from(data@)),
    {
        match WavAudioMetadata::build_from_bytes(&data) {
            Ok(metadata) => Ok(WavAudio { data, metadata }),
            Err(e) => Err(e),
        }
    }

    /// Returns the metadata read from the file.
    pub fn metadata(&self) -> (r: &WavAudioMetadata)
        ensures
            *r == self.spec_metadata(),
    {
        &self.metadata
    }

    /// The bytes of the data chunk: everything after the header.
    pub fn get_samples_bytes(&self) -> (r: Result<Vec<u8>, PlayError>)
        ensures
            ({
                let s = self.spec_data();
                if data_start(s) <= s.len() {
                    r matches Ok(v) && v@ == s.subrange(data_start(s), s.len() as int)
                } else {
                    r matches Err(PlayError::FileNotAccessible(_))
                }
            }),
    {
        match read_all_of_header(&self.data) {
            Ok(p) => Ok(tail_from(&self.data, p)),
            Err(e) => Err(e),
        }
    }

    /// The data chunk decoded as unsigned 8-bit samples.
    fn get_samples_u8(&self) -> (r: Result<Vec<u8>, PlayError>)
        ensures
            ({
                let s = self.spec_data();
                if data_start(s) <= s.len() {
                    r matches Ok(v) && v@ == s.subrange(data_start(s), s.len() as int)
                } else {
                    r matches Err(PlayError::FileNotAccessible(_))
                }
            }),
    {
        let samples_bytes = self.get_samples_bytes()?;
        match self.metadata.audio_codec {
            AudioCodec::LPcm => AudioCodec::LPcm.bytes_to_u8_samples(&samples_bytes, &self.metadata),
        }
    }

    /// The data chunk decoded as signed 16-bit samples.
    fn get_samples_i16(&self) -> (r: Result<Vec<i16>, PlayError>)
        ensures
            ({
                let s = self.spec_data();
                if data_start(s) <= s.len() {
                    r matches Ok(v) && v@ == i16_samples_of(s.subrange(data_start(s), s.len() as int))
                } else {
                    r matches Err(PlayError::FileNotAccessible(_))
                }
            }),
    {
        let samples_bytes = self.get_samples_bytes()?;
        match self.metadata.audio_codec {
            AudioCodec::LPcm => AudioCodec::LPcm.bytes_to_i16_samples(&samples_bytes, &self.metadata),
        }
    }

    /// Decodes the samples of the file in the encoding it stores.
    pub fn get_samples(&self) -> (r: Result<WavSamples, PlayError>)
        ensures
            ({
                let s = self.spec_data();
                let m = self.spec_metadata();
                let bits = m.spec_bits_per_sample();
                let meta = SamplesMetadata {
                    channels: m.spec_channels(),
                    sample_rate: m.spec_sample_rate(),
                    sample_type: if bits == 8 {
                        SampleType::U8
                    } else {
                        SampleType::I16
                    },
                };
                if bits != 8 && bits != 16 {
                    r matches Err(PlayError::Unsupported(_))
                } else if data_start(s) > s.len() {
                    r matches Err(PlayError::FileNotAccessible(_))
                } else if bits == 8 {
                    r matches Ok(WavSamples::U8(v)) && v.samples@ == s.subrange(
                        data_start(s),
                        s.len() as int,
                    ) && v.metadata == meta
                } else {
                    r matches Ok(WavSamples::I16(v)) && v.samples@ == i16_samples_of(
                        s.subrange(data_start(s), s.len() as int),
                    ) && v.metadata == meta
                }
            }),
    {
        let metadata = self.metadata.samples_metadata()?;
        if self.metadata.bits_per_sample == 8 {
            let samples = self.get_samples_u8()?;
            Ok(WavSamples::U8(Samples::new(samples, metadata)))
        } else {
            let samples = self.get_samples_i16()?;
            Ok(WavSamples::I16(Samples::new(samples, metadata)))
        }
    }

    /// The metadata of the samples, as the header declares them.
    pub open spec fn declared_metadata(&self) -> SamplesMetadata {
        let m = self.spec_metadata();
        SamplesMetadata {
            channels: m.spec_channels(),
            sample_rate: m.spec_sample_rate(),
            sample_type: if m.spec_bits_per_sample() == 8 {
                SampleType::U8
            } else {
                SampleType::I16
            },
        }
    }

    /// The bytes after the header.
    pub open spec fn payload(&self) -> Seq<u8> {
        self.spec_data().subrange(data_start(self.spec_data()), self.spec_data().len() as int)
    }

    /// Creates a player over the samples of the file. Files whose header
    /// declares no channel, a zero sample rate, or a data chunk that does not
    /// end on a whole frame are refused as `WrongFileType`.
    pub fn make_player<M: ModifierTrait>(&self) -> (r: Result<WavPlayer<M>, PlayError>)
        ensures
            ({
                let bits = self.spec_metadata().spec_bits_per_sample();
                let s = self.spec_data();
                let meta = self.declared_metadata();
                if bits != 8 && bits != 16 {
                    r matches Err(PlayError::Unsupported(_))
                } else if data_start(s) > s.len() {
                    r matches Err(PlayError::FileNotAccessible(_))
                } else if bits == 8 {
                    if buffer_wf((self.payload(), meta)) {
                        r matches Ok(WavPlayer::U8(p)) && p.wf() && p.original() == (
                        self.payload(),
                        meta,
                        ) && p.modifier_list().len() == 0 && p.state() == StreamState::Idle
                    } else {
                        r matches Err(PlayError::WrongFileType)
                    }
                } else {
                    if buffer_wf((i16_samples_of(self.payload()), meta)) {
                        r matches Ok(WavPlayer::I16(p)) && p.wf() && p.original() == (
                        i16_samples_of(self.payload()),
                        meta,
                        ) && p.modifier_list().len() == 0 && p.state() == StreamState::Idle
                    } else {
                        r matches Err(PlayError::WrongFileType)
                    }
                }
            }),
    {
        match self.get_samples()? {
            WavSamples::U8(samples) => {
                if samples.metadata.channels == 0 || samples.metadata.sample_rate == 0
                    || samples.samples.len() % samples.metadata.channels as usize != 0 {
                    return Err(PlayError::WrongFileType);
                }
                Ok(WavPlayer::U8(SamplesPlayer::new(samples)))
            },
            WavSamples::I16(samples) => {
                if samples.metadata.channels == 0 || samples.metadata.sample_rate == 0
                    || samples.samples.len() % samples.metadata.channels as usize != 0 {
                    return Err(PlayError::WrongFileType);
                }
                Ok(WavPlayer::I16(SamplesPlayer::new(samples)))
            },
        }
    }
}

/// A player over the samples of a WAVE file, in the encoding it stores.
pub enum WavPlayer<M> {
    U8(SamplesPlayer<u8, M>),
    I16(SamplesPlayer<i16, M>),
}

} // verus!
