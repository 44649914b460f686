use ez_audi::codec::{AudioCodec, AudioCodecTrait, AudioFormat, LPcm};
use ez_audi::errors::PlayError;
use ez_audi::modifiers::Modifier;
use ez_audi::sample::SampleType;
use ez_audi::samples::SamplesMetadata;
use ez_audi::wav::{
    read_all_of_header, read_until_fmt_block_and_pass, reader_is_wav, WavAudio, WavAudioMetadata,
    WavPlayer, WavSamples,
};

fn wav_bytes(format: u16, channels: u16, rate: u32, bits: u16, data: &[u8]) -> Vec<u8> {
    let mut b = Vec::new();
    b.extend_from_slice(b"RIFF");
    b.extend_from_slice(&(36 + data.len() as u32).to_le_bytes());
    b.extend_from_slice(b"WAVE");
    b.extend_from_slice(b"fmt ");
    b.extend_from_slice(&16u32.to_le_bytes());
    b.extend_from_slice(&format.to_le_bytes());
    b.extend_from_slice(&channels.to_le_bytes());
    b.extend_from_slice(&rate.to_le_bytes());
    let block = channels as u32 * bits as u32 / 8;
    b.extend_from_slice(&(rate * block).to_le_bytes());
    b.extend_from_slice(&(block as u16).to_le_bytes());
    b.extend_from_slice(&bits.to_le_bytes());
    b.extend_from_slice(b"data");
    b.extend_from_slice(&(data.len() as u32).to_le_bytes());
    b.extend_from_slice(data);
    b
}

fn i16_data(samples: &[i16]) -> Vec<u8> {
    samples.iter().flat_map(|s| s.to_le_bytes()).collect()
}

#[test]
fn detects_wav_files() {
    let bytes = wav_bytes(1, 2, 48000, 16, &i16_data(&[1, 2, 3, 4]));
    assert!(reader_is_wav(&bytes).unwrap());
}

#[test]
fn detects_non_wav_files() {
    let mut bytes = b"ID3\x04\x00\x00\x00\x00\x00\x00".to_vec();
    bytes.resize(64, 0xFF);
    assert!(!reader_is_wav(&bytes).unwrap());
}

#[test]
fn short_data_is_not_readable() {
    assert!(matches!(reader_is_wav(&b"RIFFWAVE".to_vec()), Err(PlayError::FileNotAccessible(_))));
}

#[test]
fn wave_tag_alone_is_not_enough() {
    let mut bytes = wav_bytes(1, 2, 48000, 16, &i16_data(&[1, 2, 3, 4]));
    bytes[0] = b'X';
    assert!(!reader_is_wav(&bytes).unwrap());
}

#[test]
fn metadata_is_valid() {
    let bytes = wav_bytes(1, 2, 48000, 16, &i16_data(&[0; 8]));
    let meta = WavAudioMetadata::build_from_bytes(&bytes).unwrap();
    assert_eq!(meta.audio_codec(), AudioCodec::LPcm);
    assert_eq!(meta.channels(), 2);
    assert_eq!(meta.sample_rate(), 48000);
    assert_eq!(meta.bits_per_sample(), 16);
    assert_eq!(meta.byte_rate(), 192000);
    assert_eq!(meta.block_align(), 4);
    assert_eq!(meta.sample_type(), Some(SampleType::I16));
    assert!(meta.file_path().is_none());
}

#[test]
fn metadata_keeps_a_file_path() {
    let bytes = wav_bytes(1, 1, 8000, 8, &[128; 4]);
    let mut meta = WavAudioMetadata::build_from_bytes(&bytes).unwrap();
    meta.set_file_path("clip.wav".to_string());
    assert_eq!(meta.file_path(), Some("clip.wav".to_string()));
    assert_eq!(
        meta.samples_metadata().unwrap(),
        SamplesMetadata::new(1, 8000, SampleType::U8)
    );
}

#[test]
fn non_pcm_codec_is_unsupported() {
    let bytes = wav_bytes(3, 2, 48000, 32, &[0; 8]);
    assert!(matches!(WavAudioMetadata::build_from_bytes(&bytes), Err(PlayError::Unsupported(_))));
}

#[test]
fn truncated_fmt_block_is_not_readable() {
    let bytes = wav_bytes(1, 2, 48000, 16, &[]);
    assert!(matches!(
        WavAudioMetadata::build_from_bytes(&bytes[..30].to_vec()),
        Err(PlayError::FileNotAccessible(_))
    ));
}

#[test]
fn header_positions() {
    let bytes = wav_bytes(1, 2, 48000, 16, &i16_data(&[7]));
    assert_eq!(read_until_fmt_block_and_pass(&bytes), 16);
    assert_eq!(read_all_of_header(&bytes).unwrap(), 44);
}

#[test]
fn lpcm_i16_works() {
    let bytes = wav_bytes(1, 2, 48000, 16, &i16_data(&[11628, 4, 83, -50, -26, 0]));
    let wav = WavAudio::build_from_bytes(bytes).unwrap();
    let data = wav.get_samples_bytes().unwrap();
    let samples = LPcm.bytes_to_i16_samples(&data, wav.metadata()).unwrap();
    assert_eq!(samples, vec![11628i16, 4, 83, -50, -26, 0]);
}

#[test]
fn lpcm_u8_works() {
    let bytes = wav_bytes(1, 2, 8000, 8, &[182, 22, 2, 129, 128, 128]);
    let wav = WavAudio::build_from_bytes(bytes).unwrap();
    let data = wav.get_samples_bytes().unwrap();
    let samples = LPcm.bytes_to_u8_samples(&data, wav.metadata()).unwrap();
    assert_eq!(samples, vec![182u8, 22, 2, 129, 128, 128]);
}

#[test]
fn lpcm_i16_ignores_an_odd_byte() {
    assert_eq!(LPcm::decode_i16(&vec![0xFF, 0xFF, 0x01]), vec![-1i16]);
    assert_eq!(LPcm::decode_i16(&vec![0x00, 0x80]), vec![i16::MIN]);
}

#[test]
fn audio_format_builds_buffers() {
    let m = SamplesMetadata::new(1, 8000, SampleType::I16);
    let b = AudioFormat::LPcm.bytes_to_i16_samples(&vec![0x34, 0x12], m).unwrap();
    assert_eq!(b.samples, vec![0x1234i16]);
    assert_eq!(b.metadata, m);
    let u = AudioFormat::LPcm.bytes_to_u8_samples(&vec![9, 8], m).unwrap();
    assert_eq!(u.samples, vec![9u8, 8]);
}

#[test]
fn get_samples_decodes_in_the_stored_encoding() {
    let wav = WavAudio::build_from_bytes(wav_bytes(1, 2, 48000, 16, &i16_data(&[-1, 1]))).unwrap();
    match wav.get_samples().unwrap() {
        WavSamples::I16(s) => {
            assert_eq!(s.samples, vec![-1i16, 1]);
            assert_eq!(s.metadata, SamplesMetadata::new(2, 48000, SampleType::I16));
        },
        other => panic!("unexpected {:?}", other),
    }
}

#[test]
fn unsupported_bit_depth() {
    let wav = WavAudio::build_from_bytes(wav_bytes(1, 1, 48000, 24, &[0; 6])).unwrap();
    assert_eq!(wav.metadata().sample_type(), None);
    assert!(matches!(wav.get_samples(), Err(PlayError::Unsupported(_))));
}

#[test]
fn make_player_checks_whole_frames() {
    let wav = WavAudio::build_from_bytes(wav_bytes(1, 2, 8000, 8, &[1, 2, 3])).unwrap();
    assert!(matches!(wav.make_player::<Modifier>(), Err(PlayError::WrongFileType)));
    let wav = WavAudio::build_from_bytes(wav_bytes(1, 2, 8000, 8, &[1, 2, 3, 4])).unwrap();
    match wav.make_player::<Modifier>().unwrap() {
        WavPlayer::U8(p) => {
            assert_eq!(p.samples_with_modifiers().samples, vec![1u8, 2, 3, 4])
        },
        WavPlayer::I16(_) => panic!("wrong encoding"),
    }
}

#[test]
fn generics_dont_implode() {
    let bytes = wav_bytes(1, 2, 48000, 16, &i16_data(&[5, -5, 6, -6]));
    let _: WavAudio = WavAudio::build_from_bytes(bytes).unwrap();
}

#[test]
fn header_bytes_that_look_like_delimiters_do_not_matter() {
    // a RIFF size of 0x6420 holds both a space and a 'd'
    let mut bytes = wav_bytes(1, 1, 8000, 8, &[7, 9]);
    bytes[4] = 0x20;
    bytes[5] = 0x64;
    let wav = WavAudio::build_from_bytes(bytes).unwrap();
    assert_eq!(wav.metadata().channels(), 1);
    assert_eq!(wav.get_samples_bytes().unwrap(), vec![7u8, 9]);
}

#[test]
fn missing_data_chunk_is_not_readable() {
    let mut bytes = wav_bytes(1, 1, 8000, 8, &[]);
    bytes.truncate(38);
    let wav = WavAudio::build_from_bytes(bytes).unwrap();
    assert!(matches!(wav.get_samples_bytes(), Err(PlayError::FileNotAccessible(_))));
}
