use ez_audi::sample::{Sample, SampleType, WORKING_UNIT};
use ez_audi::samples::{
    join_channels, seperate_channels, GetRealSampleType, Samples, SamplesMetadata,
};
use ez_audi::traits::AudioMetadataTrait;

fn meta(channels: u16, sample_rate: u32, sample_type: SampleType) -> SamplesMetadata {
    SamplesMetadata::new(channels, sample_rate, sample_type)
}

#[test]
fn equilibrium_maps_to_working_zero() {
    assert_eq!(u8::equilibrium().to_working(), 0);
    assert_eq!(i8::equilibrium().to_working(), 0);
    assert_eq!(u16::equilibrium().to_working(), 0);
    assert_eq!(i16::equilibrium().to_working(), 0);
    assert_eq!(u32::equilibrium().to_working(), 0);
    assert_eq!(i32::equilibrium().to_working(), 0);
    assert_eq!(u64::equilibrium().to_working(), 0);
    assert_eq!(i64::equilibrium().to_working(), 0);
    assert_eq!(u8::from_working(0), 128);
    assert_eq!(u16::from_working(0), 32768);
    assert_eq!(u32::from_working(0), 2147483648);
    assert_eq!(u64::from_working(0), 9223372036854775808);
    assert_eq!(i16::from_working(0), 0);
}

#[test]
fn full_scale_maps_to_working_unit() {
    assert_eq!(i16::MIN.to_working(), -WORKING_UNIT);
    assert_eq!(i8::MIN.to_working(), -WORKING_UNIT);
    assert_eq!(u8::MIN.to_working(), -WORKING_UNIT);
    assert_eq!(i32::MIN.to_working(), -WORKING_UNIT);
    assert_eq!(i64::MIN.to_working(), -WORKING_UNIT);
    assert_eq!(u8::MAX.to_working(), 127 * 16777216);
    assert_eq!(i16::MAX.to_working(), 32767 * 65536);
}

#[test]
fn round_trip_is_exact_up_to_32_bits() {
    for x in [0u8, 1, 127, 128, 129, 254, 255] {
        assert_eq!(u8::from_working(x.to_working()), x);
    }
    for x in [i8::MIN, -1, 0, 1, i8::MAX] {
        assert_eq!(i8::from_working(x.to_working()), x);
    }
    for x in [0u16, 1, 32767, 32768, u16::MAX] {
        assert_eq!(u16::from_working(x.to_working()), x);
    }
    for x in [i16::MIN, -50, -26, 0, 83, 11628, i16::MAX] {
        assert_eq!(i16::from_working(x.to_working()), x);
    }
    for x in [0u32, 1, 2147483648, u32::MAX] {
        assert_eq!(u32::from_working(x.to_working()), x);
    }
    for x in [i32::MIN, -7, 0, 7, i32::MAX] {
        assert_eq!(i32::from_working(x.to_working()), x);
    }
}

#[test]
fn round_trip_of_64_bits_loses_only_the_low_half() {
    assert_eq!(i64::from_working((0x1_0000_0001i64).to_working()), 0x1_0000_0000);
    assert_eq!(i64::from_working((-1i64).to_working()), -0x1_0000_0000);
    assert_eq!(u64::from_working((0x1_0000_0001u64).to_working()), 0x1_0000_0000);
    assert_eq!(u64::from_working(u64::MAX.to_working()), 0xFFFF_FFFF_0000_0000);
}

#[test]
fn from_working_saturates() {
    assert_eq!(u8::from_working(i64::MAX), 255);
    assert_eq!(u8::from_working(i64::MIN), 0);
    assert_eq!(i16::from_working(4 * WORKING_UNIT), i16::MAX);
    assert_eq!(i16::from_working(-4 * WORKING_UNIT), i16::MIN);
    assert_eq!(i32::from_working(i64::MAX), i32::MAX);
    assert_eq!(i64::from_working(i64::MAX), i64::MAX);
}

#[test]
fn buffer_conversion_round_trip() {
    let original: Vec<u8> = (0..=255u8).collect();
    let buffer = Samples::new(original.clone(), meta(1, 8000, SampleType::U8));
    let working = buffer.generic_representation_samples();
    assert_eq!(working.samples.len(), 256);
    assert_eq!(working.samples[128], 0);
    assert_eq!(working.metadata, buffer.metadata);
    let back = working.into_t_samples::<u8>();
    assert_eq!(back.samples, original);
    assert_eq!(back.metadata.sample_type, SampleType::U8);
}

#[test]
fn re_encoding_retags_the_metadata() {
    let working = Samples::new(vec![0i64, WORKING_UNIT / 2], meta(2, 44100, SampleType::U8));
    let as_i16 = working.into_t_samples::<i16>();
    assert_eq!(as_i16.samples, vec![0i16, 16384]);
    assert_eq!(as_i16.metadata.sample_type, SampleType::I16);
    let empty = Samples::new(Vec::<i64>::new(), meta(2, 44100, SampleType::U8));
    assert_eq!(empty.into_t_samples::<i16>().metadata.sample_type, SampleType::I16);
}

#[test]
fn real_sample_type_follows_the_element_type() {
    let b = Samples::new(vec![1i16, 2], meta(1, 8000, SampleType::U8));
    assert_eq!(b.get_real_sample_type(), Some(SampleType::I16));
    let mut c = b.clone();
    c.update_sample_type();
    assert_eq!(c.metadata.sample_type, SampleType::I16);
}

#[test]
fn samples_metadata_capabilities() {
    let m = meta(2, 48000, SampleType::I16);
    assert_eq!(AudioMetadataTrait::channels(&m), 2);
    assert_eq!(AudioMetadataTrait::sample_rate(&m), 48000);
    assert_eq!(AudioMetadataTrait::sample_type(&m), Some(SampleType::I16));
    assert!(AudioMetadataTrait::file_path(&m).is_none());
    let b = Samples::new(vec![1u8, 2], m);
    assert_eq!(*b.metadata(), m);
    assert_eq!(b.samples(), vec![1u8, 2]);
}

#[test]
fn channels_separate_and_join() {
    let b = Samples::new(vec![1i64, 2, 3, 4, 5, 6], meta(3, 8000, SampleType::I16));
    let channels = seperate_channels(b);
    assert_eq!(channels, vec![vec![1i64, 4], vec![2, 5], vec![3, 6]]);
    assert_eq!(join_channels(channels), vec![1i64, 2, 3, 4, 5, 6]);
}

#[test]
fn join_channels_stops_at_the_first_channel_length() {
    assert_eq!(join_channels(vec![vec![1u8], vec![2, 3]]), vec![1u8, 2]);
    assert_eq!(join_channels(vec![Vec::<u8>::new(), vec![2]]), Vec::<u8>::new());
}
