use ez_audi::modifiers::{Flatten, Loop, Modifier, ModifierTrait, Shittify, Volume};
use ez_audi::remix::{into_n_channels, into_sample_rate};
use ez_audi::sample::{Sample, SampleType, WORKING_UNIT};
use ez_audi::samples::{Samples, SamplesMetadata};

fn working(samples: Vec<i64>, channels: u16, rate: u32) -> Samples<i64> {
    Samples::new(samples, SamplesMetadata::new(channels, rate, SampleType::I16))
}

#[test]
fn remix_to_same_channel_count_is_identity() {
    for n in 1..=6u16 {
        let samples: Vec<i64> = (0..(n as i64 * 4)).map(|v| v * 1000 - 7).collect();
        let r = into_n_channels(working(samples.clone(), n, 44100), n);
        assert_eq!(r.samples, samples);
        assert_eq!(r.metadata.channels, n);
    }
}

#[test]
fn downmix_stereo_is_the_mean() {
    let r = into_n_channels(working(vec![2 * WORKING_UNIT, 4 * WORKING_UNIT], 2, 44100), 1);
    assert_eq!(r.samples, vec![3 * WORKING_UNIT]);
    assert_eq!(r.metadata.channels, 1);
    assert_eq!(r.metadata.sample_rate, 44100);
}

#[test]
fn downmix_keeps_frame_count_and_rounds_down() {
    let r = into_n_channels(working(vec![1, 2, 4, -1, -2, 0, 9, 9, 9], 3, 8000), 1);
    assert_eq!(r.samples, vec![2, -1, 9]);
}

#[test]
fn remix_two_to_three_channels() {
    let r = into_n_channels(working(vec![10, 20, -6, 6], 2, 8000), 3);
    assert_eq!(r.samples, vec![10, 15, 20, -6, 0, 6]);
    assert_eq!(r.metadata.channels, 3);
}

#[test]
fn upmix_mono_duplicates() {
    let r = into_n_channels(working(vec![5, -3], 1, 8000), 2);
    assert_eq!(r.samples, vec![5, 5, -3, -3]);
}

#[test]
fn remix_of_empty_buffer_is_empty() {
    let r = into_n_channels(working(vec![], 2, 8000), 5);
    assert!(r.samples.is_empty());
    assert_eq!(r.metadata.channels, 5);
}

#[test]
fn mono_to_stereo_and_back_returns_u8_samples() {
    let original: Vec<u8> = (0..100).map(|i| (128 + (i % 21) as i32 - 10) as u8).collect();
    let b = Samples::new(original.clone(), SamplesMetadata::new(1, 8000, SampleType::U8));
    let w = b.into_generic_representation_samples();
    let stereo = into_n_channels(w, 2);
    assert_eq!(stereo.samples.len(), 200);
    let mono = into_n_channels(stereo, 1);
    let back = mono.into_t_samples::<u8>();
    assert_eq!(back.samples, original);
}

#[test]
fn resample_halves_by_nearest_frame() {
    let r = into_sample_rate(working(vec![1, 2, 3, 4], 1, 4), 2);
    assert_eq!(r.samples, vec![1, 3]);
    assert_eq!(r.metadata.sample_rate, 2);
}

#[test]
fn resample_doubles_stereo() {
    let r = into_sample_rate(working(vec![1, -1, 2, -2], 2, 100), 200);
    assert_eq!(r.samples, vec![1, -1, 2, -2, 2, -2, 2, -2]);
}

#[test]
fn volume_zero_silences_and_one_keeps() {
    let b = working(vec![7, -9, WORKING_UNIT, i64::MIN], 2, 8000);
    let silent = Volume::new(0, 1).modify(b.clone());
    assert_eq!(silent.samples, vec![0, 0, 0, 0]);
    assert_eq!(silent.metadata, b.metadata);
    let same = Volume::new(1, 1).modify(b.clone());
    assert_eq!(same.samples, b.samples);
    let u8s = silent.into_t_samples::<u8>();
    assert!(u8s.samples.iter().all(|s| *s == u8::equilibrium()));
}

#[test]
fn volume_scales_rounds_down_and_saturates() {
    let b = working(vec![10, -3, i64::MAX], 1, 8000);
    assert_eq!(Volume::new(1, 2).modify(b.clone()).samples, vec![5, -2, i64::MAX / 2]);
    assert_eq!(Volume::new(3, 1).modify(b.clone()).samples, vec![30, -9, i64::MAX]);
    assert_eq!(Volume::new(-1, 1).modify(b).samples, vec![-10, 3, -i64::MAX]);
}

#[test]
fn volume_with_zero_denominator_silences() {
    let b = working(vec![10, -3], 1, 8000);
    let v = Volume { numerator: 5, denominator: 0 };
    assert_eq!(v.modify(b).samples, vec![0, 0]);
}

#[test]
fn loop_repeats_the_buffer() {
    let b = working(vec![1, 2, 3, 4], 2, 8000);
    let r = Loop(2).modify(b.clone());
    assert_eq!(r.samples.len(), 12);
    assert_eq!(&r.samples[0..4], &b.samples[..]);
    assert_eq!(r.samples, vec![1, 2, 3, 4, 1, 2, 3, 4, 1, 2, 3, 4]);
    assert_eq!(r.metadata, b.metadata);
    assert_eq!(Loop(0).modify(b.clone()).samples, b.samples);
}

#[test]
fn flatten_makes_channels_equal() {
    let b = working(vec![2, 4, -10, 0], 2, 8000);
    let r = Flatten.modify(b.clone());
    assert_eq!(r.samples, vec![3, 3, -5, -5]);
    assert_eq!(r.metadata, b.metadata);
}

#[test]
fn shittify_keeps_u8_mono_at_its_rate() {
    let samples: Vec<i64> = vec![0, 16777216, -16777216 * 3, 16777216 * 100];
    let b = working(samples.clone(), 1, 12000);
    let r = Shittify.modify(b.clone());
    assert_eq!(r.samples, samples);
    assert_eq!(r.metadata, b.metadata);
}

#[test]
fn shittify_quantizes_and_drops_frames() {
    let b = working(vec![16777216 + 5, 0, 16777216 * 2, 0], 1, 24000);
    let r = Shittify.modify(b);
    assert_eq!(r.samples, vec![16777216, 16777216 * 2, 16777216 * 2, 16777216 * 2]);
    assert_eq!(r.metadata.sample_rate, 24000);
}

#[test]
fn modifier_enum_dispatches() {
    let b = working(vec![2, 4], 2, 8000);
    assert_eq!(Modifier::Flatten(Flatten).modify(b.clone()).samples, vec![3, 3]);
    assert_eq!(Modifier::Loop(Loop(1)).modify(b.clone()).samples, vec![2, 4, 2, 4]);
    assert_eq!(Modifier::Volume(Volume::new(0, 1)).modify(b.clone()).samples, vec![0, 0]);
    // one frame at 8000 Hz becomes one frame at 12000 Hz, and no frame back
    assert_eq!(Modifier::Shittify(Shittify).modify(b).samples.len(), 0);
}

#[test]
fn remix_counts_small_overlaps() {
    // destination 13 of 20 spans [1.95, 2.1) of 3 sources: sources 1 and 2
    let r = into_n_channels(working(vec![0, 0, 2], 3, 8000), 20);
    assert_eq!(r.samples.len(), 20);
    assert_eq!(r.samples[13], 1);
    assert_eq!(r.samples[0], 0);
    assert_eq!(r.samples[19], 2);
    assert_eq!(r.samples[14], 2);
}

#[test]
fn remix_three_to_two_channels() {
    // destination 0 spans [0, 1.5): sources 0, 1; destination 1 spans [1.5, 3): sources 1, 2
    let r = into_n_channels(working(vec![3, 5, 11], 3, 8000), 2);
    assert_eq!(r.samples, vec![4, 8]);
}
