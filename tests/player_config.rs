use ez_audi::config::{find_fitting_stream_config, SupportedConfigRange};
use ez_audi::errors::{AudioSettings, PlayError};
use ez_audi::modifiers::{Flatten, Loop, Modifier, Volume};
use ez_audi::player::{playback_chunk, silence, SamplesPlayer, StreamState};
use ez_audi::sample::SampleType;
use ez_audi::samples::{Samples, SamplesMetadata};

fn range(channels: u16, min: u32, max: u32, t: SampleType) -> SupportedConfigRange {
    SupportedConfigRange { channels, min_sample_rate: min, max_sample_rate: max, sample_type: t }
}

fn failed(r: Result<SupportedConfigRange, PlayError>) -> Vec<AudioSettings> {
    match r {
        Err(PlayError::DeviceDoesNotSupportAudioSettings(l)) => l,
        other => panic!("unexpected {:?}", other),
    }
}

#[test]
fn negotiation_reports_channel_count() {
    let configs = vec![range(2, 44100, 48000, SampleType::I16)];
    let m = SamplesMetadata::new(1, 44100, SampleType::I16);
    assert_eq!(failed(find_fitting_stream_config(&m, &configs)), vec![AudioSettings::Channels(1)]);
}

#[test]
fn negotiation_picks_the_first_fit() {
    let configs = vec![
        range(2, 8000, 22050, SampleType::I16),
        range(2, 44100, 48000, SampleType::F32),
        range(2, 44100, 48000, SampleType::I16),
        range(2, 8000, 96000, SampleType::I16),
    ];
    let m = SamplesMetadata::new(2, 44100, SampleType::I16);
    assert_eq!(find_fitting_stream_config(&m, &configs).unwrap(), configs[2]);
}

#[test]
fn negotiation_reports_each_unsupported_setting() {
    let configs = vec![range(2, 44100, 48000, SampleType::F32)];
    let m = SamplesMetadata::new(6, 8000, SampleType::U8);
    assert_eq!(
        failed(find_fitting_stream_config(&m, &configs)),
        vec![
            AudioSettings::SampleType(Some(SampleType::U8)),
            AudioSettings::SampleRate(8000),
            AudioSettings::Channels(6),
        ]
    );
}

#[test]
fn negotiation_reports_combination_only() {
    let configs = vec![range(1, 44100, 44100, SampleType::U8), range(2, 8000, 8000, SampleType::I16)];
    let m = SamplesMetadata::new(2, 44100, SampleType::U8);
    assert_eq!(failed(find_fitting_stream_config(&m, &configs)), vec![AudioSettings::Combinaison]);
}

#[test]
fn negotiation_without_configs_fails_everything() {
    let m = SamplesMetadata::new(2, 44100, SampleType::U8);
    assert_eq!(failed(find_fitting_stream_config(&m, &vec![])).len(), 3);
}

fn u8_player() -> SamplesPlayer<u8, Modifier> {
    let samples = Samples::new(vec![100u8, 200, 128, 0], SamplesMetadata::new(2, 8000, SampleType::U8));
    SamplesPlayer::new(samples)
}

#[test]
fn player_starts_with_the_original() {
    let p = u8_player();
    assert_eq!(p.samples_with_modifiers().samples, vec![100u8, 200, 128, 0]);
    assert_eq!(p.metadata().channels, 2);
    assert_eq!(p.stream_state(), StreamState::Idle);
}

#[test]
fn player_reevaluates_from_the_original() {
    let mut p = u8_player();
    p.add_modifier(Modifier::Volume(Volume::new(0, 1)));
    assert_eq!(p.samples_with_modifiers().samples, vec![128u8; 4]);
    p.clear_modifiers();
    assert_eq!(p.samples_with_modifiers().samples, vec![100u8, 200, 128, 0]);
    p.add_modifier(Modifier::Flatten(Flatten));
    p.add_modifier(Modifier::Loop(Loop(1)));
    assert_eq!(p.samples_with_modifiers().samples, vec![150u8, 150, 64, 64, 150, 150, 64, 64]);
}

#[test]
fn same_chain_gives_same_effective_buffer() {
    let mut a = u8_player();
    let mut b = u8_player();
    for p in [&mut a, &mut b] {
        p.add_modifier(Modifier::Volume(Volume::new(3, 2)));
        p.add_modifier(Modifier::Flatten(Flatten));
    }
    assert_eq!(a.samples_with_modifiers().samples, b.samples_with_modifiers().samples);
    a.add_modifier(Modifier::Loop(Loop(0)));
    assert_eq!(a.samples_with_modifiers().samples, b.samples_with_modifiers().samples);
}

#[test]
fn start_and_stop_are_no_ops_without_a_stream() {
    let mut p = u8_player();
    assert!(!p.start());
    assert!(!p.stop());
    assert_eq!(p.stream_state(), StreamState::Idle);
}

#[test]
fn player_lifecycle() {
    let mut p = u8_player();
    let configs = vec![range(2, 8000, 8000, SampleType::U8)];
    assert_eq!(p.play_on_device(&configs).unwrap(), configs[0]);
    assert_eq!(p.stream_state(), StreamState::Idle);
    p.set_stream();
    assert_eq!(p.stream_state(), StreamState::Streaming);
    assert!(p.stop());
    assert_eq!(p.stream_state(), StreamState::Paused);
    assert!(p.start());
    assert_eq!(p.stream_state(), StreamState::Streaming);
}

#[test]
fn player_negotiation_failure_is_returned() {
    let mut p = u8_player();
    let configs = vec![range(2, 44100, 48000, SampleType::I16)];
    assert!(matches!(
        p.play_on_device(&configs),
        Err(PlayError::DeviceDoesNotSupportAudioSettings(_))
    ));
    assert_eq!(p.stream_state(), StreamState::Idle);
}

#[test]
fn playback_pads_with_equilibrium() {
    let buffer = vec![1u8, 2, 3];
    assert_eq!(playback_chunk(&buffer, 0, 2), vec![1u8, 2]);
    assert_eq!(playback_chunk(&buffer, 2, 3), vec![3u8, 128, 128]);
    assert_eq!(playback_chunk(&buffer, usize::MAX, 2), vec![128u8, 128]);
    assert_eq!(silence::<i16>(3), vec![0i16; 3]);
}
