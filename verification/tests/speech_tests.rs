use std::collections::VecDeque;

use whisper_write::capture::ChunkAccumulator;
use whisper_write::detector::{DetectorSizes, SpeechDetector, SpeechEvent};
use whisper_write::energy::{calculate_energy, determine_threshold};
use whisper_write::speech::{SpeechConfig, SpeechConfigError, SpeechListener};
use whisper_write::wav::{encode_wave, WavError};

fn small_config() -> SpeechConfig {
    SpeechConfig {
        sample_rate: 1000,
        channels: 1,
        chunk_size: 10,
        min_speech_ms: 40,
        max_trailing_silence_ms: 50,
        start_trigger_chunks: 3,
        energy_history_ms: 100,
        energy_threshold_multiplier: 2600,
        absolute_min_energy: 200_000,
        continuation_ratio: 350,
        preroll_ms: 30,
    }
}

fn small_sizes() -> DetectorSizes {
    DetectorSizes {
        energy_history_size: 10,
        pre_roll_max: 3,
        max_trailing_silence_chunks: 5,
        min_required_samples: 40,
    }
}

#[test]
fn energy_is_mean_absolute_amplitude_in_thousandths() {
    assert_eq!(calculate_energy(&[100, -100, 0, 200]), 100_000);
    assert_eq!(calculate_energy(&[]), 0);
    assert_eq!(calculate_energy(&[1, 2]), 1_500);
    assert_eq!(calculate_energy(&[i16::MIN]), 32_768_000);
}

#[test]
fn threshold_uses_median_of_odd_history() {
    let h: VecDeque<u32> = VecDeque::from(vec![100, 300, 200]);
    assert_eq!(determine_threshold(&h, 3000, 0), 600);
}

#[test]
fn threshold_uses_mean_of_middle_pair_for_even_history() {
    let h: VecDeque<u32> = VecDeque::from(vec![100, 400, 200, 300]);
    assert_eq!(determine_threshold(&h, 2000, 0), 500);
}

#[test]
fn threshold_never_below_absolute_minimum() {
    let h: VecDeque<u32> = VecDeque::from(vec![10, 10, 10]);
    assert_eq!(determine_threshold(&h, 2600, 200_000), 200_000);
    let empty: VecDeque<u32> = VecDeque::new();
    assert_eq!(determine_threshold(&empty, 2600, 1234), 1234);
}

#[test]
fn threshold_of_uniform_history_scales_value() {
    let h: VecDeque<u32> = VecDeque::from(vec![200_000; 10]);
    assert_eq!(determine_threshold(&h, 2600, 200_000), 520_000);
}

#[test]
fn default_config_values() {
    let c = SpeechConfig::default();
    assert_eq!(c.sample_rate, 22_050);
    assert_eq!(c.channels, 1);
    assert_eq!(c.chunk_size, 256);
    assert_eq!(c.min_speech_ms, 700);
    assert_eq!(c.max_trailing_silence_ms, 900);
    assert_eq!(c.start_trigger_chunks, 3);
    assert_eq!(c.energy_history_ms, 3000);
    assert_eq!(c.energy_threshold_multiplier, 2600);
    assert_eq!(c.absolute_min_energy, 200_000);
    assert_eq!(c.continuation_ratio, 350);
    assert_eq!(c.preroll_ms, 500);
    assert_eq!(c.validate(), Ok(()));
}

#[test]
fn validate_reports_each_problem() {
    let mut c = SpeechConfig::default();
    c.sample_rate = 0;
    assert_eq!(c.validate(), Err(SpeechConfigError::SampleRateZero));
    let mut c = SpeechConfig::default();
    c.channels = 0;
    assert_eq!(c.validate(), Err(SpeechConfigError::ChannelsZero));
    let mut c = SpeechConfig::default();
    c.chunk_size = 0;
    assert_eq!(c.validate(), Err(SpeechConfigError::ChunkSizeZero));
    let mut c = SpeechConfig::default();
    c.energy_threshold_multiplier = 0;
    assert_eq!(c.validate(), Err(SpeechConfigError::MultiplierNotPositive));
    let mut c = SpeechConfig::default();
    c.continuation_ratio = 1001;
    assert_eq!(c.validate(), Err(SpeechConfigError::ContinuationRatioOutOfRange));
    let mut c = SpeechConfig::default();
    c.continuation_ratio = 1000;
    assert_eq!(c.validate(), Ok(()));
}

#[test]
fn validate_reports_first_problem() {
    let mut c = SpeechConfig::default();
    c.channels = 0;
    c.chunk_size = 0;
    assert_eq!(c.validate(), Err(SpeechConfigError::ChannelsZero));
    assert_eq!(SpeechConfigError::ChannelsZero.message(), "channels must be > 0");
}

#[test]
fn listener_accepts_only_valid_config() {
    let l = SpeechListener::new(SpeechConfig::default(), Some(2)).unwrap();
    assert_eq!(l.get_device_index(), Some(2));
    assert_eq!(l.get_config(), SpeechConfig::default());
    let mut bad = SpeechConfig::default();
    bad.sample_rate = 0;
    assert_eq!(SpeechListener::new(bad, None).err(), Some(SpeechConfigError::SampleRateZero));
}

#[test]
fn wav_header_and_samples() {
    let bytes = encode_wave(&[1, -2], 16_000).unwrap();
    let expected: Vec<u8> = vec![
        b'R', b'I', b'F', b'F', 40, 0, 0, 0, b'W', b'A', b'V', b'E', b'f', b'm', b't', b' ', 16, 0, 0, 0,
        1, 0, 1, 0, 0x80, 0x3e, 0, 0, 0x00, 0x7d, 0, 0, 2, 0, 16, 0, b'd', b'a', b't', b'a', 4, 0, 0, 0,
        1, 0, 0xfe, 0xff,
    ];
    assert_eq!(bytes, expected);
}

#[test]
fn wav_of_no_samples_is_header_only() {
    let bytes = encode_wave(&[], 22_050).unwrap();
    assert_eq!(bytes.len(), 44);
    assert_eq!(&bytes[4..8], &[36, 0, 0, 0]);
    assert_eq!(&bytes[40..44], &[0, 0, 0, 0]);
}

#[test]
fn wav_error_kinds_are_distinct() {
    assert_ne!(WavError::TooLong, WavError::Encoder);
}

#[test]
fn detector_emits_segment_with_preroll() {
    let mut d = SpeechDetector::new(small_config(), 1000, small_sizes());
    let quiet = vec![10i16; 10];
    let loud = vec![1000i16; 10];
    assert!(matches!(d.process_chunk(quiet.clone()), SpeechEvent::Nothing));
    assert!(matches!(d.process_chunk(loud.clone()), SpeechEvent::Nothing));
    assert!(matches!(d.process_chunk(loud.clone()), SpeechEvent::Nothing));
    assert!(matches!(d.process_chunk(loud.clone()), SpeechEvent::Detected));
    assert!(matches!(d.process_chunk(loud.clone()), SpeechEvent::Nothing));
    for _ in 0..4 {
        assert!(matches!(d.process_chunk(quiet.clone()), SpeechEvent::Nothing));
    }
    match d.process_chunk(quiet.clone()) {
        SpeechEvent::Segment(seg) => {
            assert_eq!(seg.sequence_id, 1);
            assert_eq!(seg.speech_samples, 70);
            assert_eq!(seg.sample_rate, 1000);
            assert_eq!(seg.audio_bytes.len(), 44 + 2 * 100);
            assert_eq!(&seg.audio_bytes[40..44], &[200, 0, 0, 0]);
            // pre-roll: the quiet chunk, then two loud chunks
            assert_eq!(&seg.audio_bytes[44..46], &[10, 0]);
            assert_eq!(&seg.audio_bytes[64..66], &[0xe8, 0x03]);
        }
        other => panic!("expected a segment, got {:?}", other),
    }
}

#[test]
fn detector_discards_short_speech() {
    let mut config = small_config();
    config.min_speech_ms = 100;
    let mut d = SpeechDetector::new(config, 1000, DetectorSizes { min_required_samples: 100, ..small_sizes() });
    let quiet = vec![10i16; 10];
    let loud = vec![1000i16; 10];
    for _ in 0..2 {
        assert!(matches!(d.process_chunk(loud.clone()), SpeechEvent::Nothing));
    }
    assert!(matches!(d.process_chunk(loud.clone()), SpeechEvent::Detected));
    for _ in 0..4 {
        assert!(matches!(d.process_chunk(quiet.clone()), SpeechEvent::Nothing));
    }
    assert!(matches!(d.process_chunk(quiet.clone()), SpeechEvent::Discarded));
    // after a reset the history is empty, so the absolute minimum decides
    assert!(matches!(d.process_chunk(loud.clone()), SpeechEvent::Nothing));
}

#[test]
fn detector_ignores_empty_chunk() {
    let mut d = SpeechDetector::new(small_config(), 1000, small_sizes());
    assert!(matches!(d.process_chunk(Vec::new()), SpeechEvent::Nothing));
}

#[test]
fn detector_sequence_ids_count_segments() {
    let mut d = SpeechDetector::new(small_config(), 1000, small_sizes());
    let quiet = vec![10i16; 10];
    let loud = vec![1000i16; 10];
    let mut ids = Vec::new();
    for _ in 0..2 {
        for _ in 0..5 {
            d.process_chunk(loud.clone());
        }
        for _ in 0..5 {
            if let SpeechEvent::Segment(seg) = d.process_chunk(quiet.clone()) {
                ids.push(seg.sequence_id);
            }
        }
        // refill the energy history with background noise
        for _ in 0..10 {
            d.process_chunk(quiet.clone());
        }
    }
    assert_eq!(ids, vec![1, 2]);
}

#[test]
fn history_is_empty_after_a_segment() {
    let mut d = SpeechDetector::new(small_config(), 1000, small_sizes());
    let quiet = vec![10i16; 10];
    let loud = vec![1000i16; 10];
    for _ in 0..5 {
        d.process_chunk(loud.clone());
    }
    let mut got_segment = false;
    for _ in 0..5 {
        if let SpeechEvent::Segment(_) = d.process_chunk(quiet.clone()) {
            got_segment = true;
        }
    }
    assert!(got_segment);
    // the first loud chunk is measured against the absolute minimum only;
    // the next is measured against its own energy and is not loud enough
    for _ in 0..6 {
        assert!(matches!(d.process_chunk(loud.clone()), SpeechEvent::Nothing));
    }
}

#[test]
fn loud_chunk_at_silence_limit_keeps_segment_open() {
    let mut config = small_config();
    config.continuation_ratio = 2000;
    let mut d = SpeechDetector::new(config, 1000, small_sizes());
    let quiet = vec![10i16; 10];
    let loud = vec![1000i16; 10];
    for _ in 0..2 {
        d.process_chunk(loud.clone());
    }
    assert!(matches!(d.process_chunk(loud.clone()), SpeechEvent::Detected));
    // loud chunks below the continuation threshold count as quiet ...
    for _ in 0..4 {
        assert!(matches!(d.process_chunk(loud.clone()), SpeechEvent::Nothing));
    }
    // ... but at the limit a chunk above the speech threshold keeps speech going
    assert!(matches!(d.process_chunk(loud.clone()), SpeechEvent::Nothing));
    for _ in 0..4 {
        assert!(matches!(d.process_chunk(quiet.clone()), SpeechEvent::Nothing));
    }
    assert!(matches!(d.process_chunk(quiet.clone()), SpeechEvent::Segment(_)));
}

#[test]
fn accumulator_cuts_fixed_size_chunks() {
    let mut acc = ChunkAccumulator::new(3);
    let out = acc.push_samples(&[1, 2]);
    assert!(out.is_empty());
    let out = acc.push_samples(&[3, 4, 5, 6, 7]);
    assert_eq!(out, vec![vec![1, 2, 3], vec![4, 5, 6]]);
    let out = acc.push_samples(&[8, 9]);
    assert_eq!(out, vec![vec![7, 8, 9]]);
    assert_eq!(acc.chunk_size(), 3);
}

#[test]
fn accumulator_with_zero_size_collects_nothing() {
    let mut acc = ChunkAccumulator::new(0);
    assert!(acc.push_samples(&[1, 2, 3]).is_empty());
}

#[test]
fn preroll_keeps_only_the_latest_chunks() {
    let mut d = SpeechDetector::new(small_config(), 1000, small_sizes());
    let loud = vec![1000i16; 10];
    let mut quiet_count: i16 = 0;
    for _ in 0..12 {
        quiet_count += 1;
        d.process_chunk(vec![quiet_count; 10]);
    }
    for _ in 0..3 {
        d.process_chunk(loud.clone());
    }
    let mut segment = None;
    for _ in 0..5 {
        if let SpeechEvent::Segment(seg) = d.process_chunk(vec![5i16; 10]) {
            segment = Some(seg);
        }
    }
    let seg = segment.expect("a segment");
    // pre-roll holds three chunks: the last quiet one and the first two loud ones
    assert_eq!(seg.audio_bytes.len(), 44 + 2 * (30 + 60));
    assert_eq!(&seg.audio_bytes[44..46], &[12, 0]);
    assert_eq!(seg.speech_samples, 60);
}

#[test]
fn quiet_chunk_resets_trigger_run() {
    let mut d = SpeechDetector::new(small_config(), 1000, small_sizes());
    let quiet = vec![10i16; 10];
    let loud = vec![1000i16; 10];
    assert!(matches!(d.process_chunk(loud.clone()), SpeechEvent::Nothing));
    assert!(matches!(d.process_chunk(loud.clone()), SpeechEvent::Nothing));
    assert!(matches!(d.process_chunk(quiet.clone()), SpeechEvent::Nothing));
    assert!(matches!(d.process_chunk(loud.clone()), SpeechEvent::Nothing));
    assert!(matches!(d.process_chunk(loud.clone()), SpeechEvent::Nothing));
    assert!(matches!(d.process_chunk(loud.clone()), SpeechEvent::Detected));
}

#[test]
fn wav_reads_back_samples() {
    let samples: Vec<i16> = vec![0, 1, -1, i16::MAX, i16::MIN, 1234];
    let bytes = encode_wave(&samples, 44_100).unwrap();
    assert_eq!(&bytes[0..4], b"RIFF");
    assert_eq!(&bytes[8..12], b"WAVE");
    assert_eq!(u32::from_le_bytes([bytes[24], bytes[25], bytes[26], bytes[27]]), 44_100);
    assert_eq!(u16::from_le_bytes([bytes[22], bytes[23]]), 1);
    assert_eq!(u16::from_le_bytes([bytes[34], bytes[35]]), 16);
    let decoded: Vec<i16> = bytes[44..].chunks(2).map(|p| i16::from_le_bytes([p[0], p[1]])).collect();
    assert_eq!(decoded, samples);
}

#[test]
fn accumulator_keeps_less_than_a_chunk_pending() {
    let mut acc = ChunkAccumulator::new(4);
    let samples: Vec<i16> = (0..10).collect();
    let out = acc.push_samples(&samples);
    assert_eq!(out.len(), 2);
    let rest = acc.push_samples(&[10, 11]);
    assert_eq!(rest, vec![vec![8, 9, 10, 11]]);
}
