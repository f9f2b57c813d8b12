use vstd::prelude::*;

verus! {

/// Tuning of the speech segmenter. Durations are in milliseconds; the
/// multiplier and the continuation ratio are in thousandths; energies are mean
/// absolute sample amplitudes in thousandths of an amplitude unit.
#[derive(Debug, Clone, Copy, PartialEq, Eq)]
pub struct SpeechConfig {
    pub sample_rate: u32,
    pub channels: u16,
    pub chunk_size: usize,
    pub min_speech_ms: u64,
    pub max_trailing_silence_ms: u64,
    pub start_trigger_chunks: usize,
    pub energy_history_ms: u64,
    pub energy_threshold_multiplier: u32,
    pub absolute_min_energy: u32,
    pub continuation_ratio: u32,
    pub preroll_ms: u64,
}

/// A reason for which a speech configuration is rejected.
#[derive(Debug, Clone, Copy, PartialEq, Eq, Structural)]
pub enum SpeechConfigError {
    SampleRateZero,
    ChannelsZero,
    ChunkSizeZero,
    MultiplierNotPositive,
    ContinuationRatioOutOfRange,
}

impl SpeechConfigError {
    /// The human-readable description of the problem.
    pub fn message(&self) -> (m: &'static str)
        ensures
            m@ == match self {
                SpeechConfigError::SampleRateZero => "sample_rate must be > 0"@,
                SpeechConfigError::ChannelsZero => "channels must be > 0"@,
                SpeechConfigError::ChunkSizeZero => "chunk_size must be > 0"@,
                SpeechConfigError::MultiplierNotPositive => "energy_threshold_multiplier must be > 0"@,
                SpeechConfigError::ContinuationRatioOutOfRange => "continuation_ratio must be between 0 and 1"@,
            },
    {
        match self {
            SpeechConfigError::SampleRateZero => "sample_rate must be > 0",
            SpeechConfigError::ChannelsZero => "channels must be > 0",
            SpeechConfigError::ChunkSizeZero => "chunk_size must be > 0",
            SpeechConfigError::MultiplierNotPositive => "energy_threshold_multiplier must be > 0",
            SpeechConfigError::ContinuationRatioOutOfRange => "continuation_ratio must be between 0 and 1",
        }
    }
}

/// The first problem of a configuration, checked in a fixed order, if any.
pub open spec fn config_problem(c: SpeechConfig) -> Option<SpeechConfigError> {
    if c.sample_rate == 0 {
        Some(SpeechConfigError::SampleRateZero)
    } else if c.channels == 0 {
        Some(SpeechConfigError::ChannelsZero)
    } else if c.chunk_size == 0 {
        Some(SpeechConfigError::ChunkSizeZero)
    } else if c.energy_threshold_multiplier == 0 {
        Some(SpeechConfigError::MultiplierNotPositive)
    } else if c.continuation_ratio > 1000 {
        Some(SpeechConfigError::ContinuationRatioOutOfRange)
    } else {
        None
    }
}

impl SpeechConfig {
    /// Checks the configuration; the error names the first problem found.
    pub fn validate(&self) -> (r: Result<(), SpeechConfigError>)
        ensures
            r is Ok <==> config_problem(*self) is None,
            r matches Err(e) ==> config_problem(*self) == Some(e),
    {
        if self.sample_rate == 0 {
            return Err(SpeechConfigError::SampleRateZero);
        }
        if self.channels == 0 {
            return Err(SpeechConfigError::ChannelsZero);
        }
        if self.chunk_size == 0 {
            return Err(SpeechConfigError::ChunkSizeZero);
        }
        if self.energy_threshold_multiplier == 0 {
            return Err(SpeechConfigError::MultiplierNotPositive);
        }
        if self.continuation_ratio > 1000 {
            return Err(SpeechConfigError::ContinuationRatioOutOfRange);
        }
        Ok(())
    }
}

/// The configuration used when nothing else is given.
pub open spec fn default_speech_config() -> SpeechConfig {
    SpeechConfig {
        sample_rate: 22_050,
        channels: 1,
        chunk_size: 256,
        min_speech_ms: 700,
        max_trailing_silence_ms: 900,
        start_trigger_chunks: 3,
        energy_history_ms: 3000,
        energy_threshold_multiplier: 2600,
        absolute_min_energy: 200_000,
        continuation_ratio: 350,
        preroll_ms: 500,
    }
}

impl Default for SpeechConfig {
    fn default() -> (c: SpeechConfig)
        ensures
            c == default_speech_config(),
    {
        SpeechConfig {
            sample_rate: 22_050,
            channels: 1,
            chunk_size: 256,
            min_speech_ms: 700,
            max_trailing_silence_ms: 900,
            start_trigger_chunks: 3,
            energy_history_ms: 3000,
            energy_threshold_multiplier: 2600,
            absolute_min_energy: 200_000,
            continuation_ratio: 350,
            preroll_ms: 500,
        }
    }
}

/// The default configuration passes validation.
pub proof fn lemma_default_config_valid()
    ensures
        config_problem(default_speech_config()) is None,
{
}

/// A finished stretch of speech, framed as a WAV file (pre-roll included).
/// Its duration is `speech_samples` (the speech after the pre-roll) at
/// `sample_rate` samples per second.
#[derive(Debug, Clone)]
pub struct SpeechSegment {
    pub audio_bytes: Vec<u8>,
    pub speech_samples: usize,
    pub sample_rate: u32,
    pub sequence_id: u64,
}

/// A validated configuration together with the chosen input device.
#[derive(Debug, Clone)]
pub struct SpeechListener {
    config: SpeechConfig,
    device_index: Option<usize>,
}

impl SpeechListener {
    /// Accepts the configuration if it validates.
    pub fn new(config: SpeechConfig, device_index: Option<usize>) -> (r: Result<SpeechListener, SpeechConfigError>)
        ensures
            r is Ok <==> config_problem(config) is None,
            r matches Err(e) ==> config_problem(config) == Some(e),
            r matches Ok(l) ==> l.config() == config && l.device_index() == device_index,
    {
        match config.validate() {
            Ok(()) => Ok(SpeechListener { config, device_index }),
            Err(e) => Err(e),
        }
    }

    pub closed spec fn config(&self) -> SpeechConfig {
        self.config
    }

    pub closed spec fn device_index(&self) -> Option<usize> {
        self.device_index
    }

    /// The configuration the listener records with.
    pub fn get_config(&self) -> (c: SpeechConfig)
        ensures c == self.config(),
    {
        self.config
    }

    /// The input device index, if one was chosen.
    pub fn get_device_index(&self) -> (d: Option<usize>)
        ensures d == self.device_index(),
    {
        self.device_index
    }
}

} // verus!
