use vstd::prelude::*;
use std::collections::VecDeque;

use crate::energy::{calculate_energy, chunk_energy, determine_threshold, speech_threshold};
use crate::speech::{SpeechConfig, SpeechSegment};
use crate::wav::{decode_pcm16, encode_wave, lemma_wav_round_trip, read_le32, wav_fits, wav_mono16};

verus! {

/// What the segmenter reports after a chunk.
#[derive(Debug)]
pub enum SpeechEvent {
    /// Nothing to report.
    Nothing,
    /// Speech has started.
    Detected,
    /// Speech ended but was too short (or could not be framed) and was dropped.
    Discarded,
    /// Speech ended and is handed out as a segment.
    Segment(SpeechSegment),
}

/// The abstract state of the segmenter: its fixed parameters and its buffers.
pub struct DetectorState {
    pub multiplier: u32,
    pub absolute_min: u32,
    pub continuation_ratio: u32,
    pub start_trigger_chunks: usize,
    pub rate: u32,
    pub history_size: usize,
    pub preroll_max: usize,
    pub max_trailing: usize,
    pub min_required: usize,
    pub history: Seq<u32>,
    pub preroll: Seq<Seq<i16>>,
    pub speech: Seq<Seq<i16>>,
    pub active: bool,
    pub trigger_count: usize,
    pub trailing: usize,
    pub sequence_id: u64,
}

/// How a step of the segmenter ended.
pub enum StepKind {
    Quiet,
    Detected,
    Discarded,
    Emitted,
}

/// Appends `x` to a queue that holds at most `max` items, dropping the oldest when full.
pub open spec fn push_bounded<T>(q: Seq<T>, x: T, max: int) -> Seq<T> {
    if q.len() >= max { q.drop_first().push(x) } else { q.push(x) }
}

/// The samples of consecutive frames, in order.
pub open spec fn frame_samples(frames: Seq<Seq<i16>>) -> Seq<i16>
    decreases frames.len(),
{
    if frames.len() == 0 {
        Seq::empty()
    } else {
        frame_samples(frames.drop_last()) + frames.last()
    }
}

/// The view of a list of frames.
pub open spec fn frames_view(frames: Seq<Vec<i16>>) -> Seq<Seq<i16>> {
    frames.map_values(|f: Vec<i16>| f@)
}

/// The loudness that keeps an active segment going.
pub open spec fn continuation_threshold(s: DetectorState) -> int {
    speech_threshold(s.history, s.multiplier, s.absolute_min) * s.continuation_ratio / 1000
}

/// The samples framed when a segment ends: the pre-roll, then the speech frames.
pub open spec fn segment_samples(s: DetectorState) -> Seq<i16> {
    frame_samples(s.preroll) + frame_samples(s.speech)
}

/// Whether ending the segment in state `s` hands out a segment (rather than discarding it).
pub open spec fn segment_kept(s: DetectorState) -> bool {
    &&& frame_samples(s.speech).len() >= s.min_required
    &&& wav_fits(segment_samples(s).len() as int)
}

/// The state after a segment ends: every buffer and the history are cleared;
/// the sequence number counts the segment if it was handed out.
pub open spec fn after_segment(s: DetectorState) -> DetectorState {
    DetectorState {
        history: Seq::empty(),
        preroll: Seq::empty(),
        speech: Seq::empty(),
        active: false,
        trigger_count: 0,
        trailing: 0,
        sequence_id: if segment_kept(s) { (s.sequence_id + 1) as u64 } else { s.sequence_id },
        ..s
    }
}

/// Whether a step ends the active segment: the chunk is below both thresholds
/// and the run of quiet chunks has reached its limit.
pub open spec fn ends_segment(s: DetectorState, chunk: Seq<i16>) -> bool {
    let e = chunk_energy(chunk);
    &&& chunk.len() > 0
    &&& s.active
    &&& e < continuation_threshold(s)
    &&& s.trailing + 1 >= s.max_trailing
    &&& e < speech_threshold(s.history, s.multiplier, s.absolute_min)
}

/// Whether a step starts a segment: the chunk is loud and completes the run of
/// loud chunks that triggers speech.
pub open spec fn starts_segment(s: DetectorState, chunk: Seq<i16>) -> bool {
    &&& chunk.len() > 0
    &&& !s.active
    &&& chunk_energy(chunk) >= speech_threshold(s.history, s.multiplier, s.absolute_min)
    &&& s.trigger_count + 1 >= s.start_trigger_chunks
}

/// The state with the chunk added to the speech frames.
pub open spec fn with_speech_chunk(s: DetectorState, chunk: Seq<i16>) -> DetectorState {
    DetectorState { speech: s.speech.push(chunk), ..s }
}

/// One step of the segmenter on a chunk of samples.
pub open spec fn detector_step(s: DetectorState, chunk: Seq<i16>) -> DetectorState {
    let e = chunk_energy(chunk);
    let threshold = speech_threshold(s.history, s.multiplier, s.absolute_min);
    if chunk.len() == 0 {
        s
    } else if !s.active {
        let loud = e >= threshold;
        let count: usize = if !loud {
            0
        } else if s.trigger_count == usize::MAX {
            s.trigger_count
        } else {
            (s.trigger_count + 1) as usize
        };
        if loud && count >= s.start_trigger_chunks {
            DetectorState { active: true, speech: seq![chunk], trailing: 0, trigger_count: 0, ..s }
        } else {
            DetectorState {
                trigger_count: count,
                preroll: push_bounded(s.preroll, chunk, s.preroll_max as int),
                history: push_bounded(s.history, e as u32, s.history_size as int),
                ..s
            }
        }
    } else if e >= continuation_threshold(s) || s.trailing + 1 < s.max_trailing || e >= threshold {
        DetectorState {
            speech: s.speech.push(chunk),
            trailing: if e >= continuation_threshold(s) || e >= threshold && s.trailing + 1 >= s.max_trailing {
                0
            } else {
                (s.trailing + 1) as usize
            },
            ..s
        }
    } else {
        after_segment(with_speech_chunk(s, chunk))
    }
}

/// How a step of the segmenter ends.
pub open spec fn step_kind(s: DetectorState, chunk: Seq<i16>) -> StepKind {
    if starts_segment(s, chunk) {
        StepKind::Detected
    } else if ends_segment(s, chunk) {
        if segment_kept(with_speech_chunk(s, chunk)) { StepKind::Emitted } else { StepKind::Discarded }
    } else {
        StepKind::Quiet
    }
}

/// The segment handed out when the segment of state `s` ends and is kept.
pub open spec fn segment_matches(seg: SpeechSegment, s: DetectorState) -> bool {
    let samples = segment_samples(s);
    &&& seg.audio_bytes@ == wav_mono16(samples, s.rate)
    &&& seg.speech_samples == frame_samples(s.speech).len()
    &&& seg.sample_rate == s.rate
    &&& seg.sequence_id == s.sequence_id + 1
}

/// The event reported after a step matches how the step ended.
pub open spec fn event_matches(event: SpeechEvent, s: DetectorState, chunk: Seq<i16>) -> bool {
    match event {
        SpeechEvent::Nothing => step_kind(s, chunk) is Quiet,
        SpeechEvent::Detected => step_kind(s, chunk) is Detected,
        SpeechEvent::Discarded => step_kind(s, chunk) is Discarded,
        SpeechEvent::Segment(seg) => step_kind(s, chunk) is Emitted
            && segment_matches(seg, with_speech_chunk(s, chunk)),
    }
}

/// The sizes that fix the segmenter's memory and limits: how many chunks of
/// energy history and of pre-roll are kept, after how many quiet chunks a
/// segment ends, and how many samples of speech a segment needs.
#[derive(Debug, Clone, Copy, PartialEq, Eq, Structural)]
pub struct DetectorSizes {
    pub energy_history_size: usize,
    pub pre_roll_max: usize,
    pub max_trailing_silence_chunks: usize,
    pub min_required_samples: usize,
}

/// Segments microphone chunks into stretches of speech.
pub struct SpeechDetector {
    config: SpeechConfig,
    rate: u32,
    energy_history: VecDeque<u32>,
    energy_history_size: usize,
    pre_roll_frames: VecDeque<Vec<i16>>,
    pre_roll_max: usize,
    speech_frames: Vec<Vec<i16>>,
    speech_active: bool,
    start_trigger_count: usize,
    trailing_silence_chunks: usize,
    max_trailing_silence_chunks: usize,
    min_required_samples: usize,
    sequence_id: u64,
}

impl View for SpeechDetector {
    type V = DetectorState;

    closed spec fn view(&self) -> DetectorState {
        DetectorState {
            multiplier: self.config.energy_threshold_multiplier,
            absolute_min: self.config.absolute_min_energy,
            continuation_ratio: self.config.continuation_ratio,
            start_trigger_chunks: self.config.start_trigger_chunks,
            rate: self.rate,
            history_size: self.energy_history_size,
            preroll_max: self.pre_roll_max,
            max_trailing: self.max_trailing_silence_chunks,
            min_required: self.min_required_samples,
            history: self.energy_history@,
            preroll: frames_view(self.pre_roll_frames@),
            speech: frames_view(self.speech_frames@),
            active: self.speech_active,
            trigger_count: self.start_trigger_count,
            trailing: self.trailing_silence_chunks,
            sequence_id: self.sequence_id,
        }
    }
}

/// The properties every reachable state of the segmenter has.
pub open spec fn state_wf(s: DetectorState) -> bool {
    &&& buffers_wf(s)
    &&& s.trailing < s.max_trailing
    &&& (s.active <==> s.speech.len() > 0)
    &&& (s.active ==> s.trigger_count == 0)
}

/// The bounds on the parameters and buffers of the segmenter.
pub open spec fn buffers_wf(s: DetectorState) -> bool {
    &&& 0 < s.rate <= 0x7fff_ffff
    &&& 1 <= s.history_size
    &&& 1 <= s.preroll_max
    &&& 1 <= s.max_trailing
    &&& s.history.len() <= s.history_size
    &&& s.preroll.len() <= s.preroll_max
}

impl SpeechDetector {
    /// The segmenter is in a reachable state.
    pub open spec fn wf(&self) -> bool {
        state_wf(self@)
    }

    /// The configuration the segmenter was made with.
    pub closed spec fn config(&self) -> SpeechConfig {
        self.config
    }
}


/// Appends the samples of one frame.
fn append_frame(out: &mut Vec<i16>, frame: &Vec<i16>)
    ensures
        final(out)@ == old(out)@ + frame@,
{
    let mut i: usize = 0;
    while i < frame.len()
        invariant
            i <= frame@.len(),
            out@ == old(out)@ + frame@.subrange(0, i as int),
        decreases frame@.len() - i,
    {
        out.push(frame[i]);
        i = i + 1;
        proof {
            assert(frame@.subrange(0, i as int) =~= frame@.subrange(0, i - 1).push(frame@[i - 1]));
        }
    }
    proof {
        assert(frame@.subrange(0, frame@.len() as int) =~= frame@);
    }
}

proof fn lemma_frame_samples_take(fs: Seq<Seq<i16>>, i: int)
    requires
        0 <= i < fs.len(),
    ensures
        frame_samples(fs.take(i + 1)) == frame_samples(fs.take(i)) + fs[i],
{
    assert(fs.take(i + 1).drop_last() =~= fs.take(i));
}

/// Appends the samples of the pre-roll frames, oldest first.
fn append_queued_frames(out: &mut Vec<i16>, frames: &VecDeque<Vec<i16>>)
    ensures
        final(out)@ == old(out)@ + frame_samples(frames_view(frames@)),
{
    let ghost fs = frames_view(frames@);
    let mut i: usize = 0;
    proof {
        assert(fs.take(0) =~= Seq::<Seq<i16>>::empty());
        assert(old(out)@ + frame_samples(fs.take(0)) =~= old(out)@);
    }
    while i < frames.len()
        invariant
            i <= frames@.len(),
            fs == frames_view(frames@),
            out@ == old(out)@ + frame_samples(fs.take(i as int)),
        decreases frames@.len() - i,
    {
        let frame = &frames[i];
        append_frame(out, frame);
        proof {
            lemma_frame_samples_take(fs, i as int);
            assert(fs[i as int] == frames@[i as int]@);
            assert(out@ =~= old(out)@ + frame_samples(fs.take(i + 1)));
        }
        i = i + 1;
    }
    proof {
        assert(fs.take(frames@.len() as int) =~= fs);
    }
}

/// Appends the samples of the speech frames, oldest first.
fn append_listed_frames(out: &mut Vec<i16>, frames: &Vec<Vec<i16>>)
    ensures
        final(out)@ == old(out)@ + frame_samples(frames_view(frames@)),
{
    let ghost fs = frames_view(frames@);
    let mut i: usize = 0;
    proof {
        assert(fs.take(0) =~= Seq::<Seq<i16>>::empty());
        assert(old(out)@ + frame_samples(fs.take(0)) =~= old(out)@);
    }
    while i < frames.len()
        invariant
            i <= frames@.len(),
            fs == frames_view(frames@),
            out@ == old(out)@ + frame_samples(fs.take(i as int)),
        decreases frames@.len() - i,
    {
        let frame = &frames[i];
        append_frame(out, frame);
        proof {
            lemma_frame_samples_take(fs, i as int);
            assert(fs[i as int] == frames@[i as int]@);
            assert(out@ =~= old(out)@ + frame_samples(fs.take(i + 1)));
        }
        i = i + 1;
    }
    proof {
        assert(fs.take(frames@.len() as int) =~= fs);
    }
}

impl SpeechDetector {
    /// A segmenter for chunks recorded at `actual_rate` samples per second,
    /// with the given buffer sizes and limits. The energy history starts full
    /// of `absolute_min_energy` values.
    pub fn new(config: SpeechConfig, actual_rate: u32, sizes: DetectorSizes) -> (d: SpeechDetector)
        requires
            0 < actual_rate <= 0x7fff_ffff,
            sizes.energy_history_size >= 1,
            sizes.pre_roll_max >= 1,
            sizes.max_trailing_silence_chunks >= 1,
        ensures
            d.wf(),
            d.config() == config,
            d@.multiplier == config.energy_threshold_multiplier,
            d@.absolute_min == config.absolute_min_energy,
            d@.continuation_ratio == config.continuation_ratio,
            d@.start_trigger_chunks == config.start_trigger_chunks,
            d@.rate == actual_rate,
            d@.history_size == sizes.energy_history_size,
            d@.preroll_max == sizes.pre_roll_max,
            d@.max_trailing == sizes.max_trailing_silence_chunks,
            d@.min_required == sizes.min_required_samples,
            d@.history == Seq::new(d@.history_size as nat, |i: int| config.absolute_min_energy),
            d@.preroll.len() == 0,
            d@.speech.len() == 0,
            !d@.active,
            d@.trigger_count == 0,
            d@.trailing == 0,
            d@.sequence_id == 0,
    {
        let energy_history_size = sizes.energy_history_size;
        let pre_roll_max = sizes.pre_roll_max;
        let max_trailing_silence_chunks = sizes.max_trailing_silence_chunks;
        let min_required_samples = sizes.min_required_samples;
        let mut detector = SpeechDetector {
            config,
            rate: actual_rate,
            energy_history: VecDeque::new(),
            energy_history_size,
            pre_roll_frames: VecDeque::new(),
            pre_roll_max,
            speech_frames: Vec::new(),
            speech_active: false,
            start_trigger_count: 0,
            trailing_silence_chunks: 0,
            max_trailing_silence_chunks,
            min_required_samples,
            sequence_id: 0,
        };
        detector.seed_energy_history();
        proof {
            assert(frames_view(detector.pre_roll_frames@) =~= Seq::<Seq<i16>>::empty());
            assert(frames_view(detector.speech_frames@) =~= Seq::<Seq<i16>>::empty());
        }
        detector
    }

    /// Fills the energy history with `absolute_min_energy` values.
    fn seed_energy_history(&mut self)
        ensures
            final(self).energy_history@ == Seq::new(old(self).energy_history_size as nat, |i: int| old(self).config.absolute_min_energy),
            final(self).config == old(self).config,
            final(self).rate == old(self).rate,
            final(self).energy_history_size == old(self).energy_history_size,
            final(self).pre_roll_frames == old(self).pre_roll_frames,
            final(self).pre_roll_max == old(self).pre_roll_max,
            final(self).speech_frames == old(self).speech_frames,
            final(self).speech_active == old(self).speech_active,
            final(self).start_trigger_count == old(self).start_trigger_count,
            final(self).trailing_silence_chunks == old(self).trailing_silence_chunks,
            final(self).max_trailing_silence_chunks == old(self).max_trailing_silence_chunks,
            final(self).min_required_samples == old(self).min_required_samples,
            final(self).sequence_id == old(self).sequence_id,
    {
        self.energy_history.clear();
        let mut i: usize = 0;
        let n = self.energy_history_size;
        let v = self.config.absolute_min_energy;
        while i < n
            invariant
                i <= n,
                n == self.energy_history_size,
                v == self.config.absolute_min_energy,
                self.energy_history@ == Seq::new(i as nat, |j: int| v),
                self.config == old(self).config,
                self.rate == old(self).rate,
                self.energy_history_size == old(self).energy_history_size,
                self.pre_roll_frames == old(self).pre_roll_frames,
                self.pre_roll_max == old(self).pre_roll_max,
                self.speech_frames == old(self).speech_frames,
                self.speech_active == old(self).speech_active,
                self.start_trigger_count == old(self).start_trigger_count,
                self.trailing_silence_chunks == old(self).trailing_silence_chunks,
                self.max_trailing_silence_chunks == old(self).max_trailing_silence_chunks,
                self.min_required_samples == old(self).min_required_samples,
                self.sequence_id == old(self).sequence_id,
            decreases n - i,
        {
            self.energy_history.push_back(v);
            i = i + 1;
            proof {
                assert(self.energy_history@ =~= Seq::new(i as nat, |j: int| v));
            }
        }
    }

    /// Keeps the chunk as pre-roll, dropping the oldest when the pre-roll is full.
    fn push_preroll(&mut self, chunk: Vec<i16>)
        requires
            old(self).wf(),
        ensures
            final(self).wf(),
            final(self).config == old(self).config,
            final(self)@ == (DetectorState {
                preroll: push_bounded(old(self)@.preroll, chunk@, old(self)@.preroll_max as int),
                ..old(self)@
            }),
    {
        let ghost c = chunk@;
        let ghost q = self.pre_roll_frames@;
        if self.pre_roll_frames.len() == self.pre_roll_max {
            self.pre_roll_frames.pop_front();
        }
        self.pre_roll_frames.push_back(chunk);
        proof {
            if q.len() >= self.pre_roll_max {
                assert(self.pre_roll_frames@ =~= q.drop_first().push(chunk));
                assert(frames_view(self.pre_roll_frames@) =~= frames_view(q).drop_first().push(c));
            } else {
                assert(self.pre_roll_frames@ =~= q.push(chunk));
                assert(frames_view(self.pre_roll_frames@) =~= frames_view(q).push(c));
            }
        }
    }

    /// Records the energy of a chunk, dropping the oldest when the history is full.
    fn push_energy(&mut self, energy: u32)
        requires
            old(self).wf(),
        ensures
            final(self).wf(),
            final(self).config == old(self).config,
            final(self)@ == (DetectorState {
                history: push_bounded(old(self)@.history, energy, old(self)@.history_size as int),
                ..old(self)@
            }),
    {
        let ghost q = self.energy_history@;
        if self.energy_history.len() == self.energy_history_size {
            self.energy_history.pop_front();
        }
        self.energy_history.push_back(energy);
        proof {
            if q.len() >= self.energy_history_size {
                assert(self.energy_history@ =~= q.drop_first().push(energy));
            } else {
                assert(self.energy_history@ =~= q.push(energy));
            }
        }
    }

    /// Empties the energy history.
    fn clear_energy_history(&mut self)
        ensures
            final(self).energy_history@ == Seq::<u32>::empty(),
            final(self).config == old(self).config,
            final(self).rate == old(self).rate,
            final(self).energy_history_size == old(self).energy_history_size,
            final(self).pre_roll_frames == old(self).pre_roll_frames,
            final(self).pre_roll_max == old(self).pre_roll_max,
            final(self).speech_frames == old(self).speech_frames,
            final(self).speech_active == old(self).speech_active,
            final(self).start_trigger_count == old(self).start_trigger_count,
            final(self).trailing_silence_chunks == old(self).trailing_silence_chunks,
            final(self).max_trailing_silence_chunks == old(self).max_trailing_silence_chunks,
            final(self).min_required_samples == old(self).min_required_samples,
            final(self).sequence_id == old(self).sequence_id,
    {
        self.energy_history.clear();
    }

    /// Ends the current segment: frames pre-roll and speech as one WAV file
    /// and hands it out when the speech part is long enough, then clears
    /// every buffer and the energy history.
    fn finish_segment(&mut self) -> (event: SpeechEvent)
        requires
            buffers_wf(old(self)@),
            old(self)@.sequence_id < u64::MAX,
        ensures
            final(self).wf(),
            final(self).config == old(self).config,
            final(self)@ == after_segment(old(self)@),
            match event {
                SpeechEvent::Segment(seg) => segment_kept(old(self)@) && segment_matches(seg, old(self)@),
                SpeechEvent::Discarded => !segment_kept(old(self)@),
                _ => false,
            },
    {
        self.speech_active = false;
        let mut samples: Vec<i16> = Vec::new();
        append_queued_frames(&mut samples, &self.pre_roll_frames);
        let pre_roll_samples = samples.len();
        append_listed_frames(&mut samples, &self.speech_frames);
        let total_samples = samples.len();
        let speech_samples = total_samples - pre_roll_samples;
        proof {
            assert(samples@ =~= segment_samples(old(self)@));
        }
        let event = if speech_samples >= self.min_required_samples {
            match encode_wave(&samples, self.rate) {
                Ok(audio_bytes) => {
                    self.sequence_id = self.sequence_id + 1;
                    SpeechEvent::Segment(SpeechSegment {
                        audio_bytes,
                        speech_samples,
                        sample_rate: self.rate,
                        sequence_id: self.sequence_id,
                    })
                },
                Err(_) => SpeechEvent::Discarded,
            }
        } else {
            SpeechEvent::Discarded
        };
        self.speech_frames.clear();
        self.trailing_silence_chunks = 0;
        self.pre_roll_frames.clear();
        self.start_trigger_count = 0;
        self.clear_energy_history();
        proof {
            assert(frames_view(self.pre_roll_frames@) =~= Seq::<Seq<i16>>::empty());
            assert(frames_view(self.speech_frames@) =~= Seq::<Seq<i16>>::empty());
        }
        event
    }

    /// The sequence number of the last segment handed out (0 before the first).
    pub fn last_sequence_id(&self) -> (id: u64)
        ensures
            id == self@.sequence_id,
    {
        self.sequence_id
    }

    /// Feeds one chunk of samples to the segmenter.
    pub fn process_chunk(&mut self, chunk: Vec<i16>) -> (event: SpeechEvent)
        requires
            old(self).wf(),
            old(self)@.sequence_id < u64::MAX,
        ensures
            final(self).wf(),
            final(self).config() == old(self).config(),
            final(self)@ == detector_step(old(self)@, chunk@),
            event_matches(event, old(self)@, chunk@),
    {
        if chunk.len() == 0 {
            return SpeechEvent::Nothing;
        }
        let ghost s = self@;
        let ghost c = chunk@;
        let energy = calculate_energy(chunk.as_slice());
        let threshold = determine_threshold(
            &self.energy_history,
            self.config.energy_threshold_multiplier,
            self.config.absolute_min_energy,
        );
        assert((threshold as u128) * (self.config.continuation_ratio as u128) <= 0xffff_ffff_ffff_ffff * 0xffff_ffff) by (nonlinear_arith)
            requires threshold <= 0xffff_ffff_ffff_ffffu64, self.config.continuation_ratio <= 0xffff_ffffu32;
        let continuation_threshold: u128 = (threshold as u128) * (self.config.continuation_ratio as u128) / 1000;
        let energy_wide = energy as u64;

        if !self.speech_active {
            if energy_wide >= threshold {
                self.start_trigger_count = self.start_trigger_count.saturating_add(1);
                if self.start_trigger_count >= self.config.start_trigger_chunks {
                    self.speech_active = true;
                    self.speech_frames = vec![chunk];
                    self.trailing_silence_chunks = 0;
                    self.start_trigger_count = 0;
                    proof {
                        assert(frames_view(self.speech_frames@) =~= seq![c]);
                    }
                    return SpeechEvent::Detected;
                }
                self.push_preroll(chunk);
                self.push_energy(energy);
                return SpeechEvent::Nothing;
            }
            self.start_trigger_count = 0;
            self.push_preroll(chunk);
            self.push_energy(energy);
            return SpeechEvent::Nothing;
        }

        self.speech_frames.push(chunk);
        proof {
            assert(frames_view(self.speech_frames@) =~= s.speech.push(c));
        }
        self.trailing_silence_chunks = self.trailing_silence_chunks + 1;

        if energy_wide as u128 >= continuation_threshold {
            self.trailing_silence_chunks = 0;
            return SpeechEvent::Nothing;
        }

        if self.trailing_silence_chunks < self.max_trailing_silence_chunks {
            return SpeechEvent::Nothing;
        }

        if energy_wide >= threshold {
            self.trailing_silence_chunks = 0;
            return SpeechEvent::Nothing;
        }

        self.finish_segment()
    }
}


/// Every step keeps the bounds of the segmenter: the energy history and the
/// pre-roll never hold more than their capacities, and a run of quiet chunks
/// never reaches its limit without ending the segment.
pub proof fn lemma_step_keeps_bounds(s: DetectorState, chunk: Seq<i16>)
    requires
        state_wf(s),
    ensures
        state_wf(detector_step(s, chunk)),
{
}

/// A step never changes the parameters of the segmenter.
pub proof fn lemma_step_keeps_parameters(s: DetectorState, chunk: Seq<i16>)
    ensures
        ({
            let t = detector_step(s, chunk);
            &&& t.multiplier == s.multiplier
            &&& t.absolute_min == s.absolute_min
            &&& t.continuation_ratio == s.continuation_ratio
            &&& t.start_trigger_chunks == s.start_trigger_chunks
            &&& t.rate == s.rate
            &&& t.history_size == s.history_size
            &&& t.preroll_max == s.preroll_max
            &&& t.max_trailing == s.max_trailing
            &&& t.min_required == s.min_required
        }),
{
}

/// An empty chunk changes nothing and reports nothing.
pub proof fn lemma_empty_chunk_ignored(s: DetectorState)
    ensures
        detector_step(s, Seq::empty()) == s,
        step_kind(s, Seq::empty()) is Quiet,
{
}

/// The sequence number counts exactly the segments handed out: it grows by
/// one on a step that hands out a segment and stays put otherwise.
pub proof fn lemma_sequence_counts_segments(s: DetectorState, chunk: Seq<i16>)
    requires
        s.sequence_id < u64::MAX,
    ensures
        detector_step(s, chunk).sequence_id == (if step_kind(s, chunk) is Emitted {
            s.sequence_id + 1
        } else {
            s.sequence_id as int
        }),
{
}

/// A segment handed out holds at least the minimum amount of speech, and
/// fits the WAV size limits.
pub proof fn lemma_emitted_segment_long_enough(s: DetectorState, chunk: Seq<i16>)
    requires
        step_kind(s, chunk) is Emitted,
    ensures
        frame_samples(s.speech.push(chunk)).len() >= s.min_required,
        wav_fits((frame_samples(s.preroll) + frame_samples(s.speech.push(chunk))).len() as int),
{
}

/// When a segment ends, handed out or discarded, the segmenter starts over:
/// no speech is active and the pre-roll, speech and energy history are empty.
pub proof fn lemma_segment_end_resets(s: DetectorState, chunk: Seq<i16>)
    requires
        step_kind(s, chunk) is Emitted || step_kind(s, chunk) is Discarded,
    ensures
        ({
            let t = detector_step(s, chunk);
            &&& !t.active
            &&& t.preroll.len() == 0
            &&& t.speech.len() == 0
            &&& t.history.len() == 0
            &&& t.trigger_count == 0
            &&& t.trailing == 0
            &&& speech_threshold(t.history, t.multiplier, t.absolute_min) == t.absolute_min
        }),
{
}

/// Speech starts exactly on the step that reports it, and the segment then
/// holds just the chunk that triggered it.
pub proof fn lemma_detection_starts_speech(s: DetectorState, chunk: Seq<i16>)
    ensures
        (!s.active && detector_step(s, chunk).active) <==> step_kind(s, chunk) is Detected,
        step_kind(s, chunk) is Detected ==> detector_step(s, chunk).speech == seq![chunk],
{
}

/// While speech goes on, every chunk is kept in the segment, in order.
pub proof fn lemma_active_keeps_chunks(s: DetectorState, chunk: Seq<i16>)
    requires
        s.active,
        chunk.len() > 0,
        !(step_kind(s, chunk) is Emitted || step_kind(s, chunk) is Discarded),
    ensures
        detector_step(s, chunk).active,
        detector_step(s, chunk).speech == s.speech.push(chunk),
        detector_step(s, chunk).preroll == s.preroll,
        detector_step(s, chunk).history == s.history,
{
}


/// Before speech starts, the trigger count is the length of the current run
/// of loud chunks: a quiet chunk resets it, a loud one extends it, and speech
/// starts only once the run reaches `start_trigger_chunks`.
pub proof fn lemma_trigger_counts_loud_run(s: DetectorState, chunk: Seq<i16>)
    requires
        !s.active,
        chunk.len() > 0,
        s.trigger_count < usize::MAX,
    ensures
        ({
            let loud = chunk_energy(chunk) >= speech_threshold(s.history, s.multiplier, s.absolute_min);
            let t = detector_step(s, chunk);
            &&& !loud ==> t.trigger_count == 0 && step_kind(s, chunk) is Quiet
            &&& loud && !(step_kind(s, chunk) is Detected) ==> t.trigger_count == s.trigger_count + 1
            &&& step_kind(s, chunk) is Detected ==> loud && s.trigger_count + 1 >= s.start_trigger_chunks
        }),
{
}


/// The event tells how speech activity changed: before speech only nothing
/// or a detection is reported, and a detection is exactly the start of
/// speech; during speech no detection is reported, a dropped or handed-out
/// segment is exactly the end of speech, and otherwise speech goes on.
pub proof fn lemma_event_tracks_activity(s: DetectorState, chunk: Seq<i16>)
    requires
        state_wf(s),
    ensures
        ({
            let k = step_kind(s, chunk);
            let t = detector_step(s, chunk);
            &&& !s.active ==> (k is Quiet || k is Detected) && (k is Detected <==> t.active)
            &&& s.active ==> !(k is Detected) && ((k is Discarded || k is Emitted) <==> !t.active)
                && (k is Quiet ==> t.active)
        }),
{
}

/// The state after feeding the chunks in order.
pub open spec fn detector_run(s: DetectorState, chunks: Seq<Seq<i16>>) -> DetectorState
    decreases chunks.len(),
{
    if chunks.len() == 0 {
        s
    } else {
        detector_step(detector_run(s, chunks.drop_last()), chunks.last())
    }
}

/// The number of segments handed out while feeding the chunks in order.
pub open spec fn segments_in_run(s: DetectorState, chunks: Seq<Seq<i16>>) -> nat
    decreases chunks.len(),
{
    if chunks.len() == 0 {
        0
    } else {
        segments_in_run(s, chunks.drop_last()) + if step_kind(detector_run(s, chunks.drop_last()), chunks.last()) is Emitted {
            1nat
        } else {
            0nat
        }
    }
}

/// Whatever chunks are fed, the segmenter stays in a reachable state.
pub proof fn lemma_run_keeps_bounds(s: DetectorState, chunks: Seq<Seq<i16>>)
    requires
        state_wf(s),
    ensures
        state_wf(detector_run(s, chunks)),
    decreases chunks.len(),
{
    if chunks.len() > 0 {
        lemma_run_keeps_bounds(s, chunks.drop_last());
        lemma_step_keeps_bounds(detector_run(s, chunks.drop_last()), chunks.last());
    }
}

/// Over any run, the sequence number grows by exactly the number of segments
/// handed out, so segments are numbered 1, 2, 3, ... without gap or repeat.
pub proof fn lemma_run_counts_segments(s: DetectorState, chunks: Seq<Seq<i16>>)
    requires
        s.sequence_id + chunks.len() <= u64::MAX,
    ensures
        segments_in_run(s, chunks) <= chunks.len(),
        detector_run(s, chunks).sequence_id == s.sequence_id + segments_in_run(s, chunks),
    decreases chunks.len(),
{
    if chunks.len() > 0 {
        lemma_run_counts_segments(s, chunks.drop_last());
        lemma_sequence_counts_segments(detector_run(s, chunks.drop_last()), chunks.last());
    }
}


/// During speech, a chunk at least as loud as the speech threshold scaled by
/// the continuation ratio (in thousandths) keeps the segment going: nothing
/// is reported, the chunk joins the segment and the run of quiet chunks
/// starts over.
pub proof fn lemma_loud_chunk_keeps_segment(s: DetectorState, chunk: Seq<i16>)
    requires
        s.active,
        chunk.len() > 0,
        chunk_energy(chunk) >= speech_threshold(s.history, s.multiplier, s.absolute_min) * s.continuation_ratio / 1000,
    ensures
        step_kind(s, chunk) is Quiet,
        detector_step(s, chunk).active,
        detector_step(s, chunk).trailing == 0,
        detector_step(s, chunk).speech == s.speech.push(chunk),
        detector_step(s, chunk).history == s.history,
{
}

/// During speech, a chunk below the scaled threshold that does not complete
/// the run of quiet chunks extends that run by one and keeps the segment going.
pub proof fn lemma_quiet_chunk_extends_run(s: DetectorState, chunk: Seq<i16>)
    requires
        s.active,
        chunk.len() > 0,
        chunk_energy(chunk) < speech_threshold(s.history, s.multiplier, s.absolute_min) * s.continuation_ratio / 1000,
        s.trailing + 1 < s.max_trailing,
    ensures
        step_kind(s, chunk) is Quiet,
        detector_step(s, chunk).active,
        detector_step(s, chunk).trailing == s.trailing + 1,
        detector_step(s, chunk).speech == s.speech.push(chunk),
{
}

/// A segment ends only on a non-empty chunk during speech that is below both
/// the speech threshold and the scaled threshold, and that completes the
/// run of quiet chunks.
pub proof fn lemma_segment_ends_on_quiet_chunk(s: DetectorState, chunk: Seq<i16>)
    requires
        step_kind(s, chunk) is Emitted || step_kind(s, chunk) is Discarded,
    ensures
        s.active,
        chunk.len() > 0,
        chunk_energy(chunk) < speech_threshold(s.history, s.multiplier, s.absolute_min) * s.continuation_ratio / 1000,
        chunk_energy(chunk) < speech_threshold(s.history, s.multiplier, s.absolute_min),
        s.trailing + 1 >= s.max_trailing,
{
}

/// Whether a chunk is below the continuation threshold of state `s`.
pub open spec fn quiet_for(s: DetectorState, chunk: Seq<i16>) -> bool {
    chunk_energy(chunk) < speech_threshold(s.history, s.multiplier, s.absolute_min) * s.continuation_ratio / 1000
}

proof fn lemma_take_of_drop_last<A>(chunks: Seq<A>, i: int)
    requires
        0 <= i < chunks.len(),
    ensures
        chunks.drop_last().take(i) == chunks.take(i),
{
    assert(chunks.drop_last().take(i) =~= chunks.take(i));
}

/// While speech goes on over a run of non-empty chunks that started with no
/// quiet chunks pending, the history and parameters stay as they were and
/// the current count of quiet chunks are the last chunks fed, all quiet.
proof fn lemma_active_run_quiet_tail(s: DetectorState, chunks: Seq<Seq<i16>>)
    requires
        state_wf(s),
        s.active,
        s.trailing == 0,
        forall|j: int| 0 <= j < chunks.len() ==> #[trigger] chunks[j].len() > 0,
        forall|i: int| 0 <= i <= chunks.len() ==> #[trigger] detector_run(s, chunks.take(i)).active,
    ensures
        ({
            let t = detector_run(s, chunks);
            &&& t.history == s.history
            &&& t.multiplier == s.multiplier
            &&& t.absolute_min == s.absolute_min
            &&& t.continuation_ratio == s.continuation_ratio
            &&& t.max_trailing == s.max_trailing
            &&& state_wf(t)
            &&& t.trailing <= chunks.len()
            &&& forall|j: int| chunks.len() - t.trailing <= j < chunks.len() ==> quiet_for(s, #[trigger] chunks[j])
        }),
    decreases chunks.len(),
{
    assert(chunks.take(chunks.len() as int) =~= chunks);
    if chunks.len() == 0 {
    } else {
        let init = chunks.drop_last();
        let last = chunks.last();
        assert forall|i: int| 0 <= i <= init.len() implies #[trigger] detector_run(s, init.take(i)).active by {
            lemma_take_of_drop_last(chunks, i);
            assert(detector_run(s, chunks.take(i)).active);
        }
        assert forall|j: int| 0 <= j < init.len() implies #[trigger] init[j].len() > 0 by {
            assert(init[j] == chunks[j]);
        }
        lemma_active_run_quiet_tail(s, init);
        let u = detector_run(s, init);
        assert(init.take(init.len() as int) =~= init);
        assert(detector_run(s, chunks) == detector_step(u, last));
        lemma_step_keeps_bounds(u, last);
        assert(detector_run(s, chunks).active);
        let t = detector_step(u, last);
        assert forall|j: int| chunks.len() - t.trailing <= j < chunks.len() implies quiet_for(s, #[trigger] chunks[j]) by {
            if j < chunks.len() - 1 {
                assert(chunks[j] == init[j]);
            }
        }
    }
}

/// A segment ends only after a run of consecutive quiet chunks as long as the
/// configured limit: if speech goes on over non-empty chunks from a point
/// with no quiet chunks pending, and the last chunk ends the segment, then
/// at least `max_trailing` chunks were fed and the last `max_trailing` of
/// them were all below the speech threshold scaled by the continuation ratio.
pub proof fn lemma_segment_ends_after_quiet_run(s: DetectorState, chunks: Seq<Seq<i16>>)
    requires
        state_wf(s),
        s.active,
        s.trailing == 0,
        chunks.len() > 0,
        forall|j: int| 0 <= j < chunks.len() ==> #[trigger] chunks[j].len() > 0,
        forall|i: int| 0 <= i < chunks.len() ==> #[trigger] detector_run(s, chunks.take(i)).active,
        ({
            let k = step_kind(detector_run(s, chunks.drop_last()), chunks.last());
            k is Emitted || k is Discarded
        }),
    ensures
        chunks.len() >= s.max_trailing,
        forall|j: int| chunks.len() - s.max_trailing <= j < chunks.len() ==> quiet_for(s, #[trigger] chunks[j]),
{
    let init = chunks.drop_last();
    let last = chunks.last();
    assert forall|i: int| 0 <= i <= init.len() implies #[trigger] detector_run(s, init.take(i)).active by {
        lemma_take_of_drop_last(chunks, i);
        assert(detector_run(s, chunks.take(i)).active);
    }
    assert forall|j: int| 0 <= j < init.len() implies #[trigger] init[j].len() > 0 by {
        assert(init[j] == chunks[j]);
    }
    lemma_active_run_quiet_tail(s, init);
    let u = detector_run(s, init);
    lemma_segment_ends_on_quiet_chunk(u, last);
    assert forall|j: int| chunks.len() - s.max_trailing <= j < chunks.len() implies quiet_for(s, #[trigger] chunks[j]) by {
        if j < chunks.len() - 1 {
            assert(chunks[j] == init[j]);
        }
    }
}

/// Before speech starts, every chunk that does not start it is measured into
/// the energy history, which then holds the most recent energies: the new
/// energy last, after the newest entries of the old history, and as many
/// entries as fit (one more than before, up to the history size).
pub proof fn lemma_history_holds_recent_energies(s: DetectorState, chunk: Seq<i16>)
    requires
        state_wf(s),
        !s.active,
        chunk.len() > 0,
        !(step_kind(s, chunk) is Detected),
    ensures
        ({
            let h = detector_step(s, chunk).history;
            let n = s.history.len() as int;
            &&& h.len() == (if n < s.history_size { n + 1 } else { s.history_size as int })
            &&& h.last() == chunk_energy(chunk)
            &&& forall|i: int| 0 <= i < h.len() - 1 ==> #[trigger] h[i] == s.history[n - (h.len() - 1) + i]
        }),
{
    crate::energy::lemma_energy_bound(chunk);
}


/// Before speech starts, every chunk that does not start it is kept as
/// pre-roll, which then holds the most recent chunks: the new chunk last,
/// after the newest of the old pre-roll, as many as fit.
pub proof fn lemma_preroll_holds_recent_chunks(s: DetectorState, chunk: Seq<i16>)
    requires
        state_wf(s),
        !s.active,
        chunk.len() > 0,
        !(step_kind(s, chunk) is Detected),
    ensures
        ({
            let p = detector_step(s, chunk).preroll;
            let n = s.preroll.len() as int;
            &&& p.len() == (if n < s.preroll_max { n + 1 } else { s.preroll_max as int })
            &&& p.last() == chunk
            &&& forall|i: int| 0 <= i < p.len() - 1 ==> #[trigger] p[i] == s.preroll[n - (p.len() - 1) + i]
        }),
{
}

/// A segment handed out is a WAV file at the segmenter's rate whose samples
/// are the pre-roll followed by the speech including the ending chunk; it
/// counts the speech samples, which reach the minimum, and it carries the
/// next sequence number. A dropped segment had too little speech or too
/// many samples for a WAV file.
pub proof fn lemma_segment_contents(s: DetectorState, chunk: Seq<i16>, event: SpeechEvent)
    requires
        event_matches(event, s, chunk),
    ensures
        event matches SpeechEvent::Segment(seg) ==> {
            let speech = frame_samples(s.speech.push(chunk));
            let all = frame_samples(s.preroll) + speech;
            let w = seg.audio_bytes@;
            &&& w.len() == 44 + 2 * all.len()
            &&& read_le32(w, 24) == s.rate
            &&& decode_pcm16(w.subrange(44, w.len() as int)) == all
            &&& seg.speech_samples == speech.len()
            &&& seg.speech_samples >= s.min_required
            &&& seg.sample_rate == s.rate
            &&& seg.sequence_id == s.sequence_id + 1
        },
        event is Discarded ==> {
            let speech = frame_samples(s.speech.push(chunk));
            let all = frame_samples(s.preroll) + speech;
            speech.len() < s.min_required || !wav_fits(all.len() as int)
        },
{
    if let SpeechEvent::Segment(seg) = event {
        let all = frame_samples(s.preroll) + frame_samples(s.speech.push(chunk));
        assert(segment_samples(with_speech_chunk(s, chunk)) == all);
        lemma_wav_round_trip(all, s.rate);
        crate::wav::lemma_wav_length(all, s.rate);
    }
}

} // verus!
