use vstd::prelude::*;

use crate::config::Mode;
use crate::openai::{AudioEndpoint, AudioFile};
use crate::speech::SpeechSegment;
use crate::text::{decimal, decimal_string};

verus! {

/// The endpoint that serves a mode.
pub fn endpoint_for_mode(mode: Mode) -> (e: AudioEndpoint)
    ensures
        e == (match mode {
            Mode::Transcribe => AudioEndpoint::Transcriptions,
            Mode::Translate => AudioEndpoint::Translations,
        }),
{
    match mode {
        Mode::Transcribe => AudioEndpoint::Transcriptions,
        Mode::Translate => AudioEndpoint::Translations,
    }
}

/// The file name under which a segment is uploaded: `segment-<id>.wav`.
pub open spec fn segment_name(id: u64) -> Seq<char> {
    "segment-"@ + decimal(id as nat) + ".wav"@
}

/// The file name under which a segment is uploaded.
pub fn segment_file_name(sequence_id: u64) -> (s: String)
    ensures
        s@ == segment_name(sequence_id),
{
    let digits = decimal_string(sequence_id);
    let mut s = String::from_str("segment-");
    s.append(digits.as_str());
    s.append(".wav");
    s
}

/// The upload for a captured segment: its WAV bytes under its file name.
pub fn segment_audio_file(segment: SpeechSegment) -> (f: AudioFile)
    ensures
        f.name@ == segment_name(segment.sequence_id),
        f.bytes == segment.audio_bytes,
{
    let name = segment_file_name(segment.sequence_id);
    AudioFile::new(name, segment.audio_bytes)
}

/// The text to type for a recognised text: nothing when it is empty,
/// otherwise the text followed by a space.
pub fn text_to_type(text: &str) -> (r: Option<String>)
    ensures
        text@.len() == 0 ==> r is None,
        text@.len() > 0 ==> (r matches Some(s) && s@ == text@ + " "@),
{
    if text.unicode_len() == 0 {
        None
    } else {
        let s = String::from_str(text);
        Some(s.concat(" "))
    }
}

/// Which input device to open.
#[derive(Debug, Clone, Copy, PartialEq, Eq, Structural)]
pub enum DeviceChoice {
    /// The device at this position in the enumeration of input devices.
    ByIndex(usize),
    /// The host's default input device.
    Default,
}

/// The input device to open: the requested position when a device index
/// was given and the devices could be enumerated, the default device otherwise.
pub fn device_choice(device_index: Option<usize>, devices_enumerable: bool) -> (c: DeviceChoice)
    ensures
        c == (match device_index {
            Some(i) => if devices_enumerable { DeviceChoice::ByIndex(i) } else { DeviceChoice::Default },
            None => DeviceChoice::Default,
        }),
{
    match device_index {
        Some(i) => if devices_enumerable { DeviceChoice::ByIndex(i) } else { DeviceChoice::Default },
        None => DeviceChoice::Default,
    }
}

/// How an attempt to hand a segment to the consumer ended.
#[derive(Debug, Clone, Copy, PartialEq, Eq, Structural)]
pub enum SendOutcome {
    Sent,
    TimedOut,
    Disconnected,
}

/// Whether to try handing the segment over again: only after a timeout,
/// and only while the listener has not been told to stop.
pub fn retry_send(outcome: SendOutcome, stop_requested: bool) -> (r: bool)
    ensures
        r == (outcome is TimedOut && !stop_requested),
{
    match outcome {
        SendOutcome::TimedOut => !stop_requested,
        _ => false,
    }
}

} // verus!
