# whisper_write

A push-to-talk-free dictation helper: it listens to the microphone, cuts
the audio into stretches of speech, uploads each stretch to the OpenAI
audio API, and types (or pastes) the recognised text into the active window.

The verified library (`src/`) holds the decisions; the program around it
(`app/`) holds the devices, processes, threads and network.

## Library modules

- `energy` – loudness of a chunk and the adaptive speech threshold (median
  of the recent loudness history, scaled, never below an absolute floor).
- `detector` – the speech segmenter, specified as a state machine
  (`detector_step`), with its invariants and laws.
- `capture` – cutting the microphone stream into fixed-size chunks.
- `wav` – framing samples as a mono 16-bit WAV file (through `hound`).
- `speech` – the segmenter's configuration and its validation.
- `openai` – API settings from the environment, request planning and
  response text.
- `config` – the run configuration from the command line and environment.
- `typing`, `clipboard` – how text is output, and which system clipboard
  tools are tried and how.
- `session` – the small decisions of the main loop and the device choice.
- `daemon` – whether to detach, and the daemon's log and pid file texts.
- `text` – trimming, stripping and decimal notation.

## Numbers

The library computes without floating point. Loudness is the mean absolute
sample amplitude in thousandths of an amplitude unit; the threshold
multiplier and the continuation ratio are in thousandths (2600 means 2.6);
divisions round down, so a loudness decision right at a threshold can come
out differently than in single-precision arithmetic. Setting durations are
in milliseconds. The segmenter's buffer sizes (seconds times chunks per
second) and a segment's duration in seconds are computed by the program in
single precision and handed to, or read from, the library as whole numbers
of chunks and samples.

## Program

`app/` parses the command line (clap), reads the environment (dotenvy),
captures audio (cpal), runs the listener thread (crossbeam-channel), talks to
the API (reqwest, serde), emulates the keyboard (enigo), reaches the
clipboard (arboard and the system clipboard tools) and daemonizes
(daemonize, libc).

`cpal` is not listed in `Cargo.toml`: its platform back-ends (Windows,
Android, macOS) bring in several hundred megabytes of sources that neither
the library nor its tests need. `app/audio.rs` uses it; add `cpal = "0.15"`
to `[dependencies]` to build the program.
