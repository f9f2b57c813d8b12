use vstd::prelude::*;

verus! {

/// The two little-endian bytes of a 16-bit value given as an integer in `0..65536`.
pub open spec fn le16(x: int) -> Seq<u8> {
    seq![(x % 256) as u8, ((x / 256) % 256) as u8]
}

/// The four little-endian bytes of a 32-bit value given as an integer in `0..2^32`.
pub open spec fn le32(x: int) -> Seq<u8> {
    seq![
        (x % 256) as u8,
        ((x / 0x100) % 256) as u8,
        ((x / 0x1_0000) % 256) as u8,
        ((x / 0x100_0000) % 256) as u8,
    ]
}

/// The two's-complement bit pattern of a sample, read as an unsigned integer.
pub open spec fn sample_bits(x: i16) -> int {
    if x < 0 { x as int + 65536 } else { x as int }
}

/// The data chunk of a 16-bit PCM stream: every sample in little-endian order.
pub open spec fn pcm16_data(samples: Seq<i16>) -> Seq<u8>
    decreases samples.len(),
{
    if samples.len() == 0 {
        Seq::empty()
    } else {
        pcm16_data(samples.drop_last()) + le16(sample_bits(samples.last()))
    }
}

/// A complete RIFF/WAVE file holding one channel of 16-bit integer PCM at
/// `rate` samples per second: the 44-byte canonical header followed by the samples.
pub open spec fn wav_mono16(samples: Seq<i16>, rate: u32) -> Seq<u8> {
    let data_len = 2 * (samples.len() as int);
    seq![0x52u8, 0x49, 0x46, 0x46] + le32(36 + data_len) + seq![0x57u8, 0x41, 0x56, 0x45]
        + seq![0x66u8, 0x6d, 0x74, 0x20] + le32(16) + le16(1) + le16(1) + le32(rate as int)
        + le32(2 * rate) + le16(2) + le16(16) + seq![0x64u8, 0x61, 0x74, 0x61] + le32(data_len)
        + pcm16_data(samples)
}

/// Whether a WAV file with `n` samples of 16 bits fits the 32-bit size fields of the format.
pub open spec fn wav_fits(n: int) -> bool {
    2 * n + 36 <= 0xffff_ffff
}

/// Encodes samples with `hound::WavWriter` (new, `write_sample` for each sample,
/// `finalize`) into an in-memory cursor and returns the cursor's bytes.
/// Claimed of hound: for one channel, 16 bits per sample and integer samples
/// it writes the PCMWAVEFORMAT header (fmt chunk of 16 bytes, data length at
/// offset 40), then each sample little-endian, and `finalize` patches the RIFF
/// and data lengths; writing to a `Cursor<Vec<u8>>` does not fail. The
/// requires exclude the inputs on which hound's `u32` arithmetic would overflow
/// or divide by zero.
#[verifier::external_body]
fn hound_encode_mono16(samples: &[i16], sample_rate: u32) -> (r: Option<Vec<u8>>)
    requires
        0 < sample_rate <= 0x7fff_ffff,
        wav_fits(samples@.len() as int),
    ensures
        r is Some,
        r.unwrap()@ == wav_mono16(samples@, sample_rate),
{
    let spec = hound::WavSpec { channels: 1, sample_rate, bits_per_sample: 16, sample_format: hound::SampleFormat::Int };
    let mut cursor = std::io::Cursor::new(Vec::new());
    {
        let mut writer = hound::WavWriter::new(&mut cursor, spec).ok()?;
        for sample in samples {
            writer.write_sample(*sample).ok()?;
        }
        writer.finalize().ok()?;
    }
    Some(cursor.into_inner())
}

/// Why samples could not be framed as a WAV file.
#[derive(Debug, Clone, Copy, PartialEq, Eq, Structural)]
pub enum WavError {
    /// The data would not fit the 32-bit length fields of the format.
    TooLong,
    /// The encoder reported a failure.
    Encoder,
}

/// Frames mono 16-bit samples as a WAV file at `sample_rate`.
pub fn encode_wave(samples: &[i16], sample_rate: u32) -> (r: Result<Vec<u8>, WavError>)
    requires
        0 < sample_rate <= 0x7fff_ffff,
    ensures
        r is Ok <==> wav_fits(samples@.len() as int),
        r matches Ok(bytes) ==> bytes@ == wav_mono16(samples@, sample_rate),
        r matches Err(e) ==> e == WavError::TooLong,
{
    if samples.len() > 2_147_483_629 {
        return Err(WavError::TooLong);
    }
    match hound_encode_mono16(samples, sample_rate) {
        Some(bytes) => Ok(bytes),
        None => Err(WavError::Encoder),
    }
}


proof fn lemma_pcm16_data_len(samples: Seq<i16>)
    ensures
        pcm16_data(samples).len() == 2 * samples.len(),
    decreases samples.len(),
{
    if samples.len() > 0 {
        lemma_pcm16_data_len(samples.drop_last());
    }
}

/// A WAV file of `n` samples is 44 header bytes followed by `2 n` data bytes.
pub proof fn lemma_wav_length(samples: Seq<i16>, rate: u32)
    ensures
        wav_mono16(samples, rate).len() == 44 + 2 * samples.len(),
        wav_mono16(samples, rate).subrange(44, 44 + 2 * (samples.len() as int)) == pcm16_data(samples),
{
    lemma_pcm16_data_len(samples);
    let w = wav_mono16(samples, rate);
    assert(w.subrange(44, 44 + 2 * (samples.len() as int)) =~= pcm16_data(samples));
}


/// The 16-bit little-endian value at byte offset `at`.
pub open spec fn read_le16(b: Seq<u8>, at: int) -> int {
    b[at] as int + 256 * (b[at + 1] as int)
}

/// The 32-bit little-endian value at byte offset `at`.
pub open spec fn read_le32(b: Seq<u8>, at: int) -> int {
    read_le16(b, at) + 65536 * read_le16(b, at + 2)
}

/// The sample whose two's-complement bit pattern is `x` (in `0..65536`).
pub open spec fn sample_of_bits(x: int) -> i16 {
    if x >= 32768 { (x - 65536) as i16 } else { x as i16 }
}

/// The samples of a 16-bit little-endian PCM data chunk.
pub open spec fn decode_pcm16(data: Seq<u8>) -> Seq<i16> {
    Seq::new(data.len() / 2, |i: int| sample_of_bits(read_le16(data, 2 * i)))
}

proof fn lemma_le16_value(x: int)
    requires
        0 <= x < 65536,
    ensures
        read_le16(le16(x), 0) == x,
{
    assert(x == (x % 256) + 256 * ((x / 256) % 256)) by (nonlinear_arith)
        requires 0 <= x < 65536;
}

proof fn lemma_le32_value(x: int)
    requires
        0 <= x < 0x1_0000_0000,
    ensures
        read_le32(le32(x), 0) == x,
{
    let b = le32(x);
    assert(x == (x % 256) + 256 * ((x / 0x100) % 256) + 65536 * ((x / 0x1_0000) % 256)
        + 16777216 * ((x / 0x100_0000) % 256)) by (nonlinear_arith)
        requires 0 <= x < 0x1_0000_0000;
}

proof fn lemma_pcm16_data_bytes(samples: Seq<i16>, i: int)
    requires
        0 <= i < samples.len(),
    ensures
        pcm16_data(samples).len() == 2 * samples.len(),
        pcm16_data(samples)[2 * i] == le16(sample_bits(samples[i]))[0],
        pcm16_data(samples)[2 * i + 1] == le16(sample_bits(samples[i]))[1],
    decreases samples.len(),
{
    lemma_pcm16_data_len(samples);
    let init = samples.drop_last();
    lemma_pcm16_data_len(init);
    if i < samples.len() - 1 {
        lemma_pcm16_data_bytes(init, i);
    }
}

/// Reading back a WAV file gives what was written: the RIFF/WAVE/fmt/data
/// markers, integer PCM with one channel of 16 bits at the given rate, the
/// sizes of the file and its data, and the samples in their order.
pub proof fn lemma_wav_round_trip(samples: Seq<i16>, rate: u32)
    requires
        wav_fits(samples.len() as int),
    ensures
        ({
            let w = wav_mono16(samples, rate);
            let n = samples.len() as int;
            &&& w.subrange(0, 4) == seq![0x52u8, 0x49, 0x46, 0x46]
            &&& w.subrange(8, 12) == seq![0x57u8, 0x41, 0x56, 0x45]
            &&& w.subrange(12, 16) == seq![0x66u8, 0x6d, 0x74, 0x20]
            &&& w.subrange(36, 40) == seq![0x64u8, 0x61, 0x74, 0x61]
            &&& read_le32(w, 4) == 36 + 2 * n
            &&& read_le32(w, 16) == 16
            &&& read_le16(w, 20) == 1
            &&& read_le16(w, 22) == 1
            &&& read_le32(w, 24) == rate
            &&& read_le16(w, 32) == 2
            &&& read_le16(w, 34) == 16
            &&& read_le32(w, 40) == 2 * n
            &&& decode_pcm16(w.subrange(44, w.len() as int)) == samples
        }),
{
    let n = samples.len() as int;
    let w = wav_mono16(samples, rate);
    lemma_pcm16_data_len(samples);
    let data = pcm16_data(samples);
    let header = seq![0x52u8, 0x49, 0x46, 0x46] + le32(36 + 2 * n) + seq![0x57u8, 0x41, 0x56, 0x45]
        + seq![0x66u8, 0x6d, 0x74, 0x20] + le32(16) + le16(1) + le16(1) + le32(rate as int)
        + le32(2 * rate) + le16(2) + le16(16) + seq![0x64u8, 0x61, 0x74, 0x61] + le32(2 * n);
    assert(w == header + data);
    assert(header.len() == 44);
    lemma_le32_value(36 + 2 * n);
    lemma_le32_value(16);
    lemma_le16_value(1);
    lemma_le32_value(rate as int);
    lemma_le16_value(2);
    lemma_le16_value(16);
    lemma_le32_value(2 * n);
    assert(w.subrange(0, 4) =~= seq![0x52u8, 0x49, 0x46, 0x46]);
    assert(w.subrange(8, 12) =~= seq![0x57u8, 0x41, 0x56, 0x45]);
    assert(w.subrange(12, 16) =~= seq![0x66u8, 0x6d, 0x74, 0x20]);
    assert(w.subrange(36, 40) =~= seq![0x64u8, 0x61, 0x74, 0x61]);
    assert(w.subrange(44, w.len() as int) =~= data);
    let d = decode_pcm16(data);
    assert forall|i: int| 0 <= i < n implies #[trigger] d[i] == samples[i] by {
        lemma_pcm16_data_bytes(samples, i);
        let x = sample_bits(samples[i]);
        lemma_le16_value(x);
    }
    assert(d =~= samples);
}

} // verus!
