//! WAV files.

use crate::pcm;
use crate::text;
use vstd::prelude::*;

verus! {

/// What the header of a WAV file says.
#[derive(Debug, Clone, Copy, PartialEq, Eq, Structural)]
pub struct WavInfo {
    pub channels: u16,
    pub sample_rate: u32,
    pub bits_per_sample: u16,
    /// Whether the samples are whole numbers.
    pub integer: bool,
    /// The number of samples of each channel.
    pub frames: u32,
}

/// What a WAV reader makes of the head of a file: channels, sample rate, bits of a
/// sample, whether samples are whole numbers, and samples of each channel; or its
/// error.
pub uninterp spec fn wav_head(bytes: Seq<u8>) -> Result<(u16, u32, u16, bool, u32), Seq<char>>;

/// The whole-number samples that a WAV reader finds in a file, or its error.
pub uninterp spec fn wav_samples(bytes: Seq<u8>) -> Result<Seq<i32>, Seq<char>>;

/// A number in four bytes, the least of them first.
pub open spec fn le32_of(n: int) -> Seq<u8> {
    seq![
        (n % 256) as u8,
        ((n / 256) % 256) as u8,
        ((n / 65536) % 256) as u8,
        ((n / 16777216) % 256) as u8,
    ]
}

/// The head of a WAV file with one channel of 16-bit samples.
pub open spec fn wav_header(data_len: int, sample_rate: int) -> Seq<u8> {
    seq![0x52u8, 0x49, 0x46, 0x46] + le32_of(data_len + 36) + seq![
        0x57u8,
        0x41,
        0x56,
        0x45,
        0x66,
        0x6d,
        0x74,
        0x20,
    ] + le32_of(16) + seq![1u8, 0, 1, 0] + le32_of(sample_rate) + le32_of(2 * sample_rate) + seq![
        2u8,
        0,
        16,
        0,
    ] + seq![0x64u8, 0x61, 0x74, 0x61] + le32_of(data_len)
}

/// The WAV file with 16-bit samples of one channel: its head, then the samples.
pub open spec fn mono16_file(samples: Seq<i16>, sample_rate: int) -> Seq<u8> {
    wav_header(2 * samples.len() as int, sample_rate) + pcm::encoded(samples)
}

pub open spec fn is_head(r: Result<WavInfo, String>, h: Result<(u16, u32, u16, bool, u32), Seq<char>>) -> bool {
    match (r, h) {
        (Ok(i), Ok(t)) => i.channels == t.0 && i.sample_rate == t.1 && i.bits_per_sample == t.2
            && i.integer == t.3 && i.frames == t.4,
        (Err(m), Err(e)) => m@ == e,
        _ => false,
    }
}

/// `hound::WavReader::new`, `spec` and `duration`: reads the head of a WAV file,
/// which depends on its bytes alone.
#[verifier::external_body]
fn read_head(bytes: &[u8]) -> (r: Result<WavInfo, String>)
    ensures
        is_head(r, wav_head(bytes@)),
{
    let reader = hound::WavReader::new(std::io::Cursor::new(bytes)).map_err(|e| e.to_string())?;
    let spec = reader.spec();
    Ok(WavInfo {
        channels: spec.channels,
        sample_rate: spec.sample_rate,
        bits_per_sample: spec.bits_per_sample,
        integer: match spec.sample_format {
            hound::SampleFormat::Int => true,
            hound::SampleFormat::Float => false,
        },
        frames: reader.duration(),
    })
}

/// `hound::WavReader::samples`: reads all samples of a WAV file as whole numbers,
/// which depend on its bytes alone; an error of any sample is the result.
#[verifier::external_body]
fn read_samples(bytes: &[u8]) -> (r: Result<Vec<i32>, String>)
    ensures
        match (r, wav_samples(bytes@)) {
            (Ok(v), Ok(s)) => v@ == s,
            (Err(m), Err(e)) => m@ == e,
            _ => false,
        },
{
    let mut reader = hound::WavReader::new(std::io::Cursor::new(bytes)).map_err(|e| e.to_string())?;
    reader.samples::<i32>().collect::<Result<Vec<i32>, _>>().map_err(|e| e.to_string())
}

pub open spec fn as_i32(samples: Seq<i16>) -> Seq<i32> {
    Seq::new(samples.len(), |i: int| samples[i] as i32)
}

/// Whether a reader finds 16-bit samples of one channel in a file.
pub open spec fn holds_mono16(file: Seq<u8>, samples: Seq<i16>, sample_rate: u32) -> bool {
    &&& wav_head(file) == Ok::<_, Seq<char>>(
        (1u16, sample_rate, 16u16, true, samples.len() as u32),
    )
    &&& wav_samples(file) == Ok::<_, Seq<char>>(as_i32(samples))
}

/// The most 16-bit samples of one channel that a WAV file can note down the length
/// of.
pub const MAX_MONO16_SAMPLES: usize = 0x7fff_ffed;

/// The highest rate of which a WAV file can note down the bytes of a second.
pub const MAX_WAV_RATE: u32 = 0x7fff_ffff;

/// `hound::WavWriter::new`, `write_sample` and `finalize`, on a cursor in memory:
/// writes 16-bit samples of one channel as a WAV file. Writing to memory succeeds,
/// and the file is a head of 44 bytes followed by the samples. A reader finds in it
/// one channel at that rate with those samples. The lengths that a WAV file can note
/// down bound the number of samples and the rate, by which the writer divides.
#[verifier::external_body]
fn write_mono16(samples: &[i16], sample_rate: u32) -> (r: Result<Vec<u8>, String>)
    requires
        samples@.len() <= MAX_MONO16_SAMPLES,
        0 < sample_rate <= MAX_WAV_RATE,
    ensures
        r is Ok,
        r->Ok_0@ == mono16_file(samples@, sample_rate as int),
        holds_mono16(r->Ok_0@, samples@, sample_rate),
{
    let spec = hound::WavSpec {
        channels: 1,
        sample_rate,
        bits_per_sample: 16,
        sample_format: hound::SampleFormat::Int,
    };
    let mut cursor = std::io::Cursor::new(Vec::new());
    let mut writer = hound::WavWriter::new(&mut cursor, spec).map_err(|e| e.to_string())?;
    samples.iter().try_for_each(|s| writer.write_sample(*s)).map_err(|e| e.to_string())?;
    writer.finalize().map_err(|e| e.to_string())?;
    Ok(cursor.into_inner())
}

/// The head of a WAV file.
pub fn wav_info(bytes: &[u8]) -> (r: Result<WavInfo, String>)
    ensures
        is_head(r, wav_head(bytes@)),
{
    read_head(bytes)
}

/// Encodes samples of one channel; a file cannot hold more than its head can note
/// down, and needs a rate.
pub fn encode_wav(samples: &[i16], sample_rate: u32) -> (r: Result<Vec<u8>, String>)
    ensures
        if sample_rate == 0 {
            r matches Err(m) && m@ == "WAV sample rate is zero"@
        } else if samples@.len() <= MAX_MONO16_SAMPLES && sample_rate <= MAX_WAV_RATE {
            r matches Ok(v) && v@ == mono16_file(samples@, sample_rate as int) && holds_mono16(
                v@,
                samples@,
                sample_rate,
            )
        } else {
            r matches Err(m) && m@ == "audio does not fit a WAV file"@
        },
{
    if sample_rate == 0 {
        Err(String::from_str("WAV sample rate is zero"))
    } else if samples.len() <= MAX_MONO16_SAMPLES && sample_rate <= MAX_WAV_RATE {
        write_mono16(samples, sample_rate)
    } else {
        Err(String::from_str("audio does not fit a WAV file"))
    }
}

pub const MAX_ASR_WAV_BYTES: usize = 8 * 1024 * 1024;

/// The letters at the head of a WAV file.
pub open spec fn has_riff_head(bytes: Seq<u8>) -> bool {
    &&& bytes.len() >= 44
    &&& bytes[0] == 0x52 && bytes[1] == 0x49 && bytes[2] == 0x46 && bytes[3] == 0x46
    &&& bytes[8] == 0x57 && bytes[9] == 0x41 && bytes[10] == 0x56 && bytes[11] == 0x45
}

/// Why audio is not accepted for recognition, by what was read of it.
pub open spec fn recording_fault(
    bytes: Seq<u8>,
    head: Result<(u16, u32, u16, bool, u32), Seq<char>>,
    samples: Result<Seq<i32>, Seq<char>>,
) -> Option<Seq<char>> {
    if bytes.len() > MAX_ASR_WAV_BYTES {
        Some("PCM-WAV exceeds 8 MiB"@)
    } else if !has_riff_head(bytes) {
        Some("invalid RIFF/WAVE audio"@)
    } else {
        match head {
            Err(e) => Some("invalid PCM-WAV structure: "@ + e),
            Ok(h) => if !h.3 {
                Some("compressed or floating-point WAV is unsupported; expected PCM-WAV"@)
            } else if h.0 == 0 || h.1 == 0 || !(h.2 == 8 || h.2 == 16 || h.2 == 24 || h.2 == 32) {
                Some("invalid PCM-WAV format"@)
            } else if h.4 == 0 {
                Some("PCM-WAV contains no audio samples"@)
            } else {
                match samples {
                    Err(e) => Some("invalid PCM-WAV sample data: "@ + e),
                    Ok(_) => None,
                }
            },
        }
    }
}

fn starts_as_riff(bytes: &[u8]) -> (r: bool)
    ensures
        r == has_riff_head(bytes@),
{
    bytes.len() >= 44 && bytes[0] == 0x52 && bytes[1] == 0x49 && bytes[2] == 0x46 && bytes[3]
        == 0x46 && bytes[8] == 0x57 && bytes[9] == 0x41 && bytes[10] == 0x56 && bytes[11] == 0x45
}

/// Checks audio for recognition by its bytes and by what was read of them.
pub fn check_recording(
    bytes: &[u8],
    head: &Result<WavInfo, String>,
    samples: &Result<Vec<i32>, String>,
) -> (r: Result<(), String>)
    ensures
        crate::registry::reports(
            r,
            recording_fault(
                bytes@,
                match head {
                    Ok(i) => Ok(
                        (i.channels, i.sample_rate, i.bits_per_sample, i.integer, i.frames),
                    ),
                    Err(m) => Err(m@),
                },
                match samples {
                    Ok(v) => Ok(v@),
                    Err(m) => Err(m@),
                },
            ),
        ),
{
    if bytes.len() > MAX_ASR_WAV_BYTES {
        return Err(String::from_str("PCM-WAV exceeds 8 MiB"));
    }
    if !starts_as_riff(bytes) {
        return Err(String::from_str("invalid RIFF/WAVE audio"));
    }
    let i: WavInfo = match head {
        Ok(i) => *i,
        Err(m) => {
            return Err(text::joined_pair("invalid PCM-WAV structure: ", m.as_str()));
        },
    };
    if !i.integer {
        return Err(
            String::from_str("compressed or floating-point WAV is unsupported; expected PCM-WAV"),
        );
    }
    let bits: u16 = i.bits_per_sample;
    if i.channels == 0 || i.sample_rate == 0 || !(bits == 8 || bits == 16 || bits == 24 || bits
        == 32) {
        return Err(String::from_str("invalid PCM-WAV format"));
    }
    if i.frames == 0 {
        return Err(String::from_str("PCM-WAV contains no audio samples"));
    }
    match samples {
        Ok(_) => Ok(()),
        Err(m) => Err(text::joined_pair("invalid PCM-WAV sample data: ", m.as_str())),
    }
}

/// Checks audio for recognition: PCM, not too long, with all its samples.
pub fn validate_pcm_wav(bytes: &[u8]) -> (r: Result<(), String>)
    ensures
        crate::registry::reports(
            r,
            recording_fault(bytes@, wav_head(bytes@), wav_samples(bytes@)),
        ),
{
    if bytes.len() > MAX_ASR_WAV_BYTES {
        return Err(String::from_str("PCM-WAV exceeds 8 MiB"));
    }
    let head: Result<WavInfo, String> = read_head(bytes);
    let samples: Result<Vec<i32>, String> = read_samples(bytes);
    check_recording(bytes, &head, &samples)
}

/// Audio that was encoded here and is not too long is accepted for recognition if
/// there is any.
pub proof fn law_encoded_audio_is_accepted(samples: Seq<i16>, sample_rate: u32)
    requires
        0 < samples.len() <= MAX_MONO16_SAMPLES,
        0 < sample_rate <= MAX_WAV_RATE,
        holds_mono16(mono16_file(samples, sample_rate as int), samples, sample_rate),
        2 * samples.len() + 44 <= MAX_ASR_WAV_BYTES,
    ensures
        ({
            let file = mono16_file(samples, sample_rate as int);
            recording_fault(file, wav_head(file), wav_samples(file)) is None
        }),
{
    let file = mono16_file(samples, sample_rate as int);
    assert(wav_header(2 * samples.len() as int, sample_rate as int).len() == 44);
    assert(file.len() == 2 * samples.len() + 44);
    assert(has_riff_head(file));
}

/// The head of a file: 44 bytes that name a WAV file of one channel of 16-bit samples
/// and hold the rate, the bytes of a second and the length of what follows, the low
/// byte first.
pub proof fn law_wav_header(data_len: int, sample_rate: int)
    requires
        0 <= data_len,
        data_len + 36 <= u32::MAX,
        0 <= sample_rate,
        2 * sample_rate <= u32::MAX,
    ensures
        ({
            let h = wav_header(data_len, sample_rate);
            let number = |i: int|
                h[i] + 256 * h[i + 1] + 65536 * h[i + 2] + 16777216 * h[i + 3];
            &&& h.len() == 44
            &&& h[0] == 'R' as int && h[1] == 'I' as int && h[2] == 'F' as int && h[3] == 'F' as int
            &&& number(4) == data_len + 36
            &&& h[8] == 'W' as int && h[9] == 'A' as int && h[10] == 'V' as int && h[11]
                == 'E' as int
            &&& h[12] == 'f' as int && h[13] == 'm' as int && h[14] == 't' as int && h[15]
                == ' ' as int
            &&& number(16) == 16
            &&& h[20] == 1 && h[21] == 0
            &&& h[22] == 1 && h[23] == 0
            &&& number(24) == sample_rate
            &&& number(28) == 2 * sample_rate
            &&& h[32] == 2 && h[33] == 0
            &&& h[34] == 16 && h[35] == 0
            &&& h[36] == 'd' as int && h[37] == 'a' as int && h[38] == 't' as int && h[39]
                == 'a' as int
            &&& number(40) == data_len
        }),
{
    lemma_le32(data_len + 36);
    lemma_le32(16);
    lemma_le32(sample_rate);
    lemma_le32(2 * sample_rate);
    lemma_le32(data_len);
    let h = wav_header(data_len, sample_rate);
    assert(h.subrange(4, 8) =~= le32_of(data_len + 36));
    assert(h.subrange(16, 20) =~= le32_of(16));
    assert(h.subrange(24, 28) =~= le32_of(sample_rate));
    assert(h.subrange(28, 32) =~= le32_of(2 * sample_rate));
    assert(h.subrange(40, 44) =~= le32_of(data_len));
    assert(h[4] == h.subrange(4, 8)[0] && h[5] == h.subrange(4, 8)[1] && h[6] == h.subrange(4, 8)[2]
        && h[7] == h.subrange(4, 8)[3]);
    assert(h[16] == h.subrange(16, 20)[0] && h[17] == h.subrange(16, 20)[1] && h[18] == h.subrange(
        16,
        20,
    )[2] && h[19] == h.subrange(16, 20)[3]);
    assert(h[24] == h.subrange(24, 28)[0] && h[25] == h.subrange(24, 28)[1] && h[26] == h.subrange(
        24,
        28,
    )[2] && h[27] == h.subrange(24, 28)[3]);
    assert(h[28] == h.subrange(28, 32)[0] && h[29] == h.subrange(28, 32)[1] && h[30] == h.subrange(
        28,
        32,
    )[2] && h[31] == h.subrange(28, 32)[3]);
    assert(h[40] == h.subrange(40, 44)[0] && h[41] == h.subrange(40, 44)[1] && h[42] == h.subrange(
        40,
        44,
    )[2] && h[43] == h.subrange(40, 44)[3]);
}

proof fn lemma_le32(n: int)
    requires
        0 <= n <= u32::MAX,
    ensures
        ({
            let b = le32_of(n);
            b.len() == 4 && b[0] + 256 * b[1] + 65536 * b[2] + 16777216 * b[3] == n
        }),
{
    let a = n / 256;
    let c = n / 65536;
    let d = n / 16777216;
    assert(n == 256 * a + n % 256);
    assert(a / 256 == c && c / 256 == d) by {
        assert(n / 65536 == n / 256 / 256);
        assert(n / 16777216 == n / 65536 / 256);
    }
    assert(a == 256 * c + a % 256);
    assert(c == 256 * d + c % 256);
    assert(d < 256);
}

/// A recording is accepted exactly if it is no longer than eight mebibytes, is a WAV
/// file of whole samples of one to four bytes, has a channel, a rate and at least a
/// frame, and can be read.
pub proof fn law_accepted_recording(
    bytes: Seq<u8>,
    h: (u16, u32, u16, bool, u32),
    samples: Result<Seq<i32>, Seq<char>>,
    e: Seq<char>,
)
    requires
        bytes.len() >= 44,
    ensures
        recording_fault(bytes, Ok(h), samples) is None <==> bytes.len() <= 8388608 && bytes[0] == 82
            && bytes[1] == 73 && bytes[2] == 70 && bytes[3] == 70 && bytes[8] == 87 && bytes[9]
            == 65 && bytes[10] == 86 && bytes[11] == 69 && h.3 && h.0 > 0 && h.1 > 0 && (h.2 == 8
            || h.2 == 16 || h.2 == 24 || h.2 == 32) && h.4 > 0 && samples is Ok,
        recording_fault(bytes, Err(e), samples) is Some,
{
}

} // verus!
