use vstd::prelude::*;
use vstd::string::*;
use base64::Engine;
use crate::protocol::{Request, INPUT_SAMPLE_RATE};

verus! {

/// The signed 16-bit sample that a little-endian byte pair writes.
pub open spec fn le_i16(lo: u8, hi: u8) -> int {
    let v = lo as int + 256 * hi as int;
    if v >= 32768 {
        v - 65536
    } else {
        v
    }
}

/// The samples of raw PCM16LE bytes, one per whole byte pair.
pub open spec fn pcm16_of(b: Seq<u8>) -> Seq<i16> {
    Seq::new(b.len() / 2, |i: int| le_i16(b[2 * i], b[2 * i + 1]) as i16)
}

/// The PCM16LE bytes of samples.
pub open spec fn pcm16_bytes_of(s: Seq<i16>) -> Seq<u8> {
    Seq::new(
        2 * s.len(),
        |k: int|
            {
                let u = if s[k / 2] < 0 {
                    s[k / 2] + 65536
                } else {
                    s[k / 2] as int
                };
                if k % 2 == 0 {
                    (u % 256) as u8
                } else {
                    (u / 256) as u8
                }
            },
    )
}

/// Reads raw PCM16LE bytes as samples; a trailing odd byte is ignored.
pub fn pcm16_samples(bytes: &[u8]) -> (r: Vec<i16>)
    ensures
        r@ == pcm16_of(bytes@),
{
    let len = bytes.len();
    let n = len / 2;
    let mut out: Vec<i16> = Vec::new();
    let mut i: usize = 0;
    while i < n
        invariant
            len == bytes@.len(),
            n == bytes@.len() / 2,
            i <= n,
            out@ =~= pcm16_of(bytes@).subrange(0, i as int),
        decreases n - i,
    {
        assert(2 * i + 1 < bytes@.len()) by (nonlinear_arith)
            requires
                i < n,
                n == bytes@.len() / 2,
        ;
        let lo = bytes[2 * i];
        let hi = bytes[2 * i + 1];
        let v: i32 = lo as i32 + 256 * hi as i32;
        let s: i16 = if v >= 32768 { (v - 65536) as i16 } else { v as i16 };
        out.push(s);
        i = i + 1;
    }
    out
}

/// Writes samples as PCM16LE bytes.
pub fn pcm16_bytes(samples: &[i16]) -> (r: Vec<u8>)
    requires
        samples@.len() <= usize::MAX / 2,
    ensures
        r@ == pcm16_bytes_of(samples@),
{
    let mut out: Vec<u8> = Vec::new();
    let mut i: usize = 0;
    while i < samples.len()
        invariant
            samples@.len() <= usize::MAX / 2,
            i <= samples@.len(),
            out@ =~= pcm16_bytes_of(samples@).subrange(0, 2 * i),
        decreases samples@.len() - i,
    {
        let s = samples[i];
        let u: i32 = if s < 0 { s as i32 + 65536 } else { s as i32 };
        out.push((u % 256) as u8);
        out.push((u / 256) as u8);
        i = i + 1;
    }
    out
}

/// Writing samples as bytes and reading them back gives the same samples.
pub proof fn lemma_pcm16_samples_round_trip(s: Seq<i16>)
    ensures
        pcm16_of(pcm16_bytes_of(s)) == s,
{
    let b = pcm16_bytes_of(s);
    assert forall|i: int| 0 <= i < s.len() implies #[trigger] pcm16_of(b)[i] == s[i] by {
        assert((2 * i) / 2 == i);
        assert((2 * i + 1) / 2 == i);
        assert((2 * i) % 2 == 0);
        assert((2 * i + 1) % 2 == 1);
    }
    assert(pcm16_of(b) =~= s);
}

/// Reading whole byte pairs as samples and writing them back gives the same bytes.
pub proof fn lemma_pcm16_bytes_round_trip(b: Seq<u8>)
    requires
        b.len() % 2 == 0,
    ensures
        pcm16_bytes_of(pcm16_of(b)) == b,
{
    let s = pcm16_of(b);
    assert forall|k: int| 0 <= k < b.len() implies #[trigger] pcm16_bytes_of(s)[k] == b[k] by {
        let i = k / 2;
        assert(0 <= i < s.len());
        if k % 2 == 0 {
            assert(k == 2 * i);
        } else {
            assert(k == 2 * i + 1);
        }
    }
    assert(pcm16_bytes_of(s) =~= b);
}

/// What base64's standard engine decodes `text` to, or `None` where it refuses it.
pub uninterp spec fn base64_standard_decoded(text: Seq<char>) -> Option<Seq<u8>>;

/// Relies on `base64::engine::general_purpose::STANDARD.decode`: the outcome
/// depends on the text alone; on failure, the decoder's error message.
#[verifier::external_body]
fn decode_base64(text: &str) -> (r: Result<Vec<u8>, String>)
    ensures
        match base64_standard_decoded(text@) {
            Some(b) => r matches Ok(v) && v@ == b,
            None => r is Err,
        },
{
    match base64::engine::general_purpose::STANDARD.decode(text) {
        Ok(v) => Ok(v),
        Err(e) => Err(e.to_string()),
    }
}

/// Where a request's audio comes from.
pub enum AudioInput {
    /// PCM16 samples at the declared rate.
    Pcm { samples: Vec<i16>, sample_rate: u32 },
    /// A WAV file to open.
    WavFile(String),
}

pub open spec fn declared_rate(req: Request) -> u32 {
    match req.sample_rate {
        Some(r) => r,
        None => INPUT_SAMPLE_RATE,
    }
}

/// Picks a request's audio: the frame's payload if it has one, else the
/// `audioBase64` text, else the `audio` path; raw audio is PCM16LE at the
/// declared rate (16000 when none is declared).
pub fn decode_audio(req: &Request, framed_audio: &[u8]) -> (r: Result<AudioInput, String>)
    ensures
        framed_audio@.len() > 0 ==> (r matches Ok(AudioInput::Pcm { samples, sample_rate })
            && samples@ == pcm16_of(framed_audio@) && sample_rate == declared_rate(*req)),
        framed_audio@.len() == 0 && req.audio_base64 is Some ==> match base64_standard_decoded(
            req.audio_base64->0@,
        ) {
            Some(b) => r matches Ok(AudioInput::Pcm { samples, sample_rate }) && samples@
                == pcm16_of(b) && sample_rate == declared_rate(*req),
            None => r matches Err(m) && m@.len() >= 21 && m@.subrange(0, 21)
                == "invalid audioBase64: "@,
        },
        framed_audio@.len() == 0 && req.audio_base64 is None && req.audio is Some ==> (r matches Ok(
            AudioInput::WavFile(p),
        ) && p@ == req.audio->0@),
        framed_audio@.len() == 0 && req.audio_base64 is None && req.audio is None ==> (r matches Err(
            m,
        ) && m@ == "Missing binary audio payload, audioBase64, or audio path"@),
{
    let sample_rate = match req.sample_rate {
        Some(r) => r,
        None => INPUT_SAMPLE_RATE,
    };
    if framed_audio.len() > 0 {
        return Ok(AudioInput::Pcm { samples: pcm16_samples(framed_audio), sample_rate });
    }
    if let Some(text) = &req.audio_base64 {
        return match decode_base64(text.as_str()) {
            Ok(raw) => Ok(AudioInput::Pcm { samples: pcm16_samples(raw.as_slice()), sample_rate }),
            Err(e) => {
                let mut m = String::from_str("invalid audioBase64: ");
                proof {
                    reveal_strlit("invalid audioBase64: ");
                }
                m.append(e.as_str());
                assert(m@.subrange(0, 21) =~= "invalid audioBase64: "@);
                Err(m)
            },
        };
    }
    if let Some(path) = &req.audio {
        return Ok(AudioInput::WavFile(path.clone()));
    }
    Err(String::from_str("Missing binary audio payload, audioBase64, or audio path"))
}

/// Checks a WAV file's format before its samples are read: integer samples
/// must be 16-bit, and `mono_only` refuses more than one channel.
pub fn check_wav_format(channels: u16, is_float: bool, bits_per_sample: u16, mono_only: bool) -> (r:
    Result<(), String>)
    ensures
        mono_only && channels != 1 ==> (r matches Err(m) && m@ == "wav input must be mono"@),
        !(mono_only && channels != 1) && !is_float && bits_per_sample != 16 ==> (r matches Err(m)
            && m@ == "wav int input must be 16-bit"@),
        !(mono_only && channels != 1) && (is_float || bits_per_sample == 16) ==> r is Ok,
{
    if mono_only && channels != 1 {
        return Err(String::from_str("wav input must be mono"));
    }
    if !is_float && bits_per_sample != 16 {
        return Err(String::from_str("wav int input must be 16-bit"));
    }
    Ok(())
}

} // verus!
