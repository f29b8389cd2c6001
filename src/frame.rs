use vstd::prelude::*;

verus! {

/// Largest JSON part of a request frame, in bytes.
pub const MAX_JSON_BYTES: u32 = 8 * 1024 * 1024;

/// Largest audio part of a request frame, in bytes.
pub const MAX_AUDIO_BYTES: u32 = 128 * 1024 * 1024;

/// `std::io::Error`, carried through as an opaque value.
#[verifier::external_type_specification]
#[verifier::external_body]
pub struct ExIoError(std::io::Error);

/// The little-endian `u32` that four bytes from `at` write.
pub open spec fn le_u32(b: Seq<u8>, at: int) -> int {
    b[at] as int + 256 * b[at + 1] as int + 65536 * b[at + 2] as int + 16777216 * b[at + 3] as int
}

/// The four little-endian bytes of `n`.
pub open spec fn le_bytes(n: u32) -> Seq<u8> {
    seq![
        (n % 256) as u8,
        ((n / 256) % 256) as u8,
        ((n / 65536) % 256) as u8,
        (n / 16777216) as u8,
    ]
}

/// Reads the little-endian `u32` at `at`.
pub fn u32_from_le(b: &[u8], at: usize) -> (r: u32)
    requires
        at + 4 <= b@.len(),
    ensures
        r == le_u32(b@, at as int),
{
    let v: u64 = b[at] as u64 + 256 * b[at + 1] as u64 + 65536 * b[at + 2] as u64 + 16777216
        * b[at + 3] as u64;
    v as u32
}

/// Writes `n` as four little-endian bytes.
pub fn u32_to_le(n: u32) -> (r: Vec<u8>)
    ensures
        r@ == le_bytes(n),
{
    let mut r: Vec<u8> = Vec::new();
    r.push((n % 256) as u8);
    r.push(((n / 256) % 256) as u8);
    r.push(((n / 65536) % 256) as u8);
    r.push((n / 16777216) as u8);
    assert(r@ =~= le_bytes(n));
    r
}

/// How reading a run of bytes can fail.
pub enum ReadFault {
    /// The reader itself failed.
    Io(std::io::Error),
    /// The input ended before the run was complete.
    UnexpectedEof,
}

impl ReadFault {
    pub fn message(&self, eof_text: &str) -> (r: String)
        ensures
            self is UnexpectedEof ==> r@ == eof_text@,
    {
        match self {
            ReadFault::Io(e) => e.to_string(),
            ReadFault::UnexpectedEof => String::from_str(eof_text),
        }
    }
}

/// Relies on `std::io::Read::read` into a buffer of `max` bytes: on success it
/// reports how many bytes it filled, at most `max`; zero means end of input.
#[verifier::external_body]
fn read_some<R: std::io::Read>(reader: &mut R, max: usize) -> (r: Result<Vec<u8>, std::io::Error>)
    ensures
        r matches Ok(v) ==> v@.len() <= max,
{
    let mut buf = vec![0u8; max];
    let n = reader.read(&mut buf)?;
    buf.truncate(n);
    Ok(buf)
}

/// Relies on `std::io::Write::write_all`.
#[verifier::external_body]
fn write_all<W: std::io::Write>(writer: &mut W, bytes: &[u8]) -> (r: Result<(), std::io::Error>) {
    writer.write_all(bytes)
}

/// Relies on `std::io::Write::flush`.
#[verifier::external_body]
fn flush<W: std::io::Write>(writer: &mut W) -> (r: Result<(), std::io::Error>) {
    writer.flush()
}

/// What one read's bytes mean for a run of bytes being gathered.
#[derive(PartialEq, Eq, Structural, Clone, Copy, Debug)]
pub enum ReadStep {
    /// The bytes were appended; read on if the run is not complete.
    Continue,
    /// The input ended before the first byte, where that is a clean end.
    CleanEnd,
    /// The input ended part way through the run.
    Truncated,
}

/// Takes the bytes of one read into `buf`. An empty read means the input has
/// ended: cleanly if nothing was gathered yet and `first_eof_is_clean`,
/// otherwise part way through.
pub fn absorb_chunk(buf: &mut Vec<u8>, chunk: &[u8], first_eof_is_clean: bool) -> (r: ReadStep)
    ensures
        chunk@.len() > 0 ==> r == ReadStep::Continue && final(buf)@ == old(buf)@ + chunk@,
        chunk@.len() == 0 ==> final(buf)@ == old(buf)@,
        chunk@.len() == 0 && old(buf)@.len() == 0 && first_eof_is_clean ==> r == ReadStep::CleanEnd,
        chunk@.len() == 0 && !(old(buf)@.len() == 0 && first_eof_is_clean) ==> r
            == ReadStep::Truncated,
{
    if chunk.len() == 0 {
        if buf.len() == 0 && first_eof_is_clean {
            return ReadStep::CleanEnd;
        }
        return ReadStep::Truncated;
    }
    let mut i: usize = 0;
    let ghost start = buf@;
    while i < chunk.len()
        invariant
            i <= chunk@.len(),
            buf@ =~= start + chunk@.subrange(0, i as int),
        decreases chunk@.len() - i,
    {
        buf.push(chunk[i]);
        i = i + 1;
    }
    assert(chunk@.subrange(0, chunk@.len() as int) =~= chunk@);
    ReadStep::Continue
}

/// Reads until `size` bytes have come, however the reader splits them, or
/// until the input ends; each read asks for at most the bytes still missing.
/// `first_eof_is_clean` makes an end of input before the first byte give
/// `None` rather than a fault.
fn read_exact_inner<R: std::io::Read>(reader: &mut R, size: usize, first_eof_is_clean: bool) -> (r:
    Result<Option<Vec<u8>>, ReadFault>)
    ensures
        r matches Ok(Some(v)) ==> v@.len() == size,
        r matches Ok(None) ==> first_eof_is_clean && size > 0,
        size == 0 ==> (r matches Ok(Some(v)) && v@.len() == 0),
{
    let mut buf: Vec<u8> = Vec::new();
    while buf.len() < size
        invariant
            buf@.len() <= size,
        decreases size - buf@.len(),
    {
        let chunk = match read_some(reader, size - buf.len()) {
            Ok(c) => c,
            Err(e) => return Err(ReadFault::Io(e)),
        };
        match absorb_chunk(&mut buf, chunk.as_slice(), first_eof_is_clean) {
            ReadStep::Continue => {},
            ReadStep::CleanEnd => return Ok(None),
            ReadStep::Truncated => return Err(ReadFault::UnexpectedEof),
        }
    }
    Ok(Some(buf))
}

/// Reads exactly `size` bytes. `None` when the input ends before the first
/// byte; an end of input after some bytes came is a fault. Each read's bytes
/// are taken by `absorb_chunk`.
pub fn read_exact_allow_eof<R: std::io::Read>(reader: &mut R, size: usize) -> (r: Result<
    Option<Vec<u8>>,
    ReadFault,
>)
    ensures
        r matches Ok(Some(v)) ==> v@.len() == size,
        r matches Ok(None) ==> size > 0,
        size == 0 ==> (r matches Ok(Some(v)) && v@.len() == 0),
{
    read_exact_inner(reader, size, true)
}

/// Reads exactly `size` bytes; any end of input before that, even before the
/// first byte, is a fault. Each read's bytes are taken by `absorb_chunk`.
pub fn read_exact_required<R: std::io::Read>(reader: &mut R, size: usize) -> (r: Result<
    Vec<u8>,
    ReadFault,
>)
    ensures
        r matches Ok(v) ==> v@.len() == size,
        size == 0 ==> (r matches Ok(v) && v@.len() == 0),
{
    match read_exact_inner(reader, size, false) {
        Ok(Some(v)) => Ok(v),
        Ok(None) => Err(ReadFault::UnexpectedEof),
        Err(e) => Err(e),
    }
}

/// The two lengths that open a request frame.
#[derive(PartialEq, Eq, Structural, Clone, Copy, Debug)]
pub struct FrameHeader {
    pub json_len: u32,
    pub audio_len: u32,
}

/// A request frame's two parts.
pub struct Frame {
    pub json: Vec<u8>,
    pub audio: Vec<u8>,
}

/// Why serving frames has to stop.
pub enum FrameError {
    Header(ReadFault),
    InvalidJsonSize(u32),
    AudioTooLarge(u32),
    JsonBody(ReadFault),
    AudioBody(ReadFault),
    ResponseTooLarge(usize),
    Write(std::io::Error),
}

impl FrameError {
    /// The line that the worker prints before it exits.
    pub fn message(&self) -> (r: String)
        ensures
            self matches FrameError::InvalidJsonSize(n) ==> r@ == "invalid json frame size: "@
                + crate::num::decimal(n as nat),
            self matches FrameError::AudioTooLarge(n) ==> r@ == "audio frame too large: "@
                + crate::num::decimal(n as nat),
            self matches FrameError::Header(ReadFault::UnexpectedEof) ==> r@
                == "failed to read frame header: "@ + "incomplete frame"@,
            self matches FrameError::JsonBody(ReadFault::UnexpectedEof) ==> r@
                == "frame json read failed: "@ + "incomplete frame body"@,
            self matches FrameError::AudioBody(ReadFault::UnexpectedEof) ==> r@
                == "frame audio read failed: "@ + "incomplete frame body"@,
    {
        match self {
            FrameError::Header(f) => crate::text::concat_str(
                "failed to read frame header: ",
                f.message("incomplete frame").as_str(),
            ),
            FrameError::InvalidJsonSize(n) => crate::text::concat_str(
                "invalid json frame size: ",
                crate::num::decimal_text(*n as u64).as_str(),
            ),
            FrameError::AudioTooLarge(n) => crate::text::concat_str(
                "audio frame too large: ",
                crate::num::decimal_text(*n as u64).as_str(),
            ),
            FrameError::JsonBody(f) => crate::text::concat_str(
                "frame json read failed: ",
                f.message("incomplete frame body").as_str(),
            ),
            FrameError::AudioBody(f) => crate::text::concat_str(
                "frame audio read failed: ",
                f.message("incomplete frame body").as_str(),
            ),
            FrameError::ResponseTooLarge(n) => crate::text::concat_str(
                "failed to write response: body too large: ",
                crate::num::decimal_text(*n as u64).as_str(),
            ),
            FrameError::Write(e) => crate::text::concat_str("failed to write response: ", e.to_string().as_str()),
        }
    }
}

/// What a request header asks for: refused when the JSON part is empty or
/// over `MAX_JSON_BYTES`, or the audio part is over `MAX_AUDIO_BYTES`.
pub open spec fn header_outcome(json_len: int, audio_len: int) -> Result<(int, int), bool> {
    if json_len == 0 || json_len > MAX_JSON_BYTES {
        Err(true)
    } else if audio_len > MAX_AUDIO_BYTES {
        Err(false)
    } else {
        Ok((json_len, audio_len))
    }
}

/// Decodes and checks the eight header bytes of a request frame.
pub fn decode_header(header: &[u8]) -> (r: Result<FrameHeader, FrameError>)
    requires
        header@.len() == 8,
    ensures
        ({
            let j = le_u32(header@, 0);
            let a = le_u32(header@, 4);
            match header_outcome(j, a) {
                Ok(_) => r matches Ok(h) && h.json_len == j && h.audio_len == a,
                Err(true) => r matches Err(FrameError::InvalidJsonSize(n)) && n == j,
                Err(false) => r matches Err(FrameError::AudioTooLarge(n)) && n == a,
            }
        }),
{
    let json_len = u32_from_le(header, 0);
    let audio_len = u32_from_le(header, 4);
    if json_len == 0 || json_len > MAX_JSON_BYTES {
        return Err(FrameError::InvalidJsonSize(json_len));
    }
    if audio_len > MAX_AUDIO_BYTES {
        return Err(FrameError::AudioTooLarge(audio_len));
    }
    Ok(FrameHeader { json_len, audio_len })
}

/// Reads one request frame: `None` on a clean end of input before the header.
/// A header that `decode_header` refuses and an input that ends inside the
/// frame are faults; no part of a frame is ever skipped.
pub fn read_frame<R: std::io::Read>(reader: &mut R) -> (r: Result<Option<Frame>, FrameError>)
    ensures
        r matches Ok(Some(f)) ==> 1 <= f.json@.len() <= MAX_JSON_BYTES && f.audio@.len()
            <= MAX_AUDIO_BYTES,
        r matches Err(FrameError::InvalidJsonSize(n)) ==> n == 0 || n > MAX_JSON_BYTES,
        r matches Err(FrameError::AudioTooLarge(n)) ==> n > MAX_AUDIO_BYTES,
{
    let header = match read_exact_allow_eof(reader, 8) {
        Ok(Some(h)) => h,
        Ok(None) => return Ok(None),
        Err(f) => return Err(FrameError::Header(f)),
    };
    let h = match decode_header(header.as_slice()) {
        Ok(h) => h,
        Err(e) => return Err(e),
    };
    let json = match read_exact_required(reader, h.json_len as usize) {
        Ok(v) => v,
        Err(f) => return Err(FrameError::JsonBody(f)),
    };
    let audio = if h.audio_len > 0 {
        match read_exact_required(reader, h.audio_len as usize) {
            Ok(v) => v,
            Err(f) => return Err(FrameError::AudioBody(f)),
        }
    } else {
        Vec::new()
    };
    Ok(Some(Frame { json, audio }))
}

/// A reply frame: the body's length as four little-endian bytes, then the body.
pub fn response_frame(body: &[u8]) -> (r: Vec<u8>)
    requires
        body@.len() <= u32::MAX,
    ensures
        r@ == le_bytes(body@.len() as u32) + body@,
{
    let mut out = u32_to_le(body.len() as u32);
    let ghost prefix = out@;
    let mut i: usize = 0;
    while i < body.len()
        invariant
            i <= body@.len(),
            out@ == prefix + body@.subrange(0, i as int),
        decreases body@.len() - i,
    {
        out.push(body[i]);
        assert(body@.subrange(0, i + 1) =~= body@.subrange(0, i as int).push(body@[i as int]));
        i = i + 1;
    }
    assert(body@.subrange(0, body@.len() as int) =~= body@);
    out
}

/// Writes one reply frame and flushes, so that the parent sees it at once.
pub fn write_response<W: std::io::Write>(writer: &mut W, body: &[u8]) -> (r: Result<(), FrameError>)
    ensures
        r matches Err(FrameError::ResponseTooLarge(n)) <==> body@.len() > u32::MAX,
{
    if body.len() > 0xffff_ffff {
        return Err(FrameError::ResponseTooLarge(body.len()));
    }
    let bytes = response_frame(body);
    match write_all(writer, bytes.as_slice()) {
        Ok(()) => {},
        Err(e) => return Err(FrameError::Write(e)),
    }
    match flush(writer) {
        Ok(()) => Ok(()),
        Err(e) => Err(FrameError::Write(e)),
    }
}

} // verus!
