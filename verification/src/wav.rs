//! The WAV files of recordings: 16 kHz, 16-bit PCM, mono.
//!
//! Writing produces the canonical 44-byte header followed by little-endian
//! samples; reading walks the RIFF chunks, checks the format chunk and takes
//! the samples of the data chunk. Converting samples to and from floating
//! point is left to the application.

use vstd::prelude::*;

verus! {

/// Sample rate of every recording.
pub const SAMPLE_RATE: u32 = 16000;

/// Why a file is not a usable recording.
#[derive(Debug, Clone, Copy, PartialEq, Eq, Structural)]
pub enum WavError {
    /// No RIFF/WAVE signature.
    NotRiff,
    /// The format chunk is shorter than 16 bytes.
    FmtTooShort,
    /// Not 16-bit PCM mono.
    Unsupported { format: u16, channels: u16, bits: u16 },
    /// No format chunk before the end.
    MissingFmt,
    /// No data chunk.
    MissingData,
}

/// Little-endian 16-bit value at `i`.
pub open spec fn le16(d: Seq<u8>, i: int) -> nat {
    (d[i] + 256 * d[i + 1]) as nat
}

/// Little-endian 32-bit value at `i`.
pub open spec fn le32(d: Seq<u8>, i: int) -> nat {
    le16(d, i) + 65536 * le16(d, i + 2)
}

/// The bytes at `i..i + 4` spell `tag`.
pub open spec fn tag_at(d: Seq<u8>, i: int, tag: Seq<u8>) -> bool {
    d.subrange(i, i + 4) == tag
}

pub open spec fn riff() -> Seq<u8> {
    seq![0x52u8, 0x49u8, 0x46u8, 0x46u8]
}

pub open spec fn wave() -> Seq<u8> {
    seq![0x57u8, 0x41u8, 0x56u8, 0x45u8]
}

pub open spec fn fmt_tag() -> Seq<u8> {
    seq![0x66u8, 0x6du8, 0x74u8, 0x20u8]
}

pub open spec fn data_tag() -> Seq<u8> {
    seq![0x64u8, 0x61u8, 0x74u8, 0x61u8]
}

/// A 16-bit sample from two little-endian bytes (two's complement).
pub open spec fn sample_of(lo: u8, hi: u8) -> i16 {
    let u = lo + 256 * hi;
    (if u >= 32768 {
        u - 65536
    } else {
        u
    }) as i16
}

/// The samples of a data chunk body of `size` bytes at `body` (an odd last
/// byte is ignored).
pub open spec fn samples_of(d: Seq<u8>, body: int, size: int) -> Seq<i16> {
    Seq::new((size / 2) as nat, |k: int| sample_of(d[body + 2 * k], d[body + 2 * k + 1]))
}

pub open spec fn finish(fmt_seen: bool, pcm: Option<Seq<i16>>) -> Result<Seq<i16>, WavError> {
    if !fmt_seen {
        Err(WavError::MissingFmt)
    } else {
        match pcm {
            Some(p) => Ok(p),
            None => Err(WavError::MissingData),
        }
    }
}

/// Walks the chunks from `pos`: a chunk is a four-byte tag, a 32-bit size
/// and a body padded to an even length. The walk ends at the end of the data
/// or at a chunk that does not fit. A format chunk must be 16-bit PCM mono;
/// the last data chunk gives the samples.
pub open spec fn walk(d: Seq<u8>, pos: int, fmt_seen: bool, pcm: Option<Seq<i16>>) -> Result<Seq<i16>, WavError>
    decreases d.len() + 1 - pos,
{
    if pos < 0 || pos + 8 > d.len() {
        finish(fmt_seen, pcm)
    } else {
        let size = le32(d, pos + 4) as int;
        let body = pos + 8;
        let next = body + size + size % 2;
        if body + size > d.len() {
            finish(fmt_seen, pcm)
        } else if tag_at(d, pos, fmt_tag()) {
            if size < 16 {
                Err(WavError::FmtTooShort)
            } else {
                let format = le16(d, body);
                let channels = le16(d, body + 2);
                let bits = le16(d, body + 14);
                if format != 1 || channels != 1 || bits != 16 {
                    Err(
                        WavError::Unsupported {
                            format: format as u16,
                            channels: channels as u16,
                            bits: bits as u16,
                        },
                    )
                } else {
                    walk(d, next, true, pcm)
                }
            }
        } else if tag_at(d, pos, data_tag()) {
            walk(d, next, fmt_seen, Some(samples_of(d, body, size)))
        } else {
            walk(d, next, fmt_seen, pcm)
        }
    }
}

/// What reading a file gives: the samples of a valid recording, or why not.
pub open spec fn parse_wav_spec(d: Seq<u8>) -> Result<Seq<i16>, WavError> {
    if d.len() < 12 || !tag_at(d, 0, riff()) || !tag_at(d, 8, wave()) {
        Err(WavError::NotRiff)
    } else {
        walk(d, 12, false, None)
    }
}

fn le16_at(d: &[u8], i: usize) -> (r: u16)
    requires
        i + 2 <= d@.len(),
        d@.len() < usize::MAX,
    ensures
        r as nat == le16(d@, i as int),
{
    (d[i] as u16) + 256 * (d[i + 1] as u16)
}

fn le32_at(d: &[u8], i: usize) -> (r: u32)
    requires
        i + 4 <= d@.len(),
        d@.len() < usize::MAX,
    ensures
        r as nat == le32(d@, i as int),
{
    let lo = le16_at(d, i) as u32;
    let hi = le16_at(d, i + 2) as u32;
    lo + 65536 * hi
}

fn tag_is(d: &[u8], i: usize, a: u8, b: u8, c: u8, e: u8) -> (r: bool)
    requires
        i + 4 <= d@.len(),
        d@.len() < usize::MAX,
    ensures
        r == tag_at(d@, i as int, seq![a, b, c, e]),
{
    let r = d[i] == a && d[i + 1] == b && d[i + 2] == c && d[i + 3] == e;
    proof {
        let s = d@.subrange(i as int, i + 4);
        if r {
            assert(s =~= seq![a, b, c, e]);
        } else {
            if s == seq![a, b, c, e] {
                assert(s[0] == a && s[1] == b && s[2] == c && s[3] == e);
            }
        }
    }
    r
}

fn read_samples(d: &[u8], body: usize, size: usize) -> (r: Vec<i16>)
    requires
        body + size <= d@.len(),
        d@.len() < usize::MAX,
    ensures
        r@ == samples_of(d@, body as int, size as int),
{
    let n = size / 2;
    let mut out: Vec<i16> = Vec::new();
    let mut k: usize = 0;
    while k < n
        invariant
            n == size / 2,
            body + size <= d@.len(),
            d@.len() < usize::MAX,
            k <= n,
            out@ == samples_of(d@, body as int, size as int).take(k as int),
        decreases n - k,
    {
        assert(2 * k + 2 <= size) by (nonlinear_arith)
            requires
                k < n,
                n == size / 2,
        ;
        let lo = d[body + 2 * k];
        let hi = d[body + 2 * k + 1];
        let u: u32 = (lo as u32) + 256 * (hi as u32);
        let v: i32 = if u >= 32768 {
            (u as i32) - 65536
        } else {
            u as i32
        };
        out.push(v as i16);
        proof {
            assert(samples_of(d@, body as int, size as int).take(k + 1) =~= samples_of(
                d@,
                body as int,
                size as int,
            ).take(k as int).push(sample_of(lo, hi)));
        }
        k += 1;
    }
    assert(samples_of(d@, body as int, size as int).take(n as int) =~= samples_of(
        d@,
        body as int,
        size as int,
    ));
    out
}

/// Reads a recording (see [`parse_wav_spec`]).
pub fn parse_wav(data: &[u8]) -> (r: Result<Vec<i16>, WavError>)
    requires
        data@.len() < usize::MAX,
    ensures
        match parse_wav_spec(data@) {
            Ok(s) => r is Ok && r->Ok_0@ == s,
            Err(e) => r == Err::<Vec<i16>, WavError>(e),
        },
{
    if data.len() < 12 || !tag_is(data, 0, 0x52, 0x49, 0x46, 0x46) || !tag_is(
        data,
        8,
        0x57,
        0x41,
        0x56,
        0x45,
    ) {
        return Err(WavError::NotRiff);
    }
    let mut pos: usize = 12;
    let mut fmt_seen = false;
    let mut pcm: Option<Vec<i16>> = None;
    while pos <= data.len() && data.len() - pos >= 8
        invariant
            data@.len() < usize::MAX,
            12 <= pos,
            parse_wav_spec(data@) == walk(data@, 12, false, None),
            walk(data@, 12, false, None) == walk(
                data@,
                pos as int,
                fmt_seen,
                match pcm {
                    Some(v) => Some(v@),
                    None => None,
                },
            ),
        ensures
            walk(
                data@,
                pos as int,
                fmt_seen,
                match pcm {
                    Some(v) => Some(v@),
                    None => None,
                },
            ) == finish(
                fmt_seen,
                match pcm {
                    Some(v) => Some(v@),
                    None => None,
                },
            ),
        decreases data@.len() + 1 - pos,
    {
        let size = le32_at(data, pos + 4) as usize;
        let body = pos + 8;
        if size > data.len() - body {
            break;
        }
        let next = body + size + size % 2;
        if tag_is(data, pos, 0x66, 0x6d, 0x74, 0x20) {
            if size < 16 {
                return Err(WavError::FmtTooShort);
            }
            let format = le16_at(data, body);
            let channels = le16_at(data, body + 2);
            let bits = le16_at(data, body + 14);
            if format != 1 || channels != 1 || bits != 16 {
                return Err(WavError::Unsupported { format, channels, bits });
            }
            fmt_seen = true;
        } else if tag_is(data, pos, 0x64, 0x61, 0x74, 0x61) {
            pcm = Some(read_samples(data, body, size));
        }
        pos = next;
    }
    if !fmt_seen {
        return Err(WavError::MissingFmt);
    }
    match pcm {
        Some(v) => Ok(v),
        None => Err(WavError::MissingData),
    }
}

/// The message for a file that is not a usable recording (`path` is the
/// file as it should appear in the message).
pub open spec fn wav_message(e: WavError, path: Seq<char>) -> Seq<char> {
    match e {
        WavError::NotRiff => "不是有效的 RIFF/WAVE 文件："@ + path,
        WavError::FmtTooShort => "wav fmt chunk 过短"@,
        WavError::Unsupported { format, channels, bits } => "仅支持 16bit PCM mono wav（format="@
            + crate::text::dec(format as nat) + " channels="@ + crate::text::dec(channels as nat)
            + " bits="@ + crate::text::dec(bits as nat) + "）"@,
        WavError::MissingFmt => "wav 缺少 fmt chunk"@,
        WavError::MissingData => "wav 缺少 data chunk"@,
    }
}

pub fn wav_error_message(e: WavError, path: &str) -> (r: String)
    ensures
        r@ == wav_message(e, path@),
{
    let mut m = String::new();
    match e {
        WavError::NotRiff => {
            crate::text::push_str(&mut m, "不是有效的 RIFF/WAVE 文件：");
            crate::text::push_str(&mut m, path);
        },
        WavError::FmtTooShort => crate::text::push_str(&mut m, "wav fmt chunk 过短"),
        WavError::Unsupported { format, channels, bits } => {
            crate::text::push_str(&mut m, "仅支持 16bit PCM mono wav（format=");
            crate::text::push_dec(&mut m, format as u64);
            crate::text::push_str(&mut m, " channels=");
            crate::text::push_dec(&mut m, channels as u64);
            crate::text::push_str(&mut m, " bits=");
            crate::text::push_dec(&mut m, bits as u64);
            crate::text::push_str(&mut m, "）");
        },
        WavError::MissingFmt => crate::text::push_str(&mut m, "wav 缺少 fmt chunk"),
        WavError::MissingData => crate::text::push_str(&mut m, "wav 缺少 data chunk"),
    }
    proof {
        let v = m@;
        assert(v =~= wav_message(e, path@));
    }
    m
}

// ---------- writing ----------

/// Little-endian bytes of a 16-bit value.
pub open spec fn bytes16(x: nat) -> Seq<u8> {
    seq![(x % 256) as u8, (x / 256 % 256) as u8]
}

/// Little-endian bytes of a 32-bit value.
pub open spec fn bytes32(x: nat) -> Seq<u8> {
    bytes16(x % 65536) + bytes16(x / 65536 % 65536)
}

/// The 44-byte header of a recording of `n` samples.
#[verifier::opaque]
pub open spec fn header_bytes(n: nat) -> Seq<u8> {
    riff() + bytes32(36 + 2 * n) + wave() + fmt_tag() + bytes32(16) + bytes16(1) + bytes16(1)
        + bytes32(16000) + bytes32(32000) + bytes16(2) + bytes16(16) + data_tag() + bytes32(2 * n)
}

/// The two's-complement bytes of a sample.
pub open spec fn sample_bytes(v: i16) -> Seq<u8> {
    bytes16(
        (if v < 0 {
            v + 65536
        } else {
            v as int
        }) as nat,
    )
}

pub open spec fn samples_bytes(s: Seq<i16>) -> Seq<u8>
    decreases s.len(),
{
    if s.len() == 0 {
        Seq::empty()
    } else {
        samples_bytes(s.drop_last()) + sample_bytes(s.last())
    }
}

/// A whole recording file.
pub open spec fn wav_bytes(s: Seq<i16>) -> Seq<u8> {
    header_bytes(s.len()) + samples_bytes(s)
}

fn push16(out: &mut Vec<u8>, x: u16)
    ensures
        final(out)@ == old(out)@ + bytes16(x as nat),
{
    out.push((x % 256) as u8);
    out.push((x / 256) as u8);
    assert(final(out)@ =~= old(out)@ + bytes16(x as nat));
}

fn push32(out: &mut Vec<u8>, x: u32)
    ensures
        final(out)@ == old(out)@ + bytes32(x as nat),
{
    push16(out, (x % 65536) as u16);
    push16(out, (x / 65536) as u16);
    assert(final(out)@ =~= old(out)@ + bytes32(x as nat));
}

fn push_tag(out: &mut Vec<u8>, a: u8, b: u8, c: u8, d: u8)
    ensures
        final(out)@ == old(out)@ + seq![a, b, c, d],
{
    out.push(a);
    out.push(b);
    out.push(c);
    out.push(d);
    assert(final(out)@ =~= old(out)@ + seq![a, b, c, d]);
}

/// Encodes samples as a recording file (header, then the samples).
pub fn encode_wav(samples: &[i16]) -> (r: Vec<u8>)
    requires
        2 * samples@.len() + 36 <= u32::MAX,
    ensures
        r@ == wav_bytes(samples@),
{
    let data_len: u32 = (samples.len() * 2) as u32;
    let mut out: Vec<u8> = Vec::new();
    push_tag(&mut out, 0x52, 0x49, 0x46, 0x46);
    push32(&mut out, 36 + data_len);
    push_tag(&mut out, 0x57, 0x41, 0x56, 0x45);
    push_tag(&mut out, 0x66, 0x6d, 0x74, 0x20);
    push32(&mut out, 16);
    push16(&mut out, 1);
    push16(&mut out, 1);
    push32(&mut out, 16000);
    push32(&mut out, 32000);
    push16(&mut out, 2);
    push16(&mut out, 16);
    push_tag(&mut out, 0x64, 0x61, 0x74, 0x61);
    push32(&mut out, data_len);
    proof {
        reveal(header_bytes);
    }
    assert(out@ =~= header_bytes(samples@.len()));
    let ghost head = out@;
    let mut i: usize = 0;
    while i < samples.len()
        invariant
            i <= samples@.len(),
            out@ == head + samples_bytes(samples@.take(i as int)),
        decreases samples.len() - i,
    {
        let v = samples[i];
        let u: u16 = if v < 0 {
            (v as i32 + 65536) as u16
        } else {
            v as u16
        };
        push16(&mut out, u);
        proof {
            assert(samples@.take(i + 1).drop_last() =~= samples@.take(i as int));
            assert(out@ =~= head + samples_bytes(samples@.take(i + 1)));
        }
        i += 1;
    }
    assert(samples@.take(samples@.len() as int) =~= samples@);
    out
}

proof fn lemma_samples_bytes(s: Seq<i16>)
    ensures
        samples_bytes(s).len() == 2 * s.len(),
        forall|k: int|
            0 <= k < s.len() ==> sample_of(
                #[trigger] samples_bytes(s)[2 * k],
                samples_bytes(s)[2 * k + 1],
            ) == s[k],
    decreases s.len(),
{
    if s.len() > 0 {
        let p = s.drop_last();
        lemma_samples_bytes(p);
        let b = samples_bytes(s);
        assert forall|k: int| 0 <= k < s.len() implies sample_of(
            #[trigger] b[2 * k],
            b[2 * k + 1],
        ) == s[k] by {
            if k < s.len() - 1 {
                assert(b[2 * k] == samples_bytes(p)[2 * k]);
                assert(b[2 * k + 1] == samples_bytes(p)[2 * k + 1]);
                assert(p[k] == s[k]);
            } else {
                let v = s.last();
                let u: int = if v < 0 {
                    v + 65536
                } else {
                    v as int
                };
                assert(b[2 * k] == (u % 256) as u8);
                assert(b[2 * k + 1] == (u / 256 % 256) as u8);
            }
        }
    }
}

proof fn lemma_header(n: nat)
    requires
        2 * n + 36 <= u32::MAX,
    ensures
        header_bytes(n).len() == 44,
        header_bytes(n).subrange(0, 4) == riff(),
        header_bytes(n).subrange(8, 12) == wave(),
        header_bytes(n).subrange(12, 16) == fmt_tag(),
        le32(header_bytes(n), 16) == 16,
        le16(header_bytes(n), 20) == 1,
        le16(header_bytes(n), 22) == 1,
        le16(header_bytes(n), 34) == 16,
        header_bytes(n).subrange(36, 40) == data_tag(),
        le32(header_bytes(n), 40) == 2 * n,
{
    reveal(header_bytes);
    let h = header_bytes(n);
    assert(h.subrange(0, 4) =~= riff());
    assert(h.subrange(8, 12) =~= wave());
    assert(h.subrange(12, 16) =~= fmt_tag());
    assert(h.subrange(36, 40) =~= data_tag());
    let x = 2 * n;
    assert(le32(h, 40) == x % 65536 % 256 + 256 * (x % 65536 / 256 % 256) + 65536 * (x / 65536
        % 65536 % 256 + 256 * (x / 65536 % 65536 / 256 % 256)));
    assert(x % 65536 % 256 + 256 * (x % 65536 / 256 % 256) == x % 65536);
    assert(x / 65536 % 65536 % 256 + 256 * (x / 65536 % 65536 / 256 % 256) == x / 65536 % 65536);
    assert(x / 65536 % 65536 == x / 65536);
}

proof fn lemma_walk_fmt(d: Seq<u8>, pos: int, pcm: Option<Seq<i16>>)
    requires
        0 <= pos,
        pos + 24 <= d.len(),
        tag_at(d, pos, fmt_tag()),
        le32(d, pos + 4) == 16,
        le16(d, pos + 8) == 1,
        le16(d, pos + 10) == 1,
        le16(d, pos + 22) == 16,
    ensures
        walk(d, pos, false, pcm) == walk(d, pos + 24, true, pcm),
{
}

proof fn lemma_walk_data(d: Seq<u8>, pos: int, size: int)
    requires
        0 <= pos,
        0 <= size,
        size % 2 == 0,
        pos + 8 + size <= d.len(),
        tag_at(d, pos, data_tag()),
        !tag_at(d, pos, fmt_tag()),
        le32(d, pos + 4) == size,
    ensures
        walk(d, pos, true, None) == walk(d, pos + 8 + size, true, Some(samples_of(d, pos + 8, size))),
{
}

proof fn lemma_parse_layout(d: Seq<u8>, s: Seq<i16>)
    requires
        d.len() == 44 + 2 * s.len(),
        d.subrange(0, 4) == riff(),
        d.subrange(8, 12) == wave(),
        d.subrange(12, 16) == fmt_tag(),
        le32(d, 16) == 16,
        le16(d, 20) == 1,
        le16(d, 22) == 1,
        le16(d, 34) == 16,
        d.subrange(36, 40) == data_tag(),
        le32(d, 40) == 2 * s.len(),
        forall|k: int| 0 <= k < s.len() ==> sample_of(d[44 + 2 * k], d[44 + 2 * k + 1]) == s[k],
    ensures
        parse_wav_spec(d) == Ok::<Seq<i16>, WavError>(s),
{
    let n: int = s.len() as int;
    lemma_walk_fmt(d, 12, None);
    assert(!tag_at(d, 36, fmt_tag())) by {
        assert(d.subrange(36, 40)[0] != fmt_tag()[0]);
    }
    lemma_walk_data(d, 36, 2 * n);
    let body_samples = samples_of(d, 44, 2 * n);
    assert(body_samples =~= s);
    assert(walk(d, 44 + 2 * n, true, Some(body_samples)) == finish(true, Some(body_samples)));
}

/// Writing samples and reading the file back gives the same samples.
pub proof fn law_wav_roundtrip(s: Seq<i16>)
    requires
        2 * s.len() + 36 <= u32::MAX,
    ensures
        parse_wav_spec(wav_bytes(s)) == Ok::<Seq<i16>, WavError>(s),
{
    let n: int = s.len() as int;
    let h = header_bytes(s.len());
    let b = samples_bytes(s);
    let d = wav_bytes(s);
    lemma_header(s.len());
    lemma_samples_bytes(s);
    assert(d == h + b);
    assert(d.subrange(0, 4) =~= h.subrange(0, 4));
    assert(d.subrange(8, 12) =~= h.subrange(8, 12));
    assert(d.subrange(12, 16) =~= h.subrange(12, 16));
    assert(d.subrange(36, 40) =~= h.subrange(36, 40));
    assert(le32(d, 16) == le32(h, 16));
    assert(le16(d, 20) == le16(h, 20));
    assert(le16(d, 22) == le16(h, 22));
    assert(le16(d, 34) == le16(h, 34));
    assert(le32(d, 40) == le32(h, 40));
    assert forall|k: int| 0 <= k < s.len() implies sample_of(d[44 + 2 * k], d[44 + 2 * k + 1])
        == s[k] by {
        assert(d[44 + 2 * k] == b[2 * k]);
        assert(d[44 + 2 * k + 1] == b[2 * k + 1]);
    }
    lemma_parse_layout(d, s);
}

} // verus!
