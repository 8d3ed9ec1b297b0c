//! Reading and writing linear PCM WAVE files: 8-bit and 16-bit samples, one
//! or two channels, laid out after the canonical 44-byte header.

use crate::header::{
    encode_header, header_bytes, lemma_header_roundtrip, lemma_parse_header_prefix, read_header, spec_parse_header,
    WaveError, WaveHeader, HEADER_LEN,
};
use crate::le_bytes::{
    i16_at, i16_le_bytes, i16_to_le, i32_at, le_i16_value, lemma_i16_at_range, lemma_i16_le_roundtrip,
    lemma_i32_at_range, read_i16_le,
};
use crate::pcm::{MonoPcm, Pcm, StereoPcm};
use vstd::prelude::*;

verus! {

/// Integer division rounding toward zero, as `/` does on Rust integers.
pub open spec fn tdiv(a: int, b: int) -> int {
    if a >= 0 {
        a / b
    } else {
        -((-a) / b)
    }
}

pub open spec fn in_i32(x: int) -> bool {
    i32::MIN <= x <= i32::MAX
}

pub open spec fn in_i16(x: int) -> bool {
    i16::MIN <= x <= i16::MAX
}

/// The header written in front of 16-bit samples of a sound with rate `fs`,
/// `bits` bits per sample, `length` samples per channel and `channel`
/// channels. Each field is computed as on `i32`/`i16`/`usize`, with the
/// narrowing casts truncating.
pub open spec fn header_16bit(fs: usize, bits: i32, length: usize, channel: i32) -> WaveHeader {
    WaveHeader {
        riff_chunk_id: [82, 73, 70, 70],
        riff_chunk_size: (36 + (length as i32) * 2 * channel) as i32,
        file_format_type: [87, 65, 86, 69],
        fmt_chunk_id: [102, 109, 116, 32],
        fmt_chunk_size: 16,
        wave_format_type: 1,
        channel: channel as i16,
        samples_per_sec: fs as i32,
        bytes_per_sec: (tdiv((fs as i32) * bits, 8) * channel) as i32,
        block_size: ((tdiv(bits as int, 8) as i16) * (channel as i16)) as i16,
        bits_per_sample: bits as i16,
        data_chunk_id: [100, 97, 116, 97],
        data_chunk_size: (((length * 2) as i32) * channel) as i32,
    }
}

/// The arithmetic of `header_16bit` stays within its integer types (it is
/// done with overflow checks).
pub open spec fn header_16bit_fits(fs: usize, bits: i32, length: usize, channel: i32) -> bool {
    &&& in_i32((length as i32) * 2)
    &&& in_i32((length as i32) * 2 * channel)
    &&& in_i32(36 + (length as i32) * 2 * channel)
    &&& in_i32((fs as i32) * bits)
    &&& in_i32(tdiv((fs as i32) * bits, 8) * channel)
    &&& in_i16((tdiv(bits as int, 8) as i16) * (channel as i16))
    &&& length * 2 <= usize::MAX
    &&& in_i32(((length * 2) as i32) * channel)
}

/// The bytes of 16-bit samples, each little-endian, in order.
pub open spec fn i16_samples_bytes(s: Seq<i16>) -> Seq<u8> {
    Seq::new((2 * s.len()) as nat, |j: int| i16_le_bytes(s[j / 2] as int)[j % 2])
}

/// Left and right samples taken in turn: `l[0], r[0], l[1], r[1], ...`.
pub open spec fn interleave<S>(l: Seq<S>, r: Seq<S>) -> Seq<S> {
    Seq::new((2 * l.len()) as nat, |k: int| if k % 2 == 0 { l[k / 2] } else { r[k / 2] })
}

/// The sample rate a header announces, as `usize`.
pub open spec fn read_fs(b: Seq<u8>) -> usize {
    spec_parse_header(b).samples_per_sec as usize
}

/// The sample width a header announces, as `i32`.
pub open spec fn read_bits(b: Seq<u8>) -> i32 {
    spec_parse_header(b).bits_per_sample as i32
}

/// The number of frames the data chunk size announces when each frame takes
/// `frame_bytes` bytes: the size divided (toward zero) by `frame_bytes`,
/// then taken as `usize`.
pub open spec fn frame_count(b: Seq<u8>, frame_bytes: int) -> usize {
    tdiv(spec_parse_header(b).data_chunk_size as int, frame_bytes) as usize
}

/// The bytes hold a header and, after it, all the frames it announces.
pub open spec fn holds_frames(b: Seq<u8>, frame_bytes: int) -> bool {
    &&& b.len() >= HEADER_LEN
    &&& HEADER_LEN + frame_bytes * frame_count(b, frame_bytes) <= b.len()
}

/// `n` bytes of `b` taken every `stride` bytes from `start`.
pub open spec fn u8_column(b: Seq<u8>, start: int, stride: int, n: nat) -> Seq<u8> {
    Seq::new(n, |i: int| b[start + stride * i])
}

/// `n` little-endian 16-bit samples of `b` taken every `stride` bytes from
/// `start`.
pub open spec fn i16_column(b: Seq<u8>, start: int, stride: int, n: nat) -> Seq<i16> {
    Seq::new(n, |i: int| i16_at(b, start + stride * i) as i16)
}

/// The bytes that `wave_write_16bit_header` gives for a sound.
pub open spec fn header_16bit_bytes<T: Pcm>(pcm: &T) -> Seq<u8> {
    header_bytes(header_16bit(pcm.fs_of(), pcm.bits_of(), pcm.length_of(), T::channel_count()))
}

/// The header that precedes 16-bit samples of `pcm`, as bytes.
pub fn wave_write_16bit_header<T: Pcm>(pcm: &T) -> (out: Vec<u8>)
    requires
        header_16bit_fits(pcm.fs_of(), pcm.bits_of(), pcm.length_of(), T::channel_count()),
    ensures
        out@ == header_16bit_bytes(pcm),
        out@.len() == HEADER_LEN,
        out@.subrange(0, 4) == seq![82u8, 73, 70, 70],
        out@.subrange(8, 12) == seq![87u8, 65, 86, 69],
        out@.subrange(12, 16) == seq![102u8, 109, 116, 32],
        out@.subrange(36, 40) == seq![100u8, 97, 116, 97],
        i32_at(out@, 16) == 16,
        i16_at(out@, 20) == 1,
        i16_at(out@, 22) == T::channel_count() as i16,
        i32_at(out@, 24) == pcm.fs_of() as i32,
        i16_at(out@, 34) == pcm.bits_of() as i16,
        i32_at(out@, 40) == ((pcm.length_of() * 2) as i32) * T::channel_count(),
        i32_at(out@, 4) == 36 + (pcm.length_of() as i32) * 2 * T::channel_count(),
{
    proof {
        lemma_16bit_header_fields(pcm);
    }
    let channel_: i32 = pcm.channel();
    let riff_chunk_id: [i8; 4] = [82, 73, 70, 70];  // "RIFF"
    let riff_chunk_size: i32 = 36 + #[verifier::truncate] (pcm.get_length() as i32) * 2 * channel_;
    let file_format_type: [i8; 4] = [87, 65, 86, 69];  // "WAVE"
    let fmt_chunk_id: [i8; 4] = [102, 109, 116, 32];  // "fmt "
    let fmt_chunk_size: i32 = 16;
    let wave_format_type: i16 = 1;
    let channel: i16 = #[verifier::truncate] (channel_ as i16);
    let samples_per_sec: i32 = #[verifier::truncate] (pcm.get_fs() as i32);
    let bytes_per_sec: i32 = #[verifier::truncate] (pcm.get_fs() as i32) * pcm.get_bits() / 8
        * channel_;
    let block_size: i16 = #[verifier::truncate] ((pcm.get_bits() / 8) as i16) * channel;
    let bits_per_sample: i16 = #[verifier::truncate] (pcm.get_bits() as i16);
    let data_chunk_id: [i8; 4] = [100, 97, 116, 97];  // "data"
    let data_chunk_size: i32 = #[verifier::truncate] ((pcm.get_length() * 2) as i32) * channel_;
    let h = WaveHeader {
        riff_chunk_id,
        riff_chunk_size,
        file_format_type,
        fmt_chunk_id,
        fmt_chunk_size,
        wave_format_type,
        channel,
        samples_per_sec,
        bytes_per_sec,
        block_size,
        bits_per_sample,
        data_chunk_id,
        data_chunk_size,
    };
    assert(h == header_16bit(pcm.fs_of(), pcm.bits_of(), pcm.length_of(), T::channel_count()));
    encode_header(&h)
}

/// What the header written in front of 16-bit samples holds, field by field
/// at its byte offsets: the "RIFF", "WAVE", "fmt " and "data" tags, a
/// 16-byte format chunk with format tag 1 (linear PCM), the channel count,
/// rate and sample width of the sound, a data size of two bytes per sample
/// and channel, a RIFF size 36 bytes larger (where the data size is exact),
/// and block size and byte rate from the sample width.
pub proof fn lemma_16bit_header_fields<T: Pcm>(pcm: &T)
    requires
        header_16bit_fits(pcm.fs_of(), pcm.bits_of(), pcm.length_of(), T::channel_count()),
    ensures
        ({
            let b = header_16bit_bytes(pcm);
            let ch = T::channel_count();
            let len = pcm.length_of();
            &&& b.len() == HEADER_LEN
            &&& b.subrange(0, 4) == seq![82u8, 73, 70, 70]
            &&& b.subrange(8, 12) == seq![87u8, 65, 86, 69]
            &&& b.subrange(12, 16) == seq![102u8, 109, 116, 32]
            &&& b.subrange(36, 40) == seq![100u8, 97, 116, 97]
            &&& i32_at(b, 16) == 16
            &&& i16_at(b, 20) == 1
            &&& i16_at(b, 22) == ch as i16
            &&& i32_at(b, 24) == pcm.fs_of() as i32
            &&& i16_at(b, 34) == pcm.bits_of() as i16
            &&& i32_at(b, 40) == ((len * 2) as i32) * ch
            &&& i32_at(b, 4) == 36 + (len as i32) * 2 * ch
            &&& (2 * len <= i32::MAX ==> i32_at(b, 4) == 36 + i32_at(b, 40))
            &&& (0 <= ch && 2 * len <= i32::MAX ==> i32_at(b, 40) == 2 * len * ch)
            &&& i16_at(b, 32) == (tdiv(pcm.bits_of() as int, 8) as i16) * (ch as i16)
            &&& i32_at(b, 28) == tdiv((pcm.fs_of() as i32) * pcm.bits_of(), 8) * ch
        }),
{
    let h = header_16bit(pcm.fs_of(), pcm.bits_of(), pcm.length_of(), T::channel_count());
    let b = header_bytes(h);
    lemma_header_roundtrip(h);
    let p = spec_parse_header(b);
    assert(p == h);
    lemma_i32_at_range(b, 4);
    lemma_i32_at_range(b, 16);
    lemma_i16_at_range(b, 20);
    lemma_i16_at_range(b, 22);
    lemma_i32_at_range(b, 24);
    lemma_i32_at_range(b, 28);
    lemma_i16_at_range(b, 32);
    lemma_i16_at_range(b, 34);
    lemma_i32_at_range(b, 40);
    assert(i32_at(b, 16) == h.fmt_chunk_size);
    assert(i16_at(b, 20) == h.wave_format_type);
    assert(i16_at(b, 22) == h.channel);
    assert(i32_at(b, 24) == h.samples_per_sec);
    assert(i32_at(b, 28) == h.bytes_per_sec);
    assert(i16_at(b, 32) == h.block_size);
    assert(i16_at(b, 34) == h.bits_per_sample);
    assert(i32_at(b, 40) == h.data_chunk_size);
    assert(i32_at(b, 4) == h.riff_chunk_size);
    assert(b.subrange(0, 4) =~= seq![82u8, 73, 70, 70]);
    assert(b.subrange(8, 12) =~= seq![87u8, 65, 86, 69]);
    assert(b.subrange(12, 16) =~= seq![102u8, 109, 116, 32]);
    assert(b.subrange(36, 40) =~= seq![100u8, 97, 116, 97]);
}

proof fn lemma_frame_bound(fb: int, i: int, n: int)
    requires
        0 <= i < n,
        fb > 0,
    ensures
        fb * i + fb <= fb * n,
        0 <= fb * i,
{
    assert(fb * i + fb <= fb * n && 0 <= fb * i) by (nonlinear_arith)
        requires
            0 <= i < n,
            fb > 0,
    ;
}

/// The number of frames a file announces depends on its data chunk size
/// field (bytes 40..44) alone: two headers with the same data size announce
/// the same number of frames, whatever their other fields say.
pub proof fn lemma_frame_count_from_data_size(b1: Seq<u8>, b2: Seq<u8>, frame_bytes: int)
    requires
        b1.len() >= HEADER_LEN,
        b2.len() >= HEADER_LEN,
        i32_at(b1, 40) == i32_at(b2, 40),
    ensures
        frame_count(b1, frame_bytes) == frame_count(b2, frame_bytes),
{
}

/// Bytes after the announced frames (a trailing chunk, padding) change
/// nothing: a file that decodes still decodes with them appended, with the
/// same number of frames and the same samples.
pub proof fn lemma_trailing_bytes_ignored(b: Seq<u8>, c: Seq<u8>, frame_bytes: int)
    requires
        frame_bytes == 1 || frame_bytes == 2 || frame_bytes == 4,
        holds_frames(b, frame_bytes),
    ensures
        holds_frames(b + c, frame_bytes),
        frame_count(b + c, frame_bytes) == frame_count(b, frame_bytes),
        ({
            let n = frame_count(b, frame_bytes) as nat;
            let fb = frame_bytes;
            &&& u8_column(b + c, HEADER_LEN as int, fb, n) == u8_column(b, HEADER_LEN as int, fb, n)
            &&& (fb >= 2 ==> u8_column(b + c, HEADER_LEN + 1, fb, n) == u8_column(
                b,
                HEADER_LEN + 1,
                fb,
                n,
            ))
            &&& (fb >= 2 ==> i16_column(b + c, HEADER_LEN as int, fb, n) == i16_column(
                b,
                HEADER_LEN as int,
                fb,
                n,
            ))
            &&& (fb == 4 ==> i16_column(b + c, HEADER_LEN + 2, fb, n) == i16_column(
                b,
                HEADER_LEN + 2,
                fb,
                n,
            ))
        }),
{
    let bc = b + c;
    assert(bc.take(HEADER_LEN as int) =~= b.take(HEADER_LEN as int));
    lemma_parse_header_prefix(bc, b);
    let n = frame_count(b, frame_bytes) as nat;
    let fb = frame_bytes;
    assert forall|k: int| 0 <= k < HEADER_LEN + fb * n implies bc[k] == b[k] by {}
    assert forall|i: int| 0 <= i < n implies u8_column(bc, HEADER_LEN as int, fb, n)[i]
        == u8_column(b, HEADER_LEN as int, fb, n)[i] && (fb >= 2 ==> u8_column(
        bc,
        HEADER_LEN + 1,
        fb,
        n,
    )[i] == u8_column(b, HEADER_LEN + 1, fb, n)[i] && i16_column(bc, HEADER_LEN as int, fb, n)[i]
        == i16_column(b, HEADER_LEN as int, fb, n)[i]) && (fb == 4 ==> i16_column(
        bc,
        HEADER_LEN + 2,
        fb,
        n,
    )[i] == i16_column(b, HEADER_LEN + 2, fb, n)[i]) by {
        lemma_frame_bound(fb, i, n as int);
    }
    assert(u8_column(bc, HEADER_LEN as int, fb, n) =~= u8_column(b, HEADER_LEN as int, fb, n));
    if fb >= 2 {
        assert(u8_column(bc, HEADER_LEN + 1, fb, n) =~= u8_column(b, HEADER_LEN + 1, fb, n));
        assert(i16_column(bc, HEADER_LEN as int, fb, n) =~= i16_column(b, HEADER_LEN as int, fb, n));
    }
    if fb == 4 {
        assert(i16_column(bc, HEADER_LEN + 2, fb, n) =~= i16_column(b, HEADER_LEN + 2, fb, n));
    }
}

/// A header followed by exactly the bytes its data chunk size announces
/// decodes: the frame count is the data size divided by the frame width,
/// and the samples are those bytes, frame by frame (left then right for two
/// channels; one byte or one little-endian `i16` per sample).
pub proof fn lemma_exact_body_decodes(h: WaveHeader, body: Seq<u8>, frame_bytes: int)
    requires
        frame_bytes == 1 || frame_bytes == 2 || frame_bytes == 4,
        h.data_chunk_size >= 0,
        body.len() == frame_bytes * (h.data_chunk_size as int / frame_bytes),
    ensures
        ({
            let b = header_bytes(h) + body;
            let fb = frame_bytes;
            let n = (h.data_chunk_size as int / fb) as nat;
            &&& holds_frames(b, fb)
            &&& frame_count(b, fb) == n
            &&& (fb == 1 ==> u8_column(b, HEADER_LEN as int, 1, n) == body)
            &&& forall|i: int|
                0 <= i < n ==> {
                    &&& #[trigger] u8_column(b, HEADER_LEN as int, fb, n)[i] == body[fb * i]
                    &&& (fb >= 2 ==> u8_column(b, HEADER_LEN + 1, fb, n)[i] == body[fb * i + 1])
                    &&& (fb >= 2 ==> i16_column(b, HEADER_LEN as int, fb, n)[i] == i16_at(
                        body,
                        fb * i,
                    ) as i16)
                    &&& (fb == 4 ==> i16_column(b, HEADER_LEN + 2, fb, n)[i] == i16_at(
                        body,
                        fb * i + 2,
                    ) as i16)
                }
        }),
{
    let hb = header_bytes(h);
    let b = hb + body;
    let fb = frame_bytes;
    let n = (h.data_chunk_size as int / fb) as nat;
    lemma_header_roundtrip(h);
    assert(b.take(HEADER_LEN as int) =~= hb.take(HEADER_LEN as int));
    lemma_parse_header_prefix(b, hb);
    assert(spec_parse_header(b).data_chunk_size == h.data_chunk_size);
    assert(frame_count(b, fb) == n);
    assert forall|k: int| 0 <= k < body.len() implies b[HEADER_LEN + k] == body[k] by {}
    assert forall|i: int| 0 <= i < n implies {
        &&& #[trigger] u8_column(b, HEADER_LEN as int, fb, n)[i] == body[fb * i]
        &&& (fb >= 2 ==> u8_column(b, HEADER_LEN + 1, fb, n)[i] == body[fb * i + 1])
        &&& (fb >= 2 ==> i16_column(b, HEADER_LEN as int, fb, n)[i] == i16_at(body, fb * i) as i16)
        &&& (fb == 4 ==> i16_column(b, HEADER_LEN + 2, fb, n)[i] == i16_at(body, fb * i + 2) as i16)
    } by {
        lemma_frame_bound(fb, i, n as int);
    }
    if fb == 1 {
        assert(u8_column(b, HEADER_LEN as int, 1, n) =~= body);
    }
}

/// Appends the two little-endian bytes of `n`.
fn push_sample(out: &mut Vec<u8>, n: i16)
    ensures
        final(out)@ == old(out)@ + i16_le_bytes(n as int),
{
    let b = i16_to_le(n);
    out.push(b[0]);
    out.push(b[1]);
    assert(final(out)@ =~= old(out)@ + i16_le_bytes(n as int));
}

proof fn lemma_i16_samples_bytes_push(s: Seq<i16>, x: i16)
    ensures
        i16_samples_bytes(s.push(x)) == i16_samples_bytes(s) + i16_le_bytes(x as int),
{
    let l = i16_samples_bytes(s.push(x));
    let r = i16_samples_bytes(s) + i16_le_bytes(x as int);
    assert forall|j: int| 0 <= j < l.len() implies l[j] == r[j] by {
        if j < 2 * s.len() {
            assert(j / 2 < s.len());
        } else {
            assert(j / 2 == s.len());
        }
    }
    assert(l =~= r);
}

/// A 16-bit mono WAVE file for `pcm`: the header, then the first `length`
/// samples of `s`, each little-endian.
pub fn wave_write_16bit_mono_safer3(pcm: &MonoPcm<i16>) -> (out: Vec<u8>)
    requires
        header_16bit_fits(pcm.fs, pcm.bits, pcm.length, 1),
        pcm.length <= pcm.s@.len(),
    ensures
        out@ == header_16bit_bytes(pcm) + i16_samples_bytes(pcm.s@.take(pcm.length as int)),
{
    let mut out = wave_write_16bit_header(pcm);
    let ghost hdr = out@;
    let length: usize = pcm.get_length();
    for n in 0..length
        invariant
            length == pcm.length,
            pcm.length <= pcm.s@.len(),
            hdr == header_16bit_bytes(pcm),
            out@ == hdr + i16_samples_bytes(pcm.s@.take(n as int)),
    {
        proof {
            lemma_i16_samples_bytes_push(pcm.s@.take(n as int), pcm.s@[n as int]);
            assert(pcm.s@.take(n as int).push(pcm.s@[n as int]) =~= pcm.s@.take(n + 1));
        }
        push_sample(&mut out, pcm.s[n]);
    }
    out
}

/// A 16-bit stereo WAVE file for `pcm`: the header, then the first `length`
/// samples of each channel, left and right in turn, each little-endian.
pub fn wave_write_16bit_stereo_safer3(pcm: &StereoPcm<i16>) -> (out: Vec<u8>)
    requires
        header_16bit_fits(pcm.fs, pcm.bits, pcm.length, 2),
        pcm.length <= pcm.s_l@.len(),
        pcm.length <= pcm.s_r@.len(),
    ensures
        out@ == header_16bit_bytes(pcm) + i16_samples_bytes(
            interleave(pcm.s_l@.take(pcm.length as int), pcm.s_r@.take(pcm.length as int)),
        ),
{
    let mut out = wave_write_16bit_header(pcm);
    let ghost hdr = out@;
    let length: usize = pcm.length;
    for n in 0..length
        invariant
            length == pcm.length,
            pcm.length <= pcm.s_l@.len(),
            pcm.length <= pcm.s_r@.len(),
            hdr == header_16bit_bytes(pcm),
            out@ == hdr + i16_samples_bytes(
                interleave(pcm.s_l@.take(n as int), pcm.s_r@.take(n as int)),
            ),
    {
        let ghost before = interleave(pcm.s_l@.take(n as int), pcm.s_r@.take(n as int));
        proof {
            let after = interleave(pcm.s_l@.take(n + 1), pcm.s_r@.take(n + 1));
            assert forall|k: int| 0 <= k < after.len() implies after[k] == before.push(
                pcm.s_l@[n as int],
            ).push(pcm.s_r@[n as int])[k] by {
                if k < 2 * n {
                    assert(k / 2 < n);
                } else if k == 2 * n {
                    assert(k / 2 == n && k % 2 == 0);
                } else {
                    assert(k / 2 == n && k % 2 == 1);
                }
            }
            assert(after =~= before.push(pcm.s_l@[n as int]).push(pcm.s_r@[n as int]));
            lemma_i16_samples_bytes_push(before, pcm.s_l@[n as int]);
            lemma_i16_samples_bytes_push(before.push(pcm.s_l@[n as int]), pcm.s_r@[n as int]);
        }
        push_sample(&mut out, pcm.s_l[n]);
        push_sample(&mut out, pcm.s_r[n]);
    }
    out
}

/// Decodes an 8-bit mono WAVE file: the header, then one byte per sample.
/// Succeeds exactly when the bytes hold the header and every sample that its
/// data chunk size announces; samples are returned as stored (unsigned,
/// 128 is silence).
pub fn wave_read_8bit_mono_safer3(bytes: &[u8]) -> (r: Result<MonoPcm<u8>, WaveError>)
    ensures
        r is Ok <==> holds_frames(bytes@, 1),
        r matches Ok(pcm) ==> {
            &&& pcm.fs == read_fs(bytes@)
            &&& pcm.bits == read_bits(bytes@)
            &&& pcm.length == frame_count(bytes@, 1)
            &&& pcm.s@ == u8_column(bytes@, HEADER_LEN as int, 1, pcm.length as nat)
        },
        r matches Err(e) ==> e == WaveError::UnexpectedEof,
{
    let h = match read_header(bytes) {
        Ok(h) => h,
        Err(e) => return Err(e),
    };
    let pcm_length: usize = #[verifier::truncate] (h.data_chunk_size as usize);
    if pcm_length > bytes.len() - HEADER_LEN {
        return Err(WaveError::UnexpectedEof);
    }
    let mut pcm_s: Vec<u8> = Vec::new();
    for n in 0..pcm_length
        invariant
            bytes@.len() <= usize::MAX,
            HEADER_LEN + pcm_length <= bytes@.len(),
            pcm_s@ == u8_column(bytes@, HEADER_LEN as int, 1, n as nat),
    {
        pcm_s.push(bytes[HEADER_LEN + n]);
        assert(pcm_s@ =~= u8_column(bytes@, HEADER_LEN as int, 1, (n + 1) as nat));
    }
    Ok(
        MonoPcm {
            s: pcm_s,
            fs: #[verifier::truncate] (h.samples_per_sec as usize),
            bits: h.bits_per_sample as i32,
            length: pcm_length,
        },
    )
}

/// Decodes an 8-bit stereo WAVE file: the header, then for each frame one
/// byte left and one byte right. Succeeds exactly when the bytes hold the
/// header and every frame that its data chunk size announces (the size
/// halved toward zero); samples are returned as stored.
pub fn wave_read_8bit_stereo_safer3(bytes: &[u8]) -> (r: Result<StereoPcm<u8>, WaveError>)
    ensures
        r is Ok <==> holds_frames(bytes@, 2),
        r matches Ok(pcm) ==> {
            &&& pcm.fs == read_fs(bytes@)
            &&& pcm.bits == read_bits(bytes@)
            &&& pcm.length == frame_count(bytes@, 2)
            &&& pcm.s_l@ == u8_column(bytes@, HEADER_LEN as int, 2, pcm.length as nat)
            &&& pcm.s_r@ == u8_column(bytes@, HEADER_LEN + 1, 2, pcm.length as nat)
        },
        r matches Err(e) ==> e == WaveError::UnexpectedEof,
{
    let h = match read_header(bytes) {
        Ok(h) => h,
        Err(e) => return Err(e),
    };
    let pcm_length: usize = #[verifier::truncate] ((h.data_chunk_size / 2) as usize);
    if pcm_length > (bytes.len() - HEADER_LEN) / 2 {
        return Err(WaveError::UnexpectedEof);
    }
    let mut pcm_s_l: Vec<u8> = Vec::new();
    let mut pcm_s_r: Vec<u8> = Vec::new();
    for n in 0..pcm_length
        invariant
            bytes@.len() <= usize::MAX,
            HEADER_LEN + 2 * pcm_length <= bytes@.len(),
            pcm_s_l@ == u8_column(bytes@, HEADER_LEN as int, 2, n as nat),
            pcm_s_r@ == u8_column(bytes@, HEADER_LEN + 1, 2, n as nat),
    {
        pcm_s_l.push(bytes[HEADER_LEN + 2 * n]);
        pcm_s_r.push(bytes[HEADER_LEN + 2 * n + 1]);
        assert(pcm_s_l@ =~= u8_column(bytes@, HEADER_LEN as int, 2, (n + 1) as nat));
        assert(pcm_s_r@ =~= u8_column(bytes@, HEADER_LEN + 1, 2, (n + 1) as nat));
    }
    Ok(
        StereoPcm {
            s_l: pcm_s_l,
            s_r: pcm_s_r,
            fs: #[verifier::truncate] (h.samples_per_sec as usize),
            bits: h.bits_per_sample as i32,
            length: pcm_length,
        },
    )
}

/// Decodes a 16-bit mono WAVE file: the header, then one little-endian
/// two's-complement sample per frame. Succeeds exactly when the bytes hold
/// the header and every sample that its data chunk size announces (the size
/// halved toward zero).
pub fn wave_read_16bit_mono_safer3(bytes: &[u8]) -> (r: Result<MonoPcm<i16>, WaveError>)
    ensures
        r is Ok <==> holds_frames(bytes@, 2),
        r matches Ok(pcm) ==> {
            &&& pcm.fs == read_fs(bytes@)
            &&& pcm.bits == read_bits(bytes@)
            &&& pcm.length == frame_count(bytes@, 2)
            &&& pcm.s@ == i16_column(bytes@, HEADER_LEN as int, 2, pcm.length as nat)
        },
        r matches Err(e) ==> e == WaveError::UnexpectedEof,
{
    let h = match read_header(bytes) {
        Ok(h) => h,
        Err(e) => return Err(e),
    };
    let pcm_length: usize = #[verifier::truncate] ((h.data_chunk_size / 2) as usize);
    if pcm_length > (bytes.len() - HEADER_LEN) / 2 {
        return Err(WaveError::UnexpectedEof);
    }
    let mut pcm_s: Vec<i16> = Vec::new();
    for n in 0..pcm_length
        invariant
            bytes@.len() <= usize::MAX,
            HEADER_LEN + 2 * pcm_length <= bytes@.len(),
            pcm_s@ == i16_column(bytes@, HEADER_LEN as int, 2, n as nat),
    {
        pcm_s.push(read_i16_le(bytes, HEADER_LEN + 2 * n));
        assert(pcm_s@ =~= i16_column(bytes@, HEADER_LEN as int, 2, (n + 1) as nat));
    }
    Ok(
        MonoPcm {
            s: pcm_s,
            fs: #[verifier::truncate] (h.samples_per_sec as usize),
            bits: h.bits_per_sample as i32,
            length: pcm_length,
        },
    )
}

/// Decodes a 16-bit stereo WAVE file: the header, then for each frame a
/// little-endian two's-complement sample left and one right. Succeeds
/// exactly when the bytes hold the header and every frame that its data
/// chunk size announces (the size divided by four toward zero).
pub fn wave_read_16bit_stereo_safer3(bytes: &[u8]) -> (r: Result<StereoPcm<i16>, WaveError>)
    ensures
        r is Ok <==> holds_frames(bytes@, 4),
        r matches Ok(pcm) ==> {
            &&& pcm.fs == read_fs(bytes@)
            &&& pcm.bits == read_bits(bytes@)
            &&& pcm.length == frame_count(bytes@, 4)
            &&& pcm.s_l@ == i16_column(bytes@, HEADER_LEN as int, 4, pcm.length as nat)
            &&& pcm.s_r@ == i16_column(bytes@, HEADER_LEN + 2, 4, pcm.length as nat)
        },
        r matches Err(e) ==> e == WaveError::UnexpectedEof,
{
    let h = match read_header(bytes) {
        Ok(h) => h,
        Err(e) => return Err(e),
    };
    let pcm_length: usize = #[verifier::truncate] ((h.data_chunk_size / 4) as usize);
    if pcm_length > (bytes.len() - HEADER_LEN) / 4 {
        return Err(WaveError::UnexpectedEof);
    }
    let mut pcm_s_l: Vec<i16> = Vec::new();
    let mut pcm_s_r: Vec<i16> = Vec::new();
    for n in 0..pcm_length
        invariant
            bytes@.len() <= usize::MAX,
            HEADER_LEN + 4 * pcm_length <= bytes@.len(),
            pcm_s_l@ == i16_column(bytes@, HEADER_LEN as int, 4, n as nat),
            pcm_s_r@ == i16_column(bytes@, HEADER_LEN + 2, 4, n as nat),
    {
        pcm_s_l.push(read_i16_le(bytes, HEADER_LEN + 4 * n));
        pcm_s_r.push(read_i16_le(bytes, HEADER_LEN + 4 * n + 2));
        assert(pcm_s_l@ =~= i16_column(bytes@, HEADER_LEN as int, 4, (n + 1) as nat));
        assert(pcm_s_r@ =~= i16_column(bytes@, HEADER_LEN + 2, 4, (n + 1) as nat));
    }
    Ok(
        StereoPcm {
            s_l: pcm_s_l,
            s_r: pcm_s_r,
            fs: #[verifier::truncate] (h.samples_per_sec as usize),
            bits: h.bits_per_sample as i32,
            length: pcm_length,
        },
    )
}

/// The samples of a 16-bit file body read back as the samples written.
#[verifier::spinoff_prover]
proof fn lemma_i16_samples_read_back(hdr: Seq<u8>, s: Seq<i16>)
    requires
        hdr.len() == HEADER_LEN,
    ensures
        i16_column(hdr + i16_samples_bytes(s), HEADER_LEN as int, 2, s.len()) == s,
{
    let b = hdr + i16_samples_bytes(s);
    let sb = i16_samples_bytes(s);
    assert forall|i: int| 0 <= i < s.len() implies i16_at(b, HEADER_LEN + 2 * i) == s[i] by {
        lemma_i16_le_roundtrip(s[i]);
        let e = i16_le_bytes(s[i] as int);
        assert((2 * i) / 2 == i && (2 * i) % 2 == 0);
        assert((2 * i + 1) / 2 == i && (2 * i + 1) % 2 == 1);
        assert(sb[2 * i] == e[0]);
        assert(sb[2 * i + 1] == e[1]);
        assert(b[HEADER_LEN + 2 * i] == sb[2 * i]);
        assert(b[HEADER_LEN + 2 * i + 1] == sb[2 * i + 1]);
        assert(i16_at(b, HEADER_LEN + 2 * i) == le_i16_value(e[0], e[1]));
    }
    assert(i16_column(b, HEADER_LEN as int, 2, s.len()) =~= s);
}

/// Reading back a 16-bit mono file written for a sound gives the sound: its
/// rate, sample width, length and first `length` samples. Holds where the
/// written fields are exact: the rate fits `i32`, the width fits `i16`, and
/// the data size (twice the length) fits `i32`.
pub proof fn lemma_16bit_mono_roundtrip(pcm: MonoPcm<i16>)
    requires
        header_16bit_fits(pcm.fs, pcm.bits, pcm.length, 1),
        pcm.length <= pcm.s@.len(),
        pcm.fs <= i32::MAX,
        in_i16(pcm.bits as int),
        2 * pcm.length <= i32::MAX,
    ensures
        ({
            let b = header_16bit_bytes(&pcm) + i16_samples_bytes(pcm.s@.take(pcm.length as int));
            &&& holds_frames(b, 2)
            &&& read_fs(b) == pcm.fs
            &&& read_bits(b) == pcm.bits
            &&& frame_count(b, 2) == pcm.length
            &&& i16_column(b, HEADER_LEN as int, 2, pcm.length as nat) == pcm.s@.take(
                pcm.length as int,
            )
        }),
{
    let h = header_16bit(pcm.fs, pcm.bits, pcm.length, 1);
    let hb = header_bytes(h);
    let s = pcm.s@.take(pcm.length as int);
    let b = hb + i16_samples_bytes(s);
    lemma_header_roundtrip(h);
    assert(b.take(HEADER_LEN as int) =~= hb.take(HEADER_LEN as int));
    lemma_parse_header_prefix(b, hb);
    lemma_i16_samples_read_back(hb, s);
}

proof fn lemma_stereo_columns(b: Seq<u8>, l: Seq<i16>, r: Seq<i16>)
    requires
        l.len() == r.len(),
        i16_column(b, HEADER_LEN as int, 2, 2 * l.len()) == interleave(l, r),
    ensures
        i16_column(b, HEADER_LEN as int, 4, l.len()) == l,
        i16_column(b, HEADER_LEN + 2, 4, l.len()) == r,
{
    let col = i16_column(b, HEADER_LEN as int, 2, 2 * l.len());
    let t = interleave(l, r);
    assert forall|i: int| 0 <= i < l.len() implies i16_column(b, HEADER_LEN as int, 4, l.len())[i]
        == l[i] && i16_column(b, HEADER_LEN + 2, 4, l.len())[i] == r[i] by {
        assert((2 * i) / 2 == i && (2 * i) % 2 == 0);
        assert((2 * i + 1) / 2 == i && (2 * i + 1) % 2 == 1);
        assert(col[2 * i] == t[2 * i]);
        assert(col[2 * i + 1] == t[2 * i + 1]);
        assert(t[2 * i] == l[i]);
        assert(t[2 * i + 1] == r[i]);
        assert(HEADER_LEN + 2 * (2 * i) == HEADER_LEN + 4 * i);
        assert(HEADER_LEN + 2 * (2 * i + 1) == HEADER_LEN + 2 + 4 * i);
        assert(col[2 * i] == i16_at(b, HEADER_LEN + 4 * i) as i16);
        assert(col[2 * i + 1] == i16_at(b, HEADER_LEN + 2 + 4 * i) as i16);
    }
    assert(i16_column(b, HEADER_LEN as int, 4, l.len()) =~= l);
    assert(i16_column(b, HEADER_LEN + 2, 4, l.len()) =~= r);
}

/// Reading back a 16-bit stereo file written for a sound gives the sound:
/// its rate, sample width, length and first `length` samples of each
/// channel. Holds where the written fields are exact: the rate fits `i32`,
/// the width fits `i16`, and twice the length fits `i32`.
pub proof fn lemma_16bit_stereo_roundtrip(pcm: StereoPcm<i16>)
    requires
        header_16bit_fits(pcm.fs, pcm.bits, pcm.length, 2),
        pcm.length <= pcm.s_l@.len(),
        pcm.length <= pcm.s_r@.len(),
        pcm.fs <= i32::MAX,
        in_i16(pcm.bits as int),
        2 * pcm.length <= i32::MAX,
    ensures
        ({
            let b = header_16bit_bytes(&pcm) + i16_samples_bytes(
                interleave(pcm.s_l@.take(pcm.length as int), pcm.s_r@.take(pcm.length as int)),
            );
            &&& holds_frames(b, 4)
            &&& read_fs(b) == pcm.fs
            &&& read_bits(b) == pcm.bits
            &&& frame_count(b, 4) == pcm.length
            &&& i16_column(b, HEADER_LEN as int, 4, pcm.length as nat) == pcm.s_l@.take(
                pcm.length as int,
            )
            &&& i16_column(b, HEADER_LEN + 2, 4, pcm.length as nat) == pcm.s_r@.take(
                pcm.length as int,
            )
        }),
{
    let h = header_16bit(pcm.fs, pcm.bits, pcm.length, 2);
    let hb = header_bytes(h);
    let l = pcm.s_l@.take(pcm.length as int);
    let r = pcm.s_r@.take(pcm.length as int);
    let t = interleave(l, r);
    let b = hb + i16_samples_bytes(t);
    lemma_header_roundtrip(h);
    assert(b.take(HEADER_LEN as int) =~= hb.take(HEADER_LEN as int));
    lemma_parse_header_prefix(b, hb);
    lemma_i16_samples_read_back(hb, t);
    lemma_stereo_columns(b, l, r);
}

} // verus!
