use sound_programming::header::{encode_header, read_header, WaveError, WaveHeader, HEADER_LEN};
use sound_programming::pcm::{MonoPcm, Pcm, StereoPcm};
use sound_programming::wave::{
    wave_read_16bit_mono_safer3, wave_read_16bit_stereo_safer3, wave_read_8bit_mono_safer3,
    wave_read_8bit_stereo_safer3, wave_write_16bit_header, wave_write_16bit_mono_safer3,
    wave_write_16bit_stereo_safer3,
};

fn tag(s: &[u8; 4]) -> [i8; 4] {
    [s[0] as i8, s[1] as i8, s[2] as i8, s[3] as i8]
}

fn header_with(channel: i16, bits: i16, data_chunk_size: i32) -> Vec<u8> {
    let h = WaveHeader {
        riff_chunk_id: tag(b"RIFF"),
        riff_chunk_size: 36 + data_chunk_size,
        file_format_type: tag(b"WAVE"),
        fmt_chunk_id: tag(b"fmt "),
        fmt_chunk_size: 16,
        wave_format_type: 1,
        channel,
        samples_per_sec: 8000,
        bytes_per_sec: 8000 * channel as i32 * bits as i32 / 8,
        block_size: channel * bits / 8,
        bits_per_sample: bits,
        data_chunk_id: tag(b"data"),
        data_chunk_size,
    };
    encode_header(&h)
}

#[test]
fn header_bytes_are_canonical() {
    let pcm = MonoPcm { s: vec![0i16; 3], fs: 44100, bits: 16, length: 3 };
    let b = wave_write_16bit_header(&pcm);
    let expected: Vec<u8> = vec![
        b'R', b'I', b'F', b'F', 42, 0, 0, 0, b'W', b'A', b'V', b'E', b'f', b'm', b't', b' ', 16, 0,
        0, 0, 1, 0, 1, 0, 0x44, 0xAC, 0, 0, 0x88, 0x58, 0x01, 0, 2, 0, 16, 0, b'd', b'a', b't',
        b'a', 6, 0, 0, 0,
    ];
    assert_eq!(b, expected);
}

#[test]
fn stereo_header_fields() {
    let pcm = StereoPcm { s_l: vec![0i16; 5], s_r: vec![0i16; 5], fs: 48000, bits: 16, length: 5 };
    let b = wave_write_16bit_header(&pcm);
    let h = read_header(&b).unwrap();
    assert_eq!(h.riff_chunk_size, 36 + 5 * 2 * 2);
    assert_eq!(h.channel, 2);
    assert_eq!(h.samples_per_sec, 48000);
    assert_eq!(h.bytes_per_sec, 48000 * 16 / 8 * 2);
    assert_eq!(h.block_size, 4);
    assert_eq!(h.bits_per_sample, 16);
    assert_eq!(h.data_chunk_size, 20);
    assert_eq!(h.riff_chunk_id, tag(b"RIFF"));
    assert_eq!(h.data_chunk_id, tag(b"data"));
}

#[test]
fn header_roundtrip_on_values() {
    let b = header_with(1, 8, -5);
    assert_eq!(b.len(), HEADER_LEN);
    let h = read_header(&b).unwrap();
    assert_eq!(h.data_chunk_size, -5);
    assert_eq!(h.riff_chunk_size, 31);
    assert_eq!(encode_header(&h), b);
}

#[test]
fn header_read_then_write_keeps_bytes() {
    let b: Vec<u8> = (0u8..60).map(|x| x.wrapping_mul(37)).collect();
    let h = read_header(&b).unwrap();
    assert_eq!(encode_header(&h), b[..44].to_vec());
    assert_eq!(h.riff_chunk_id[1], 37i8);
    assert_eq!(h.riff_chunk_id[2], 74i8);
    assert_eq!(h.riff_chunk_id[3], (111u8) as i8);
}

#[test]
fn short_header_is_eof() {
    let b = vec![0u8; 43];
    assert_eq!(read_header(&b).err(), Some(WaveError::UnexpectedEof));
    assert!(wave_read_8bit_mono_safer3(&b).is_err());
    assert!(wave_read_16bit_stereo_safer3(&[]).is_err());
}

#[test]
fn read_8bit_mono() {
    let mut b = header_with(1, 8, 3);
    b.extend_from_slice(&[128, 0, 255, 9]);
    let p = wave_read_8bit_mono_safer3(&b).unwrap();
    assert_eq!(p.s, vec![128, 0, 255]);
    assert_eq!(p.length, 3);
    assert_eq!(p.fs, 8000);
    assert_eq!(p.bits, 8);
}

#[test]
fn read_8bit_mono_missing_samples() {
    let mut b = header_with(1, 8, 5);
    b.extend_from_slice(&[1, 2, 3, 4]);
    assert_eq!(wave_read_8bit_mono_safer3(&b).err(), Some(WaveError::UnexpectedEof));
}

#[test]
fn read_8bit_mono_negative_size() {
    let mut b = header_with(1, 8, -1);
    b.extend_from_slice(&[1, 2, 3, 4]);
    assert!(wave_read_8bit_mono_safer3(&b).is_err());
}

#[test]
fn read_8bit_stereo() {
    let mut b = header_with(2, 8, 5);
    b.extend_from_slice(&[1, 2, 3, 4, 5]);
    let p = wave_read_8bit_stereo_safer3(&b).unwrap();
    assert_eq!(p.length, 2);
    assert_eq!(p.s_l, vec![1, 3]);
    assert_eq!(p.s_r, vec![2, 4]);
}

#[test]
fn read_8bit_stereo_size_minus_one_is_empty() {
    let b = header_with(2, 8, -1);
    let p = wave_read_8bit_stereo_safer3(&b).unwrap();
    assert_eq!(p.length, 0);
    assert!(p.s_l.is_empty() && p.s_r.is_empty());
}

#[test]
fn read_16bit_mono() {
    let mut b = header_with(1, 16, 4);
    b.extend_from_slice(&[0x34, 0x12, 0xFF, 0xFF]);
    let p = wave_read_16bit_mono_safer3(&b).unwrap();
    assert_eq!(p.s, vec![0x1234, -1]);
    assert_eq!(p.length, 2);
    assert_eq!(p.bits, 16);
}

#[test]
fn read_16bit_mono_odd_size() {
    let mut b = header_with(1, 16, 3);
    b.extend_from_slice(&[0x00, 0x80]);
    let p = wave_read_16bit_mono_safer3(&b).unwrap();
    assert_eq!(p.s, vec![i16::MIN]);
}

#[test]
fn read_16bit_mono_eof() {
    let mut b = header_with(1, 16, 6);
    b.extend_from_slice(&[0, 0, 0, 0, 0]);
    assert_eq!(wave_read_16bit_mono_safer3(&b).err(), Some(WaveError::UnexpectedEof));
}

#[test]
fn read_16bit_stereo() {
    let mut b = header_with(2, 16, 8);
    b.extend_from_slice(&[1, 0, 2, 0, 0xFE, 0xFF, 0x00, 0x01]);
    let p = wave_read_16bit_stereo_safer3(&b).unwrap();
    assert_eq!(p.s_l, vec![1, -2]);
    assert_eq!(p.s_r, vec![2, 256]);
}

#[test]
fn write_then_read_16bit_mono() {
    let pcm = MonoPcm { s: vec![0i16, -1, 32767, -32768, 1000], fs: 22050, bits: 16, length: 4 };
    let b = wave_write_16bit_mono_safer3(&pcm);
    assert_eq!(b.len(), 44 + 8);
    assert_eq!(&b[44..], &[0, 0, 0xFF, 0xFF, 0xFF, 0x7F, 0x00, 0x80]);
    let back = wave_read_16bit_mono_safer3(&b).unwrap();
    assert_eq!(back.s, pcm.s[..4].to_vec());
    assert_eq!(back.fs, 22050);
    assert_eq!(back.bits, 16);
    assert_eq!(back.length, 4);
}

#[test]
fn write_then_read_16bit_stereo() {
    let pcm = StereoPcm {
        s_l: vec![10i16, -20, 30],
        s_r: vec![-1i16, 2, -3],
        fs: 8000,
        bits: 16,
        length: 3,
    };
    let b = wave_write_16bit_stereo_safer3(&pcm);
    assert_eq!(b.len(), 44 + 12);
    assert_eq!(&b[44..48], &[10, 0, 0xFF, 0xFF]);
    let back = wave_read_16bit_stereo_safer3(&b).unwrap();
    assert_eq!(back.s_l, pcm.s_l);
    assert_eq!(back.s_r, pcm.s_r);
    assert_eq!(back.length, 3);
    assert_eq!(back.fs, 8000);
}

#[test]
fn pcm_getters() {
    let m = MonoPcm { s: vec![1u8], fs: 11025, bits: 8, length: 1 };
    assert_eq!(m.get_fs(), 11025);
    assert_eq!(m.get_bits(), 8);
    assert_eq!(m.get_length(), 1);
    assert_eq!(m.channel(), 1);
    let s = StereoPcm { s_l: vec![1u8], s_r: vec![2u8], fs: 8000, bits: 16, length: 1 };
    assert_eq!(s.get_fs(), 8000);
    assert_eq!(s.get_bits(), 16);
    assert_eq!(s.get_length(), 1);
    assert_eq!(s.channel(), 2);
}
