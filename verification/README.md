# sound_programming

WAVE file handling and small synthesis helpers for sound programming, with
the integer and byte-level logic verified by Verus.

- `src/le_bytes.rs` — little-endian integers in byte strings (through the
  `byteorder` crate) and their encode/decode laws.
- `src/header.rs` — the canonical 44-byte RIFF/WAVE header: reading,
  writing, and the two round-trip laws.
- `src/pcm.rs` — mono and stereo sounds, generic over the sample type, and
  the `Pcm` trait a header is computed from.
- `src/wave.rs` — 8/16-bit mono/stereo decoding, 16-bit encoding, and the
  write-then-read laws.
- `src/synth.rs` — mixing a faded tone into a sound (`sine_wave`) and the
  delay count of an FIR filter (`determine_J`).
- `app/` — files on disk, samples normalized to floating point, and the C
  codecs (IMA ADPCM, mu-law, A-law, 8-bit writer) called through FFI.
