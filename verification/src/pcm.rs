//! Sampled sound held in memory, generic over the type of one sample.

use vstd::prelude::*;

verus! {

/// One channel of sampled sound: `length` samples of `s` at `fs` samples per
/// second, quantized with `bits` bits when stored.
pub struct MonoPcm<S> {
    pub s: Vec<S>,
    pub fs: usize,
    pub bits: i32,
    pub length: usize,
}

/// Two channels of sampled sound: `length` samples each of `s_l` (left) and
/// `s_r` (right) at `fs` samples per second, `bits` bits per stored sample.
pub struct StereoPcm<S> {
    pub s_l: Vec<S>,
    pub s_r: Vec<S>,
    pub fs: usize,
    pub bits: i32,
    pub length: usize,
}

/// What a WAVE header needs to know of a sound: rate, sample width, number of
/// samples per channel, and number of channels.
pub trait Pcm {
    /// Number of interleaved channels.
    spec fn channel_count() -> i32;

    spec fn fs_of(&self) -> usize;

    spec fn bits_of(&self) -> i32;

    spec fn length_of(&self) -> usize;

    fn get_fs(&self) -> (r: usize)
        ensures
            r == self.fs_of(),
    ;

    fn get_bits(&self) -> (r: i32)
        ensures
            r == self.bits_of(),
    ;

    fn get_length(&self) -> (r: usize)
        ensures
            r == self.length_of(),
    ;

    /// Number of interleaved channels.
    fn channel(&self) -> (r: i32)
        ensures
            r == Self::channel_count(),
    ;
}

impl<S> Pcm for MonoPcm<S> {
    open spec fn channel_count() -> i32 {
        1
    }

    open spec fn fs_of(&self) -> usize {
        self.fs
    }

    open spec fn bits_of(&self) -> i32 {
        self.bits
    }

    open spec fn length_of(&self) -> usize {
        self.length
    }

    fn get_fs(&self) -> (r: usize) {
        self.fs
    }

    fn get_bits(&self) -> (r: i32) {
        self.bits
    }

    fn get_length(&self) -> (r: usize) {
        self.length
    }

    fn channel(&self) -> (r: i32) {
        1
    }
}

impl<S> Pcm for StereoPcm<S> {
    open spec fn channel_count() -> i32 {
        2
    }

    open spec fn fs_of(&self) -> usize {
        self.fs
    }

    open spec fn bits_of(&self) -> i32 {
        self.bits
    }

    open spec fn length_of(&self) -> usize {
        self.length
    }

    fn get_fs(&self) -> (r: usize) {
        self.fs
    }

    fn get_bits(&self) -> (r: i32) {
        self.bits
    }

    fn get_length(&self) -> (r: usize) {
        self.length
    }

    fn channel(&self) -> (r: i32) {
        2
    }
}

} // verus!
