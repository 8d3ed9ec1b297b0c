use sound_programming::pcm::MonoPcm;
use sound_programming::synth::{determine_J, sine_wave};

#[test]
fn determine_j_rounds_up_to_even() {
    assert_eq!(determine_J(1), 0);
    assert_eq!(determine_J(2), 2);
    assert_eq!(determine_J(3), 2);
    assert_eq!(determine_J(4), 4);
    assert_eq!(determine_J(31), 30);
    assert_eq!(determine_J(32), 32);
}

#[test]
fn sine_wave_fades_and_mixes() {
    // Tone sample n is 100 + n; fade step k multiplies by (k + 1) * 10.
    let mut pcm = MonoPcm { s: vec![1i64; 10], fs: 100, bits: 16, length: 10 };
    sine_wave(&mut pcm, 2, 5, 2, |n: usize| 100 + n as i64, |x: i64, k: usize| x * (k as i64 + 1) * 10, |x: i64, y: i64| x + y);
    // tone: 100 101 102 103 104
    // step 0: s[0]*=10, s[4]*=10; step 1: s[1]*=20, s[3]*=20
    assert_eq!(pcm.s, vec![1, 1, 1001, 2021, 103, 2061, 1041, 1, 1, 1]);
    assert_eq!(pcm.fs, 100);
    assert_eq!(pcm.length, 10);
}

#[test]
fn sine_wave_middle_sample_faded_twice() {
    let mut pcm = MonoPcm { s: vec![0i64; 3], fs: 100, bits: 16, length: 3 };
    sine_wave(&mut pcm, 0, 3, 2, |_n: usize| 1i64, |x: i64, k: usize| x * (k as i64 + 2), |x: i64, y: i64| x + y);
    // step 0: s[0]*=2, s[2]*=2; step 1: s[1]*=3 twice
    assert_eq!(pcm.s, vec![2, 9, 2]);
}

#[test]
fn sine_wave_with_floats() {
    let mut pcm = MonoPcm { s: vec![0.5f64; 4], fs: 8000, bits: 16, length: 4 };
    sine_wave(&mut pcm, 1, 2, 0, |n: usize| n as f64, |x: f64, _k: usize| x * 0.0, |x: f64, y: f64| x + y);
    assert_eq!(pcm.s, vec![0.5, 0.5, 1.5, 0.5]);
}
