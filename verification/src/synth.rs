//! Synthesis helpers: mixing a faded tone into a sound, and choosing the
//! number of delay elements of a filter.
//!
//! The sample arithmetic (the tone itself, the fade gains, the addition) is
//! supplied by the caller as functions; this module decides which samples
//! are produced, faded, and mixed, and in which order.

use crate::pcm::MonoPcm;
use vstd::prelude::*;

verus! {

/// The fade steps that reach sample `k` of a tone of `duration` samples
/// during the first `steps_done` steps of the fade, in the order applied.
/// Step `n` scales sample `n` (fade-in) and then sample `duration - 1 - n`
/// (fade-out), both by the gain of step `n`.
pub open spec fn fade_steps(duration: nat, steps_done: nat, k: nat) -> Seq<usize> {
    let t = duration - 1 - k;
    let head = k < steps_done;
    let tail = t < steps_done;
    if head && tail {
        if k <= t {
            seq![k as usize, t as usize]
        } else {
            seq![t as usize, k as usize]
        }
    } else if head {
        seq![k as usize]
    } else if tail {
        seq![t as usize]
    } else {
        seq![]
    }
}

/// `y` is a possible result of scaling `x` by the gains of `steps`, one after
/// the other, with `fade`.
pub open spec fn faded<S, FF: Fn(S, usize) -> S>(fade: FF, x: S, steps: Seq<usize>, y: S) -> bool
    decreases steps.len(),
{
    if steps.len() == 0 {
        y == x
    } else {
        exists|m: S|
            #![trigger call_ensures(fade, (m, steps.last()), y)]
            faded(fade, x, steps.drop_last(), m) && call_ensures(fade, (m, steps.last()), y)
    }
}

/// `y` is a possible result of mixing into `old` sample `k` of the tone,
/// faded over `fade_len` steps at both ends of its `duration` samples.
pub open spec fn tone_mixed<S, FT: Fn(usize) -> S, FF: Fn(S, usize) -> S, FM: Fn(S, S) -> S>(
    tone: FT,
    fade: FF,
    mix: FM,
    old: S,
    k: nat,
    duration: nat,
    fade_len: nat,
    y: S,
) -> bool {
    exists|t: S, v: S|
        #![trigger call_ensures(tone, (k as usize,), t), call_ensures(mix, (old, v), y)]
        call_ensures(tone, (k as usize,), t) && faded(fade, t, fade_steps(duration, fade_len, k), v)
            && call_ensures(mix, (old, v), y)
}

proof fn lemma_faded_push<S, FF: Fn(S, usize) -> S>(
    fade: FF,
    x: S,
    steps: Seq<usize>,
    m: S,
    n: usize,
    y: S,
)
    requires
        faded(fade, x, steps, m),
        call_ensures(fade, (m, n), y),
    ensures
        faded(fade, x, steps.push(n), y),
{
    assert(steps.push(n).drop_last() =~= steps);
    assert(steps.push(n).last() == n);
    assert(faded(fade, x, steps.push(n).drop_last(), m));
}

proof fn lemma_fade_steps_next(duration: nat, n: nat, k: nat)
    requires
        n < duration,
        k < duration,
    ensures
        fade_steps(duration, n + 1, k) == (if k == n && k == duration - 1 - n {
            fade_steps(duration, n, k).push(n as usize).push(n as usize)
        } else if k == n || k == duration - 1 - n {
            fade_steps(duration, n, k).push(n as usize)
        } else {
            fade_steps(duration, n, k)
        }),
{
    let p = duration - 1 - n;
    if k == n && k == p {
        assert(fade_steps(duration, n + 1, k) =~= fade_steps(duration, n, k).push(n as usize).push(
            n as usize,
        ));
    } else if k == n || k == p {
        assert(fade_steps(duration, n + 1, k) =~= fade_steps(duration, n, k).push(n as usize));
    }
}

/// Mixes a tone of `duration` samples into `pcm.s` from `offset` on. The tone
/// is made first (`tone(n)` for each sample `n`); then, for each step `n`
/// below `fade_len`, sample `n` and then sample `duration - 1 - n` are scaled
/// by `fade(_, n)`; then each sample is added with `mix(pcm.s[offset + n], _)`.
/// Samples of `pcm` outside the tone, and its other fields, are unchanged.
pub fn sine_wave<S: Copy, FT: Fn(usize) -> S, FF: Fn(S, usize) -> S, FM: Fn(S, S) -> S>(
    pcm: &mut MonoPcm<S>,
    offset: usize,
    duration: usize,
    fade_len: usize,
    tone: FT,
    fade: FF,
    mix: FM,
)
    requires
        fade_len <= duration,
        offset + duration <= old(pcm).s@.len(),
        forall|n: usize| call_requires(tone, (n,)),
        forall|x: S, n: usize| call_requires(fade, (x, n)),
        forall|x: S, y: S| call_requires(mix, (x, y)),
    ensures
        final(pcm).fs == old(pcm).fs,
        final(pcm).bits == old(pcm).bits,
        final(pcm).length == old(pcm).length,
        final(pcm).s@.len() == old(pcm).s@.len(),
        forall|i: int|
            0 <= i < old(pcm).s@.len() && !(offset <= i < offset + duration) ==> final(pcm).s@[i]
                == old(pcm).s@[i],
        forall|k: int|
            0 <= k < duration ==> tone_mixed(
                tone,
                fade,
                mix,
                old(pcm).s@[offset + k],
                k as nat,
                duration as nat,
                fade_len as nat,
                #[trigger] final(pcm).s@[offset + k],
            ),
{
    let mut s: Vec<S> = Vec::new();
    for n in 0..duration
        invariant
            forall|m: usize| call_requires(tone, (m,)),
            s@.len() == n,
            forall|k: int| 0 <= k < n ==> call_ensures(tone, (k as usize,), #[trigger] s@[k]),
    {
        s.push(tone(n));
    }
    let ghost tones = s@;
    for n in 0..fade_len
        invariant
            fade_len <= duration,
            forall|x: S, m: usize| call_requires(fade, (x, m)),
            s@.len() == duration,
            tones.len() == duration,
            forall|k: int|
                0 <= k < duration ==> faded(
                    fade,
                    tones[k],
                    fade_steps(duration as nat, n as nat, k as nat),
                    #[trigger] s@[k],
                ),
    {
        let ghost before = s@;
        let p: usize = duration - n - 1;
        let a = fade(s[n], n);
        proof {
            lemma_faded_push(
                fade,
                tones[n as int],
                fade_steps(duration as nat, n as nat, n as nat),
                before[n as int],
                n,
                a,
            );
        }
        s.set(n, a);
        let ghost mid = s@;
        let b = fade(s[p], n);
        proof {
            if p == n {
                lemma_faded_push(
                    fade,
                    tones[n as int],
                    fade_steps(duration as nat, n as nat, n as nat).push(n),
                    a,
                    n,
                    b,
                );
            } else {
                lemma_faded_push(
                    fade,
                    tones[p as int],
                    fade_steps(duration as nat, n as nat, p as nat),
                    before[p as int],
                    n,
                    b,
                );
            }
        }
        s.set(p, b);
        proof {
            assert forall|k: int| 0 <= k < duration implies faded(
                fade,
                tones[k],
                fade_steps(duration as nat, (n + 1) as nat, k as nat),
                #[trigger] s@[k],
            ) by {
                lemma_fade_steps_next(duration as nat, n as nat, k as nat);
                if k != n && k != p {
                    assert(s@[k] == before[k]);
                }
            }
        }
    }
    let ghost old_s = pcm.s@;
    let pcm_len: usize = pcm.s.len();
    for n in 0..duration
        invariant
            pcm.fs == old(pcm).fs,
            pcm.bits == old(pcm).bits,
            pcm.length == old(pcm).length,
            pcm_len == old_s.len(),
            offset + duration <= old_s.len(),
            forall|x: S, y: S| call_requires(mix, (x, y)),
            s@.len() == duration,
            pcm.s@.len() == old_s.len(),
            forall|k: int|
                0 <= k < duration ==> call_ensures(tone, (k as usize,), #[trigger] tones[k]),
            forall|k: int|
                0 <= k < duration ==> faded(
                    fade,
                    tones[k],
                    fade_steps(duration as nat, fade_len as nat, k as nat),
                    #[trigger] s@[k],
                ),
            forall|i: int|
                0 <= i < old_s.len() && !(offset <= i < offset + n) ==> pcm.s@[i] == old_s[i],
            forall|k: int|
                0 <= k < n ==> call_ensures(mix, (old_s[offset + k], s@[k]), #[trigger] pcm.s@[
                    offset + k
                ]),
    {
        let v = mix(pcm.s[offset + n], s[n]);
        pcm.s.set(offset + n, v);
    }
    proof {
        assert forall|k: int| 0 <= k < duration implies tone_mixed(
            tone,
            fade,
            mix,
            old_s[offset + k],
            k as nat,
            duration as nat,
            fade_len as nat,
            #[trigger] pcm.s@[offset + k],
        ) by {
            assert(call_ensures(tone, (k as usize,), tones[k]));
            assert(faded(
                fade,
                tones[k],
                fade_steps(duration as nat, fade_len as nat, k as nat),
                s@[k],
            ));
            assert(call_ensures(mix, (old_s[offset + k], s@[k]), pcm.s@[offset + k]));
        }
    }
}

/// The number of delay elements `J` of an FIR filter: one less than the
/// rounded tap count `rounded` (the nearest integer to `3.1 / delta` for a
/// transition width `delta`), raised to the next even number so that
/// `J + 1` is odd.
#[allow(non_snake_case)]
pub fn determine_J(rounded: usize) -> (j: usize)
    requires
        rounded >= 1,
    ensures
        j == (if (rounded - 1) % 2 == 1 {
            rounded as int
        } else {
            rounded - 1
        }),
        j % 2 == 0,
        rounded - 1 <= j <= rounded,
{
    let mut J: usize = rounded - 1;
    if J % 2 == 1 {
        J += 1;
    }
    return J;
}

} // verus!
