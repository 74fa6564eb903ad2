//! The polyphonic audio engine: a collection of time-bounded voices and a
//! clock that counts whole samples. Enqueueing a voice stamps it with an
//! absolute expiry time; each synthesis call reports, for every sample slot
//! of the requested buffer, which voices still contribute, then advances the
//! clock past the buffer and drops every expired voice.
//!
//! Times are measured in samples (`1 / sample_rate` seconds each) and
//! durations in milliseconds, so every comparison the engine makes is exact
//! integer arithmetic.

use vstd::prelude::*;
use vstd::arithmetic::mul::lemma_mul_upper_bound;

verus! {

/// The closed set of waveforms a voice can produce.
#[derive(Copy, Clone, Debug, PartialEq, Eq, Structural)]
pub enum VoiceKind {
    Sin,
    Square,
    Noise,
}

/// One active sound instance: what it sounds like, how loud, and the sample
/// time at which it expires. Volume is in hundredths of full scale.
#[derive(Copy, Clone, Debug, PartialEq, Eq, Structural)]
pub struct Voice {
    pub kind: VoiceKind,
    pub volume: u8,
    pub end_sample: u64,
}

/// How many samples a duration of `duration_ms` milliseconds spans at
/// `sample_rate` samples per second, truncating.
pub open spec fn duration_samples(sample_rate: u32, duration_ms: u32) -> int {
    (duration_ms * sample_rate) / 1000
}

/// Absolute expiry of a voice enqueued at `clock` for `duration_ms`
/// milliseconds: the enqueue time plus the duration, saturating.
pub open spec fn expiry(clock: u64, sample_rate: u32, duration_ms: u32) -> u64 {
    if clock + duration_samples(sample_rate, duration_ms) > u64::MAX {
        u64::MAX
    } else {
        (clock + duration_samples(sample_rate, duration_ms)) as u64
    }
}

/// Whether a voice still contributes at sample time `s`: it does until the
/// sample time reaches its expiry.
pub open spec fn voice_active_at(v: Voice, s: int) -> bool {
    v.end_sample > s
}

/// The contribution predicate at sample time `s`, as a closure for the
/// queue filters below.
pub open spec fn active_pred(s: int) -> spec_fn(Voice) -> bool {
    |v: Voice| v.end_sample > s
}

/// The voices of `voices`, in order, that still contribute at sample time
/// `s`.
pub open spec fn active_set(voices: Seq<Voice>, s: int) -> Seq<Voice> {
    voices.filter(active_pred(s))
}

/// The audio engine: sample rate, persistent clock in samples, and the
/// queue of voices in enqueue order.
pub struct Audio {
    pub sample_rate: u32,
    pub current_sample: u64,
    pub voices: Vec<Voice>,
}

impl Audio {
    /// A fresh engine: clock at zero, no voices.
    pub fn new(sample_rate: u32) -> (a: Audio)
        requires
            sample_rate >= 1,
        ensures
            a.sample_rate == sample_rate,
            a.current_sample == 0,
            a.voices@ =~= Seq::<Voice>::empty(),
    {
        Audio { sample_rate, current_sample: 0, voices: Vec::new() }
    }

    /// Enqueue a voice for the next `duration_ms` milliseconds: it expires at
    /// the current clock plus the duration, and joins the end of the queue.
    pub fn play(&mut self, duration_ms: u32, volume: u8, kind: VoiceKind)
        ensures
            final(self).voices@ == old(self).voices@.push(
                Voice {
                    kind,
                    volume,
                    end_sample: expiry(old(self).current_sample, old(self).sample_rate, duration_ms),
                },
            ),
            final(self).current_sample == old(self).current_sample,
            final(self).sample_rate == old(self).sample_rate,
    {
        proof {
            lemma_mul_upper_bound(
                duration_ms as int,
                u32::MAX as int,
                self.sample_rate as int,
                u32::MAX as int,
            );
        }
        let d: u64 = (duration_ms as u64) * (self.sample_rate as u64) / 1000;
        let end_sample: u64 = self.current_sample.saturating_add(d);
        self.voices.push(Voice { kind, volume, end_sample });
    }

    /// The voices of `voices`, in order, whose expiry lies after sample time
    /// `t`.
    fn voices_active_at(voices: &Vec<Voice>, t: u64) -> (r: Vec<Voice>)
        ensures
            r@ == active_set(voices@, t as int),
    {
        let mut r: Vec<Voice> = Vec::new();
        let mut j: usize = 0;
        while j < voices.len()
            invariant
                j <= voices.len(),
                r@ == active_set(voices@.take(j as int), t as int),
            decreases voices.len() - j,
        {
            let v = voices[j];
            proof {
                assert(voices@.take(j + 1) =~= voices@.take(j as int).push(voices@[j as int]));
                voices@.take(j as int).lemma_filter_push(voices@[j as int], active_pred(t as int));
            }
            if v.end_sample > t {
                r.push(v);
            }
            j += 1;
        }
        proof {
            assert(voices@.take(voices@.len() as int) =~= voices@);
        }
        r
    }

    /// One synthesis pass over a buffer of `n` sample slots, the first slot
    /// at absolute sample time `samples_played`. Returns, per slot in order,
    /// the voices that contribute at that slot's time. Afterwards the clock
    /// stands just past the buffer and every voice expired by then is gone.
    pub fn synthesize(&mut self, samples_played: u64, n: usize) -> (plan: Vec<Vec<Voice>>)
        requires
            samples_played + n <= u64::MAX,
        ensures
            plan@.len() == n,
            forall|i: int|
                0 <= i < n ==> #[trigger] plan@[i]@ == active_set(
                    old(self).voices@,
                    samples_played + i,
                ),
            final(self).current_sample == samples_played + n,
            final(self).voices@ == active_set(old(self).voices@, samples_played + n),
            final(self).sample_rate == old(self).sample_rate,
    {
        let ghost voices0 = self.voices@;
        let mut plan: Vec<Vec<Voice>> = Vec::new();
        let mut i: usize = 0;
        while i < n
            invariant
                i <= n,
                samples_played + n <= u64::MAX,
                self == old(self),
                plan@.len() == i,
                forall|k: int|
                    0 <= k < i ==> #[trigger] plan@[k]@ == active_set(
                        old(self).voices@,
                        samples_played + k,
                    ),
            decreases n - i,
        {
            let slot = Self::voices_active_at(&self.voices, samples_played + i as u64);
            plan.push(slot);
            i += 1;
        }
        self.current_sample = samples_played + n as u64;
        let kept = Self::voices_active_at(&self.voices, self.current_sample);
        self.voices = kept;
        plan
    }
}

/// A voice that stands in the queue contributes at exactly the sample times
/// before its expiry: the per-slot contribution set contains it while the
/// slot time is below its expiry, and never from its expiry onward.
pub proof fn lemma_voice_contribution_window(voices: Seq<Voice>, i: int, s: int)
    requires
        0 <= i < voices.len(),
    ensures
        voice_active_at(voices[i], s) ==> active_set(voices, s).contains(voices[i]),
        !voice_active_at(voices[i], s) ==> !active_set(voices, s).contains(voices[i]),
{
    let pred = active_pred(s);
    if pred(voices[i]) {
        voices.lemma_filter_contains(pred, i);
    } else {
        if active_set(voices, s).contains(voices[i]) {
            let j = choose|j: int|
                0 <= j < active_set(voices, s).len() && active_set(voices, s)[j] == voices[i];
            voices.lemma_filter_pred(pred, j);
        }
    }
}

/// A voice enqueued at clock `t` with an unsaturated duration of `d` samples
/// is present in the contribution set of every sample time in `[t, t + d)`
/// and absent from `t + d` onward.
pub proof fn lemma_enqueued_voice_window(
    pre_voices: Seq<Voice>,
    v: Voice,
    t: u64,
    d: int,
    s: int,
)
    requires
        0 <= d,
        t + d <= u64::MAX,
        v.end_sample == t + d,
    ensures
        t <= s < t + d ==> active_set(pre_voices.push(v), s).contains(v),
        s >= t + d ==> !active_set(pre_voices.push(v), s).contains(v),
{
    let voices = pre_voices.push(v);
    lemma_voice_contribution_window(voices, voices.len() - 1, s);
}

} // verus!
