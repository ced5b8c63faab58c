//! The delay engine: parameters, the delay line, the write cursor, and the
//! per-sample multi-tap algorithm.
//!
//! Per processed sample, with parameters fixed for the block: the stereo
//! input is folded to mono; every tap reads the delay line at its staggered
//! offset behind the write cursor and its output, weighted by the tap's
//! gain, joins the wet sum; each tap's raw output is recorded in its capture
//! ring; the mono input plus the *last* tap's output scaled by the feedback
//! amount — only the last tap recirculates, an intentional asymmetry that
//! keeps the feedback path a single delay length per cycle — is written at
//! the cursor; each channel's output blends its dry input with the mono wet
//! sum by the mix amount; and both cursors advance, wrapping at their
//! capacities.

use vstd::prelude::*;

use vstd::arithmetic::div_mod::lemma_small_mod;

use crate::fixed::milli_scale;
use crate::fixed::sat_i32;
use crate::fixed::sat32;
use crate::fixed::scale_milli;
use crate::ring::CircularSampleBuffer;
use crate::taps::gain_milli;
use crate::taps::lemma_tap_delay_range;
use crate::taps::tap_delay;
use crate::taps::tap_delay_samples;
use crate::taps::tap_gain_milli;
use crate::waveform::ring_slot;
use crate::waveform::WaveformCapture;
use crate::MAX_DELAY_SAMPLES;
use crate::MAX_VOICES;
use crate::WAVEFORM_BUFFER_SIZE;

verus! {

/// The observable state the per-sample step acts on: the delay line, the
/// capture rings, and their two cursors.
#[verifier::ext_equal]
pub ghost struct EngineState {
    pub buffer: Seq<i32>,
    pub write_position: int,
    pub waveforms: Seq<i32>,
    pub waveform_index: int,
}

/// Shapes and cursor ranges of a well-formed engine state.
pub open spec fn state_wf(s: EngineState) -> bool {
    &&& s.buffer.len() == MAX_DELAY_SAMPLES
    &&& 0 <= s.write_position < MAX_DELAY_SAMPLES
    &&& s.waveforms.len() == MAX_VOICES * WAVEFORM_BUFFER_SIZE
    &&& 0 <= s.waveform_index < WAVEFORM_BUFFER_SIZE
}

/// A state whose delay line and capture rings hold only zeros.
pub open spec fn silent_state(s: EngineState) -> bool {
    &&& forall|i: int| 0 <= i < s.buffer.len() ==> s.buffer[i] == 0i32
    &&& forall|i: int| 0 <= i < s.waveforms.len() ==> s.waveforms[i] == 0i32
}

/// The base delay in samples: the delay time applied to the sample rate,
/// rounded to the nearest sample and clamped so that even the furthest tap
/// stays inside the buffer.
pub open spec fn base_delay_spec(delay_time_ms: int, sample_rate: int) -> int {
    let rounded = (delay_time_ms * sample_rate + 500) / 1000;
    let cap = (MAX_DELAY_SAMPLES / MAX_VOICES - 1) as int;
    if rounded < 1 {
        1
    } else if rounded > cap {
        cap
    } else {
        rounded
    }
}

/// Where a tap `delay` samples behind write cursor `wp` reads, with a single
/// wrap: the delay never exceeds the capacity, so one wrap suffices.
pub open spec fn read_position(wp: int, delay: int) -> int {
    if wp >= delay {
        wp - delay
    } else {
        wp + MAX_DELAY_SAMPLES - delay
    }
}

/// The raw (pre-gain) output of tap `i`: the sample its staggered delay
/// reaches behind the write cursor.
pub open spec fn tap_output(buf: Seq<i32>, wp: int, v: nat, base: nat, i: nat) -> int {
    buf[read_position(wp, tap_delay(i, v, base))] as int
}

/// The wet sum over the first `t` taps: each tap's output scaled by its
/// normalized gain.
pub open spec fn wet_sum(buf: Seq<i32>, wp: int, v: nat, base: nat, t: nat) -> int
    decreases t,
{
    if t == 0 {
        0
    } else {
        wet_sum(buf, wp, v, base, (t - 1) as nat) + milli_scale(
            tap_output(buf, wp, v, base, (t - 1) as nat),
            gain_milli((t - 1) as nat, v),
        )
    }
}

/// One output sample: the dry input and the wet sum blended by the mix
/// amount, saturated to the sample range.
pub open spec fn mixed_sample(dry: int, wet: int, mix: int) -> int {
    sat_i32(milli_scale(dry, 1000 - mix) + milli_scale(wet, mix))
}

/// The capture rings after the first `t` taps have recorded their raw
/// outputs at the shared cursor.
pub open spec fn record_taps(
    wf: Seq<i32>,
    wi: int,
    buf: Seq<i32>,
    wp: int,
    v: nat,
    base: nat,
    t: nat,
) -> Seq<i32>
    decreases t,
{
    if t == 0 {
        wf
    } else {
        record_taps(wf, wi, buf, wp, v, base, (t - 1) as nat).update(
            ring_slot(t - 1, wi),
            tap_output(buf, wp, v, base, (t - 1) as nat) as i32,
        )
    }
}

/// The state after processing one stereo sample `(l, r)`.
pub open spec fn step_state(
    s: EngineState,
    feedback: int,
    v: nat,
    base: nat,
    l: int,
    r: int,
) -> EngineState {
    let mono = milli_scale(l + r, 500);
    let last = tap_output(s.buffer, s.write_position, v, base, (v - 1) as nat);
    let written = sat_i32(mono + milli_scale(last, feedback));
    EngineState {
        buffer: s.buffer.update(s.write_position, written as i32),
        write_position: (s.write_position + 1) % (MAX_DELAY_SAMPLES as int),
        waveforms: record_taps(s.waveforms, s.waveform_index, s.buffer, s.write_position, v, base, v),
        waveform_index: (s.waveform_index + 1) % (WAVEFORM_BUFFER_SIZE as int),
    }
}

/// The state after processing the first `n` stereo samples of a block.
pub open spec fn run_state(
    s: EngineState,
    feedback: int,
    v: nat,
    base: nat,
    ls: Seq<i32>,
    rs: Seq<i32>,
    n: nat,
) -> EngineState
    decreases n,
{
    if n == 0 {
        s
    } else {
        step_state(
            run_state(s, feedback, v, base, ls, rs, (n - 1) as nat),
            feedback,
            v,
            base,
            ls[n - 1] as int,
            rs[n - 1] as int,
        )
    }
}

/// The wet sum the engine mixes into output sample `i` of a block.
pub open spec fn wet_at(
    s0: EngineState,
    feedback: int,
    v: nat,
    base: nat,
    ls: Seq<i32>,
    rs: Seq<i32>,
    i: nat,
) -> int {
    let s = run_state(s0, feedback, v, base, ls, rs, i);
    wet_sum(s.buffer, s.write_position, v, base, v)
}

/// Left output sample `i` of a block started in state `s0`.
pub open spec fn left_out_at(
    s0: EngineState,
    feedback: int,
    mix: int,
    v: nat,
    base: nat,
    ls: Seq<i32>,
    rs: Seq<i32>,
    i: nat,
) -> int {
    mixed_sample(ls[i as int] as int, wet_at(s0, feedback, v, base, ls, rs, i), mix)
}

/// Right output sample `i` of a block started in state `s0`.
pub open spec fn right_out_at(
    s0: EngineState,
    feedback: int,
    mix: int,
    v: nat,
    base: nat,
    ls: Seq<i32>,
    rs: Seq<i32>,
    i: nat,
) -> int {
    mixed_sample(rs[i as int] as int, wet_at(s0, feedback, v, base, ls, rs, i), mix)
}

/// How many samples a block call processes: the shortest of the four
/// buffers, a defensive truncation instead of an error.
pub open spec fn block_len(a: nat, b: nat, c: nat, d: nat) -> nat {
    let x = if a <= b {
        a
    } else {
        b
    };
    let y = if c <= d {
        c
    } else {
        d
    };
    if x <= y {
        x
    } else {
        y
    }
}

/// A multi-tap stereo delay with feedback, wet/dry mix, and per-voice
/// waveform capture. One instance per effect channel strip; all values in
/// milliunits.
pub struct DelayProcessor {
    pub delay_buffer: CircularSampleBuffer,
    pub write_position: usize,
    pub sample_rate: u32,
    pub delay_time_ms: u32,
    pub feedback: u32,
    pub mix: u32,
    pub voices: usize,
    pub capture: WaveformCapture,
}

impl DelayProcessor {
    /// Parameter invariants: the clamped ranges the setters maintain, the
    /// cursor inside the buffer, and well-formed buffers.
    pub open spec fn inv(&self) -> bool {
        &&& self.delay_buffer.inv()
        &&& self.capture.inv()
        &&& self.write_position < MAX_DELAY_SAMPLES
        &&& self.delay_time_ms <= 2000
        &&& self.feedback <= 1000
        &&& self.mix <= 1000
        &&& 1 <= self.voices <= MAX_VOICES
    }

    /// The sample-and-cursor state the block step acts on.
    pub open spec fn state(&self) -> EngineState {
        EngineState {
            buffer: self.delay_buffer@,
            write_position: self.write_position as int,
            waveforms: self.capture@,
            waveform_index: self.capture.write_index as int,
        }
    }

    /// The base delay the current parameters yield.
    pub open spec fn base_delay(&self) -> int {
        base_delay_spec(self.delay_time_ms as int, self.sample_rate as int)
    }

    /// A fresh engine: delay 300 ms, feedback 0.3, mix 0.5, one voice, and
    /// completely silent internal state.
    pub fn new(sample_rate: u32) -> (p: Self)
        ensures
            p.inv(),
            p.sample_rate == sample_rate,
            p.delay_time_ms == 300,
            p.feedback == 300,
            p.mix == 500,
            p.voices == 1,
            p.write_position == 0,
            p.capture.write_index == 0,
            silent_state(p.state()),
    {
        DelayProcessor {
            delay_buffer: CircularSampleBuffer::new(),
            write_position: 0,
            sample_rate,
            delay_time_ms: 300,
            feedback: 300,
            mix: 500,
            voices: 1,
            capture: WaveformCapture::new(),
        }
    }

    /// Stores the sample rate verbatim; the buffer contents are not
    /// resampled.
    pub fn set_sample_rate(&mut self, sample_rate: u32)
        requires
            old(self).inv(),
        ensures
            final(self).inv(),
            final(self).sample_rate == sample_rate,
            *final(self) == (DelayProcessor { sample_rate, ..*old(self) }),
    {
        self.sample_rate = sample_rate;
    }

    /// Sets the delay time, clamped to 0 ..= 2000 ms.
    pub fn set_delay_time(&mut self, ms: i64)
        requires
            old(self).inv(),
        ensures
            final(self).inv(),
            final(self).delay_time_ms == if ms < 0 {
                0int
            } else if ms > 2000 {
                2000int
            } else {
                ms as int
            },
            *final(self) == (DelayProcessor {
                delay_time_ms: final(self).delay_time_ms,
                ..*old(self)
            }),
    {
        self.delay_time_ms = if ms < 0 {
            0
        } else if ms > 2000 {
            2000
        } else {
            ms as u32
        };
    }

    /// Sets the feedback amount in milliunits, clamped to 0 ..= 1000.
    pub fn set_feedback(&mut self, value: i64)
        requires
            old(self).inv(),
        ensures
            final(self).inv(),
            final(self).feedback == if value < 0 {
                0int
            } else if value > 1000 {
                1000int
            } else {
                value as int
            },
            *final(self) == (DelayProcessor { feedback: final(self).feedback, ..*old(self) }),
    {
        self.feedback = if value < 0 {
            0
        } else if value > 1000 {
            1000
        } else {
            value as u32
        };
    }

    /// Sets the wet/dry mix in milliunits, clamped to 0 ..= 1000.
    pub fn set_mix(&mut self, value: i64)
        requires
            old(self).inv(),
        ensures
            final(self).inv(),
            final(self).mix == if value < 0 {
                0int
            } else if value > 1000 {
                1000int
            } else {
                value as int
            },
            *final(self) == (DelayProcessor { mix: final(self).mix, ..*old(self) }),
    {
        self.mix = if value < 0 {
            0
        } else if value > 1000 {
            1000
        } else {
            value as u32
        };
    }

    /// Sets the voice count, clamped to 1 ..= 16.
    pub fn set_voices(&mut self, value: usize)
        requires
            old(self).inv(),
        ensures
            final(self).inv(),
            final(self).voices == if value < 1 {
                1int
            } else if value > MAX_VOICES {
                MAX_VOICES as int
            } else {
                value as int
            },
            *final(self) == (DelayProcessor { voices: final(self).voices, ..*old(self) }),
    {
        self.voices = if value < 1 {
            1
        } else if value > MAX_VOICES {
            MAX_VOICES
        } else {
            value
        };
    }

    pub fn get_delay_time(&self) -> (v: u32)
        ensures
            v == self.delay_time_ms,
    {
        self.delay_time_ms
    }

    pub fn get_feedback(&self) -> (v: u32)
        ensures
            v == self.feedback,
    {
        self.feedback
    }

    pub fn get_mix(&self) -> (v: u32)
        ensures
            v == self.mix,
    {
        self.mix
    }

    pub fn get_voices(&self) -> (v: usize)
        ensures
            v == self.voices,
    {
        self.voices
    }

    /// The normalized gain of one tap at the current voice count, in
    /// milliunits.
    pub fn calculate_tap_gain(&self, tap_index: usize) -> (g: u64)
        requires
            self.inv(),
            tap_index < self.voices,
        ensures
            g == gain_milli(tap_index as nat, self.voices as nat),
            g <= 1000,
    {
        tap_gain_milli(tap_index, self.voices)
    }

    /// The staggered delay of one tap at the current voice count, in
    /// samples.
    pub fn calculate_tap_delay(&self, tap_index: usize, base_delay_samples: usize) -> (d: usize)
        requires
            self.inv(),
            tap_index < self.voices,
            1 <= base_delay_samples < MAX_DELAY_SAMPLES / MAX_VOICES,
        ensures
            d == tap_delay(tap_index as nat, self.voices as nat, base_delay_samples as nat),
            1 <= d < MAX_DELAY_SAMPLES,
    {
        tap_delay_samples(tap_index, self.voices, base_delay_samples)
    }

    /// The base delay in samples for the current delay time and sample
    /// rate, rounded to the nearest sample and clamped so all taps fit.
    pub fn base_delay_samples(&self) -> (b: usize)
        requires
            self.inv(),
        ensures
            b == self.base_delay(),
            1 <= b < MAX_DELAY_SAMPLES / MAX_VOICES,
    {
        proof {
            assert((self.delay_time_ms as int) * (self.sample_rate as int) <= 2000
                * 0xffff_ffff) by (nonlinear_arith)
                requires
                    0 <= self.delay_time_ms <= 2000,
                    0 <= self.sample_rate <= 0xffff_ffff,
            ;
        }
        let prod: u64 = (self.delay_time_ms as u64) * (self.sample_rate as u64);
        let rounded: u64 = (prod + 500) / 1000;
        let cap: u64 = (MAX_DELAY_SAMPLES / MAX_VOICES - 1) as u64;
        if rounded < 1 {
            1
        } else if rounded > cap {
            cap as usize
        } else {
            rounded as usize
        }
    }

    /// Processes one stereo sample against the block's base delay, returning
    /// the two output samples.
    fn process_one(&mut self, l: i32, r: i32, base: usize) -> (out: (i32, i32))
        requires
            old(self).inv(),
            1 <= base < MAX_DELAY_SAMPLES / MAX_VOICES,
        ensures
            final(self).inv(),
            final(self).sample_rate == old(self).sample_rate,
            final(self).delay_time_ms == old(self).delay_time_ms,
            final(self).feedback == old(self).feedback,
            final(self).mix == old(self).mix,
            final(self).voices == old(self).voices,
            final(self).state() == step_state(
                old(self).state(),
                old(self).feedback as int,
                old(self).voices as nat,
                base as nat,
                l as int,
                r as int,
            ),
            out.0 == mixed_sample(
                l as int,
                wet_sum(
                    old(self).delay_buffer@,
                    old(self).write_position as int,
                    old(self).voices as nat,
                    base as nat,
                    old(self).voices as nat,
                ),
                old(self).mix as int,
            ),
            out.1 == mixed_sample(
                r as int,
                wet_sum(
                    old(self).delay_buffer@,
                    old(self).write_position as int,
                    old(self).voices as nat,
                    base as nat,
                    old(self).voices as nat,
                ),
                old(self).mix as int,
            ),
    {
        let ghost v = self.voices as nat;
        let ghost wp = self.write_position as int;
        let ghost buf0 = self.delay_buffer@;
        let ghost wf0 = self.capture@;
        let ghost wi = self.capture.write_index as int;

        let voices = self.voices;
        let mut wet: i64 = 0;
        let mut last: i32 = 0;
        let mut t: usize = 0;
        while t < voices
            invariant
                self.inv(),
                voices == self.voices,
                t <= voices,
                1 <= base < MAX_DELAY_SAMPLES / MAX_VOICES,
                v == self.voices as nat,
                wp == self.write_position as int,
                buf0 == self.delay_buffer@,
                wi == self.capture.write_index as int,
                self.capture@ == record_taps(wf0, wi, buf0, wp, v, base as nat, t as nat),
                wet == wet_sum(buf0, wp, v, base as nat, t as nat),
                -(t as int) * 0x8000_0000 <= wet <= (t as int) * 0x8000_0000,
                t == voices ==> last == tap_output(buf0, wp, v, base as nat, (v - 1) as nat),
                self.sample_rate == old(self).sample_rate,
                self.delay_time_ms == old(self).delay_time_ms,
                self.feedback == old(self).feedback,
                self.mix == old(self).mix,
                self.write_position == old(self).write_position,
                self.delay_buffer@ == old(self).delay_buffer@,
                wf0 == old(self).capture@,
            decreases voices - t,
        {
            let d = tap_delay_samples(t, voices, base);
            let read_pos = if self.write_position >= d {
                self.write_position - d
            } else {
                MAX_DELAY_SAMPLES - (d - self.write_position)
            };
            proof {
                assert(read_pos == read_position(wp, tap_delay(t as nat, v, base as nat)));
                lemma_small_mod(read_pos as nat, MAX_DELAY_SAMPLES as nat);
            }
            let tap_out = self.delay_buffer.read(read_pos);
            proof {
                assert(tap_out as int == tap_output(buf0, wp, v, base as nat, t as nat));
            }
            let gain = tap_gain_milli(t, voices);
            let term = scale_milli(tap_out as i64, gain as u32);
            proof {
                assert(wet_sum(buf0, wp, v, base as nat, (t + 1) as nat) == wet_sum(
                    buf0,
                    wp,
                    v,
                    base as nat,
                    t as nat,
                ) + milli_scale(
                    tap_output(buf0, wp, v, base as nat, t as nat),
                    gain_milli(t as nat, v),
                ));
            }
            wet = wet + term;
            self.capture.record(t, tap_out);
            proof {
                assert(record_taps(wf0, wi, buf0, wp, v, base as nat, (t + 1) as nat)
                    == record_taps(wf0, wi, buf0, wp, v, base as nat, t as nat).update(
                    ring_slot(t as int, wi),
                    tap_output(buf0, wp, v, base as nat, t as nat) as i32,
                ));
            }
            if t == voices - 1 {
                last = tap_out;
            }
            t = t + 1;
        }

        let mono = scale_milli((l as i64) + (r as i64), 500);
        let fed = scale_milli(last as i64, self.feedback);
        let written = sat32(mono + fed);
        proof {
            lemma_small_mod(self.write_position as nat, MAX_DELAY_SAMPLES as nat);
        }
        let wp_now = self.write_position;
        self.delay_buffer.write(wp_now, written);
        let lo = sat32(scale_milli(l as i64, 1000 - self.mix) + scale_milli(wet, self.mix));
        let ro = sat32(scale_milli(r as i64, 1000 - self.mix) + scale_milli(wet, self.mix));
        self.write_position = (wp_now + 1) % MAX_DELAY_SAMPLES;
        self.capture.advance();
        proof {
            let target = step_state(
                old(self).state(),
                old(self).feedback as int,
                v,
                base as nat,
                l as int,
                r as int,
            );
            assert(self.delay_buffer@ =~= target.buffer);
            assert(self.capture@ =~= target.waveforms);
            assert(self.state() =~= target);
        }
        (lo, ro)
    }

    /// Processes a stereo block in place: reads the parameters once, then
    /// runs the per-sample step over the shortest of the four buffers,
    /// leaving any excess output samples untouched. This truncation is a
    /// deliberate defensive policy: an audio callback must never fail.
    pub fn process_stereo(
        &mut self,
        left_in: &Vec<i32>,
        right_in: &Vec<i32>,
        left_out: &mut Vec<i32>,
        right_out: &mut Vec<i32>,
    )
        requires
            old(self).inv(),
        ensures
            final(self).inv(),
            final(self).sample_rate == old(self).sample_rate,
            final(self).delay_time_ms == old(self).delay_time_ms,
            final(self).feedback == old(self).feedback,
            final(self).mix == old(self).mix,
            final(self).voices == old(self).voices,
            final(left_out)@.len() == old(left_out)@.len(),
            final(right_out)@.len() == old(right_out)@.len(),
            ({
                let n = block_len(
                    left_in@.len(),
                    right_in@.len(),
                    old(left_out)@.len(),
                    old(right_out)@.len(),
                );
                let fb = old(self).feedback as int;
                let mix = old(self).mix as int;
                let v = old(self).voices as nat;
                let base = old(self).base_delay() as nat;
                &&& final(self).state() == run_state(
                    old(self).state(),
                    fb,
                    v,
                    base,
                    left_in@,
                    right_in@,
                    n,
                )
                &&& forall|i: int|
                    0 <= i < n ==> final(left_out)@[i] == left_out_at(
                        old(self).state(),
                        fb,
                        mix,
                        v,
                        base,
                        left_in@,
                        right_in@,
                        i as nat,
                    )
                &&& forall|i: int|
                    0 <= i < n ==> final(right_out)@[i] == right_out_at(
                        old(self).state(),
                        fb,
                        mix,
                        v,
                        base,
                        left_in@,
                        right_in@,
                        i as nat,
                    )
                &&& forall|i: int|
                    n <= i < final(left_out)@.len() ==> final(left_out)@[i] == old(left_out)@[i]
                &&& forall|i: int|
                    n <= i < final(right_out)@.len() ==> final(right_out)@[i] == old(right_out)@[i]
            }),
    {
        let base = self.base_delay_samples();
        let mut n = left_in.len();
        if right_in.len() < n {
            n = right_in.len();
        }
        if left_out.len() < n {
            n = left_out.len();
        }
        if right_out.len() < n {
            n = right_out.len();
        }
        proof {
            assert(n as nat == block_len(
                left_in@.len(),
                right_in@.len(),
                old(left_out)@.len(),
                old(right_out)@.len(),
            ));
        }
        let ghost s0 = old(self).state();
        let ghost fb = old(self).feedback as int;
        let ghost mix = old(self).mix as int;
        let ghost v = old(self).voices as nat;

        let mut i: usize = 0;
        while i < n
            invariant
                self.inv(),
                i <= n,
                n <= left_in@.len(),
                n <= right_in@.len(),
                n <= left_out@.len(),
                n <= right_out@.len(),
                1 <= base < MAX_DELAY_SAMPLES / MAX_VOICES,
                base == old(self).base_delay(),
                s0 == old(self).state(),
                fb == old(self).feedback as int,
                mix == old(self).mix as int,
                v == old(self).voices as nat,
                self.sample_rate == old(self).sample_rate,
                self.delay_time_ms == old(self).delay_time_ms,
                self.feedback == old(self).feedback,
                self.mix == old(self).mix,
                self.voices == old(self).voices,
                self.state() == run_state(s0, fb, v, base as nat, left_in@, right_in@, i as nat),
                left_out@.len() == old(left_out)@.len(),
                right_out@.len() == old(right_out)@.len(),
                forall|j: int|
                    0 <= j < i ==> left_out@[j] == left_out_at(
                        s0,
                        fb,
                        mix,
                        v,
                        base as nat,
                        left_in@,
                        right_in@,
                        j as nat,
                    ),
                forall|j: int|
                    0 <= j < i ==> right_out@[j] == right_out_at(
                        s0,
                        fb,
                        mix,
                        v,
                        base as nat,
                        left_in@,
                        right_in@,
                        j as nat,
                    ),
                forall|j: int| i <= j < left_out@.len() ==> left_out@[j] == old(left_out)@[j],
                forall|j: int| i <= j < right_out@.len() ==> right_out@[j] == old(right_out)@[j],
            decreases n - i,
        {
            let (lo, ro) = self.process_one(left_in[i], right_in[i], base);
            proof {
                assert(run_state(s0, fb, v, base as nat, left_in@, right_in@, (i + 1) as nat)
                    == step_state(
                    run_state(s0, fb, v, base as nat, left_in@, right_in@, i as nat),
                    fb,
                    v,
                    base as nat,
                    left_in@[i as int] as int,
                    right_in@[i as int] as int,
                ));
            }
            left_out[i] = lo;
            right_out[i] = ro;
            i = i + 1;
        }
    }

    /// Zero-fills the delay line and every capture ring and rewinds both
    /// cursors. Side effect only; parameters are kept.
    pub fn reset(&mut self)
        requires
            old(self).inv(),
        ensures
            final(self).inv(),
            final(self).sample_rate == old(self).sample_rate,
            final(self).delay_time_ms == old(self).delay_time_ms,
            final(self).feedback == old(self).feedback,
            final(self).mix == old(self).mix,
            final(self).voices == old(self).voices,
            final(self).write_position == 0,
            final(self).capture.write_index == 0,
            silent_state(final(self).state()),
    {
        self.delay_buffer.clear();
        self.write_position = 0;
        self.capture.clear();
    }

    /// The shared capture cursor, for reconstructing chronological order.
    pub fn get_waveform_write_index(&self) -> (i: usize)
        requires
            self.inv(),
        ensures
            i == self.capture.write_index,
            i < WAVEFORM_BUFFER_SIZE,
    {
        self.capture.write_index
    }

    /// A copy of one voice's capture ring in storage order. A voice index
    /// beyond the last slot yields a zeroed ring rather than any
    /// out-of-range read.
    pub fn get_voice_waveform(&self, voice_index: usize) -> (w: Vec<i32>)
        requires
            self.inv(),
        ensures
            w@.len() == WAVEFORM_BUFFER_SIZE,
            voice_index < MAX_VOICES ==> forall|i: int|
                0 <= i < WAVEFORM_BUFFER_SIZE ==> w@[i] == self.capture@[ring_slot(
                    voice_index as int,
                    i,
                )],
            voice_index >= MAX_VOICES ==> forall|i: int|
                0 <= i < WAVEFORM_BUFFER_SIZE ==> w@[i] == 0i32,
    {
        let mut w: Vec<i32> = Vec::new();
        let mut i: usize = 0;
        while i < WAVEFORM_BUFFER_SIZE
            invariant
                self.inv(),
                i <= WAVEFORM_BUFFER_SIZE,
                w@.len() == i,
                voice_index < MAX_VOICES ==> forall|j: int|
                    0 <= j < i ==> w@[j] == self.capture@[ring_slot(voice_index as int, j)],
                voice_index >= MAX_VOICES ==> forall|j: int| 0 <= j < i ==> w@[j] == 0i32,
            decreases WAVEFORM_BUFFER_SIZE - i,
        {
            if voice_index < MAX_VOICES {
                proof {
                    assert(voice_index * WAVEFORM_BUFFER_SIZE + i < MAX_VOICES
                        * WAVEFORM_BUFFER_SIZE) by (nonlinear_arith)
                        requires
                            voice_index < MAX_VOICES,
                            i < WAVEFORM_BUFFER_SIZE,
                    ;
                }
                w.push(self.capture.samples[voice_index * WAVEFORM_BUFFER_SIZE + i]);
            } else {
                w.push(0);
            }
            i = i + 1;
        }
        w
    }

    /// One voice's capture ring rotated into chronological order: entry `i`
    /// of the result is the ring slot `i` places after the shared cursor,
    /// oldest first. A voice index beyond the last slot yields a zeroed
    /// ring.
    pub fn get_voice_waveform_rotated(&self, voice_index: usize) -> (w: Vec<i32>)
        requires
            self.inv(),
        ensures
            w@.len() == WAVEFORM_BUFFER_SIZE,
            voice_index < MAX_VOICES ==> forall|i: int|
                0 <= i < WAVEFORM_BUFFER_SIZE ==> w@[i] == self.capture@[ring_slot(
                    voice_index as int,
                    (self.capture.write_index + i) % (WAVEFORM_BUFFER_SIZE as int),
                )],
            voice_index >= MAX_VOICES ==> forall|i: int|
                0 <= i < WAVEFORM_BUFFER_SIZE ==> w@[i] == 0i32,
    {
        let mut w: Vec<i32> = Vec::new();
        let mut i: usize = 0;
        while i < WAVEFORM_BUFFER_SIZE
            invariant
                self.inv(),
                i <= WAVEFORM_BUFFER_SIZE,
                w@.len() == i,
                voice_index < MAX_VOICES ==> forall|j: int|
                    0 <= j < i ==> w@[j] == self.capture@[ring_slot(
                        voice_index as int,
                        (self.capture.write_index + j) % (WAVEFORM_BUFFER_SIZE as int),
                    )],
                voice_index >= MAX_VOICES ==> forall|j: int| 0 <= j < i ==> w@[j] == 0i32,
            decreases WAVEFORM_BUFFER_SIZE - i,
        {
            if voice_index < MAX_VOICES {
                let rotated = (self.capture.write_index + i) % WAVEFORM_BUFFER_SIZE;
                proof {
                    assert(voice_index * WAVEFORM_BUFFER_SIZE + rotated < MAX_VOICES
                        * WAVEFORM_BUFFER_SIZE) by (nonlinear_arith)
                        requires
                            voice_index < MAX_VOICES,
                            rotated < WAVEFORM_BUFFER_SIZE,
                    ;
                }
                w.push(self.capture.samples[voice_index * WAVEFORM_BUFFER_SIZE + rotated]);
            } else {
                w.push(0);
            }
            i = i + 1;
        }
        w
    }
}

} // verus!
