//! Block-level laws of the engine, proved over the same specification
//! functions its contracts use.

use vstd::prelude::*;

use vstd::arithmetic::div_mod::lemma_add_mod_noop;
use vstd::arithmetic::div_mod::lemma_div_by_multiple;
use vstd::arithmetic::div_mod::lemma_small_mod;

use crate::delay::left_out_at;
use crate::delay::mixed_sample;
use crate::delay::read_position;
use crate::delay::record_taps;
use crate::delay::right_out_at;
use crate::delay::run_state;
use crate::delay::silent_state;
use crate::delay::state_wf;
use crate::delay::step_state;
use crate::delay::tap_output;
use crate::delay::wet_at;
use crate::delay::wet_sum;
use crate::delay::EngineState;
use crate::fixed::milli_scale;
use crate::taps::gain_milli;
use crate::taps::lemma_tap_delay_range;
use crate::taps::tap_delay;
use crate::waveform::ring_slot;
use crate::MAX_DELAY_SAMPLES;
use crate::MAX_VOICES;
use crate::WAVEFORM_BUFFER_SIZE;

verus! {

/// At mix zero the wet sum drops out entirely: one mixed sample is exactly
/// its dry input, whatever the wet value.
pub proof fn lemma_dry_mix_identity(dry: i32, wet: int)
    ensures
        mixed_sample(dry as int, wet, 0) == dry as int,
{
    let d = dry as int;
    if d >= 0 {
        lemma_div_by_multiple(d, 1000);
        assert(milli_scale(d, 1000) == d);
    } else {
        lemma_div_by_multiple(-d, 1000);
        assert(milli_scale(d, 1000) == d);
    }
    assert(milli_scale(wet, 0) == 0);
}

/// Dry pass-through: with the mix at zero, every output sample of a block
/// equals its input sample exactly, whatever the delay, feedback, voice
/// count, or starting state.
pub proof fn lemma_dry_passthrough(
    s0: EngineState,
    feedback: int,
    v: nat,
    base: nat,
    ls: Seq<i32>,
    rs: Seq<i32>,
    i: nat,
)
    requires
        i < ls.len(),
        i < rs.len(),
    ensures
        left_out_at(s0, feedback, 0, v, base, ls, rs, i) == ls[i as int] as int,
        right_out_at(s0, feedback, 0, v, base, ls, rs, i) == rs[i as int] as int,
{
    lemma_dry_mix_identity(ls[i as int], wet_at(s0, feedback, v, base, ls, rs, i));
    lemma_dry_mix_identity(rs[i as int], wet_at(s0, feedback, v, base, ls, rs, i));
}

/// Over an all-zero delay line every tap reads zero, so any prefix of the
/// wet sum is zero.
proof fn lemma_wet_sum_silent(buf: Seq<i32>, wp: int, v: nat, base: nat, t: nat)
    requires
        buf.len() == MAX_DELAY_SAMPLES,
        forall|i: int| 0 <= i < buf.len() ==> buf[i] == 0i32,
        0 <= wp < MAX_DELAY_SAMPLES,
        1 <= v <= MAX_VOICES,
        1 <= base < MAX_DELAY_SAMPLES / MAX_VOICES,
        t <= v,
    ensures
        wet_sum(buf, wp, v, base, t) == 0,
    decreases t,
{
    if t > 0 {
        let i = (t - 1) as nat;
        lemma_wet_sum_silent(buf, wp, v, base, i);
        lemma_tap_delay_range(i, v, base);
        assert(0 <= read_position(wp, tap_delay(i, v, base)) < MAX_DELAY_SAMPLES);
        assert(tap_output(buf, wp, v, base, i) == 0);
        assert(milli_scale(0, gain_milli(i, v)) == 0) by {
            assert(0 * gain_milli(i, v) == 0);
        }
    }
}

/// Recording taps read from an all-zero delay line leaves all-zero capture
/// rings all-zero.
proof fn lemma_record_taps_silent(
    wf: Seq<i32>,
    wi: int,
    buf: Seq<i32>,
    wp: int,
    v: nat,
    base: nat,
    t: nat,
)
    requires
        wf.len() == MAX_VOICES * WAVEFORM_BUFFER_SIZE,
        forall|i: int| 0 <= i < wf.len() ==> wf[i] == 0i32,
        buf.len() == MAX_DELAY_SAMPLES,
        forall|i: int| 0 <= i < buf.len() ==> buf[i] == 0i32,
        0 <= wp < MAX_DELAY_SAMPLES,
        0 <= wi < WAVEFORM_BUFFER_SIZE,
        1 <= v <= MAX_VOICES,
        1 <= base < MAX_DELAY_SAMPLES / MAX_VOICES,
        t <= v,
    ensures
        record_taps(wf, wi, buf, wp, v, base, t).len() == wf.len(),
        forall|i: int|
            0 <= i < wf.len() ==> record_taps(wf, wi, buf, wp, v, base, t)[i] == 0i32,
    decreases t,
{
    if t > 0 {
        let i = (t - 1) as nat;
        lemma_record_taps_silent(wf, wi, buf, wp, v, base, i);
        lemma_tap_delay_range(i, v, base);
        assert(0 <= read_position(wp, tap_delay(i, v, base)) < MAX_DELAY_SAMPLES);
        assert(tap_output(buf, wp, v, base, i) == 0);
        assert(0 <= ring_slot(i as int, wi) < MAX_VOICES * WAVEFORM_BUFFER_SIZE)
            by (nonlinear_arith)
            requires
                0 <= i < MAX_VOICES,
                0 <= wi < WAVEFORM_BUFFER_SIZE,
        ;
    }
}

/// One silent step: from a silent well-formed state with zero inputs, the
/// state stays silent and well-formed and the wet sum is zero.
proof fn lemma_silent_step(s: EngineState, feedback: int, v: nat, base: nat)
    requires
        state_wf(s),
        silent_state(s),
        1 <= v <= MAX_VOICES,
        1 <= base < MAX_DELAY_SAMPLES / MAX_VOICES,
    ensures
        state_wf(step_state(s, feedback, v, base, 0, 0)),
        silent_state(step_state(s, feedback, v, base, 0, 0)),
        wet_sum(s.buffer, s.write_position, v, base, v) == 0,
{
    lemma_wet_sum_silent(s.buffer, s.write_position, v, base, v);
    lemma_record_taps_silent(s.waveforms, s.waveform_index, s.buffer, s.write_position, v, base, v);
    lemma_tap_delay_range((v - 1) as nat, v, base);
    assert(tap_output(s.buffer, s.write_position, v, base, (v - 1) as nat) == 0);
    assert(milli_scale(0int + 0int, 500) == 0);
    assert(milli_scale(0, feedback) == 0) by {
        assert(0 * feedback == 0);
    }
}

/// Wraparound: over a block of any length — longer than the buffer included
/// — both cursors advance by exactly one slot per sample, modulo their
/// capacities, so they never leave their buffers.
pub proof fn lemma_cursor_advances(
    s0: EngineState,
    feedback: int,
    v: nat,
    base: nat,
    ls: Seq<i32>,
    rs: Seq<i32>,
    n: nat,
)
    requires
        0 <= s0.write_position < MAX_DELAY_SAMPLES,
        0 <= s0.waveform_index < WAVEFORM_BUFFER_SIZE,
    ensures
        run_state(s0, feedback, v, base, ls, rs, n).write_position == (s0.write_position + n) % (
        MAX_DELAY_SAMPLES as int),
        run_state(s0, feedback, v, base, ls, rs, n).waveform_index == (s0.waveform_index + n) % (
        WAVEFORM_BUFFER_SIZE as int),
    decreases n,
{
    let cap = MAX_DELAY_SAMPLES as int;
    let wcap = WAVEFORM_BUFFER_SIZE as int;
    if n == 0 {
        lemma_small_mod(s0.write_position as nat, MAX_DELAY_SAMPLES as nat);
        lemma_small_mod(s0.waveform_index as nat, WAVEFORM_BUFFER_SIZE as nat);
    } else {
        let m = (n - 1) as nat;
        lemma_cursor_advances(s0, feedback, v, base, ls, rs, m);
        lemma_add_mod_noop(s0.write_position + m, 1, cap);
        lemma_small_mod(1nat, MAX_DELAY_SAMPLES as nat);
        lemma_add_mod_noop(s0.waveform_index + m, 1, wcap);
        lemma_small_mod(1nat, WAVEFORM_BUFFER_SIZE as nat);
    }
}

/// Silence is stable: after a reset (or from any silent state), processing
/// a block of zero input samples yields zero on both outputs at every
/// position and leaves the state silent, for any mix, feedback, delay, and
/// voice count.
pub proof fn lemma_silence_passthrough(
    s0: EngineState,
    feedback: int,
    mix: int,
    v: nat,
    base: nat,
    ls: Seq<i32>,
    rs: Seq<i32>,
    n: nat,
)
    requires
        state_wf(s0),
        silent_state(s0),
        1 <= v <= MAX_VOICES,
        1 <= base < MAX_DELAY_SAMPLES / MAX_VOICES,
        n <= ls.len(),
        n <= rs.len(),
        forall|i: int| 0 <= i < n ==> ls[i] == 0i32 && rs[i] == 0i32,
    ensures
        state_wf(run_state(s0, feedback, v, base, ls, rs, n)),
        silent_state(run_state(s0, feedback, v, base, ls, rs, n)),
        forall|i: nat|
            #![trigger left_out_at(s0, feedback, mix, v, base, ls, rs, i)]
            i < n ==> left_out_at(s0, feedback, mix, v, base, ls, rs, i) == 0 && right_out_at(
                s0,
                feedback,
                mix,
                v,
                base,
                ls,
                rs,
                i,
            ) == 0,
    decreases n,
{
    if n > 0 {
        let m = (n - 1) as nat;
        lemma_silence_passthrough(s0, feedback, mix, v, base, ls, rs, m);
        let s = run_state(s0, feedback, v, base, ls, rs, m);
        lemma_silent_step(s, feedback, v, base);
        assert(wet_at(s0, feedback, v, base, ls, rs, m) == 0);
        assert(milli_scale(0, 1000 - mix) == 0) by {
            assert(0 * (1000 - mix) == 0);
        }
        assert(milli_scale(0, mix) == 0) by {
            assert(0 * mix == 0);
        }
        assert(left_out_at(s0, feedback, mix, v, base, ls, rs, m) == 0);
        assert(right_out_at(s0, feedback, mix, v, base, ls, rs, m) == 0);
    }
}

} // verus!
