//! Per-voice waveform capture: one fixed-size ring of recent tap output per
//! voice slot, all sharing a single write cursor, so a host can read a
//! chronologically ordered history for display by rotating from the cursor.

use vstd::prelude::*;

use crate::MAX_VOICES;
use crate::WAVEFORM_BUFFER_SIZE;

verus! {

/// `MAX_VOICES` capture rings of `WAVEFORM_BUFFER_SIZE` samples each, stored
/// flat: voice `v`'s ring occupies slots `v * WAVEFORM_BUFFER_SIZE ..
/// (v + 1) * WAVEFORM_BUFFER_SIZE`. The write cursor is shared by all rings
/// and advances once per processed sample.
pub struct WaveformCapture {
    pub samples: Vec<i32>,
    pub write_index: usize,
}

impl View for WaveformCapture {
    type V = Seq<i32>;

    open spec fn view(&self) -> Seq<i32> {
        self.samples@
    }
}

/// The flat slot where voice `voice`'s ring holds its entry `i`.
pub open spec fn ring_slot(voice: int, i: int) -> int {
    voice * WAVEFORM_BUFFER_SIZE + i
}

impl WaveformCapture {
    pub open spec fn inv(&self) -> bool {
        &&& self.samples@.len() == MAX_VOICES * WAVEFORM_BUFFER_SIZE
        &&& self.write_index < WAVEFORM_BUFFER_SIZE
    }

    /// Zeroed rings, cursor at the start.
    pub fn new() -> (c: Self)
        ensures
            c.inv(),
            c.write_index == 0,
            forall|i: int| 0 <= i < MAX_VOICES * WAVEFORM_BUFFER_SIZE ==> c@[i] == 0i32,
    {
        let mut samples: Vec<i32> = Vec::new();
        let mut i: usize = 0;
        while i < MAX_VOICES * WAVEFORM_BUFFER_SIZE
            invariant
                i <= MAX_VOICES * WAVEFORM_BUFFER_SIZE,
                samples@.len() == i,
                forall|j: int| 0 <= j < i ==> samples@[j] == 0i32,
            decreases MAX_VOICES * WAVEFORM_BUFFER_SIZE - i,
        {
            samples.push(0);
            i = i + 1;
        }
        WaveformCapture { samples, write_index: 0 }
    }

    /// Records one tap's output for `voice` at the shared cursor.
    pub fn record(&mut self, voice: usize, value: i32)
        requires
            old(self).inv(),
            voice < MAX_VOICES,
        ensures
            final(self).inv(),
            final(self)@ == old(self)@.update(
                ring_slot(voice as int, old(self).write_index as int),
                value,
            ),
            final(self).write_index == old(self).write_index,
    {
        let slot = voice * WAVEFORM_BUFFER_SIZE + self.write_index;
        proof {
            assert(voice * WAVEFORM_BUFFER_SIZE + self.write_index < MAX_VOICES
                * WAVEFORM_BUFFER_SIZE) by (nonlinear_arith)
                requires
                    voice < MAX_VOICES,
                    self.write_index < WAVEFORM_BUFFER_SIZE,
            ;
        }
        self.samples[slot] = value;
    }

    /// Moves the shared cursor one slot forward, wrapping at the ring size.
    pub fn advance(&mut self)
        requires
            old(self).inv(),
        ensures
            final(self).inv(),
            final(self)@ == old(self)@,
            final(self).write_index == (old(self).write_index + 1) % (WAVEFORM_BUFFER_SIZE as int),
    {
        self.write_index = (self.write_index + 1) % WAVEFORM_BUFFER_SIZE;
    }

    /// Zero-fills every ring and rewinds the cursor.
    pub fn clear(&mut self)
        requires
            old(self).inv(),
        ensures
            final(self).inv(),
            final(self).write_index == 0,
            forall|i: int| 0 <= i < MAX_VOICES * WAVEFORM_BUFFER_SIZE ==> final(self)@[i] == 0i32,
    {
        let mut i: usize = 0;
        while i < MAX_VOICES * WAVEFORM_BUFFER_SIZE
            invariant
                i <= MAX_VOICES * WAVEFORM_BUFFER_SIZE,
                self.samples@.len() == MAX_VOICES * WAVEFORM_BUFFER_SIZE,
                forall|j: int| 0 <= j < i ==> self.samples@[j] == 0i32,
            decreases MAX_VOICES * WAVEFORM_BUFFER_SIZE - i,
        {
            self.samples[i] = 0;
            i = i + 1;
        }
        self.write_index = 0;
    }
}

} // verus!
