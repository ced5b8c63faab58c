//! The delay line: a fixed-capacity ring of mono samples, indexed modulo its
//! capacity.

use vstd::prelude::*;

use crate::MAX_DELAY_SAMPLES;

verus! {

/// A ring of `MAX_DELAY_SAMPLES` mono samples. Positions are reduced modulo
/// the capacity, so reads and writes never fail; the capacity is fixed for
/// the life of the engine, trading memory for an allocation-free audio path.
pub struct CircularSampleBuffer {
    pub data: Vec<i32>,
}

impl View for CircularSampleBuffer {
    type V = Seq<i32>;

    open spec fn view(&self) -> Seq<i32> {
        self.data@
    }
}

impl CircularSampleBuffer {
    /// Full capacity, always: the one well-formedness condition.
    pub open spec fn inv(&self) -> bool {
        self.data@.len() == MAX_DELAY_SAMPLES
    }

    /// A zero-filled buffer at full capacity.
    pub fn new() -> (b: Self)
        ensures
            b.inv(),
            forall|i: int| 0 <= i < MAX_DELAY_SAMPLES ==> b@[i] == 0i32,
    {
        let mut data: Vec<i32> = Vec::new();
        let mut i: usize = 0;
        while i < MAX_DELAY_SAMPLES
            invariant
                i <= MAX_DELAY_SAMPLES,
                data@.len() == i,
                forall|j: int| 0 <= j < i ==> data@[j] == 0i32,
            decreases MAX_DELAY_SAMPLES - i,
        {
            data.push(0);
            i = i + 1;
        }
        CircularSampleBuffer { data }
    }

    /// The sample stored at `position mod capacity`.
    pub fn read(&self, position: usize) -> (s: i32)
        requires
            self.inv(),
        ensures
            s == self@[(position % MAX_DELAY_SAMPLES) as int],
    {
        self.data[position % MAX_DELAY_SAMPLES]
    }

    /// Stores `value` at `position mod capacity`.
    pub fn write(&mut self, position: usize, value: i32)
        requires
            old(self).inv(),
        ensures
            final(self).inv(),
            final(self)@ == old(self)@.update((position % MAX_DELAY_SAMPLES) as int, value),
    {
        let idx = position % MAX_DELAY_SAMPLES;
        self.data[idx] = value;
    }

    /// Zero-fills every slot.
    pub fn clear(&mut self)
        requires
            old(self).inv(),
        ensures
            final(self).inv(),
            forall|i: int| 0 <= i < MAX_DELAY_SAMPLES ==> final(self)@[i] == 0i32,
    {
        let mut i: usize = 0;
        while i < MAX_DELAY_SAMPLES
            invariant
                i <= MAX_DELAY_SAMPLES,
                self.data@.len() == MAX_DELAY_SAMPLES,
                forall|j: int| 0 <= j < i ==> self.data@[j] == 0i32,
            decreases MAX_DELAY_SAMPLES - i,
        {
            self.data[i] = 0;
            i = i + 1;
        }
    }
}

} // verus!
