//! The echo effect's delay taps.
//!
//! An echo is built from a bank of delay taps.  Each tap is a FIFO of
//! samples with a fixed target capacity, set once at construction from the
//! tap's delay time and the sample rate.  While the FIFO is below its
//! capacity, a tap stores each incoming sample and echoes it back
//! unchanged, so a tap is audibly transparent during its first
//! `capacity` samples.  Once the fill threshold is reached the tap pops
//! and returns its oldest stored sample — without storing the incoming
//! one, so the next sample is stored again and a full tap alternates
//! between the delayed sample and the fresh one.  A tap asked to pop
//! while empty (a zero-capacity tap) yields the all-zero sample word.
//! This trajectory after the fill threshold is deliberate and pinned
//! down exactly by the contracts below.
//!
//! Samples are opaque 32-bit words: a tap never inspects them.  The
//! weighting of each tap's output by its decay coefficient and the final
//! mix with the dry signal are numeric work that the embedding performs;
//! the exact decay schedules themselves are computed in [`crate::decay`].

use vstd::prelude::*;

verus! {

/// The decay law of an echo effect: how the decay coefficients of
/// successive taps die out.
///
/// With `num_echoes` taps and a starting coefficient `s`, tap `i`
/// (1-indexed) gets coefficient
/// `s - i / (num_echoes + 1)` under `Linear` and
/// `s * (1 - 2 / (num_echoes + 2))^i` under `Exponential`;
/// see [`crate::decay`] for the exact computation.
#[derive(Clone, Copy, Debug, PartialEq, Eq, Structural)]
pub enum DecayType {
    /// Linear decay of echoes.
    Linear,
    /// Exponential decay of echoes.
    Exponential,
}

/// What one delay tap returns for an incoming sample, given its fixed
/// capacity and the samples it currently stores (oldest first).
pub open spec fn delayed_output(capacity: int, stored: Seq<u32>, in_sample: u32) -> u32 {
    if stored.len() < capacity {
        in_sample
    } else if stored.len() > 0 {
        stored[0]
    } else {
        0u32
    }
}

/// What one delay tap stores after consuming an incoming sample, given
/// its fixed capacity and the samples it stored before (oldest first).
pub open spec fn next_stored(capacity: int, stored: Seq<u32>, in_sample: u32) -> Seq<u32> {
    if stored.len() < capacity {
        stored.push(in_sample)
    } else if stored.len() > 0 {
        stored.drop_first()
    } else {
        stored
    }
}

/// The outputs of one delay tap over a whole input sequence, first
/// input's output first: the fold of [`delayed_output`] and
/// [`next_stored`] over the inputs.
pub open spec fn tap_outputs(capacity: int, stored: Seq<u32>, inputs: Seq<u32>) -> Seq<u32>
    decreases inputs.len(),
{
    if inputs.len() == 0 {
        Seq::empty()
    } else {
        seq![delayed_output(capacity, stored, inputs[0])] + tap_outputs(
            capacity,
            next_stored(capacity, stored, inputs[0]),
            inputs.drop_first(),
        )
    }
}

/// A tap is transparent while it fills: as long as the samples fed to
/// it do not exceed its free capacity, every output equals its input.
pub proof fn lemma_tap_transparent_while_filling(
    capacity: int,
    stored: Seq<u32>,
    inputs: Seq<u32>,
)
    requires
        stored.len() + inputs.len() <= capacity,
    ensures
        tap_outputs(capacity, stored, inputs) == inputs,
    decreases inputs.len(),
{
    if inputs.len() > 0 {
        lemma_tap_transparent_while_filling(
            capacity,
            stored.push(inputs[0]),
            inputs.drop_first(),
        );
        assert(tap_outputs(capacity, stored, inputs) =~= inputs);
    } else {
        assert(tap_outputs(capacity, stored, inputs) =~= inputs);
    }
}

/// One delay tap: a FIFO of sample words with a fixed target capacity.
pub struct Delay {
    capacity: usize,
    buffer: Vec<u32>,
}

impl Delay {
    /// The tap's fixed target capacity, in samples.
    pub closed spec fn capacity(self) -> int {
        self.capacity as int
    }

    /// The samples the tap currently stores, oldest first.
    pub closed spec fn stored(self) -> Seq<u32> {
        self.buffer@
    }

    /// Creates an empty tap whose capacity is fixed to `capacity` for its
    /// whole lifetime.
    pub fn new(capacity: usize) -> (d: Delay)
        ensures
            d.capacity() == capacity,
            d.stored() == Seq::<u32>::empty(),
    {
        Delay { capacity, buffer: Vec::new() }
    }

    /// Consumes one incoming sample and returns the tap's output for it:
    /// the sample itself while the FIFO is still filling, else the oldest
    /// stored sample (the all-zero word once the tap has drained).
    pub fn run(&mut self, in_sample: u32) -> (out: u32)
        ensures
            out == delayed_output(old(self).capacity(), old(self).stored(), in_sample),
            final(self).stored() == next_stored(
                old(self).capacity(),
                old(self).stored(),
                in_sample,
            ),
            final(self).capacity() == old(self).capacity(),
    {
        if self.buffer.len() < self.capacity {
            self.buffer.push(in_sample);
            return in_sample;
        }
        if self.buffer.len() > 0 {
            let out = self.buffer.remove(0);
            proof {
                assert(old(self).stored().remove(0) =~= old(self).stored().drop_first());
            }
            out
        } else {
            0u32
        }
    }
}

/// The tap bank of one echo effect: the delay taps, in tap order.
///
/// `advance` feeds one incoming sample to every tap and hands back each
/// tap's output, in tap order, so the embedding can weight tap `i`'s
/// output by decay coefficient `i` and add the dry signal.
pub struct Echo {
    delays: Vec<Delay>,
}

impl Echo {
    /// The bank's taps, in tap order.
    pub closed spec fn taps(self) -> Seq<Delay> {
        self.delays@
    }

    /// Creates a bank of empty taps, one per entry of `capacities`; tap
    /// `i` gets capacity `capacities[i]`.
    pub fn new(capacities: &Vec<usize>) -> (e: Echo)
        ensures
            e.taps().len() == capacities@.len(),
            forall|i: int|
                0 <= i < capacities@.len() ==> {
                    &&& (#[trigger] e.taps()[i]).capacity() == capacities@[i]
                    &&& e.taps()[i].stored() == Seq::<u32>::empty()
                },
    {
        let mut delays: Vec<Delay> = Vec::new();
        let mut i: usize = 0;
        while i < capacities.len()
            invariant
                0 <= i <= capacities@.len(),
                delays@.len() == i,
                forall|j: int|
                    0 <= j < i ==> {
                        &&& (#[trigger] delays@[j]).capacity() == capacities@[j]
                        &&& delays@[j].stored() == Seq::<u32>::empty()
                    },
            decreases capacities@.len() - i,
        {
            delays.push(Delay::new(capacities[i]));
            i = i + 1;
        }
        Echo { delays }
    }

    /// Feeds one incoming sample to every tap, in tap order, and returns
    /// each tap's output: `outs[i]` is tap `i`'s delayed sample, and each
    /// tap's FIFO advances by exactly one step.
    pub fn advance(&mut self, in_sample: u32) -> (outs: Vec<u32>)
        ensures
            final(self).taps().len() == old(self).taps().len(),
            outs@.len() == old(self).taps().len(),
            forall|i: int|
                0 <= i < old(self).taps().len() ==> {
                    &&& outs@[i] == delayed_output(
                        (#[trigger] old(self).taps()[i]).capacity(),
                        old(self).taps()[i].stored(),
                        in_sample,
                    )
                    &&& final(self).taps()[i].stored() == next_stored(
                        old(self).taps()[i].capacity(),
                        old(self).taps()[i].stored(),
                        in_sample,
                    )
                    &&& final(self).taps()[i].capacity() == old(self).taps()[i].capacity()
                },
    {
        let ghost pre = self.delays@;
        let mut outs: Vec<u32> = Vec::new();
        let n = self.delays.len();
        let mut i: usize = 0;
        while i < n
            invariant
                0 <= i <= n,
                n == pre.len(),
                self.delays@.len() == pre.len(),
                outs@.len() == i,
                forall|j: int|
                    0 <= j < i ==> {
                        &&& outs@[j] == delayed_output(
                            (#[trigger] pre[j]).capacity(),
                            pre[j].stored(),
                            in_sample,
                        )
                        &&& self.delays@[j].stored() == next_stored(
                            pre[j].capacity(),
                            pre[j].stored(),
                            in_sample,
                        )
                        &&& self.delays@[j].capacity() == pre[j].capacity()
                    },
                forall|j: int| i <= j < pre.len() ==> self.delays@[j] == #[trigger] pre[j],
            decreases n - i,
        {
            let out = self.delays[i].run(in_sample);
            outs.push(out);
            i = i + 1;
        }
        outs
    }
}

} // verus!
