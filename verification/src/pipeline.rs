//! The effect pipeline's control plane, and the reconfiguration
//! protocol.
//!
//! A [`Pipeline`] owns the ordered description of the active effect
//! chain.  Replacement is wholesale: `set` installs a new chain as a
//! unit and discards the old one as a unit, so no reader ever observes
//! a mix of old and new effects.  [`Session`] drives the
//! hot-reconfiguration protocol around it: at a block boundary the
//! real-time side may request one unit of off-thread work (never more
//! than one in flight), the worker parses the shared resource, and the
//! delivered result is applied between blocks — the chain in use for a
//! block is fixed when the block starts.
//!
//! The per-sample numeric work of the active effects is the embedding's:
//! it keeps one running effect instance per chain entry and bypasses
//! them all, advancing no state, when the control port says so.  The
//! control port's bypass test itself is decided here, on the raw bits of
//! an IEEE-754 single-precision control value.

use vstd::prelude::*;

use crate::descriptor::EffectSpec;
use crate::parser::outcome_view;
use crate::parser::ParseOutcome;
use crate::parser::ParseOutcomeV;

verus! {

/// The ordered description of the active effect chain.
pub struct Pipeline {
    effects: Vec<EffectSpec>,
}

impl Pipeline {
    /// The active chain, in processing order.
    pub closed spec fn chain(self) -> Seq<EffectSpec> {
        self.effects@
    }

    /// A fresh pipeline holds the safe default chain: one all-pass.
    pub fn new() -> (p: Pipeline)
        ensures
            p.chain() == seq![EffectSpec::AllPass],
    {
        let mut effects: Vec<EffectSpec> = Vec::new();
        effects.push(EffectSpec::AllPass);
        proof {
            assert(effects@ =~= seq![EffectSpec::AllPass]);
        }
        Pipeline { effects }
    }

    /// Installs `effects` as the whole active chain; the previous chain
    /// is discarded as a unit and no element of it survives.
    pub fn set(&mut self, effects: Vec<EffectSpec>)
        ensures
            final(self).chain() == effects@,
    {
        self.effects = effects;
    }

    /// Resets the pipeline to the safe default chain: one all-pass.
    pub fn tear_down(&mut self)
        ensures
            final(self).chain() == seq![EffectSpec::AllPass],
    {
        let mut effects: Vec<EffectSpec> = Vec::new();
        effects.push(EffectSpec::AllPass);
        proof {
            assert(effects@ =~= seq![EffectSpec::AllPass]);
        }
        self.effects = effects;
    }

    /// The active chain, for the embedding to instantiate.
    pub fn effects(&self) -> (r: &Vec<EffectSpec>)
        ensures
            r@ == self.chain(),
    {
        &self.effects
    }
}

/// Whether raw control-port bits demand a bypassed block: the encoded
/// IEEE-754 single-precision value is at most zero — it is a zero of
/// either sign, or its sign bit is set and it is not a NaN.
pub open spec fn spec_bypassed(control_bits: u32) -> bool {
    (control_bits & 0x7fff_ffffu32) == 0 || ((control_bits >> 31u32) == 1 && !((control_bits
        >> 23u32) & 0xffu32 == 0xffu32 && control_bits & 0x007f_ffffu32 != 0))
}

/// Decides the bypass test on the raw bits of the control value: with a
/// control at most zero the block is returned unchanged and no effect
/// state advances.
pub fn control_bypasses(control_bits: u32) -> (r: bool)
    ensures
        r == spec_bypassed(control_bits),
{
    (control_bits & 0x7fff_ffff) == 0 || ((control_bits >> 31) == 1 && !((control_bits >> 23)
        & 0xff == 0xff && control_bits & 0x007f_ffff != 0))
}

/// The reconfiguration protocol around one pipeline: the active chain
/// plus whether a unit of off-thread work is in flight.
pub struct Session {
    pipeline: Pipeline,
    work_in_flight: bool,
}

/// What a delivered outcome does to the active chain: a new chain
/// replaces the whole of it, every other outcome leaves the whole of it.
pub open spec fn spec_applied(chain: Seq<EffectSpec>, outcome: ParseOutcomeV) -> Seq<
    EffectSpec,
> {
    match outcome {
        ParseOutcomeV::NewChain(c) => c,
        _ => chain,
    }
}

impl Session {
    /// The active chain, in processing order.
    pub closed spec fn chain(self) -> Seq<EffectSpec> {
        self.pipeline.chain()
    }

    /// Whether a unit of off-thread work is outstanding.
    pub closed spec fn in_flight(self) -> bool {
        self.work_in_flight
    }

    /// A fresh session: the safe default chain, no work outstanding.
    pub fn new() -> (s: Session)
        ensures
            s.chain() == seq![EffectSpec::AllPass],
            !s.in_flight(),
    {
        Session { pipeline: Pipeline::new(), work_in_flight: false }
    }

    /// The block-boundary decision on the real-time side: with an active
    /// control and no work outstanding, request one unit of off-thread
    /// work; a request while one is in flight is ignored.  The active
    /// chain never changes here, so the whole block runs the chain fixed
    /// now.
    pub fn block_start(&mut self, active: bool) -> (schedule: bool)
        ensures
            schedule == (active && !old(self).in_flight()),
            final(self).in_flight() == (old(self).in_flight() || active),
            final(self).chain() == old(self).chain(),
    {
        let schedule = active && !self.work_in_flight;
        self.work_in_flight = self.work_in_flight || active;
        schedule
    }

    /// Applies a delivered work result between blocks: a new chain is
    /// installed wholesale, any other outcome leaves the chain
    /// untouched; the outstanding work is consumed either way.
    pub fn deliver(&mut self, outcome: ParseOutcome)
        ensures
            !final(self).in_flight(),
            final(self).chain() == spec_applied(old(self).chain(), outcome_view(outcome)),
    {
        self.work_in_flight = false;
        match outcome {
            ParseOutcome::NewChain(chain) => {
                self.pipeline.set(chain);
            },
            _ => {},
        }
    }

    /// The active chain, for the embedding to instantiate at a block
    /// boundary.
    pub fn effects(&self) -> (r: &Vec<EffectSpec>)
        ensures
            r@ == self.chain(),
    {
        self.pipeline.effects()
    }
}

/// Reconfiguration is atomic: whatever a delivery brings, the chain
/// afterwards is either exactly the delivered chain or exactly the
/// chain from before — an element mix of the two can only be one of
/// them.
pub proof fn lemma_reconfiguration_atomic(chain: Seq<EffectSpec>, outcome: ParseOutcomeV)
    ensures
        spec_applied(chain, outcome) == chain || (outcome matches ParseOutcomeV::NewChain(c)
            && spec_applied(chain, outcome) == c),
{
}

} // verus!
