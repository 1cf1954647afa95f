//! The all-pass effect: the identity on sample pairs.
//!
//! It is the safe default chain: a pipeline that holds a single `AllPass`
//! passes the audio stream through untouched.

use vstd::prelude::*;

verus! {

/// The all-pass effect.  `run` returns every stereo sample pair unchanged
/// and keeps no state.
pub struct AllPass;

impl AllPass {
    /// Returns the input sample pair unchanged.
    pub fn run(&mut self, in_samples: (u32, u32)) -> (out: (u32, u32))
        ensures
            out == in_samples,
    {
        in_samples
    }
}

} // verus!
