//! Verified core of a real-time audio effects processor.
//!
//! The library holds everything about the effect chain that can be stated
//! and checked exactly: the chain-descriptor grammar and its parser, the
//! delay-tap buffer discipline of the echo effect, the exact decay
//! schedules, and the pipeline / reconfiguration control plane.
//!
//! Audio samples are carried through the structural effects as opaque
//! 32-bit words: none of the code here inspects a sample's numeric value,
//! so the library is agnostic to the sample encoding.  The embedding that
//! owns the audio callback converts between its numeric sample type and
//! these words at the boundary, and performs the floating-point arithmetic
//! (oscillator gain, echo mix, biquad recurrences) that cannot live here.

pub mod allpass;
pub mod decay;
pub mod descriptor;
pub mod echo;
pub mod json;
pub mod parser;
pub mod pipeline;
