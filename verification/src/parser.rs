//! The chain-descriptor parser's outward face.
//!
//! A worker, off the real-time thread, reads the shared reconfiguration
//! resource under exclusive access and hands its bytes to
//! [`parse_descriptor`]; the outcome says whether a freshly built chain
//! description is ready, or why none is, and [`should_clear`] says
//! whether the resource is to be emptied so the same descriptor is not
//! parsed twice.  Configuration errors never tear a running chain down:
//! every outcome but `NewChain` leaves the active chain exactly as it
//! was.

use vstd::prelude::*;

use crate::descriptor::chain_error_view;
use crate::descriptor::spec_chain;
use crate::descriptor::ChainError;
use crate::descriptor::ChainErrorV;
use crate::descriptor::EffectSpec;
use crate::json::spec_json;
use crate::json::Json;
use crate::json::json_view;
use crate::json::MAX_INPUT;

verus! {

/// What one parse of the shared resource's bytes yields.
pub enum ParseOutcome {
    /// The resource held nothing: no reconfiguration is pending.
    Empty,
    /// The bytes do not decode as a descriptor record, or a required
    /// member or parameter is missing.
    Malformed,
    /// A parameter holds a value its effect cannot accept.
    InvalidParam,
    /// An entry names no known effect; the name is carried for
    /// diagnostics.
    UnknownEffect(Vec<u8>),
    /// A freshly built chain description, in descriptor order.
    NewChain(Vec<EffectSpec>),
}

/// The mathematical shadow of [`ParseOutcome`].
pub enum ParseOutcomeV {
    Empty,
    Malformed,
    InvalidParam,
    UnknownEffect(Seq<u8>),
    NewChain(Seq<EffectSpec>),
}

/// The outcome a [`ParseOutcome`] denotes.
pub open spec fn outcome_view(o: ParseOutcome) -> ParseOutcomeV {
    match o {
        ParseOutcome::Empty => ParseOutcomeV::Empty,
        ParseOutcome::Malformed => ParseOutcomeV::Malformed,
        ParseOutcome::InvalidParam => ParseOutcomeV::InvalidParam,
        ParseOutcome::UnknownEffect(name) => ParseOutcomeV::UnknownEffect(name@),
        ParseOutcome::NewChain(chain) => ParseOutcomeV::NewChain(chain@),
    }
}

/// What parsing the resource's bytes yields: nothing for an empty
/// resource; otherwise the descriptor record's chain, or the exact
/// reason there is none.
pub open spec fn spec_parse_descriptor(s: Seq<u8>) -> ParseOutcomeV {
    if s.len() == 0 {
        ParseOutcomeV::Empty
    } else if s.len() > MAX_INPUT as int {
        ParseOutcomeV::Malformed
    } else {
        match spec_json(s) {
            None => ParseOutcomeV::Malformed,
            Some(root) => match spec_chain(root) {
                Ok(chain) => ParseOutcomeV::NewChain(chain),
                Err(ChainErrorV::Malformed) => ParseOutcomeV::Malformed,
                Err(ChainErrorV::InvalidParam) => ParseOutcomeV::InvalidParam,
                Err(ChainErrorV::UnknownEffect(name)) => ParseOutcomeV::UnknownEffect(name),
            },
        }
    }
}

/// Parses the shared resource's bytes into a chain description, or into
/// the exact reason there is none.
pub fn parse_descriptor(text: &Vec<u8>) -> (r: ParseOutcome)
    ensures
        outcome_view(r) == spec_parse_descriptor(text@),
        text@.len() == 0 <==> r is Empty,
{
    if text.len() == 0 {
        return ParseOutcome::Empty;
    }
    if text.len() > MAX_INPUT {
        return ParseOutcome::Malformed;
    }
    match crate::json::parse_json(text) {
        None => ParseOutcome::Malformed,
        Some(root) => {
            match crate::descriptor::chain_of_json(&root) {
                Ok(chain) => ParseOutcome::NewChain(chain),
                Err(ChainError::Malformed) => ParseOutcome::Malformed,
                Err(ChainError::InvalidParam) => ParseOutcome::InvalidParam,
                Err(ChainError::UnknownEffect(name)) => ParseOutcome::UnknownEffect(name),
            }
        },
    }
}

/// Whether the worker is to empty the resource after this outcome: a
/// consumed or rejected descriptor is cleared so it is not parsed again,
/// while an already-empty resource is left alone.
pub fn should_clear(outcome: &ParseOutcome) -> (r: bool)
    ensures
        r == !(outcome_view(*outcome) is Empty),
{
    match outcome {
        ParseOutcome::Empty => false,
        _ => true,
    }
}

} // verus!
