//! From a parsed descriptor record to an effect chain description.
//!
//! A chain descriptor is an object whose `effects` member holds an
//! ordered list of entries, each an object with an `effect` member (the
//! effect's name) and a `params` member (an ordered list of numbers,
//! consumed positionally).  Unknown members are ignored; a duplicated
//! known member, a missing member, a wrong shape or a missing required
//! parameter is malformed.  An entry whose name is not a known effect
//! discards the whole descriptor and reports the offending name, and an
//! oscillator with zero frequency is rejected as an invalid parameter,
//! so a configuration error can never replace a running chain.

use vstd::prelude::*;

use crate::echo::DecayType;
use crate::json::lemma_jsons_view;
use crate::json::lemma_pairs_view;
use crate::json::json_view;
use crate::json::jsons_view;
use crate::json::pairs_view;
use crate::json::Decimal;
use crate::json::Json;
use crate::json::JsonV;
use vstd::arithmetic::div_mod::lemma_basic_div;
use vstd::arithmetic::div_mod::lemma_fundamental_div_mod;
use vstd::arithmetic::div_mod::lemma_mod_bound;
use vstd::arithmetic::power::lemma_pow0;
use vstd::arithmetic::power::lemma_pow1;
use vstd::arithmetic::power::lemma_pow_adds;
use vstd::arithmetic::power::lemma_pow_increases;
use vstd::arithmetic::power::lemma_pow_positive;
use vstd::arithmetic::power::pow;

verus! {

/// One effect of a chain, as the descriptor describes it: the effect's
/// kind and its exact numeric parameters.
#[derive(Clone, Copy, Debug, PartialEq, Eq, Structural)]
pub enum EffectSpec {
    /// The identity effect.
    AllPass,
    /// Amplitude oscillator at `freq` hertz.
    AmpLfo { freq: Decimal },
    /// Multi-tap decaying echo.
    Echo {
        delay: Decimal,
        num_echoes: u8,
        decay_type: DecayType,
        start_decay_coef: Decimal,
    },
    /// Second-order high-pass filter at `cutoff` hertz.
    HighPass { cutoff: Decimal },
    /// Second-order low-pass filter at `cutoff` hertz.
    LowPass { cutoff: Decimal },
}

/// Why a descriptor yields no chain.
pub enum ChainError {
    /// The record does not have the descriptor's shape, or a required
    /// parameter is missing.
    Malformed,
    /// A parameter holds a value the named effect cannot accept.
    InvalidParam,
    /// An entry names no known effect; the name is carried for
    /// diagnostics.
    UnknownEffect(Vec<u8>),
}

/// The mathematical shadow of [`ChainError`].
pub enum ChainErrorV {
    Malformed,
    InvalidParam,
    UnknownEffect(Seq<u8>),
}

/// The error a [`ChainError`] denotes.
pub open spec fn chain_error_view(e: ChainError) -> ChainErrorV {
    match e {
        ChainError::Malformed => ChainErrorV::Malformed,
        ChainError::InvalidParam => ChainErrorV::InvalidParam,
        ChainError::UnknownEffect(name) => ChainErrorV::UnknownEffect(name@),
    }
}

/// The known member keys of a descriptor record.
#[derive(Clone, Copy, Debug, PartialEq, Eq, Structural)]
pub enum KeyId {
    /// The `effects` member of the root object.
    Effects,
    /// The `effect` member of an entry.
    Effect,
    /// The `params` member of an entry.
    Params,
}

/// Whether `s` spells the given key.
pub open spec fn key_matches(which: KeyId, s: Seq<u8>) -> bool {
    match which {
        KeyId::Effects => s.len() == 7 && s[0] == 101 && s[1] == 102 && s[2] == 102 && s[3]
            == 101 && s[4] == 99 && s[5] == 116 && s[6] == 115,
        KeyId::Effect => s.len() == 6 && s[0] == 101 && s[1] == 102 && s[2] == 102 && s[3]
            == 101 && s[4] == 99 && s[5] == 116,
        KeyId::Params => s.len() == 6 && s[0] == 112 && s[1] == 97 && s[2] == 114 && s[3] == 97
            && s[4] == 109 && s[5] == 115,
    }
}

/// The first index at or after `i` whose member key spells the given
/// key, or the member count if there is none.
pub open spec fn spec_find(pairs: Seq<(Seq<u8>, JsonV)>, which: KeyId, i: int) -> int
    decreases pairs.len() - i when 0 <= i <= pairs.len()
{
    if i < pairs.len() {
        if key_matches(which, pairs[i].0) {
            i
        } else {
            spec_find(pairs, which, i + 1)
        }
    } else {
        pairs.len() as int
    }
}

/// The known effect names.
#[derive(Clone, Copy, Debug, PartialEq, Eq, Structural)]
pub enum NameTag {
    AllPass,
    AmpLfo,
    Echo,
    HighPass,
    LowPass,
    Unknown,
}

/// Which effect the name `s` spells.
pub open spec fn spec_name_tag(s: Seq<u8>) -> NameTag {
    if s.len() == 7 && s[0] == 97 && s[1] == 108 && s[2] == 108 && s[3] == 112 && s[4] == 97
        && s[5] == 115 && s[6] == 115 {
        NameTag::AllPass
    } else if s.len() == 6 && s[0] == 97 && s[1] == 109 && s[2] == 112 && s[3] == 108 && s[4]
        == 102 && s[5] == 111 {
        NameTag::AmpLfo
    } else if s.len() == 4 && s[0] == 101 && s[1] == 99 && s[2] == 104 && s[3] == 111 {
        NameTag::Echo
    } else if s.len() == 8 && s[0] == 104 && s[1] == 105 && s[2] == 103 && s[3] == 104 && s[4]
        == 112 && s[5] == 97 && s[6] == 115 && s[7] == 115 {
        NameTag::HighPass
    } else if s.len() == 7 && s[0] == 108 && s[1] == 111 && s[2] == 119 && s[3] == 112 && s[4]
        == 97 && s[5] == 115 && s[6] == 115 {
        NameTag::LowPass
    } else {
        NameTag::Unknown
    }
}

/// The integer part of the exact decimal `d`, clamped to `0..=255`:
/// how a count parameter is read.
pub open spec fn spec_trunc_u8(d: Decimal) -> u8 {
    if d.neg && d.mant > 0 {
        0u8
    } else {
        let v = if d.exp10 >= 0 {
            d.mant * pow(10, d.exp10 as nat)
        } else {
            d.mant as int / pow(10, (-d.exp10) as nat)
        };
        if v > 255 {
            255u8
        } else {
            v as u8
        }
    }
}

/// The number list of an entry's `params` member; `None` when a listed
/// parameter is no number.
pub open spec fn spec_params(vals: Seq<JsonV>, i: int, acc: Seq<Decimal>) -> Option<Seq<Decimal>>
    decreases vals.len() - i when 0 <= i <= vals.len()
{
    if i >= vals.len() {
        Some(acc)
    } else {
        match vals[i] {
            JsonV::Num(d) => spec_params(vals, i + 1, acc.push(d)),
            _ => None,
        }
    }
}

/// The effect an entry with name `name` and parameters `params`
/// describes; parameters are consumed positionally and surplus ones are
/// ignored.
pub open spec fn spec_effect_of(name: Seq<u8>, params: Seq<Decimal>) -> Result<
    EffectSpec,
    ChainErrorV,
> {
    match spec_name_tag(name) {
        NameTag::AllPass => Ok(EffectSpec::AllPass),
        NameTag::AmpLfo => if params.len() < 1 {
            Err(ChainErrorV::Malformed)
        } else if params[0].mant == 0 {
            Err(ChainErrorV::InvalidParam)
        } else {
            Ok(EffectSpec::AmpLfo { freq: params[0] })
        },
        NameTag::Echo => if params.len() < 4 {
            Err(ChainErrorV::Malformed)
        } else {
            Ok(
                EffectSpec::Echo {
                    delay: params[0],
                    num_echoes: spec_trunc_u8(params[1]),
                    decay_type: if params[2].mant == 0 {
                        DecayType::Linear
                    } else {
                        DecayType::Exponential
                    },
                    start_decay_coef: params[3],
                },
            )
        },
        NameTag::HighPass => if params.len() < 1 {
            Err(ChainErrorV::Malformed)
        } else {
            Ok(EffectSpec::HighPass { cutoff: params[0] })
        },
        NameTag::LowPass => if params.len() < 1 {
            Err(ChainErrorV::Malformed)
        } else {
            Ok(EffectSpec::LowPass { cutoff: params[0] })
        },
        NameTag::Unknown => Err(ChainErrorV::UnknownEffect(name)),
    }
}

/// The effect one chain entry describes: an object with an `effect`
/// name and a `params` number list, each present exactly once.
pub open spec fn spec_entry(entry: JsonV) -> Result<EffectSpec, ChainErrorV> {
    match entry {
        JsonV::Obj(pairs) => {
            let fe = spec_find(pairs, KeyId::Effect, 0);
            let fp = spec_find(pairs, KeyId::Params, 0);
            if fe >= pairs.len() || spec_find(pairs, KeyId::Effect, fe + 1) < pairs.len() {
                Err(ChainErrorV::Malformed)
            } else if fp >= pairs.len() || spec_find(pairs, KeyId::Params, fp + 1)
                < pairs.len() {
                Err(ChainErrorV::Malformed)
            } else {
                match (pairs[fe].1, pairs[fp].1) {
                    (JsonV::Str(name), JsonV::Arr(vals)) => {
                        match spec_params(vals, 0, Seq::empty()) {
                            None => Err(ChainErrorV::Malformed),
                            Some(params) => spec_effect_of(name, params),
                        }
                    },
                    _ => Err(ChainErrorV::Malformed),
                }
            }
        },
        _ => Err(ChainErrorV::Malformed),
    }
}

/// The effects the entry list describes, in order; the first failing
/// entry discards the whole list.
pub open spec fn spec_entries(items: Seq<JsonV>, i: int, acc: Seq<EffectSpec>) -> Result<
    Seq<EffectSpec>,
    ChainErrorV,
>
    decreases items.len() - i when 0 <= i <= items.len()
{
    if i >= items.len() {
        Ok(acc)
    } else {
        match spec_entry(items[i]) {
            Err(e) => Err(e),
            Ok(eff) => spec_entries(items, i + 1, acc.push(eff)),
        }
    }
}

/// The chain a whole descriptor record describes: the `effects` member
/// of the root object, present exactly once, mapped entry by entry.
pub open spec fn spec_chain(root: JsonV) -> Result<Seq<EffectSpec>, ChainErrorV> {
    match root {
        JsonV::Obj(pairs) => {
            let f = spec_find(pairs, KeyId::Effects, 0);
            if f >= pairs.len() || spec_find(pairs, KeyId::Effects, f + 1) < pairs.len() {
                Err(ChainErrorV::Malformed)
            } else {
                match pairs[f].1 {
                    JsonV::Arr(items) => spec_entries(items, 0, Seq::empty()),
                    _ => Err(ChainErrorV::Malformed),
                }
            }
        },
        _ => Err(ChainErrorV::Malformed),
    }
}

/// Exec twin of [`key_matches`].
fn key_match(which: KeyId, k: &Vec<u8>) -> (r: bool)
    ensures
        r == key_matches(which, k@),
{
    match which {
        KeyId::Effects => k.len() == 7 && k[0] == 101 && k[1] == 102 && k[2] == 102 && k[3]
            == 101 && k[4] == 99 && k[5] == 116 && k[6] == 115,
        KeyId::Effect => k.len() == 6 && k[0] == 101 && k[1] == 102 && k[2] == 102 && k[3]
            == 101 && k[4] == 99 && k[5] == 116,
        KeyId::Params => k.len() == 6 && k[0] == 112 && k[1] == 97 && k[2] == 114 && k[3] == 97
            && k[4] == 109 && k[5] == 115,
    }
}

/// Exec twin of [`spec_find`], scanning from `start`.
fn find_key(pairs: &Vec<(Vec<u8>, Json)>, which: KeyId, start: usize) -> (r: usize)
    requires
        start <= pairs@.len(),
    ensures
        r as int == spec_find(pairs_view(pairs@), which, start as int),
        start <= r <= pairs@.len(),
{
    proof {
        lemma_pairs_view(pairs@);
    }
    let mut i = start;
    while i < pairs.len() && !key_match(which, &pairs[i].0)
        invariant
            start <= i <= pairs@.len(),
            pairs_view(pairs@).len() == pairs@.len(),
            forall|k: int|
                0 <= k < pairs@.len() ==> pairs_view(pairs@)[k] == ((#[trigger] pairs@[k]).0@,
                json_view(pairs@[k].1)),
            spec_find(pairs_view(pairs@), which, start as int) == spec_find(
                pairs_view(pairs@),
                which,
                i as int,
            ),
        decreases pairs@.len() - i,
    {
        i = i + 1;
    }
    i
}

/// Exec twin of [`spec_name_tag`].
fn name_tag(s: &Vec<u8>) -> (r: NameTag)
    ensures
        r == spec_name_tag(s@),
{
    if s.len() == 7 && s[0] == 97 && s[1] == 108 && s[2] == 108 && s[3] == 112 && s[4] == 97
        && s[5] == 115 && s[6] == 115 {
        NameTag::AllPass
    } else if s.len() == 6 && s[0] == 97 && s[1] == 109 && s[2] == 112 && s[3] == 108 && s[4]
        == 102 && s[5] == 111 {
        NameTag::AmpLfo
    } else if s.len() == 4 && s[0] == 101 && s[1] == 99 && s[2] == 104 && s[3] == 111 {
        NameTag::Echo
    } else if s.len() == 8 && s[0] == 104 && s[1] == 105 && s[2] == 103 && s[3] == 104 && s[4]
        == 112 && s[5] == 97 && s[6] == 115 && s[7] == 115 {
        NameTag::HighPass
    } else if s.len() == 7 && s[0] == 108 && s[1] == 111 && s[2] == 119 && s[3] == 112 && s[4]
        == 97 && s[5] == 115 && s[6] == 115 {
        NameTag::LowPass
    } else {
        NameTag::Unknown
    }
}

/// Small concrete powers of ten.
proof fn lemma_pow10_small()
    ensures
        pow(10, 0) == 1,
        pow(10, 1) == 10,
        pow(10, 2) == 100,
        pow(10, 3) == 1000,
{
    lemma_pow0(10);
    lemma_pow1(10);
    lemma_pow_adds(10, 1, 1);
    lemma_pow_adds(10, 2, 1);
}

/// The powers of ten at the edge of the 64-bit range.
proof fn lemma_pow10_large()
    ensures
        pow(10, 19) == 10_000_000_000_000_000_000int,
        pow(10, 20) == 100_000_000_000_000_000_000int,
{
    lemma_pow10_small();
    lemma_pow_adds(10, 2, 2);
    lemma_pow_adds(10, 4, 4);
    lemma_pow_adds(10, 8, 8);
    lemma_pow_adds(10, 16, 3);
    lemma_pow_adds(10, 16, 4);
    assert(pow(10, 4) == 10_000int) by (nonlinear_arith)
        requires
            pow(10, 4) == pow(10, 2) * pow(10, 2),
            pow(10, 2) == 100,
    ;
    assert(pow(10, 8) == 100_000_000int) by (nonlinear_arith)
        requires
            pow(10, 8) == pow(10, 4) * pow(10, 4),
            pow(10, 4) == 10_000,
    ;
    assert(pow(10, 16) == 10_000_000_000_000_000int) by (nonlinear_arith)
        requires
            pow(10, 16) == pow(10, 8) * pow(10, 8),
            pow(10, 8) == 100_000_000,
    ;
    assert(pow(10, 19) == 10_000_000_000_000_000_000int) by (nonlinear_arith)
        requires
            pow(10, 19) == pow(10, 16) * pow(10, 3),
            pow(10, 16) == 10_000_000_000_000_000,
            pow(10, 3) == 1000,
    ;
    assert(pow(10, 20) == 100_000_000_000_000_000_000int) by (nonlinear_arith)
        requires
            pow(10, 20) == pow(10, 16) * pow(10, 4),
            pow(10, 16) == 10_000_000_000_000_000,
            pow(10, 4) == 10_000,
    ;
}

/// Exec twin of [`spec_trunc_u8`]: the integer part of the exact
/// decimal `d`, clamped to `0..=255`.
pub fn trunc_u8(d: &Decimal) -> (r: u8)
    ensures
        r == spec_trunc_u8(*d),
{
    if d.neg && d.mant > 0 {
        return 0;
    }
    if d.exp10 >= 0 {
        let e = d.exp10;
        if d.mant == 0 {
            proof {
                lemma_pow_positive(10, e as nat);
            }
            return 0;
        }
        if e >= 3 {
            proof {
                lemma_pow10_small();
                lemma_pow_increases(10, 3, e as nat);
                assert(d.mant * pow(10, e as nat) >= 1000) by (nonlinear_arith)
                    requires
                        d.mant >= 1,
                        pow(10, e as nat) >= 1000,
                ;
            }
            return 255;
        }
        let p: u64 = if e == 0 {
            1
        } else if e == 1 {
            10
        } else {
            100
        };
        proof {
            lemma_pow10_small();
        }
        if d.mant > 255 / p {
            proof {
                let q = 255int / (p as int);
                lemma_fundamental_div_mod(255int, p as int);
                lemma_mod_bound(255int, p as int);
                assert(d.mant * p > 255) by (nonlinear_arith)
                    requires
                        d.mant >= q + 1,
                        255int == (p as int) * q + (255int % (p as int)),
                        255int % (p as int) >= 0,
                        p > 0,
                ;
            }
            255
        } else {
            proof {
                let q = 255int / (p as int);
                lemma_fundamental_div_mod(255int, p as int);
                lemma_mod_bound(255int, p as int);
                assert(0 <= d.mant * p <= 255) by (nonlinear_arith)
                    requires
                        0 <= d.mant <= q,
                        255int == (p as int) * q + (255int % (p as int)),
                        255int % (p as int) < p as int,
                        p > 0,
                ;
            }
            (d.mant * p) as u8
        }
    } else {
        let me64: i64 = -(d.exp10 as i64);
        if me64 >= 20 {
            proof {
                lemma_pow10_large();
                lemma_pow_increases(10, 20, me64 as nat);
                lemma_basic_div(d.mant as int, pow(10, me64 as nat));
            }
            return 0;
        }
        let me: u64 = me64 as u64;
        let mut p: u64 = 1;
        let mut k: u64 = 0;
        proof {
            lemma_pow0(10);
        }
        while k < me
            invariant
                0 <= k <= me <= 19,
                p == pow(10, k as nat),
            decreases me - k,
        {
            proof {
                lemma_pow10_large();
                lemma_pow1(10);
                lemma_pow_adds(10, k as nat, 1);
                lemma_pow_increases(10, (k + 1) as nat, 19);
                lemma_pow_positive(10, k as nat);
            }
            p = p * 10;
            k = k + 1;
        }
        proof {
            lemma_pow_positive(10, me as nat);
        }
        let q = d.mant / p;
        if q > 255 {
            255
        } else {
            q as u8
        }
    }
}

/// Exec twin of [`spec_params`]: the number list of a `params` member.
fn params_of(vals: &Vec<Json>) -> (r: Option<Vec<Decimal>>)
    ensures
        match (r, spec_params(jsons_view(vals@), 0, Seq::<Decimal>::empty())) {
            (Some(ps), Some(sps)) => ps@ == sps,
            (None, None) => true,
            _ => false,
        },
{
    proof {
        lemma_jsons_view(vals@);
    }
    let mut out: Vec<Decimal> = Vec::new();
    let mut i: usize = 0;
    while i < vals.len()
        invariant
            0 <= i <= vals@.len(),
            jsons_view(vals@).len() == vals@.len(),
            forall|k: int|
                0 <= k < vals@.len() ==> jsons_view(vals@)[k] == json_view(#[trigger] vals@[k]),
            spec_params(jsons_view(vals@), 0, Seq::<Decimal>::empty()) == spec_params(
                jsons_view(vals@),
                i as int,
                out@,
            ),
        decreases vals@.len() - i,
    {
        match &vals[i] {
            Json::Num(d) => {
                out.push(*d);
            },
            _ => {
                return None;
            },
        }
        i = i + 1;
    }
    Some(out)
}

/// Exec twin of [`spec_effect_of`]: builds the effect a name and its
/// positional parameters describe.
pub fn effect_of(name: &Vec<u8>, params: &Vec<Decimal>) -> (r: Result<EffectSpec, ChainError>)
    ensures
        match (r, spec_effect_of(name@, params@)) {
            (Ok(e), Ok(se)) => e == se,
            (Err(e), Err(se)) => chain_error_view(e) == se,
            _ => false,
        },
{
    match name_tag(name) {
        NameTag::AllPass => Ok(EffectSpec::AllPass),
        NameTag::AmpLfo => {
            if params.len() < 1 {
                Err(ChainError::Malformed)
            } else if params[0].mant == 0 {
                Err(ChainError::InvalidParam)
            } else {
                Ok(EffectSpec::AmpLfo { freq: params[0] })
            }
        },
        NameTag::Echo => {
            if params.len() < 4 {
                Err(ChainError::Malformed)
            } else {
                Ok(
                    EffectSpec::Echo {
                        delay: params[0],
                        num_echoes: trunc_u8(&params[1]),
                        decay_type: if params[2].mant == 0 {
                            DecayType::Linear
                        } else {
                            DecayType::Exponential
                        },
                        start_decay_coef: params[3],
                    },
                )
            }
        },
        NameTag::HighPass => {
            if params.len() < 1 {
                Err(ChainError::Malformed)
            } else {
                Ok(EffectSpec::HighPass { cutoff: params[0] })
            }
        },
        NameTag::LowPass => {
            if params.len() < 1 {
                Err(ChainError::Malformed)
            } else {
                Ok(EffectSpec::LowPass { cutoff: params[0] })
            }
        },
        NameTag::Unknown => {
            let copy = name.clone();
            proof {
                assert(copy@ =~= name@);
            }
            Err(ChainError::UnknownEffect(copy))
        },
    }
}

/// Exec twin of [`spec_entry`]: the effect one chain entry describes.
pub fn entry_effect(entry: &Json) -> (r: Result<EffectSpec, ChainError>)
    ensures
        match (r, spec_entry(json_view(*entry))) {
            (Ok(e), Ok(se)) => e == se,
            (Err(e), Err(se)) => chain_error_view(e) == se,
            _ => false,
        },
{
    match entry {
        Json::Obj(pairs) => {
            proof {
                lemma_pairs_view(pairs@);
            }
            let n = pairs.len();
            let fe = find_key(pairs, KeyId::Effect, 0);
            if fe >= n {
                return Err(ChainError::Malformed);
            }
            let fe2 = find_key(pairs, KeyId::Effect, fe + 1);
            if fe2 < n {
                return Err(ChainError::Malformed);
            }
            let fp = find_key(pairs, KeyId::Params, 0);
            if fp >= n {
                return Err(ChainError::Malformed);
            }
            let fp2 = find_key(pairs, KeyId::Params, fp + 1);
            if fp2 < n {
                return Err(ChainError::Malformed);
            }
            match &pairs[fe].1 {
                Json::Str(name) => {
                    match &pairs[fp].1 {
                        Json::Arr(vals) => {
                            match params_of(vals) {
                                None => Err(ChainError::Malformed),
                                Some(params) => effect_of(name, &params),
                            }
                        },
                        _ => Err(ChainError::Malformed),
                    }
                },
                _ => Err(ChainError::Malformed),
            }
        },
        _ => Err(ChainError::Malformed),
    }
}

/// Exec twin of [`spec_chain`]: the chain a whole descriptor record
/// describes.
#[verifier::loop_isolation(false)]
pub fn chain_of_json(root: &Json) -> (r: Result<Vec<EffectSpec>, ChainError>)
    ensures
        match (r, spec_chain(json_view(*root))) {
            (Ok(c), Ok(sc)) => c@ == sc,
            (Err(e), Err(se)) => chain_error_view(e) == se,
            _ => false,
        },
{
    match root {
        Json::Obj(pairs) => {
            proof {
                lemma_pairs_view(pairs@);
            }
            let n = pairs.len();
            let f = find_key(pairs, KeyId::Effects, 0);
            if f >= n {
                return Err(ChainError::Malformed);
            }
            let f2 = find_key(pairs, KeyId::Effects, f + 1);
            if f2 < n {
                return Err(ChainError::Malformed);
            }
            match &pairs[f].1 {
                Json::Arr(items) => {
                    proof {
                        lemma_jsons_view(items@);
                    }
                    let mut out: Vec<EffectSpec> = Vec::new();
                    let mut i: usize = 0;
                    while i < items.len()
                        invariant
                            0 <= i <= items@.len(),
                            jsons_view(items@).len() == items@.len(),
                            forall|k: int|
                                0 <= k < items@.len() ==> jsons_view(items@)[k] == json_view(
                                    #[trigger] items@[k],
                                ),
                            spec_entries(jsons_view(items@), 0, Seq::<EffectSpec>::empty())
                                == spec_entries(jsons_view(items@), i as int, out@),
                        decreases items@.len() - i,
                    {
                        match entry_effect(&items[i]) {
                            Err(e) => {
                                return Err(e);
                            },
                            Ok(eff) => {
                                out.push(eff);
                            },
                        }
                        i = i + 1;
                    }
                    Ok(out)
                },
                _ => Err(ChainError::Malformed),
            }
        },
        _ => Err(ChainError::Malformed),
    }
}

} // verus!
