use ria_lv2::descriptor::EffectSpec;
use ria_lv2::json::Decimal;
use ria_lv2::parser::ParseOutcome;
use ria_lv2::pipeline::control_bypasses;
use ria_lv2::pipeline::Pipeline;
use ria_lv2::pipeline::Session;

fn lowpass(mant: u64) -> EffectSpec {
    EffectSpec::LowPass { cutoff: Decimal { neg: false, mant, exp10: 0 } }
}

#[test]
fn fresh_pipeline_holds_one_allpass() {
    let p = Pipeline::new();
    assert_eq!(p.effects(), &vec![EffectSpec::AllPass]);
}

#[test]
fn set_replaces_the_whole_chain() {
    let mut p = Pipeline::new();
    p.set(vec![lowpass(1000), lowpass(500)]);
    assert_eq!(p.effects(), &vec![lowpass(1000), lowpass(500)]);
    p.set(vec![lowpass(250)]);
    assert_eq!(p.effects(), &vec![lowpass(250)]);
    p.tear_down();
    assert_eq!(p.effects(), &vec![EffectSpec::AllPass]);
}

#[test]
fn at_most_one_unit_of_work_is_in_flight() {
    let mut s = Session::new();
    assert!(s.block_start(true));
    // A second active block while work is outstanding requests nothing.
    assert!(!s.block_start(true));
    s.deliver(ParseOutcome::Empty);
    assert!(s.block_start(true));
}

#[test]
fn inactive_blocks_request_no_work() {
    let mut s = Session::new();
    assert!(!s.block_start(false));
    assert!(!s.block_start(false));
    assert!(s.block_start(true));
}

#[test]
fn only_a_delivered_chain_changes_the_pipeline() {
    let mut s = Session::new();
    assert_eq!(s.effects(), &vec![EffectSpec::AllPass]);
    s.block_start(true);
    s.deliver(ParseOutcome::Malformed);
    assert_eq!(s.effects(), &vec![EffectSpec::AllPass]);
    s.block_start(true);
    s.deliver(ParseOutcome::NewChain(vec![lowpass(1000), lowpass(500)]));
    assert_eq!(s.effects(), &vec![lowpass(1000), lowpass(500)]);
    s.block_start(true);
    s.deliver(ParseOutcome::UnknownEffect(b"reverb".to_vec()));
    assert_eq!(s.effects(), &vec![lowpass(1000), lowpass(500)]);
    s.block_start(true);
    s.deliver(ParseOutcome::Empty);
    assert_eq!(s.effects(), &vec![lowpass(1000), lowpass(500)]);
}

#[test]
fn block_start_never_changes_the_chain() {
    let mut s = Session::new();
    s.deliver(ParseOutcome::NewChain(vec![lowpass(750)]));
    assert_eq!(s.effects(), &vec![lowpass(750)]);
    s.block_start(true);
    assert_eq!(s.effects(), &vec![lowpass(750)]);
    s.block_start(false);
    assert_eq!(s.effects(), &vec![lowpass(750)]);
}

#[test]
fn control_bypass_follows_the_sign_and_zeroes() {
    assert!(control_bypasses(0.0f32.to_bits()));
    assert!(control_bypasses((-0.0f32).to_bits()));
    assert!(control_bypasses((-1.0f32).to_bits()));
    assert!(control_bypasses(f32::MIN.to_bits()));
    assert!(!control_bypasses(1.0f32.to_bits()));
    assert!(!control_bypasses(f32::MIN_POSITIVE.to_bits()));
    assert!(!control_bypasses(0.5f32.to_bits()));
    // NaN compares false against zero, whatever its sign bit says.
    assert!(!control_bypasses(f32::NAN.to_bits()));
    assert!(!control_bypasses(f32::NAN.to_bits() | 0x8000_0000));
    // Negative subnormals and negative infinity are at most zero.
    assert!(control_bypasses((-f32::MIN_POSITIVE).to_bits()));
    assert!(control_bypasses(f32::NEG_INFINITY.to_bits()));
}
