use ria_lv2::descriptor::trunc_u8;
use ria_lv2::descriptor::EffectSpec;
use ria_lv2::echo::DecayType;
use ria_lv2::json::Decimal;
use ria_lv2::parser::parse_descriptor;
use ria_lv2::parser::should_clear;
use ria_lv2::parser::ParseOutcome;

fn dec(neg: bool, mant: u64, exp10: i32) -> Decimal {
    Decimal { neg, mant, exp10 }
}

fn parse(text: &str) -> ParseOutcome {
    parse_descriptor(&text.as_bytes().to_vec())
}

#[test]
fn two_filter_descriptor_builds_the_same_chain_as_direct_construction() {
    let out = parse(
        "{\"effects\":[{\"effect\":\"lowpass\",\"params\":[1000]},{\"effect\":\"highpass\",\"params\":[500]}]}",
    );
    let direct = vec![
        EffectSpec::LowPass { cutoff: dec(false, 1000, 0) },
        EffectSpec::HighPass { cutoff: dec(false, 500, 0) },
    ];
    match out {
        ParseOutcome::NewChain(chain) => assert_eq!(chain, direct),
        _ => panic!("expected a chain"),
    }
}

#[test]
fn malformed_descriptor_is_no_change_and_clears() {
    let out = parse("not json");
    assert!(matches!(out, ParseOutcome::Malformed));
    assert!(should_clear(&out));
    // Once the resource is cleared a later parse sees it as empty.
    let again = parse("");
    assert!(matches!(again, ParseOutcome::Empty));
    assert!(!should_clear(&again));
}

#[test]
fn empty_effects_list_clears_to_an_empty_chain() {
    match parse("{\"effects\":[]}") {
        ParseOutcome::NewChain(chain) => assert!(chain.is_empty()),
        _ => panic!("expected a chain"),
    }
}

#[test]
fn every_effect_name_is_recognised() {
    let out = parse(
        "{\"effects\":[{\"effect\":\"allpass\",\"params\":[]},{\"effect\":\"amplfo\",\"params\":[2]},{\"effect\":\"echo\",\"params\":[0.5,3,0,0.75]},{\"effect\":\"highpass\",\"params\":[500]},{\"effect\":\"lowpass\",\"params\":[1000]}]}",
    );
    let expected = vec![
        EffectSpec::AllPass,
        EffectSpec::AmpLfo { freq: dec(false, 2, 0) },
        EffectSpec::Echo {
            delay: dec(false, 5, -1),
            num_echoes: 3,
            decay_type: DecayType::Linear,
            start_decay_coef: dec(false, 75, -2),
        },
        EffectSpec::HighPass { cutoff: dec(false, 500, 0) },
        EffectSpec::LowPass { cutoff: dec(false, 1000, 0) },
    ];
    match out {
        ParseOutcome::NewChain(chain) => assert_eq!(chain, expected),
        _ => panic!("expected a chain"),
    }
}

#[test]
fn unknown_effect_name_reports_the_name() {
    let out = parse("{\"effects\":[{\"effect\":\"reverb\",\"params\":[]}]}");
    match out {
        ParseOutcome::UnknownEffect(name) => assert_eq!(name, b"reverb".to_vec()),
        _ => panic!("expected the unknown name"),
    }
    assert!(should_clear(&parse("{\"effects\":[{\"effect\":\"reverb\",\"params\":[]}]}")));
}

#[test]
fn missing_params_member_is_malformed() {
    let out = parse("{\"effects\":[{\"effect\":\"amplfo\"}]}");
    assert!(matches!(out, ParseOutcome::Malformed));
}

#[test]
fn missing_required_parameter_is_malformed() {
    let out = parse("{\"effects\":[{\"effect\":\"echo\",\"params\":[0.5,3,0]}]}");
    assert!(matches!(out, ParseOutcome::Malformed));
}

#[test]
fn zero_frequency_oscillator_is_an_invalid_parameter() {
    let out = parse("{\"effects\":[{\"effect\":\"amplfo\",\"params\":[0]}]}");
    assert!(matches!(out, ParseOutcome::InvalidParam));
    let out = parse("{\"effects\":[{\"effect\":\"amplfo\",\"params\":[0.000]}]}");
    assert!(matches!(out, ParseOutcome::InvalidParam));
}

#[test]
fn unknown_members_are_ignored() {
    let out = parse(
        "{\"version\":7,\"effects\":[{\"extra\":[1,{\"a\":null},true],\"effect\":\"allpass\",\"params\":[]}],\"note\":\"x\"}",
    );
    match out {
        ParseOutcome::NewChain(chain) => assert_eq!(chain, vec![EffectSpec::AllPass]),
        _ => panic!("expected a chain"),
    }
}

#[test]
fn duplicate_known_member_is_malformed() {
    let out = parse("{\"effects\":[],\"effects\":[]}");
    assert!(matches!(out, ParseOutcome::Malformed));
    let out = parse(
        "{\"effects\":[{\"effect\":\"allpass\",\"effect\":\"allpass\",\"params\":[]}]}",
    );
    assert!(matches!(out, ParseOutcome::Malformed));
}

#[test]
fn numbers_are_parsed_exactly() {
    let cases = [
        ("1000", dec(false, 1000, 0)),
        ("-2.5", dec(true, 25, -1)),
        ("1e3", dec(false, 1, 3)),
        ("2.5e-2", dec(false, 25, -3)),
        ("0.75", dec(false, 75, -2)),
        ("0", dec(false, 0, 0)),
    ];
    for (text, expected) in cases.iter() {
        let out = parse(&format!(
            "{{\"effects\":[{{\"effect\":\"lowpass\",\"params\":[{}]}}]}}",
            text
        ));
        match out {
            ParseOutcome::NewChain(chain) => {
                assert_eq!(chain, vec![EffectSpec::LowPass { cutoff: *expected }]);
            },
            _ => panic!("expected a chain for {}", text),
        }
    }
}

#[test]
fn bad_number_shapes_are_malformed() {
    for text in ["01", "1.", ".5", "1e", "-", "+1", "0x10"].iter() {
        let out = parse(&format!(
            "{{\"effects\":[{{\"effect\":\"lowpass\",\"params\":[{}]}}]}}",
            text
        ));
        assert!(matches!(out, ParseOutcome::Malformed), "accepted {}", text);
    }
}

#[test]
fn non_numeric_parameter_is_malformed() {
    let out = parse("{\"effects\":[{\"effect\":\"lowpass\",\"params\":[\"1000\"]}]}");
    assert!(matches!(out, ParseOutcome::Malformed));
}

#[test]
fn surrounding_whitespace_is_insignificant() {
    let out = parse(
        " \t\r\n{ \"effects\" : [ { \"effect\" : \"allpass\" , \"params\" : [ ] } ] } \n",
    );
    match out {
        ParseOutcome::NewChain(chain) => assert_eq!(chain, vec![EffectSpec::AllPass]),
        _ => panic!("expected a chain"),
    }
}

#[test]
fn string_escapes_are_decoded() {
    // An unknown name with escapes is reported decoded.
    let out = parse("{\"effects\":[{\"effect\":\"a\\\"b\\\\c\\n\",\"params\":[]}]}");
    match out {
        ParseOutcome::UnknownEffect(name) => assert_eq!(name, b"a\"b\\c\n".to_vec()),
        _ => panic!("expected the unknown name"),
    }
}

#[test]
fn echo_count_parameter_truncates_and_clamps() {
    assert_eq!(trunc_u8(&dec(false, 29, -1)), 2);
    assert_eq!(trunc_u8(&dec(true, 3, 0)), 0);
    assert_eq!(trunc_u8(&dec(false, 300, 0)), 255);
    assert_eq!(trunc_u8(&dec(false, 255, 0)), 255);
    assert_eq!(trunc_u8(&dec(false, 9, -1)), 0);
    assert_eq!(trunc_u8(&dec(false, 25, 1)), 250);
    assert_eq!(trunc_u8(&dec(false, 1, 30)), 255);
    assert_eq!(trunc_u8(&dec(false, 123456789, -25)), 0);
}
