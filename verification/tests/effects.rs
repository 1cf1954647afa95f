use ria_lv2::allpass::AllPass;
use ria_lv2::decay::decay_table;
use ria_lv2::decay::exponential_coef;
use ria_lv2::decay::linear_coef;
use ria_lv2::decay::Ratio;
use ria_lv2::echo::DecayType;
use ria_lv2::echo::Delay;
use ria_lv2::echo::Echo;

#[test]
fn allpass_returns_input_unchanged() {
    let mut ap = AllPass;
    let l = 0.25f32.to_bits();
    let r = (-1.5f32).to_bits();
    assert_eq!(ap.run((l, r)), (l, r));
    assert_eq!(ap.run((0, u32::MAX)), (0, u32::MAX));
}

#[test]
fn delay_tap_fills_then_pops_its_oldest() {
    // Capacity 3: the first three samples pass through unchanged while
    // they fill the tap; the fourth pops the oldest stored sample, which
    // leaves room, so the fifth is stored and passes through again.
    let mut tap = Delay::new(3);
    let outs: Vec<u32> = [1u32, 2, 3, 4, 5].iter().map(|&s| tap.run(s)).collect();
    assert_eq!(outs, vec![1, 2, 3, 1, 5]);
}

#[test]
fn full_delay_tap_alternates_pop_and_push() {
    let mut tap = Delay::new(2);
    assert_eq!(tap.run(10), 10);
    assert_eq!(tap.run(20), 20);
    // Full: pop the oldest, dropping below capacity again.
    assert_eq!(tap.run(30), 10);
    // Room again: store and pass through.
    assert_eq!(tap.run(40), 40);
    assert_eq!(tap.run(50), 20);
    assert_eq!(tap.run(60), 60);
}

#[test]
fn delay_tap_with_zero_capacity_is_silent() {
    let mut tap = Delay::new(0);
    assert_eq!(tap.run(7), 0);
    assert_eq!(tap.run(8), 0);
}

#[test]
fn echo_bank_advances_every_tap() {
    let mut bank = Echo::new(&vec![1usize, 3usize]);
    assert_eq!(bank.advance(11), vec![11, 11]);
    // Tap 0 (capacity 1) is full now and pops its stored sample; tap 1
    // still fills.
    assert_eq!(bank.advance(12), vec![11, 12]);
    // Tap 0 emptied, so it stores again; tap 1 reaches its capacity.
    assert_eq!(bank.advance(13), vec![13, 13]);
    // Tap 0 pops once more; tap 1 is full and pops its oldest.
    assert_eq!(bank.advance(14), vec![13, 11]);
}

#[test]
fn linear_decay_table_of_three_quarters() {
    // start = 1, three echoes: 1 - i/4 gives 0.75, 0.5, 0.25.
    let start = Ratio { num: 1, den: 1 };
    let table = decay_table(DecayType::Linear, start, 3).unwrap();
    let expected = [(3i128, 4i128), (2, 4), (1, 4)];
    assert_eq!(table.len(), 3);
    for (coef, (n, d)) in table.iter().zip(expected.iter()) {
        assert_eq!((coef.num, coef.den), (*n, *d));
    }
    assert_eq!(table[0].num as f64 / table[0].den as f64, 0.75);
    assert_eq!(table[1].num as f64 / table[1].den as f64, 0.5);
    assert_eq!(table[2].num as f64 / table[2].den as f64, 0.25);
}

#[test]
fn exponential_decay_first_coefficient() {
    // start = 1, three echoes: coef(1) = (1 - 2/5)^1 = 3/5 = 0.6.
    let start = Ratio { num: 1, den: 1 };
    let table = decay_table(DecayType::Exponential, start, 3).unwrap();
    assert_eq!(table.len(), 3);
    assert_eq!((table[0].num, table[0].den), (3, 5));
    assert_eq!(table[0].num as f64 / table[0].den as f64, 0.6);
    // coef(2) = (3/5)^2, coef(3) = (3/5)^3.
    assert_eq!((table[1].num, table[1].den), (9, 25));
    assert_eq!((table[2].num, table[2].den), (27, 125));
}

#[test]
fn per_tap_coefficients_match_the_table() {
    let start = Ratio { num: 3, den: 4 };
    let lin = linear_coef(start, 2, 3);
    // 3/4 - 2/4 = (3*4 - 2*4) / (4*4).
    assert_eq!((lin.num, lin.den), (4, 16));
    let exp = exponential_coef(start, 2, 3).unwrap();
    // 3/4 * (3/5)^2 = 27/100.
    assert_eq!((exp.num, exp.den), (27, 100));
}

#[test]
fn exponential_decay_overflows_to_none() {
    // 255 echoes: the exact denominator 257^255 cannot fit 128 bits.
    let start = Ratio { num: 1, den: 1 };
    assert!(decay_table(DecayType::Exponential, start, 255).is_none());
    // The linear schedule is always built.
    assert!(decay_table(DecayType::Linear, start, 255).is_some());
}
