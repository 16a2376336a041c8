use state_models::binary64::{NEGATIVE_ZERO_BITS, ONE_BITS, ZERO_BITS};
use state_models::random::{and, and_with, negate, negate_with, InvalidProbability, RandomBool};

fn coin(prob_true: f64) -> RandomBool {
    RandomBool::new(prob_true.to_bits()).unwrap()
}

fn probability_of(variable: &RandomBool) -> f64 {
    f64::from_bits(variable.prob_true_bits())
}

#[test]
fn the_patterns_of_zero_and_one() {
    assert_eq!(ZERO_BITS, 0.0f64.to_bits());
    assert_eq!(ONE_BITS, 1.0f64.to_bits());
    assert_eq!(NEGATIVE_ZERO_BITS, (-0.0f64).to_bits());
}

#[test]
fn patterns_of_the_unit_interval_are_ordered_as_their_numbers() {
    let numbers = [
        0.0,
        f64::MIN_POSITIVE / 4.0,
        f64::MIN_POSITIVE,
        1e-300,
        0.1,
        0.25,
        0.3,
        0.5,
        0.5 + f64::EPSILON,
        0.75,
        1.0 - f64::EPSILON / 2.0,
        1.0,
    ];
    for a in numbers {
        for b in numbers {
            assert_eq!(a <= b, a.to_bits() <= b.to_bits());
        }
    }
}

#[test]
fn new_keeps_a_probability() {
    for p in [0.0, 0.25, 0.4, 0.5, 0.8, 1.0, f64::MIN_POSITIVE / 2.0] {
        let made = RandomBool::new(p.to_bits());
        assert!(made.is_ok());
        assert_eq!(probability_of(&made.unwrap()), p);
    }
}

#[test]
fn new_takes_negative_zero_for_zero() {
    let made = RandomBool::new((-0.0f64).to_bits()).unwrap();
    assert_eq!(made.prob_true_bits(), ZERO_BITS);
}

#[test]
fn new_refuses_what_is_no_probability() {
    assert_eq!(RandomBool::new(1.5f64.to_bits()).err(), Some(InvalidProbability));
    assert_eq!(RandomBool::new((-0.1f64).to_bits()).err(), Some(InvalidProbability));
}

#[test]
fn new_refuses_every_number_outside_the_unit_interval() {
    let outside = [
        1.0 + f64::EPSILON,
        2.0,
        f64::MAX,
        f64::INFINITY,
        f64::NEG_INFINITY,
        f64::NAN,
        -f64::NAN,
        -1.0,
        -f64::MIN_POSITIVE,
        -(f64::MIN_POSITIVE / 4.0),
    ];
    for p in outside {
        assert!(matches!(RandomBool::new(p.to_bits()), Err(InvalidProbability)));
    }
    assert!(RandomBool::new(u64::MAX).is_err());
    assert!(RandomBool::new(ONE_BITS + 1).is_err());
}

#[test]
fn certain_is_probability_one_or_zero() {
    assert_eq!(probability_of(&RandomBool::certain(true)), 1.0);
    assert_eq!(probability_of(&RandomBool::certain(false)), 0.0);
}

#[test]
fn get_with_compares_the_draw_with_the_probability() {
    assert_eq!(coin(0.5).get_with(0.25f64.to_bits()), true);
    assert_eq!(coin(0.5).get_with(0.5f64.to_bits()), true);
    assert_eq!(coin(0.5).get_with((0.5f64 + f64::EPSILON).to_bits()), false);
    assert_eq!(coin(0.5).get_with(0.75f64.to_bits()), false);
    assert_eq!(coin(0.8).get_with(0.79f64.to_bits()), true);
    assert_eq!(coin(0.4).get_with(0.79f64.to_bits()), false);
    assert_eq!(coin(0.3).get_with(0.0f64.to_bits()), true);
}

#[test]
fn get_with_collapses_to_what_was_seen() {
    let mut heads = coin(0.5);
    assert!(heads.get_with(0.1f64.to_bits()));
    assert_eq!(probability_of(&heads), 1.0);
    let mut tails = coin(0.5);
    assert!(!tails.get_with(0.9f64.to_bits()));
    assert_eq!(probability_of(&tails), 0.0);
}

#[test]
fn a_zero_draw_reads_true_even_at_probability_zero() {
    let mut never = coin(0.0);
    assert_eq!(never.get_with(ZERO_BITS), true);
    assert_eq!(never.prob_true_bits(), ONE_BITS);
}

#[test]
fn probability_one_always_reads_true() {
    let largest_draw = ONE_BITS - 1;
    for sample in [ZERO_BITS, 1, 0.5f64.to_bits(), largest_draw] {
        assert_eq!(coin(1.0).get_with(sample), true);
    }
    for _ in 0..1000 {
        assert_eq!(coin(1.0).get(), true);
    }
}

#[test]
fn probability_zero_reads_false_on_every_draw_but_zero() {
    let largest_draw = ONE_BITS - 1;
    for sample in [1, f64::MIN_POSITIVE.to_bits(), 0.5f64.to_bits(), largest_draw] {
        assert_eq!(coin(0.0).get_with(sample), false);
    }
    for _ in 0..1000 {
        assert_eq!(coin(0.0).get(), false);
    }
}

#[test]
fn get_leaves_the_variable_certain() {
    for _ in 0..200 {
        let mut fair = coin(0.5);
        let seen = fair.get();
        assert_eq!(probability_of(&fair), if seen { 1.0 } else { 0.0 });
    }
}

#[test]
fn what_was_observed_is_observed_again() {
    for p in [0.1, 0.5, 0.9] {
        for _ in 0..100 {
            let mut variable = coin(p);
            let first = variable.get();
            for _ in 0..20 {
                assert_eq!(variable.get(), first);
            }
        }
    }
}

#[test]
fn what_was_observed_is_observed_again_on_given_draws() {
    let draws = [1, 0.001f64.to_bits(), 0.3f64.to_bits(), 0.999f64.to_bits(), ONE_BITS - 1];
    for first_draw in draws {
        let mut variable = coin(0.3);
        let first = variable.get_with(first_draw);
        assert_eq!(first, f64::from_bits(first_draw) <= 0.3);
        for later in draws {
            assert_eq!(variable.get_with(later), first);
        }
    }
}

#[test]
fn the_share_of_heads_approaches_the_probability() {
    let trials = 10_000;
    let mut heads = 0;
    for _ in 0..trials {
        if coin(0.5).get() {
            heads += 1;
        }
    }
    let share = heads as f64 / trials as f64;
    assert!((share - 0.5).abs() <= 0.05);
}

#[test]
fn the_share_of_heads_follows_an_unfair_coin() {
    let trials = 10_000;
    let mut heads = 0;
    for _ in 0..trials {
        if coin(0.8).get() {
            heads += 1;
        }
    }
    let share = heads as f64 / trials as f64;
    assert!((share - 0.8).abs() <= 0.05);
}

#[test]
fn fresh_draws_differ() {
    let mut seen_true = false;
    let mut seen_false = false;
    for _ in 0..200 {
        if coin(0.5).get() {
            seen_true = true;
        } else {
            seen_false = true;
        }
    }
    assert!(seen_true && seen_false);
}

#[test]
fn set_with_copies_the_realized_value() {
    let mut nickel = coin(0.5);
    let mut dime = coin(0.0);
    dime.set_with(&mut nickel, 0.25f64.to_bits());
    assert_eq!(probability_of(&nickel), 1.0);
    assert_eq!(probability_of(&dime), 1.0);

    let mut nickel = coin(0.5);
    let mut dime = coin(1.0);
    dime.set_with(&mut nickel, 0.75f64.to_bits());
    assert_eq!(probability_of(&nickel), 0.0);
    assert_eq!(probability_of(&dime), 0.0);
}

#[test]
fn nickel_and_dime_agree_after_set() {
    for _ in 0..500 {
        let mut nickel = coin(0.5);
        let mut dime = coin(0.0);
        dime.set(&mut nickel);
        assert_eq!(dime.prob_true_bits(), nickel.prob_true_bits());
        let dime_first = dime.get();
        assert_eq!(nickel.get(), dime_first);
    }
    for _ in 0..500 {
        let mut nickel = coin(0.5);
        let mut dime = coin(1.0);
        dime.set(&mut nickel);
        let nickel_first = nickel.get();
        assert_eq!(dime.get(), nickel_first);
    }
}

#[test]
fn the_quarter_depends_on_the_dime() {
    let mut nickel = coin(0.5);
    let mut dime = coin(0.0);
    dime.set_with(&mut nickel, 0.1f64.to_bits());
    let mut quarter = if dime.get_with(0.6f64.to_bits()) { coin(0.8) } else { coin(0.4) };
    assert_eq!(probability_of(&quarter), 0.8);
    assert_eq!(quarter.get_with(0.6f64.to_bits()), true);
    assert_eq!(nickel.get_with(0.6f64.to_bits()), true);
}

#[test]
fn negate_with_leaves_the_complement() {
    let mut variable = coin(0.5);
    negate_with(&mut variable, 0.25f64.to_bits());
    assert_eq!(probability_of(&variable), 0.0);
    let mut variable = coin(0.5);
    negate_with(&mut variable, 0.75f64.to_bits());
    assert_eq!(probability_of(&variable), 1.0);
}

#[test]
fn negate_turns_certainty_round() {
    for _ in 0..200 {
        let mut sure = RandomBool::certain(true);
        negate(&mut sure);
        assert_eq!(sure.prob_true_bits(), ZERO_BITS);
    }
    let mut fair = coin(0.5);
    negate(&mut fair);
    let p = probability_of(&fair);
    assert!(p == 0.0 || p == 1.0);
}

#[test]
fn and_with_observes_both_operands() {
    let low = 0.25f64.to_bits();
    let high = 0.75f64.to_bits();
    for (left_draw, right_draw) in [(low, low), (low, high), (high, low), (high, high)] {
        let mut left = coin(0.5);
        let mut right = coin(0.5);
        let mut output = coin(0.3);
        and_with(&mut output, &mut left, &mut right, left_draw, right_draw);
        let left_seen = left_draw == low;
        let right_seen = right_draw == low;
        assert_eq!(probability_of(&left), if left_seen { 1.0 } else { 0.0 });
        assert_eq!(probability_of(&right), if right_seen { 1.0 } else { 0.0 });
        assert_eq!(probability_of(&output), if left_seen && right_seen { 1.0 } else { 0.0 });
    }
}

#[test]
fn and_collapses_the_right_operand_when_the_left_is_false() {
    for _ in 0..200 {
        let mut left = RandomBool::certain(false);
        let mut right = coin(0.5);
        let mut output = coin(0.5);
        and(&mut output, &mut left, &mut right);
        let p = probability_of(&right);
        assert!(p == 0.0 || p == 1.0);
    }
}

#[test]
fn the_conjunction_reads_as_its_operands() {
    for _ in 0..500 {
        let mut left = coin(0.7);
        let mut right = coin(0.6);
        let mut output = coin(0.0);
        and(&mut output, &mut left, &mut right);
        let expected = left.get() && right.get();
        assert_eq!(output.get(), expected);
    }
}

#[test]
fn the_conjunction_reads_as_its_operands_on_given_draws() {
    let draws = [0.05f64.to_bits(), 0.65f64.to_bits(), 0.95f64.to_bits()];
    for left_draw in draws {
        for right_draw in draws {
            let mut left = coin(0.7);
            let mut right = coin(0.6);
            let mut output = coin(1.0);
            and_with(&mut output, &mut left, &mut right, left_draw, right_draw);
            let then = 0.5f64.to_bits();
            let expected = left.get_with(then) && right.get_with(then);
            assert_eq!(output.get_with(then), expected);
            let seen = f64::from_bits(left_draw) <= 0.7 && f64::from_bits(right_draw) <= 0.6;
            assert_eq!(expected, seen);
        }
    }
}
