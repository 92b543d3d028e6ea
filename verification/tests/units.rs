use orderflow::units::{Price, PriceStep, Qty};

fn price(units: i64) -> Price {
    Price { units }
}

fn step(units: i64) -> PriceStep {
    PriceStep { units }
}

fn qty(units: i64) -> Qty {
    Qty { units }
}

#[test]
fn nearest_bin_rounds_ties_up() {
    assert_eq!(price(15).round_to_step(step(10)), price(20));
    assert_eq!(price(14).round_to_step(step(10)), price(10));
    assert_eq!(price(-15).round_to_step(step(10)), price(-10));
    assert_eq!(price(-16).round_to_step(step(10)), price(-20));
    assert_eq!(price(30).round_to_step(step(10)), price(30));
}

#[test]
fn nearest_bin_of_an_odd_step_has_no_ties() {
    assert_eq!(price(1).round_to_step(step(3)), price(0));
    assert_eq!(price(2).round_to_step(step(3)), price(3));
}

#[test]
fn nearest_bin_beyond_the_range_is_refused() {
    assert!(!price(i64::MAX).can_round_to_step(step(10)));
    assert!(!price(i64::MIN).can_round_to_step(step(10)));
    assert!(price(i64::MAX - 7).can_round_to_step(step(10)));
    assert!(price(0).can_round_to_step(step(i64::MAX)));
}

#[test]
fn side_bins_bracket_the_price() {
    assert_eq!(price(13).round_to_side_step(true, step(5)), price(10));
    assert_eq!(price(13).round_to_side_step(false, step(5)), price(15));
    assert_eq!(price(-13).round_to_side_step(true, step(5)), price(-15));
    assert_eq!(price(-13).round_to_side_step(false, step(5)), price(-10));
    assert_eq!(price(15).round_to_side_step(true, step(5)), price(15));
    assert_eq!(price(15).round_to_side_step(false, step(5)), price(15));
}

#[test]
fn side_bin_beyond_the_range_is_refused() {
    assert_eq!(price(i64::MAX).checked_side_step(false, step(10)), None);
    assert_eq!(price(i64::MIN).checked_side_step(true, step(10)), None);
    assert_eq!(price(7).checked_side_step(true, step(10)), Some(price(0)));
    assert_eq!(price(7).checked_side_step(false, step(10)), Some(price(10)));
}

#[test]
fn steps_add_and_count() {
    assert_eq!(price(100).add_steps(-3, step(5)), price(85));
    assert_eq!(price(100).add_steps(2, step(5)), price(110));
    assert_eq!(Price::steps_between_inclusive(price(100), price(110), step(5)), Some(3));
    assert_eq!(Price::steps_between_inclusive(price(100), price(114), step(5)), Some(3));
    assert_eq!(Price::steps_between_inclusive(price(100), price(100), step(5)), Some(1));
    assert_eq!(Price::steps_between_inclusive(price(101), price(100), step(5)), None);
    let all = Price::steps_between_inclusive(price(i64::MIN), price(i64::MAX), step(1));
    assert_eq!(all, None);
    let half = Price::steps_between_inclusive(price(i64::MIN), price(i64::MAX), step(2));
    assert_eq!(half, Some(1 << 63));
}

#[test]
fn quantities_add_subtract_and_compare() {
    assert_eq!(qty(3).plus(qty(4)), qty(7));
    assert_eq!(qty(3).minus(qty(4)), qty(-1));
    assert_eq!(qty(3).max(qty(4)), qty(4));
    assert_eq!(qty(4).max(qty(3)), qty(4));
    assert_eq!(qty(3).abs_diff(qty(10)), qty(7));
    assert_eq!(qty(10).abs_diff(qty(3)), qty(7));
    assert_eq!(Qty::default(), qty(0));
    assert!(!qty(i64::MAX).can_abs_diff(qty(-1)));
    assert!(!qty(-1).can_abs_diff(qty(i64::MAX)));
    assert!(qty(i64::MAX).can_abs_diff(qty(0)));
}
