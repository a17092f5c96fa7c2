use scanner_terminal::amount::Amount;
use scanner_terminal::price::{sort_tiers, Price};

fn amount(mantissa: i128, scale: u32) -> Amount {
    Amount::new(mantissa, scale).unwrap()
}

fn parts(amount: Option<Amount>) -> Option<(i128, u32)> {
    amount.map(|a| (a.mantissa(), a.scale()))
}

#[test]
fn amount_holds_its_parts() {
    let a = amount(-12345678, 7);
    assert_eq!(a.mantissa(), -12345678);
    assert_eq!(a.scale(), 7);
    assert_eq!((Amount::zero().mantissa(), Amount::zero().scale()), (0, 0));
}

#[test]
fn amount_is_bounded_by_96_bits_and_28_digits() {
    let limit: i128 = 79_228_162_514_264_337_593_543_950_336;
    assert!(Amount::new(limit - 1, 28).is_some());
    assert!(Amount::new(1 - limit, 28).is_some());
    assert!(Amount::new(limit, 0).is_none());
    assert!(Amount::new(-limit, 0).is_none());
    assert!(Amount::new(1, 29).is_none());
    assert!(Amount::new(i128::MAX, 0).is_none());
    assert!(Amount::new(i128::MIN, 0).is_none());
    assert!(Amount::new(0, u32::MAX).is_none());
}

#[test]
fn amounts_are_equal_when_they_stand_for_the_same_number() {
    assert_eq!(amount(6, 0), amount(600, 2));
    assert_eq!(amount(0, 0), amount(0, 5));
    assert_ne!(amount(6, 0), amount(6, 1));
    assert_ne!(amount(125, 2), amount(-125, 2));
    assert_eq!(amount(1, 0), amount(10_000_000_000_000_000_000_000_000_000, 28));
}

#[test]
fn amounts_are_ordered_by_the_numbers_they_stand_for() {
    assert!(amount(2, 0).is_less_than(&amount(7, 0)));
    assert!(!amount(7, 0).is_less_than(&amount(2, 0)));
    assert!(!amount(6, 0).is_less_than(&amount(600, 2)));
    assert!(amount(125, 2).is_less_than(&amount(6, 0)));
    assert!(amount(15, 2).is_less_than(&amount(2, 1)));
    assert!(amount(-1, 0).is_less_than(&amount(0, 3)));
    assert!(amount(-2, 0).is_less_than(&amount(-15, 1)));
}

#[test]
fn sum_is_formed_at_the_larger_scale() {
    assert_eq!(parts(amount(125, 2).checked_add(&amount(15, 2))), Some((140, 2)));
    assert_eq!(parts(amount(31, 0).checked_add(&amount(125, 2))), Some((3225, 2)));
    assert_eq!(parts(amount(125, 2).checked_add(&amount(31, 0))), Some((3225, 2)));
    assert_eq!(parts(amount(125, 2).checked_add(&amount(-125, 2))), Some((0, 2)));
    assert_eq!(parts(amount(5, 1).checked_add(&amount(-15, 0))), Some((-145, 1)));
}

#[test]
fn sum_with_zero_is_the_other_amount_as_it_is() {
    assert_eq!(parts(amount(0, 0).checked_add(&amount(125, 2))), Some((125, 2)));
    assert_eq!(parts(amount(0, 5).checked_add(&amount(7, 0))), Some((7, 0)));
    assert_eq!(parts(amount(7, 0).checked_add(&amount(0, 5))), Some((7, 0)));
    assert_eq!(parts(amount(0, 3).checked_add(&amount(0, 1))), Some((0, 1)));
}

#[test]
fn sum_out_of_range_at_scale_0_is_none() {
    let largest = amount(79_228_162_514_264_337_593_543_950_335, 0);
    assert_eq!(parts(largest.checked_add(&amount(1, 0))), None);
    assert_eq!(
        parts(largest.checked_add(&amount(-1, 0))),
        Some((79_228_162_514_264_337_593_543_950_334, 0))
    );
}

#[test]
fn product_keeps_the_scale_of_the_amount() {
    assert_eq!(parts(amount(125, 2).checked_times(7)), Some((875, 2)));
    assert_eq!(parts(amount(125, 2).checked_times(1)), Some((125, 2)));
    assert_eq!(parts(amount(-15, 2).checked_times(3)), Some((-45, 2)));
    assert_eq!(parts(amount(12, 0).checked_times(2)), Some((24, 0)));
    assert_eq!(
        parts(amount(1, 28).checked_times(u64::MAX)),
        Some((18_446_744_073_709_551_615, 28))
    );
}

#[test]
fn product_with_zero_is_zero_at_scale_0() {
    assert_eq!(parts(amount(125, 2).checked_times(0)), Some((0, 0)));
    assert_eq!(parts(amount(0, 2).checked_times(9)), Some((0, 0)));
}

#[test]
fn product_out_of_range_at_scale_0_is_none() {
    let largest = amount(79_228_162_514_264_337_593_543_950_335, 0);
    assert_eq!(parts(largest.checked_times(2)), None);
    assert_eq!(
        parts(amount(39_614_081_257_132_168_796_771_975_167, 0).checked_times(2)),
        Some((79_228_162_514_264_337_593_543_950_334, 0))
    );
}

#[test]
fn tiers_are_sorted_dearest_first() {
    let given = vec![
        Price { min: 0, price: amount(125, 2) },
        Price { min: 6, price: amount(6, 0) },
        Price { min: 3, price: amount(35, 1) },
    ];
    let sorted = sort_tiers(&given);
    let mins: Vec<usize> = sorted.iter().map(|tier| tier.min).collect();
    assert_eq!(mins, vec![6, 3, 0]);
    assert_eq!(sorted[0], given[1]);
    assert_eq!(sorted[1], given[2]);
    assert_eq!(sorted[2], given[0]);
}

#[test]
fn sorting_keeps_tiers_of_equal_price_in_the_given_order() {
    let given = vec![
        Price { min: 1, price: amount(5, 0) },
        Price { min: 2, price: amount(7, 0) },
        Price { min: 3, price: amount(50, 1) },
        Price { min: 4, price: amount(700, 2) },
        Price { min: 5, price: amount(5, 0) },
    ];
    let mins: Vec<usize> = sort_tiers(&given).iter().map(|tier| tier.min).collect();
    assert_eq!(mins, vec![2, 4, 1, 3, 5]);
    assert!(sort_tiers(&vec![]).is_empty());
}
