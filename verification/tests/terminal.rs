use rust_decimal::Decimal;
use scanner_terminal::amount::Amount;
use scanner_terminal::price::{subtotal, tiers_of, Price};
use scanner_terminal::terminal::{Terminal, TerminalError};

fn money(text: &str) -> Amount {
    let number: Decimal = text.parse().unwrap();
    Amount::new(number.mantissa(), number.scale()).unwrap()
}

fn tier(min: usize, price: &str) -> Price {
    Price { min, price: money(price) }
}

fn catalog() -> Vec<(char, Vec<Price>)> {
    vec![
        ('A', vec![tier(0, "2"), tier(4, "7")]),
        ('B', vec![tier(0, "12")]),
        ('C', vec![tier(0, "1.25"), tier(6, "6")]),
        ('D', vec![tier(0, "0.15")]),
    ]
}

fn scanned(prices: Vec<(char, Vec<Price>)>, items: &str) -> Terminal {
    let mut terminal = Terminal::new(prices);
    for item in items.chars() {
        assert_eq!(terminal.scan(item), Ok(()));
    }
    terminal
}

#[test]
fn it_parses() {
    assert_eq!(
        tiers_of(money("2"), &vec![(4, money("7"))]),
        vec![
            Price {
                min: 0,
                price: money("2")
            },
            Price {
                min: 4,
                price: money("7")
            }
        ]
    );
}

#[test]
fn base_price_alone_gives_one_tier() {
    assert_eq!(tiers_of(money("0.15"), &vec![]), vec![tier(0, "0.15")]);
}

#[test]
fn bulk_tiers_follow_the_base_tier_in_the_given_order() {
    assert_eq!(
        tiers_of(money("1.25"), &vec![(6, money("6")), (3, money("3.50"))]),
        vec![tier(0, "1.25"), tier(6, "6"), tier(3, "3.50")]
    );
}

#[test]
fn mixed_basket_totals_32_40() {
    let terminal = scanned(catalog(), "ABCDABAA");
    assert_eq!(terminal.total(), Ok(money("32.40")));
}

#[test]
fn seven_of_c_total_7_25() {
    let terminal = scanned(catalog(), "CCCCCCC");
    assert_eq!(terminal.total(), Ok(money("7.25")));
}

#[test]
fn one_of_each_totals_15_40() {
    let terminal = scanned(catalog(), "ABCD");
    assert_eq!(terminal.total(), Ok(money("15.40")));
}

#[test]
fn six_of_c_total_6_00() {
    let terminal = scanned(catalog(), "CCCCCC");
    assert_eq!(terminal.total(), Ok(money("6.00")));
}

#[test]
fn nothing_scanned_totals_zero() {
    let terminal = Terminal::new(catalog());
    assert_eq!(terminal.total(), Ok(money("0.00")));
}

#[test]
fn empty_catalog_totals_zero() {
    let terminal = Terminal::new(vec![]);
    assert_eq!(terminal.total(), Ok(Amount::zero()));
}

#[test]
fn total_keeps_the_scale_of_the_prices() {
    let total = scanned(catalog(), "ABCDABAA").total().unwrap();
    assert_eq!((total.mantissa(), total.scale()), (3240, 2));
    let whole = scanned(catalog(), "CCCCCC").total().unwrap();
    assert_eq!((whole.mantissa(), whole.scale()), (6, 0));
}

#[test]
fn total_can_be_read_again() {
    let mut terminal = scanned(catalog(), "ABCDABAA");
    let first = terminal.total();
    let second = terminal.total();
    assert_eq!(first, Ok(money("32.40")));
    assert_eq!(first, second);
    assert_eq!(terminal.scan('D'), Ok(()));
    assert_eq!(terminal.total(), Ok(money("32.55")));
    assert_eq!(terminal.total(), Ok(money("32.55")));
}

#[test]
fn scan_order_does_not_change_the_total() {
    let interleaved = scanned(catalog(), "ABCDABAACCCCCC");
    let grouped = scanned(catalog(), "AAAABBCCCCCCCD");
    let reversed = scanned(catalog(), "DCCCCCCCBBAAAA");
    assert_eq!(interleaved.total(), Ok(money("38.40")));
    assert_eq!(grouped.total(), interleaved.total());
    assert_eq!(reversed.total(), interleaved.total());
}

#[test]
fn unknown_item_is_refused() {
    let mut terminal = Terminal::new(catalog());
    assert_eq!(terminal.scan('Z'), Err(TerminalError::UnknownItem));
    assert_eq!(terminal.total(), Ok(money("0")));
}

#[test]
fn refused_scan_leaves_the_tally_alone() {
    let mut terminal = scanned(catalog(), "AAAC");
    let before = terminal.total();
    assert_eq!(terminal.scan('a'), Err(TerminalError::UnknownItem));
    assert_eq!(terminal.scan('E'), Err(TerminalError::UnknownItem));
    assert_eq!(terminal.total(), before);
    assert_eq!(terminal.scan('A'), Ok(()));
    assert_eq!(terminal.total(), Ok(money("8.25")));
}

#[test]
fn empty_catalog_knows_no_item() {
    let mut terminal = Terminal::new(vec![]);
    assert_eq!(terminal.scan('A'), Err(TerminalError::UnknownItem));
}

#[test]
fn exactly_one_group_costs_the_bulk_price() {
    assert_eq!(scanned(catalog(), "AAAA").total(), Ok(money("7")));
    assert_eq!(scanned(catalog(), "CCCCCC").total(), Ok(money("6")));
}

#[test]
fn one_unit_short_of_a_group_costs_the_base_price_each() {
    assert_eq!(scanned(catalog(), "AAA").total(), Ok(money("6")));
    assert_eq!(scanned(catalog(), "CCCCC").total(), Ok(money("6.25")));
}

#[test]
fn one_unit_over_a_group_costs_the_bulk_price_and_one_base_price() {
    assert_eq!(scanned(catalog(), "AAAAA").total(), Ok(money("9")));
    assert_eq!(scanned(catalog(), "CCCCCCC").total(), Ok(money("7.25")));
}

#[test]
fn several_groups_are_charged_once_each() {
    assert_eq!(scanned(catalog(), "AAAAAAAAAAA").total(), Ok(money("20")));
    let tiers = vec![tier(6, "6"), tier(0, "1.25")];
    assert_eq!(subtotal(&tiers, 20), Some(money("20.50")));
}

#[test]
fn tiers_are_walked_from_the_dearest_down() {
    let prices = vec![('E', vec![tier(0, "1"), tier(3, "2.50"), tier(10, "8")])];
    assert_eq!(scanned(prices.clone(), "EEEEEEEEEEEEEEEE").total(), Ok(money("13")));
    assert_eq!(scanned(prices.clone(), "EEEEEEEEEEEEEE").total(), Ok(money("11.50")));
    assert_eq!(scanned(prices.clone(), "EEEEEEEEE").total(), Ok(money("7.50")));
    assert_eq!(scanned(prices, "EE").total(), Ok(money("2")));
}

#[test]
fn bulk_tier_cheaper_than_the_base_price_is_charged_on_top() {
    let prices = vec![('F', vec![tier(0, "5"), tier(2, "3")])];
    assert_eq!(scanned(prices.clone(), "FF").total(), Ok(money("13")));
    assert_eq!(scanned(prices.clone(), "F").total(), Ok(money("5")));
    assert_eq!(scanned(prices, "FFF").total(), Ok(money("18")));
}

#[test]
fn tiers_of_equal_price_keep_the_given_order() {
    let base_first = vec![('G', vec![tier(0, "5"), tier(2, "5")])];
    assert_eq!(scanned(base_first, "GG").total(), Ok(money("15")));
    let bulk_first = vec![('G', vec![tier(2, "5.00"), tier(0, "5")])];
    assert_eq!(scanned(bulk_first, "GG").total(), Ok(money("5")));
}

#[test]
fn units_outside_every_tier_are_not_charged() {
    let prices = vec![('H', vec![tier(3, "5")])];
    assert_eq!(scanned(prices.clone(), "HHHH").total(), Ok(money("5")));
    assert_eq!(scanned(prices, "HH").total(), Ok(money("0")));
    let none = vec![('I', vec![])];
    assert_eq!(scanned(none, "III").total(), Ok(money("0")));
}

#[test]
fn first_entry_of_a_code_is_the_one_that_counts() {
    let prices = vec![
        ('J', vec![tier(0, "3")]),
        ('K', vec![tier(0, "1")]),
        ('J', vec![tier(0, "100")]),
    ];
    assert_eq!(scanned(prices, "JKJ").total(), Ok(money("7")));
}

#[test]
fn subtotal_takes_the_tiers_as_they_stand() {
    let dearest_first = vec![tier(4, "7"), tier(0, "2")];
    assert_eq!(subtotal(&dearest_first, 0), Some(money("0")));
    assert_eq!(subtotal(&dearest_first, 3), Some(money("6")));
    assert_eq!(subtotal(&dearest_first, 4), Some(money("7")));
    assert_eq!(subtotal(&dearest_first, 5), Some(money("9")));
    let base_first = vec![tier(0, "2"), tier(4, "7")];
    assert_eq!(subtotal(&base_first, 5), Some(money("17")));
    assert_eq!(subtotal(&vec![], 5), Some(money("0")));
}

#[test]
fn negative_prices_are_summed_like_any_other() {
    let prices = vec![
        ('L', vec![tier(0, "1.25")]),
        ('M', vec![tier(0, "-0.50")]),
    ];
    assert_eq!(scanned(prices.clone(), "LMM").total(), Ok(money("0.25")));
    assert_eq!(scanned(prices, "LMMM").total(), Ok(money("-0.25")));
}

#[test]
fn total_beyond_the_largest_amount_is_an_overflow() {
    let largest = Amount::new(79_228_162_514_264_337_593_543_950_335, 0).unwrap();
    let prices = vec![('N', vec![Price { min: 0, price: largest }])];
    assert_eq!(scanned(prices.clone(), "N").total(), Ok(largest));
    assert_eq!(scanned(prices, "NN").total(), Err(TerminalError::Overflow));
}

#[test]
fn sum_beyond_the_largest_amount_is_an_overflow() {
    let largest = Amount::new(79_228_162_514_264_337_593_543_950_335, 0).unwrap();
    let prices = vec![
        ('O', vec![Price { min: 0, price: largest }]),
        ('P', vec![tier(0, "1")]),
    ];
    assert_eq!(scanned(prices.clone(), "O").total(), Ok(largest));
    assert_eq!(scanned(prices, "OP").total(), Err(TerminalError::Overflow));
}

#[test]
fn total_out_of_exact_range_is_what_the_decimal_arithmetic_gives() {
    let price = Amount::new(79_228_162_514_264_337_593_543_950_335, 1).unwrap();
    let prices = vec![('Q', vec![Price { min: 0, price }])];
    let total = scanned(prices, "QQ").total().unwrap();
    let expected = Decimal::from_i128_with_scale(79_228_162_514_264_337_593_543_950_335, 1)
        .checked_mul(Decimal::from(2u64))
        .unwrap();
    assert_eq!((total.mantissa(), total.scale()), (expected.mantissa(), expected.scale()));
    assert_eq!((total.mantissa(), total.scale()), (15_845_632_502_852_867_518_708_790_067, 0));
}
