//! Price tiers, and the order in which a terminal keeps them.

use crate::amount::Amount;
use crate::decimal::{decimal_product, decimal_sum, exact_product, exact_sum, DecimalValue};
use vstd::prelude::*;

verus! {

/// One price tier of an item.
///
/// With `min == 0` the tier is the base rate: `price` is charged for each
/// unit. With `min > 0` it is a bulk rate: `price` is charged for each
/// complete group of `min` units.
#[derive(Clone, Copy, Debug, PartialEq)]
pub struct Price {
    pub min: usize,
    pub price: Amount,
}

/// The tiers of an item that costs `base` a unit and has the bulk rates
/// `bulk`, each "`min` units for `price`": the base tier, then the bulk tiers
/// in the order in which they were given.
pub fn tiers_of(base: Amount, bulk: &Vec<(usize, Amount)>) -> (tiers: Vec<Price>)
    ensures
        tiers@.len() == bulk@.len() + 1,
        tiers@[0] == (Price { min: 0, price: base }),
        forall|i: int|
            1 <= i < tiers@.len() ==> #[trigger] tiers@[i] == (Price {
                min: bulk@[i - 1].0,
                price: bulk@[i - 1].1,
            }),
{
    let mut tiers: Vec<Price> = Vec::new();
    tiers.push(Price { min: 0, price: base });
    let mut i: usize = 0;
    while i < bulk.len()
        invariant
            i <= bulk.len(),
            tiers@.len() == i + 1,
            tiers@[0] == (Price { min: 0, price: base }),
            forall|k: int|
                1 <= k <= i ==> #[trigger] tiers@[k] == (Price {
                    min: bulk@[k - 1].0,
                    price: bulk@[k - 1].1,
                }),
        decreases bulk.len() - i,
    {
        tiers.push(Price { min: bulk[i].0, price: bulk[i].1 });
        i += 1;
    }
    tiers
}

/// Whether the prices in `tiers` never rise from one tier to the next.
pub open spec fn descending(tiers: Seq<Price>) -> bool {
    forall|i: int, j: int|
        0 <= i <= j < tiers.len() ==> tiers[i].price@.units() >= tiers[j].price@.units()
}

/// `tiers` with `tier` put in behind every tier that is not cheaper than it.
pub open spec fn placed(tiers: Seq<Price>, tier: Price) -> Seq<Price>
    decreases tiers.len(),
{
    if tiers.len() > 0 && tiers.last().price@.units() < tier.price@.units() {
        placed(tiers.drop_last(), tier).push(tiers.last())
    } else {
        tiers.push(tier)
    }
}

/// `tiers` in the order a terminal keeps them: the dearest first, and tiers
/// of equal price in the order in which they were given.
pub open spec fn by_descending_price(tiers: Seq<Price>) -> Seq<Price>
    decreases tiers.len(),
{
    if tiers.len() == 0 {
        tiers
    } else {
        placed(by_descending_price(tiers.drop_last()), tiers.last())
    }
}

/// Putting a tier in at `at` is `placed`, if exactly the tiers from `at` on
/// are cheaper than it.
proof fn lemma_placed_is_insert(tiers: Seq<Price>, tier: Price, at: int)
    requires
        0 <= at <= tiers.len(),
        forall|k: int| at <= k < tiers.len() ==> tiers[k].price@.units() < tier.price@.units(),
        at > 0 ==> tiers[at - 1].price@.units() >= tier.price@.units(),
    ensures
        placed(tiers, tier) == tiers.insert(at, tier),
    decreases tiers.len() - at,
{
    if at == tiers.len() {
        assert(tiers.push(tier) =~= tiers.insert(at, tier));
    } else {
        let front = tiers.drop_last();
        lemma_placed_is_insert(front, tier, at);
        assert(front.insert(at, tier).push(tiers.last()) =~= tiers.insert(at, tier));
    }
}

/// A copy of `tiers` with the dearest tier first; tiers of equal price keep
/// the order in which they were given.
pub fn sort_tiers(tiers: &Vec<Price>) -> (sorted: Vec<Price>)
    ensures
        sorted@ == by_descending_price(tiers@),
{
    let mut sorted: Vec<Price> = Vec::new();
    let mut i: usize = 0;
    while i < tiers.len()
        invariant
            i <= tiers.len(),
            sorted@ == by_descending_price(tiers@.take(i as int)),
        decreases tiers.len() - i,
    {
        let tier = tiers[i];
        let mut at: usize = sorted.len();
        while at > 0 && sorted[at - 1].price.is_less_than(&tier.price)
            invariant
                at <= sorted.len(),
                forall|k: int|
                    at <= k < sorted.len() ==> sorted[k].price@.units() < tier.price@.units(),
            decreases at,
        {
            at -= 1;
        }
        proof {
            lemma_placed_is_insert(sorted@, tier, at as int);
            assert(tiers@.take(i + 1).drop_last() =~= tiers@.take(i as int));
        }
        sorted.insert(at, tier);
        i += 1;
    }
    proof {
        assert(tiers@.take(tiers.len() as int) =~= tiers@);
    }
    sorted
}

/// `so_far` with `n` times `price` added to it; `None` where the product or
/// the sum overflows.
pub open spec fn with_charge(so_far: DecimalValue, price: DecimalValue, n: nat) -> Option<
    DecimalValue,
> {
    match decimal_product(price, n) {
        Some(charge) => decimal_sum(so_far, charge),
        None => None,
    }
}

/// What `so_far` grows to when `remaining` units are priced against the tiers
/// from index `from` on, one tier after the other:
///
/// - a base tier (`min == 0`) charges its price for each remaining unit, and
///   leaves the units to the tiers behind it;
/// - a bulk tier charges its price for each complete group of `min` units
///   that the remaining units hold, and leaves the rest;
/// - pricing ends with the last tier, or once no unit remains.
///
/// `None` where a product or a sum on the way overflows.
pub open spec fn charged(tiers: Seq<Price>, from: int, remaining: nat, so_far: DecimalValue)
    -> Option<DecimalValue>
    decreases tiers.len() - from,
{
    if from < 0 || from >= tiers.len() || remaining == 0 {
        Some(so_far)
    } else if tiers[from].min == 0 {
        match with_charge(so_far, tiers[from].price@, remaining) {
            Some(sum) => charged(tiers, from + 1, remaining, sum),
            None => None,
        }
    } else if remaining >= tiers[from].min {
        let min = tiers[from].min as nat;
        match with_charge(so_far, tiers[from].price@, remaining / min) {
            Some(sum) => charged(tiers, from + 1, remaining % min, sum),
            None => None,
        }
    } else {
        charged(tiers, from + 1, remaining, so_far)
    }
}

/// The price of `count` units of an item whose tiers are `tiers`, taken in
/// the order in which they stand.
pub open spec fn subtotal_of(tiers: Seq<Price>, count: nat) -> Option<DecimalValue> {
    charged(tiers, 0, count, DecimalValue::zero())
}

/// The price of `remaining` units against the tiers from index `from` on as
/// a whole number of units of 10^-28: what `charged` adds where nothing
/// overflows.
pub open spec fn units_charged(tiers: Seq<Price>, from: int, remaining: nat) -> int
    decreases tiers.len() - from,
{
    if from < 0 || from >= tiers.len() || remaining == 0 {
        0
    } else if tiers[from].min == 0 {
        tiers[from].price@.units() * remaining + units_charged(tiers, from + 1, remaining)
    } else if remaining >= tiers[from].min {
        let min = tiers[from].min as nat;
        tiers[from].price@.units() * (remaining / min) + units_charged(
            tiers,
            from + 1,
            remaining % min,
        )
    } else {
        units_charged(tiers, from + 1, remaining)
    }
}

/// Whether `n` times `price` and its sum with `so_far` are both in range
/// without rounding.
pub open spec fn charge_in_range(so_far: DecimalValue, price: DecimalValue, n: nat) -> bool {
    exact_product(price, n).in_range() && exact_sum(so_far, exact_product(price, n)).in_range()
}

/// Whether every product and every sum that `charged` forms on its way is in
/// range without rounding.
pub open spec fn charged_in_range(
    tiers: Seq<Price>,
    from: int,
    remaining: nat,
    so_far: DecimalValue,
) -> bool
    decreases tiers.len() - from,
{
    if from < 0 || from >= tiers.len() || remaining == 0 {
        true
    } else if tiers[from].min == 0 {
        let price = tiers[from].price@;
        charge_in_range(so_far, price, remaining) && charged_in_range(
            tiers,
            from + 1,
            remaining,
            exact_sum(so_far, exact_product(price, remaining)),
        )
    } else if remaining >= tiers[from].min {
        let price = tiers[from].price@;
        let min = tiers[from].min as nat;
        charge_in_range(so_far, price, remaining / min) && charged_in_range(
            tiers,
            from + 1,
            remaining % min,
            exact_sum(so_far, exact_product(price, remaining / min)),
        )
    } else {
        charged_in_range(tiers, from + 1, remaining, so_far)
    }
}

/// `so_far + price * n`, or `None` where that overflows.
fn charge(so_far: &Amount, price: &Amount, n: usize) -> (r: Option<Amount>)
    ensures
        match r {
            Some(sum) => with_charge(so_far@, price@, n as nat) == Some(sum@),
            None => with_charge(so_far@, price@, n as nat) is None,
        },
{
    match price.checked_times(n as u64) {
        Some(product) => so_far.checked_add(&product),
        None => None,
    }
}

/// The price of `count` units of an item whose tiers are `tiers`, taken in
/// the order in which they stand; `None` where the arithmetic overflows.
///
/// Tiers are not validated: without a base tier, units that fill no bulk
/// group are not charged for.
pub fn subtotal(tiers: &Vec<Price>, count: usize) -> (r: Option<Amount>)
    ensures
        match r {
            Some(price) => subtotal_of(tiers@, count as nat) == Some(price@),
            None => subtotal_of(tiers@, count as nat) is None,
        },
{
    let mut so_far = Amount::zero();
    let mut remaining = count;
    let mut k: usize = 0;
    while k < tiers.len() && remaining > 0
        invariant
            k <= tiers.len(),
            subtotal_of(tiers@, count as nat) == charged(
                tiers@,
                k as int,
                remaining as nat,
                so_far@,
            ),
        decreases tiers.len() - k,
    {
        let tier = tiers[k];
        if tier.min == 0 {
            match charge(&so_far, &tier.price, remaining) {
                Some(sum) => {
                    so_far = sum;
                },
                None => {
                    return None;
                },
            }
        } else if remaining >= tier.min {
            match charge(&so_far, &tier.price, remaining / tier.min) {
                Some(sum) => {
                    so_far = sum;
                },
                None => {
                    return None;
                },
            }
            remaining = remaining % tier.min;
        }
        k += 1;
    }
    Some(so_far)
}

} // verus!
