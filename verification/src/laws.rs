//! What holds of every terminal, proved from the definitions.

use crate::decimal::{
    aligned_sum, decimal_product, decimal_sum, exact_product, exact_sum, DecimalValue, MAX_SCALE,
};
use crate::price::{
    by_descending_price, charged, charged_in_range, descending, placed, subtotal_of,
    units_charged, with_charge, Price,
};
use crate::terminal::TerminalModel;
use vstd::arithmetic::power::{lemma_pow_adds, pow};
use vstd::prelude::*;
use vstd::seq_lib::to_multiset_build;

verus! {

/// A mantissa brought from one scale to a larger one stands for the same
/// number.
proof fn lemma_units_at_scale(mantissa: int, from: nat, to: nat)
    requires
        from <= to <= MAX_SCALE,
    ensures
        (mantissa * pow(10, (to - from) as nat)) * pow(10, (MAX_SCALE - to) as nat) == mantissa
            * pow(10, (MAX_SCALE - from) as nat),
{
    let up = pow(10, (to - from) as nat);
    let rest = pow(10, (MAX_SCALE - to) as nat);
    lemma_pow_adds(10, (to - from) as nat, (MAX_SCALE - to) as nat);
    assert(((to - from) as nat) + ((MAX_SCALE - to) as nat) == (MAX_SCALE - from) as nat);
    assert((mantissa * up) * rest == mantissa * (up * rest)) by (nonlinear_arith);
}

/// A decimal with mantissa 0 stands for zero.
proof fn lemma_zero_units(a: DecimalValue)
    requires
        a.mantissa == 0,
    ensures
        a.units() == 0,
{
    let one = pow(10, (MAX_SCALE - a.scale) as nat);
    assert(a.mantissa * one == 0) by (nonlinear_arith)
        requires
            a.mantissa == 0,
    ;
}

/// The exact sum of two decimals stands for the sum of the numbers they
/// stand for, and is what `decimal_sum` gives wherever it is in range.
pub proof fn law_exact_sum(a: DecimalValue, b: DecimalValue)
    requires
        a.scale <= MAX_SCALE,
        b.scale <= MAX_SCALE,
    ensures
        exact_sum(a, b).units() == a.units() + b.units(),
        exact_sum(a, b).in_range() ==> decimal_sum(a, b) == Some(exact_sum(a, b)),
{
    if a.mantissa != 0 && b.mantissa != 0 {
        let scale = aligned_sum(a, b).scale;
        let left = a.mantissa * pow(10, (scale - a.scale) as nat);
        let right = b.mantissa * pow(10, (scale - b.scale) as nat);
        let rest = pow(10, (MAX_SCALE - scale) as nat);
        lemma_units_at_scale(a.mantissa, a.scale, scale);
        lemma_units_at_scale(b.mantissa, b.scale, scale);
        assert(left * rest == a.units());
        assert(right * rest == b.units());
        assert((left + right) * rest == left * rest + right * rest) by (nonlinear_arith);
        assert(aligned_sum(a, b).units() == (left + right) * rest);
    } else if a.mantissa == 0 {
        lemma_zero_units(a);
    } else {
        lemma_zero_units(b);
    }
}

/// The exact product of a decimal and a whole number stands for the number
/// times the whole number, and is what `decimal_product` gives wherever it
/// is in range.
pub proof fn law_exact_product(p: DecimalValue, n: nat)
    ensures
        exact_product(p, n).units() == p.units() * n,
        exact_product(p, n).in_range() ==> decimal_product(p, n) == Some(exact_product(p, n)),
{
    let one = pow(10, (MAX_SCALE - p.scale) as nat);
    if p.mantissa == 0 || n == 0 {
        lemma_zero_units(DecimalValue::zero());
        assert(p.units() * n == 0) by (nonlinear_arith)
            requires
                p.units() == p.mantissa * one,
                p.mantissa == 0 || n == 0,
        ;
    } else {
        assert((p.mantissa * n) * one == (p.mantissa * one) * n) by (nonlinear_arith);
    }
}

/// Where nothing overflows, pricing is exact: what `charged` returns stands
/// for `so_far` plus the price of the remaining units.
pub proof fn law_exact_pricing(
    tiers: Seq<Price>,
    from: int,
    remaining: nat,
    so_far: DecimalValue,
)
    requires
        0 <= from,
        so_far.in_range(),
        charged_in_range(tiers, from, remaining, so_far),
    ensures
        charged(tiers, from, remaining, so_far) matches Some(sum) && sum.in_range() && sum.units()
            == so_far.units() + units_charged(tiers, from, remaining),
    decreases tiers.len() - from,
{
    if from >= tiers.len() || remaining == 0 {
    } else {
        let price = tiers[from].price@;
        let min = tiers[from].min as nat;
        if min == 0 || remaining >= min {
            let n = if min == 0 {
                remaining
            } else {
                remaining / min
            };
            let rest = if min == 0 {
                remaining
            } else {
                remaining % min
            };
            let product = exact_product(price, n);
            let sum = exact_sum(so_far, product);
            law_exact_product(price, n);
            law_exact_sum(so_far, product);
            assert(with_charge(so_far, price, n) == Some(sum));
            law_exact_pricing(tiers, from + 1, rest, sum);
        } else {
            law_exact_pricing(tiers, from + 1, remaining, so_far);
        }
    }
}

/// Where nothing overflows, the total is exact: what `total_from` returns
/// stands for `so_far` plus the price of every scanned unit.
pub proof fn law_exact_total(model: TerminalModel, from: int, so_far: DecimalValue)
    requires
        0 <= from,
        so_far.in_range(),
        model.total_in_range(from, so_far),
    ensures
        model.total_from(from, so_far) matches Some(sum) && sum.in_range() && sum.units()
            == so_far.units() + model.units_from(from),
    decreases model.codes.len() - from,
{
    if from >= model.codes.len() {
    } else if model.counts[from] == 0 {
        law_exact_total(model, from + 1, so_far);
    } else {
        let price = subtotal_of(model.tiers[from], model.counts[from]).unwrap();
        law_exact_pricing(model.tiers[from], 0, model.counts[from], DecimalValue::zero());
        law_exact_sum(so_far, price);
        law_exact_total(model, from + 1, exact_sum(so_far, price));
    }
}

/// Where `placed` puts a tier: behind the last tier that is not cheaper.
spec fn place_of(tiers: Seq<Price>, tier: Price) -> int
    decreases tiers.len(),
{
    if tiers.len() > 0 && tiers.last().price@.units() < tier.price@.units() {
        place_of(tiers.drop_last(), tier)
    } else {
        tiers.len() as int
    }
}

/// `placed` inserts the tier at `place_of`, in front of exactly the tiers at
/// the end that are cheaper than it.
proof fn lemma_placed(tiers: Seq<Price>, tier: Price)
    ensures
        0 <= place_of(tiers, tier) <= tiers.len(),
        placed(tiers, tier) == tiers.insert(place_of(tiers, tier), tier),
        forall|k: int|
            place_of(tiers, tier) <= k < tiers.len() ==> tiers[k].price@.units()
                < tier.price@.units(),
        place_of(tiers, tier) > 0 ==> tiers[place_of(tiers, tier) - 1].price@.units()
            >= tier.price@.units(),
    decreases tiers.len(),
{
    if tiers.len() > 0 && tiers.last().price@.units() < tier.price@.units() {
        let front = tiers.drop_last();
        lemma_placed(front, tier);
        assert(front.insert(place_of(front, tier), tier).push(tiers.last()) =~= tiers.insert(
            place_of(front, tier),
            tier,
        ));
        assert forall|k: int| place_of(tiers, tier) <= k < tiers.len() implies tiers[k].price@.units()
            < tier.price@.units() by {
            if k < front.len() {
                assert(front[k] == tiers[k]);
            }
        }
        if place_of(tiers, tier) > 0 {
            assert(front[place_of(front, tier) - 1] == tiers[place_of(tiers, tier) - 1]);
        }
    } else {
        assert(tiers.push(tier) =~= tiers.insert(tiers.len() as int, tier));
    }
}

/// The order a terminal keeps tiers in is a descending one, and holds the
/// tiers that were given, each as often as it was given.
pub proof fn law_tiers_are_sorted(tiers: Seq<Price>)
    ensures
        descending(by_descending_price(tiers)),
        by_descending_price(tiers).len() == tiers.len(),
        by_descending_price(tiers).to_multiset() == tiers.to_multiset(),
    decreases tiers.len(),
{
    if tiers.len() == 0 {
    } else {
        let front = tiers.drop_last();
        let tier = tiers.last();
        let sorted = by_descending_price(front);
        law_tiers_are_sorted(front);
        lemma_placed(sorted, tier);
        let at = place_of(sorted, tier);
        let result = sorted.insert(at, tier);
        assert forall|i: int, j: int| 0 <= i <= j < result.len() implies result[i].price@.units()
            >= result[j].price@.units() by {
            if i < at && j > at {
                assert(sorted[i].price@.units() >= sorted[at - 1].price@.units());
            }
        }
        assert(front.push(tier) =~= tiers);
        to_multiset_build(front, tier);
        sorted.to_multiset_ensures();
        assert(sorted.insert(at, tier).remove(at) =~= sorted);
        result.to_multiset_ensures();
        assert(result.to_multiset().remove(tier) =~= sorted.to_multiset());
        assert(result.to_multiset() =~= sorted.to_multiset().insert(tier));
    }
}

/// Tiers that were given in descending order are kept as they were given:
/// among tiers of equal price the order of the catalog decides.
pub proof fn law_sorted_tiers_stay(tiers: Seq<Price>)
    requires
        descending(tiers),
    ensures
        by_descending_price(tiers) == tiers,
    decreases tiers.len(),
{
    if tiers.len() > 0 {
        let front = tiers.drop_last();
        law_sorted_tiers_stay(front);
        assert(front.push(tiers.last()) =~= tiers);
    }
}

/// Of a base tier and a bulk tier, the dearer one is kept first, in
/// whichever order the two were given; at equal prices the order in which
/// they were given is kept.
pub proof fn law_order_of_two_tiers(first: Price, second: Price)
    ensures
        first.price@.units() >= second.price@.units() ==> by_descending_price(seq![first, second])
            == seq![first, second],
        first.price@.units() < second.price@.units() ==> by_descending_price(seq![first, second])
            == seq![second, first],
{
    let given = seq![first, second];
    if first.price@.units() >= second.price@.units() {
        law_sorted_tiers_stay(given);
    } else {
        let front = given.drop_last();
        assert(front =~= seq![first]);
        law_sorted_tiers_stay(front);
        assert(front.drop_last() =~= Seq::<Price>::empty());
        assert(placed(front.drop_last(), second) =~= seq![second]);
        assert(placed(front, second) =~= seq![second, first]);
    }
}

/// The boundary of a bulk tier. For an item with a bulk tier "`min` units
/// for `price`" kept in front of a base tier, where `min` is at least 2:
///
/// - exactly `min` units cost the bulk price;
/// - one unit fewer costs the base price for each unit;
/// - one unit more costs the bulk price plus the base price.
///
/// The bulk tier is kept in front where it is the dearer of the two (see
/// `law_order_of_two_tiers`). The two amounts that the second and third
/// claim name must be in range.
pub proof fn law_tier_boundary(bulk: Price, base: Price)
    requires
        bulk.price@.in_range(),
        base.price@.in_range(),
        bulk.min >= 2,
        base.min == 0,
        exact_product(base.price@, (bulk.min - 1) as nat).in_range(),
        exact_sum(bulk.price@, base.price@).in_range(),
    ensures
        subtotal_of(seq![bulk, base], bulk.min as nat) matches Some(price) && price.units()
            == bulk.price@.units(),
        subtotal_of(seq![bulk, base], (bulk.min - 1) as nat) matches Some(price) && price.units()
            == base.price@.units() * (bulk.min - 1),
        subtotal_of(seq![bulk, base], (bulk.min + 1) as nat) matches Some(price) && price.units()
            == bulk.price@.units() + base.price@.units(),
{
    let tiers = seq![bulk, base];
    let min = bulk.min as nat;
    let zero = DecimalValue::zero();
    let whole = exact_product(bulk.price@, 1);
    let single = exact_product(base.price@, 1);
    assert(min / min == 1 && min % min == 0) by (nonlinear_arith)
        requires
            min >= 2,
    ;
    assert((min + 1) / min == 1 && (min + 1) % min == 1) by (nonlinear_arith)
        requires
            min >= 2,
    ;
    law_exact_product(bulk.price@, 1);
    law_exact_product(base.price@, 1);
    law_exact_product(base.price@, (min - 1) as nat);
    law_exact_sum(whole, single);
    law_exact_sum(bulk.price@, base.price@);
    reveal_with_fuel(charged_in_range, 3);
    reveal_with_fuel(units_charged, 3);

    assert(charged_in_range(tiers, 0, min, zero));
    law_exact_pricing(tiers, 0, min, zero);

    assert(charged_in_range(tiers, 0, (min - 1) as nat, zero));
    law_exact_pricing(tiers, 0, (min - 1) as nat, zero);

    assert(charged_in_range(tiers, 0, min + 1, zero));
    law_exact_pricing(tiers, 0, min + 1, zero);
}

/// If entry `i` is the first entry for `code`, it is the entry that
/// `position` names.
proof fn lemma_position_is_first(model: TerminalModel, code: char, i: int)
    requires
        model.first_at(code, i),
    ensures
        model.knows(code),
        model.position(code) == i,
{
    let p = model.position(code);
    assert(model.first_at(code, p));
    if p < i {
        assert(model.codes[p] != code);
    }
    if i < p {
        assert(model.codes[i] != code);
    }
}

/// Scanning a unit keeps a terminal well formed, raises the count of the
/// scanned item by one if the catalog knows it, and changes no other count:
/// counts never fall, and no count appears for a code outside the catalog.
pub proof fn law_scan_counts(model: TerminalModel, code: char, other: char)
    requires
        model.well_formed(),
    ensures
        model.scan(code).well_formed(),
        model.scan(code).codes == model.codes,
        model.scan(code).tiers == model.tiers,
        model.knows(code) ==> model.scan(code).count_of(code) == model.count_of(code) + 1,
        !model.knows(code) ==> model.scan(code) == model,
        other != code ==> model.scan(code).count_of(other) == model.count_of(other),
        model.count_of(other) > 0 ==> model.knows(other),
{
    if model.knows(code) {
        let i = model.position(code);
        let j = choose|j: int| 0 <= j < model.codes.len() && model.codes[j] == code;
        lemma_first_exists(model, code, j);
        assert(model.first_at(code, i));
        let after = model.scan(code);
        assert forall|k: int| 0 <= k < after.codes.len() && after.counts[k] > 0 implies after.first_at(
            after.codes[k],
            k,
        ) by {
            if k != i {
                assert(model.first_at(model.codes[k], k));
            }
        }
        assert(after.first_at(code, i));
        lemma_position_is_first(after, code, i);
        if other != code && model.knows(other) {
            let o = model.position(other);
            let w = choose|w: int| 0 <= w < model.codes.len() && model.codes[w] == other;
            lemma_first_exists(model, other, w);
            assert(model.first_at(other, o));
            assert(after.first_at(other, o));
            lemma_position_is_first(after, other, o);
        }
    }
}

/// A code that occurs at `at` has a first entry.
proof fn lemma_first_exists(model: TerminalModel, code: char, at: int)
    requires
        0 <= at < model.codes.len(),
        model.codes[at] == code,
    ensures
        exists|i: int| model.first_at(code, i),
        model.first_at(code, model.position(code)),
    decreases at,
{
    if forall|j: int| 0 <= j < at ==> model.codes[j] != code {
        assert(model.first_at(code, at));
    } else {
        let j = choose|j: int| 0 <= j < at && model.codes[j] == code;
        lemma_first_exists(model, code, j);
    }
}

/// After the units in `codes` were scanned, each entry's count has grown by
/// the number of times its code occurs in `codes`, if it is the first entry
/// for that code, and is unchanged otherwise.
proof fn lemma_scan_all_counts(model: TerminalModel, codes: Seq<char>)
    requires
        model.well_formed(),
    ensures
        model.scan_all(codes).well_formed(),
        model.scan_all(codes).codes == model.codes,
        model.scan_all(codes).tiers == model.tiers,
        forall|i: int|
            0 <= i < model.codes.len() ==> #[trigger] model.scan_all(codes).counts[i]
                == model.counts[i] + if model.first_at(model.codes[i], i) {
                codes.to_multiset().count(model.codes[i])
            } else {
                0
            },
    decreases codes.len(),
{
    if codes.len() == 0 {
        codes.to_multiset_ensures();
        assert forall|c: char| codes.to_multiset().count(c) == 0 by {
            assert(!codes.contains(c));
        }
    } else {
        let front = codes.drop_last();
        let code = codes.last();
        lemma_scan_all_counts(model, front);
        let before = model.scan_all(front);
        law_scan_counts(before, code, code);
        assert(front.push(code) =~= codes);
        to_multiset_build(front, code);
        assert(codes.to_multiset() =~= front.to_multiset().insert(code));
        let after = before.scan(code);
        assert forall|i: int| 0 <= i < model.codes.len() implies #[trigger] after.counts[i]
            == model.counts[i] + if model.first_at(model.codes[i], i) {
            codes.to_multiset().count(model.codes[i])
        } else {
            0
        } by {
            if before.knows(code) {
                let p = before.position(code);
                let w = choose|w: int| 0 <= w < before.codes.len() && before.codes[w] == code;
                lemma_first_exists(before, code, w);
                assert(before.first_at(code, p));
                assert(model.first_at(code, p));
                if i == p {
                } else {
                    if model.first_at(model.codes[i], i) {
                        assert(model.codes[i] != code);
                    }
                }
            } else {
                assert(model.codes[i] != code);
            }
        }
    }
}

/// The order in which units are scanned does not matter: two runs of scans
/// that hold the same units, in whatever order, lead to the same terminal
/// and so to the same total.
pub proof fn law_scan_order_is_irrelevant(model: TerminalModel, first: Seq<char>, second: Seq<char>)
    requires
        model.well_formed(),
        first.to_multiset() == second.to_multiset(),
    ensures
        model.scan_all(first) == model.scan_all(second),
        model.scan_all(first).total() == model.scan_all(second).total(),
{
    lemma_scan_all_counts(model, first);
    lemma_scan_all_counts(model, second);
    assert(model.scan_all(first).counts =~= model.scan_all(second).counts);
}

} // verus!
