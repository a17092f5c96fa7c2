//! The terminal: a catalog of price tiers and a tally of scanned units.

use crate::amount::Amount;
use crate::decimal::{decimal_sum, exact_sum, DecimalValue};
use crate::price::{
    by_descending_price, charged_in_range, sort_tiers, subtotal, subtotal_of, units_charged,
    Price,
};
use vstd::prelude::*;

verus! {

/// Why a terminal refused to scan an item or to name a total.
#[derive(Clone, Copy, Debug, PartialEq, Eq, Structural)]
pub enum TerminalError {
    /// The item has no entry in the catalog.
    UnknownItem,
    /// The item's count stands at `usize::MAX` and cannot grow.
    CountLimit,
    /// A product or a sum on the way to the total overflowed.
    Overflow,
}

/// What a terminal holds, as plain mathematics: the catalog's entries in the
/// order in which they were given, and for each entry the number of units
/// scanned so far.
///
/// Where a code has several entries, the first one is the item's entry; the
/// others are never counted and never priced.
pub struct TerminalModel {
    /// The item code of each entry.
    pub codes: Seq<char>,
    /// The price tiers of each entry, dearest first.
    pub tiers: Seq<Seq<Price>>,
    /// The units scanned of each entry.
    pub counts: Seq<nat>,
}

impl TerminalModel {
    /// Every entry has its tiers and its count, and only the first entry of
    /// a code has units counted.
    pub open spec fn well_formed(self) -> bool {
        &&& self.tiers.len() == self.codes.len()
        &&& self.counts.len() == self.codes.len()
        &&& forall|i: int|
            0 <= i < self.codes.len() && self.counts[i] > 0 ==> self.first_at(self.codes[i], i)
    }

    /// Whether the catalog has an entry for `code`.
    pub open spec fn knows(self, code: char) -> bool {
        self.codes.contains(code)
    }

    /// Whether entry `i` is the first entry for `code`.
    pub open spec fn first_at(self, code: char, i: int) -> bool {
        &&& 0 <= i < self.codes.len()
        &&& self.codes[i] == code
        &&& forall|j: int| 0 <= j < i ==> self.codes[j] != code
    }

    /// The index of the first entry for `code`, for a code that the catalog
    /// knows.
    pub open spec fn position(self, code: char) -> int {
        choose|i: int| self.first_at(code, i)
    }

    /// The units of `code` scanned so far; 0 for a code that the catalog
    /// does not know.
    pub open spec fn count_of(self, code: char) -> nat {
        if self.knows(code) {
            self.counts[self.position(code)]
        } else {
            0
        }
    }

    /// The terminal after one more unit of `code`: the item's count grows by
    /// one; nothing changes for a code that the catalog does not know.
    pub open spec fn scan(self, code: char) -> TerminalModel {
        if self.knows(code) {
            TerminalModel {
                codes: self.codes,
                tiers: self.tiers,
                counts: self.counts.update(
                    self.position(code),
                    self.counts[self.position(code)] + 1,
                ),
            }
        } else {
            self
        }
    }

    /// The terminal after the units in `codes` were scanned one after the
    /// other.
    pub open spec fn scan_all(self, codes: Seq<char>) -> TerminalModel
        decreases codes.len(),
    {
        if codes.len() == 0 {
            self
        } else {
            self.scan_all(codes.drop_last()).scan(codes.last())
        }
    }

    /// What `so_far` grows to when the subtotals of the entries from index
    /// `from` on are added to it, one entry after the other. An entry
    /// without scanned units adds nothing. `None` where a subtotal or a sum
    /// overflows.
    pub open spec fn total_from(self, from: int, so_far: DecimalValue) -> Option<DecimalValue>
        decreases self.codes.len() - from,
    {
        if from < 0 || from >= self.codes.len() {
            Some(so_far)
        } else if self.counts[from] == 0 {
            self.total_from(from + 1, so_far)
        } else {
            match subtotal_of(self.tiers[from], self.counts[from]) {
                Some(price) => match decimal_sum(so_far, price) {
                    Some(sum) => self.total_from(from + 1, sum),
                    None => None,
                },
                None => None,
            }
        }
    }

    /// The price of everything scanned: the subtotals of the scanned items,
    /// added up from zero in catalog order.
    pub open spec fn total(self) -> Option<DecimalValue> {
        self.total_from(0, DecimalValue::zero())
    }

    /// The price of what was scanned of the entries from index `from` on as
    /// a whole number of units of 10^-28: what `total_from` adds where
    /// nothing overflows.
    pub open spec fn units_from(self, from: int) -> int
        decreases self.codes.len() - from,
    {
        if from < 0 || from >= self.codes.len() {
            0
        } else {
            units_charged(self.tiers[from], 0, self.counts[from]) + self.units_from(from + 1)
        }
    }

    /// Whether every product and every sum that `total_from` forms on its
    /// way is in range without rounding.
    pub open spec fn total_in_range(self, from: int, so_far: DecimalValue) -> bool
        decreases self.codes.len() - from,
    {
        if from < 0 || from >= self.codes.len() {
            true
        } else if self.counts[from] == 0 {
            self.total_in_range(from + 1, so_far)
        } else {
            match subtotal_of(self.tiers[from], self.counts[from]) {
                Some(price) => {
                    &&& charged_in_range(
                        self.tiers[from],
                        0,
                        self.counts[from],
                        DecimalValue::zero(),
                    )
                    &&& exact_sum(so_far, price).in_range()
                    &&& self.total_in_range(from + 1, exact_sum(so_far, price))
                },
                None => false,
            }
        }
    }
}

/// A point-of-sale terminal: it is set up with a catalog, counts the units
/// scanned of each item, and prices the tally.
pub struct Terminal {
    codes: Vec<char>,
    tiers: Vec<Vec<Price>>,
    counts: Vec<usize>,
}

impl View for Terminal {
    type V = TerminalModel;

    closed spec fn view(&self) -> TerminalModel {
        TerminalModel {
            codes: self.codes@,
            tiers: Seq::new(self.tiers@.len(), |i: int| self.tiers@[i]@),
            counts: Seq::new(self.counts@.len(), |i: int| self.counts@[i] as nat),
        }
    }
}

impl Terminal {
    #[verifier::type_invariant]
    spec fn well_formed(self) -> bool {
        self@.well_formed()
    }

    /// A terminal with the catalog `prices` and nothing scanned.
    ///
    /// Each entry of `prices` gives an item's code and its tiers. The tiers
    /// are kept dearest first, tiers of equal price in the order in which
    /// they were given. Entries are not validated: see `subtotal` for what
    /// a missing base tier leads to. Where a code has several entries, the
    /// first is the one that counts.
    pub fn new(prices: Vec<(char, Vec<Price>)>) -> (terminal: Terminal)
        ensures
            terminal@.well_formed(),
            terminal@.codes.len() == prices@.len(),
            forall|i: int|
                #![trigger prices@[i]]
                #![trigger terminal@.codes[i]]
                #![trigger terminal@.tiers[i]]
                #![trigger terminal@.counts[i]]
                0 <= i < prices@.len() ==> {
                    &&& terminal@.codes[i] == prices@[i].0
                    &&& terminal@.tiers[i] == by_descending_price(prices@[i].1@)
                    &&& terminal@.counts[i] == 0
                },
    {
        let mut codes: Vec<char> = Vec::new();
        let mut tiers: Vec<Vec<Price>> = Vec::new();
        let mut counts: Vec<usize> = Vec::new();
        let mut i: usize = 0;
        while i < prices.len()
            invariant
                i <= prices.len(),
                codes@.len() == i,
                tiers@.len() == i,
                counts@.len() == i,
                forall|k: int|
                    #![trigger prices@[k]]
                    0 <= k < i ==> {
                        &&& codes@[k] == prices@[k].0
                        &&& tiers@[k]@ == by_descending_price(prices@[k].1@)
                    },
                forall|k: int| 0 <= k < i ==> counts@[k] == 0,
            decreases prices.len() - i,
        {
            let entry = &prices[i];
            codes.push(entry.0);
            tiers.push(sort_tiers(&entry.1));
            counts.push(0);
            i += 1;
        }
        Terminal { codes, tiers, counts }
    }

    /// Records one more unit of `item`.
    ///
    /// An item that the catalog does not know is refused with `UnknownItem`,
    /// an item whose count stands at `usize::MAX` with `CountLimit`; a
    /// refusal leaves the terminal as it was.
    pub fn scan(&mut self, item: char) -> (r: Result<(), TerminalError>)
        ensures
            match r {
                Ok(()) => {
                    &&& old(self)@.knows(item)
                    &&& old(self)@.count_of(item) < usize::MAX
                    &&& final(self)@ == old(self)@.scan(item)
                },
                Err(TerminalError::UnknownItem) => {
                    &&& !old(self)@.knows(item)
                    &&& *final(self) == *old(self)
                },
                Err(TerminalError::CountLimit) => {
                    &&& old(self)@.knows(item)
                    &&& old(self)@.count_of(item) == usize::MAX
                    &&& *final(self) == *old(self)
                },
                Err(TerminalError::Overflow) => false,
            },
    {
        proof {
            use_type_invariant(&*self);
        }
        let mut i: usize = 0;
        while i < self.codes.len() && self.codes[i] != item
            invariant
                i <= self.codes.len(),
                forall|j: int| 0 <= j < i ==> self.codes@[j] != item,
            decreases self.codes.len() - i,
        {
            i += 1;
        }
        if i == self.codes.len() {
            return Err(TerminalError::UnknownItem);
        }
        assert(self@.first_at(item, i as int));
        let count = self.counts[i];
        if count == usize::MAX {
            return Err(TerminalError::CountLimit);
        }
        self.counts[i] = count + 1;
        proof {
            assert(final(self)@.counts =~= old(self)@.scan(item).counts);
        }
        Ok(())
    }

    /// The price of everything scanned so far: the subtotal of each scanned
    /// item (see `subtotal`), added up from zero in catalog order. `Overflow`
    /// where a subtotal or a sum overflows.
    ///
    /// The terminal is only read: the total is the same until the next scan.
    pub fn total(&self) -> (r: Result<Amount, TerminalError>)
        ensures
            match r {
                Ok(amount) => self@.total() == Some(amount@),
                Err(e) => e == TerminalError::Overflow && self@.total() is None,
            },
    {
        proof {
            use_type_invariant(self);
        }
        let mut so_far = Amount::zero();
        let mut i: usize = 0;
        while i < self.codes.len()
            invariant
                i <= self.codes.len(),
                self@.well_formed(),
                self@.total() == self@.total_from(i as int, so_far@),
            decreases self.codes.len() - i,
        {
            let count = self.counts[i];
            if count > 0 {
                match subtotal(&self.tiers[i], count) {
                    Some(price) => match so_far.checked_add(&price) {
                        Some(sum) => {
                            so_far = sum;
                        },
                        None => {
                            return Err(TerminalError::Overflow);
                        },
                    },
                    None => {
                        return Err(TerminalError::Overflow);
                    },
                }
            }
            i += 1;
        }
        Ok(so_far)
    }
}

} // verus!
