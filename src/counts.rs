//! Safe / unsafe tallies and their additive merge.
use vstd::prelude::*;

verus! {

/// Mathematical value of a [`Count`].
pub struct Tally {
    pub safe: nat,
    pub unsafe_: nat,
}

impl Tally {
    pub open spec fn zero() -> Tally {
        Tally { safe: 0, unsafe_: 0 }
    }

    pub open spec fn one(is_unsafe: bool) -> Tally {
        if is_unsafe {
            Tally { safe: 0, unsafe_: 1 }
        } else {
            Tally { safe: 1, unsafe_: 0 }
        }
    }

    pub open spec fn plus(self, o: Tally) -> Tally {
        Tally { safe: self.safe + o.safe, unsafe_: self.unsafe_ + o.unsafe_ }
    }

    pub open spec fn total(self) -> nat {
        self.safe + self.unsafe_
    }
}

/// Mathematical value of a [`CounterBlock`].
pub struct Tallies {
    pub functions: Tally,
    pub exprs: Tally,
    pub item_impls: Tally,
    pub item_traits: Tally,
    pub methods: Tally,
}

impl Tallies {
    pub open spec fn zero() -> Tallies {
        Tallies {
            functions: Tally::zero(),
            exprs: Tally::zero(),
            item_impls: Tally::zero(),
            item_traits: Tally::zero(),
            methods: Tally::zero(),
        }
    }

    pub open spec fn plus(self, o: Tallies) -> Tallies {
        Tallies {
            functions: self.functions.plus(o.functions),
            exprs: self.exprs.plus(o.exprs),
            item_impls: self.item_impls.plus(o.item_impls),
            item_traits: self.item_traits.plus(o.item_traits),
            methods: self.methods.plus(o.methods),
        }
    }

    pub open spec fn total(self) -> nat {
        self.functions.total() + self.exprs.total() + self.item_impls.total()
            + self.item_traits.total() + self.methods.total()
    }
}

/// Number of occurrences classified safe and unsafe.
#[derive(Clone, Copy, Debug, PartialEq, Eq, Structural, Default)]
pub struct Count {
    pub safe: u64,
    pub unsafe_: u64,
}

impl View for Count {
    type V = Tally;

    open spec fn view(&self) -> Tally {
        Tally { safe: self.safe as nat, unsafe_: self.unsafe_ as nat }
    }
}

impl Count {
    /// A count of nothing.
    pub fn zero() -> (r: Count)
        ensures
            r@ == Tally::zero(),
    {
        Count { safe: 0, unsafe_: 0 }
    }

    /// Records one occurrence, classified by `is_unsafe`.
    pub fn count(&mut self, is_unsafe: bool)
        requires
            old(self)@.total() < u64::MAX,
        ensures
            final(self)@ == old(self)@.plus(Tally::one(is_unsafe)),
    {
        if is_unsafe {
            self.unsafe_ = self.unsafe_ + 1;
        } else {
            self.safe = self.safe + 1;
        }
    }

    /// Adds `other` to this count, component by component.
    pub fn add(&mut self, other: &Count)
        requires
            old(self)@.total() + other@.total() <= u64::MAX,
        ensures
            final(self)@ == old(self)@.plus(other@),
    {
        self.safe = self.safe + other.safe;
        self.unsafe_ = self.unsafe_ + other.unsafe_;
    }
}

/// Counts of functions, expressions, impl blocks, traits and methods.
#[derive(Clone, Copy, Debug, PartialEq, Eq, Structural, Default)]
pub struct CounterBlock {
    pub functions: Count,
    pub exprs: Count,
    pub item_impls: Count,
    pub item_traits: Count,
    pub methods: Count,
}

impl View for CounterBlock {
    type V = Tallies;

    open spec fn view(&self) -> Tallies {
        Tallies {
            functions: self.functions@,
            exprs: self.exprs@,
            item_impls: self.item_impls@,
            item_traits: self.item_traits@,
            methods: self.methods@,
        }
    }
}

impl CounterBlock {
    /// A block of zero counts.
    pub fn zero() -> (r: CounterBlock)
        ensures
            r@ == Tallies::zero(),
    {
        CounterBlock {
            functions: Count::zero(),
            exprs: Count::zero(),
            item_impls: Count::zero(),
            item_traits: Count::zero(),
            methods: Count::zero(),
        }
    }

    /// Adds `other` to this block, count by count.
    pub fn add(&mut self, other: &CounterBlock)
        requires
            old(self)@.total() + other@.total() <= u64::MAX,
        ensures
            final(self)@ == old(self)@.plus(other@),
    {
        self.functions.add(&other.functions);
        self.exprs.add(&other.exprs);
        self.item_impls.add(&other.item_impls);
        self.item_traits.add(&other.item_traits);
        self.methods.add(&other.methods);
    }
}

} // verus!
