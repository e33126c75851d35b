//! Price books: a mapping from prices to the quantity resting there.
use std::collections::BTreeMap;
use vstd::prelude::*;

verus! {

/// The quantity resting at one price.
#[derive(Debug)]
pub struct PriceLevel {
    /// A zero quantity represents an absent level in [`DenseBook`].
    pub qty: u64,
}

impl Clone for PriceLevel {
    fn clone(&self) -> (level: Self)
        ensures
            level == *self,
    {
        PriceLevel { qty: self.qty }
    }
}

impl Default for PriceLevel {
    fn default() -> (level: Self)
        ensures
            level.qty == 0,
    {
        PriceLevel { qty: 0 }
    }
}

/// The levels of a book after `qty` was set at `price`: setting zero removes the level.
pub open spec fn set_level(levels: Map<u64, u64>, price: u64, qty: u64) -> Map<u64, u64> {
    if qty == 0 {
        levels.remove(price)
    } else {
        levels.insert(price, qty)
    }
}

/// The quantity resting at `price`, if there is a level.
pub open spec fn level_at(levels: Map<u64, u64>, price: u64) -> Option<u64> {
    if levels.contains_key(price) {
        Some(levels[price])
    } else {
        None
    }
}

/// A price book.
pub trait Book: Sized {
    /// What a book holds, down to its representation.
    type Content;

    /// What the book holds.
    spec fn content(&self) -> Self::Content;

    /// What a book that held `content` holds after an update.
    spec fn content_after(content: Self::Content, price: u64, qty: u64) -> Self::Content;

    /// The quantity resting at each price that has a level.
    spec fn levels(&self) -> Map<u64, u64>;

    /// The prices whose updates the book takes; it ignores the others.
    spec fn covered(&self) -> Set<u64>;

    /// The prices whose updates stay within what the machine can address.
    spec fn addressable(&self) -> Set<u64>;

    /// The representation invariant.
    spec fn wf(&self) -> bool;

    /// No level rests with a zero quantity.
    proof fn no_empty_level(&self)
        requires
            self.wf(),
        ensures
            forall|price: u64| #[trigger]
                self.levels().contains_key(price) ==> self.levels()[price] != 0,
    ;

    /// Sets the quantity at `price`; zero removes the level.
    fn update(&mut self, price: u64, qty: u64)
        requires
            old(self).wf(),
            old(self).addressable().contains(price),
        ensures
            final(self).wf(),
            final(self).content() == Self::content_after(old(self).content(), price, qty),
            final(self).levels() == (if old(self).covered().contains(price) {
                set_level(old(self).levels(), price, qty)
            } else {
                old(self).levels()
            }),
            final(self).covered() == old(self).covered(),
            final(self).addressable() == old(self).addressable(),
    ;

    /// The quantity resting at `price`.
    fn quantity(&self, price: u64) -> (qty: Option<u64>)
        ensures
            qty == level_at(self.levels(), price),
            match qty {
                Some(qty) => self.levels().contains_key(price) && self.levels()[price] == qty,
                None => !self.levels().contains_key(price),
            },
    ;
}

/// A book on a search tree, which takes every price.
pub struct TreeBook {
    levels: BTreeMap<u64, PriceLevel>,
}

impl Default for TreeBook {
    fn default() -> (book: Self)
        ensures
            book.wf(),
            book.levels() == Map::<u64, u64>::empty(),
    {
        let book = TreeBook { levels: BTreeMap::new() };
        assert(book.levels() =~= Map::<u64, u64>::empty());
        book
    }
}

impl TreeBook {
    /// Sets the quantity at `price`; zero removes the level.
    #[inline]
    pub fn update(&mut self, price: u64, qty: u64)
        requires
            old(self).wf(),
        ensures
            final(self).wf(),
            final(self).levels() == set_level(old(self).levels(), price, qty),
            qty == 0 ==> final(self).levels() == old(self).levels().remove(price),
            qty != 0 ==> final(self).levels() == old(self).levels().insert(price, qty),
    {
        broadcast use vstd::std_specs::btree::group_btree_axioms;

        if qty == 0 {
            self.levels.remove(&price);
        } else {
            self.levels.insert(price, PriceLevel { qty });
        }
        assert(self.levels() =~= set_level(old(self).levels(), price, qty));
    }

    /// The level at `price`.
    #[inline]
    pub fn get(&self, price: u64) -> (level: Option<&PriceLevel>)
        ensures
            match level {
                Some(level) => level_at(self.levels(), price) == Some(level.qty),
                None => level_at(self.levels(), price) is None,
            },
            match level {
                Some(level) => self.levels().contains_key(price) && self.levels()[price]
                    == level.qty,
                None => !self.levels().contains_key(price),
            },
    {
        broadcast use vstd::std_specs::btree::group_btree_axioms;

        self.levels.get(&price)
    }
}

impl Book for TreeBook {
    /// The levels.
    type Content = Map<u64, u64>;

    open spec fn content(&self) -> Map<u64, u64> {
        self.levels()
    }

    open spec fn content_after(content: Map<u64, u64>, price: u64, qty: u64) -> Map<u64, u64> {
        set_level(content, price, qty)
    }

    closed spec fn levels(&self) -> Map<u64, u64> {
        self.levels@.map_values(|level: PriceLevel| level.qty)
    }

    open spec fn covered(&self) -> Set<u64> {
        Set::full()
    }

    open spec fn addressable(&self) -> Set<u64> {
        Set::full()
    }

    closed spec fn wf(&self) -> bool {
        forall|price: u64| #[trigger]
            self.levels@.contains_key(price) ==> self.levels@[price].qty != 0
    }

    proof fn no_empty_level(&self) {
    }

    #[inline]
    fn update(&mut self, price: u64, qty: u64) {
        TreeBook::update(self, price, qty);
    }

    #[inline]
    fn quantity(&self, price: u64) -> (qty: Option<u64>) {
        match self.get(price) {
            Some(level) => Some(level.qty),
            None => None,
        }
    }
}

/// The prices that a [`DenseBook`] on `base` takes: those from `base` upwards whose
/// distance from it is an index.
pub open spec fn dense_covered(base: u64) -> Set<u64> {
    Set::new(|price: u64| base <= price <= base + usize::MAX)
}

/// The prices whose updates a [`DenseBook`] on `base` can carry out: an array takes at
/// most `isize::MAX` bytes, and a slot has eight.
pub open spec fn dense_addressable(base: u64) -> Set<u64> {
    Set::new(
        |price: u64| dense_covered(base).contains(price) ==> price - base < isize::MAX as int / 8,
    )
}

/// The levels that an array with those quantities, one slot per price from `base`
/// upwards, stands for: its slots that are not zero.
pub open spec fn dense_levels(base: u64, slots: Seq<u64>) -> Map<u64, u64> {
    Map::new(
        |price: u64| base <= price < base + slots.len() && slots[price - base] != 0,
        |price: u64| slots[price - base],
    )
}

/// An array of quantities after `qty` was set at `index`: it grows to hold the index, new
/// slots before it are zero, and it never shrinks.
pub open spec fn slots_after(slots: Seq<u64>, index: int, qty: u64) -> Seq<u64> {
    Seq::new(
        if index < slots.len() {
            slots.len()
        } else {
            (index + 1) as nat
        },
        |i: int|
            if i == index {
                qty
            } else if i < slots.len() {
                slots[i]
            } else {
                0
            },
    )
}

/// The array of a [`DenseBook`] on `base` after an update: one at a price that the book
/// does not take leaves it as it was.
pub open spec fn dense_slots_after(base: u64, slots: Seq<u64>, price: u64, qty: u64) -> Seq<u64> {
    if dense_covered(base).contains(price) {
        slots_after(slots, price - base, qty)
    } else {
        slots
    }
}

/// A book on an array with one slot per price from `base` upwards.
pub struct DenseBook {
    base: u64,
    levels: Vec<PriceLevel>,
}

impl DenseBook {
    /// The lowest price that the book takes.
    pub closed spec fn base(&self) -> u64 {
        self.base
    }

    /// The quantities in the array, the empty slots included.
    pub closed spec fn slots(&self) -> Seq<u64> {
        self.levels@.map_values(|level: PriceLevel| level.qty)
    }

    /// An empty book for the prices from `base` upwards.
    pub fn new(base: u64) -> (book: Self)
        ensures
            book.wf(),
            book.base() == base,
            book.slots() == Seq::<u64>::empty(),
            book.levels() == Map::<u64, u64>::empty(),
    {
        let book = DenseBook { base, levels: Vec::new() };
        assert(book.slots() =~= Seq::<u64>::empty());
        assert(book.levels() =~= Map::<u64, u64>::empty());
        book
    }

    /// Sets the quantity at `price`; zero removes the level.
    ///
    /// A price below the base, or so far above it that its distance is no index,
    /// is ignored.
    #[inline]
    pub fn update(&mut self, price: u64, qty: u64)
        requires
            old(self).wf(),
            old(self).addressable().contains(price),
        ensures
            final(self).wf(),
            final(self).base() == old(self).base(),
            final(self).slots() == dense_slots_after(
                old(self).base(),
                old(self).slots(),
                price,
                qty,
            ),
            price < old(self).base() || price - old(self).base() > usize::MAX
                ==> final(self).slots() == old(self).slots(),
            old(self).base() <= price && price - old(self).base() < isize::MAX as int / 8 ==> {
                let index = price - old(self).base();
                &&& final(self).slots().len() == (if index < old(self).slots().len() {
                    old(self).slots().len() as int
                } else {
                    index + 1
                })
                &&& final(self).slots()[index] == qty
                &&& forall|i: int|
                    0 <= i < final(self).slots().len() && i != index
                        ==> #[trigger] final(self).slots()[i] == (if i < old(self).slots().len() {
                        old(self).slots()[i]
                    } else {
                        0
                    })
            },
            final(self).levels() == (if old(self).covered().contains(price) {
                set_level(old(self).levels(), price, qty)
            } else {
                old(self).levels()
            }),
    {
        let index: usize = match price.checked_sub(self.base) {
            Some(offset) => match usize::try_from(offset) {
                Ok(index) => index,
                Err(_) => return,
            },
            None => return,
        };

        if index >= self.levels.len() {
            self.levels.resize(index + 1, PriceLevel::default());
        }
        self.levels[index].qty = qty;
        assert(self.slots() =~= dense_slots_after(
            old(self).base(),
            old(self).slots(),
            price,
            qty,
        ));
        assert(self.levels() =~= set_level(old(self).levels(), price, qty));
    }

    /// The level at `price`.
    #[inline]
    pub fn get(&self, price: u64) -> (level: Option<&PriceLevel>)
        ensures
            match level {
                Some(level) => level_at(self.levels(), price) == Some(level.qty),
                None => level_at(self.levels(), price) is None,
            },
            match level {
                Some(level) => {
                    &&& self.base() <= price < self.base() + self.slots().len()
                    &&& self.slots()[price - self.base()] == level.qty
                    &&& level.qty != 0
                },
                None => self.base() <= price < self.base() + self.slots().len()
                    ==> self.slots()[price - self.base()] == 0,
            },
    {
        let index: usize = match price.checked_sub(self.base) {
            Some(offset) => match usize::try_from(offset) {
                Ok(index) => index,
                Err(_) => {
                    assert(self.levels.len() <= usize::MAX);
                    return None;
                },
            },
            None => return None,
        };
        if index < self.levels.len() && self.levels[index].qty != 0 {
            Some(&self.levels[index])
        } else {
            None
        }
    }
}

impl Book for DenseBook {
    /// The base, and the quantities in the array.
    type Content = (u64, Seq<u64>);

    open spec fn content(&self) -> (u64, Seq<u64>) {
        (self.base(), self.slots())
    }

    open spec fn content_after(content: (u64, Seq<u64>), price: u64, qty: u64) -> (u64, Seq<u64>) {
        (content.0, dense_slots_after(content.0, content.1, price, qty))
    }

    open spec fn levels(&self) -> Map<u64, u64> {
        dense_levels(self.base(), self.slots())
    }

    open spec fn covered(&self) -> Set<u64> {
        dense_covered(self.base())
    }

    open spec fn addressable(&self) -> Set<u64> {
        dense_addressable(self.base())
    }

    /// Every slot has a price.
    open spec fn wf(&self) -> bool {
        self.base() + self.slots().len() <= u64::MAX + 1
    }

    proof fn no_empty_level(&self) {
    }

    #[inline]
    fn update(&mut self, price: u64, qty: u64) {
        DenseBook::update(self, price, qty);
    }

    #[inline]
    fn quantity(&self, price: u64) -> (qty: Option<u64>) {
        match self.get(price) {
            Some(level) => Some(level.qty),
            None => None,
        }
    }
}

} // verus!
