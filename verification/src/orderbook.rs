//! Order-book reconstruction.
//!
//! The venue streams whole-book snapshots, never deltas: applying one
//! replaces each side of the named symbol's book with the snapshot's
//! levels, sorted to the side's order — asks ascending, bids descending by
//! price — with zero-size levels left out. Prices and sizes are integers
//! in the venue's smallest units; the caller scales decimal text to them.
//!
//! Within each side entries are unique by price. Should a snapshot carry
//! one price twice, the later entry wins, a later zero size erasing the
//! level — the same rule an in-order fold of the entries gives.

use vstd::prelude::*;

verus! {

/// One price level: `size` units offered or sought at `price`.
#[derive(Debug, Clone, Copy, PartialEq, Eq, Structural)]
pub struct Level {
    pub price: u64,
    pub size: u64,
}

/// Whether `a` comes before `b` on a side: ascending for asks, descending
/// for bids.
pub open spec fn spec_price_before(asc: bool, a: u64, b: u64) -> bool {
    if asc {
        a < b
    } else {
        a > b
    }
}

/// A side held in its required order, strictly — so unique by price.
pub open spec fn spec_side_sorted(asc: bool, s: Seq<Level>) -> bool {
    forall|i: int, j: int|
        0 <= i < j < s.len() ==> spec_price_before(asc, s[i].price, s[j].price)
}

/// No stored level has zero size.
pub open spec fn spec_side_positive(s: Seq<Level>) -> bool {
    forall|i: int| 0 <= i < s.len() ==> #[trigger] s[i].size != 0
}

/// Whether the side holds exactly the level (`price`, `size`).
pub open spec fn spec_has_level(s: Seq<Level>, price: u64, size: u64) -> bool {
    exists|i: int| 0 <= i < s.len() && #[trigger] s[i] == (Level { price, size })
}

/// The last entry of a snapshot at `price`, if any: the one that wins.
pub open spec fn spec_last_at(input: Seq<Level>, price: u64) -> Option<Level>
    decreases input.len(),
{
    if input.len() == 0 {
        None
    } else if input.last().price == price {
        Some(input.last())
    } else {
        spec_last_at(input.drop_last(), price)
    }
}

/// Whether a snapshot, folded in order, leaves the level (`price`, `size`)
/// on the side: its last entry at `price` has the non-zero size `size`.
pub open spec fn spec_snapshot_has(input: Seq<Level>, price: u64, size: u64) -> bool {
    &&& size != 0
    &&& spec_last_at(input, price) == Some(Level { price, size })
}

/// The insertion point for `price` in a sorted side: the index of the
/// first entry not strictly before it.
fn find_pos(asc: bool, side: &Vec<Level>, price: u64) -> (k: usize)
    ensures
        0 <= k <= side@.len(),
        forall|i: int| 0 <= i < k ==> spec_price_before(asc, side@[i].price, price),
        k < side@.len() ==> !spec_price_before(asc, side@[k as int].price, price),
{
    let mut k: usize = 0;
    while k < side.len()
        invariant
            0 <= k <= side@.len(),
            forall|i: int| 0 <= i < k ==> spec_price_before(asc, side@[i].price, price),
        decreases side@.len() - k,
    {
        let p = side[k].price;
        let go = if asc {
            p < price
        } else {
            p > price
        };
        if !go {
            return k;
        }
        k = k + 1;
    }
    k
}

/// Insert a non-zero level into a sorted side, replacing the entry at its
/// price if one is there.
fn upsert_level(asc: bool, side: &mut Vec<Level>, lv: Level)
    requires
        spec_side_sorted(asc, old(side)@),
        spec_side_positive(old(side)@),
        lv.size != 0,
    ensures
        spec_side_sorted(asc, final(side)@),
        spec_side_positive(final(side)@),
        forall|p: u64, sz: u64|
            p != lv.price ==> (spec_has_level(final(side)@, p, sz) <==> spec_has_level(
                old(side)@,
                p,
                sz,
            )),
        forall|sz: u64|
            spec_has_level(final(side)@, lv.price, sz) <==> sz == lv.size,
{
    let k = find_pos(asc, side, lv.price);
    if k < side.len() && side[k].price == lv.price {
        side.set(k, lv);
        proof {
            assert(final(side)@ == old(side)@.update(k as int, lv));
            assert forall|p: u64, sz: u64|
                p != lv.price implies (spec_has_level(side@, p, sz) <==> spec_has_level(
                old(side)@,
                p,
                sz,
            )) by {
                if spec_has_level(side@, p, sz) {
                    let i = choose|i: int|
                        0 <= i < side@.len() && #[trigger] side@[i] == (Level { price: p, size: sz });
                    assert(old(side)@[i] == (Level { price: p, size: sz }));
                }
                if spec_has_level(old(side)@, p, sz) {
                    let i = choose|i: int|
                        0 <= i < old(side)@.len() && #[trigger] old(side)@[i] == (Level {
                            price: p,
                            size: sz,
                        });
                    assert(side@[i] == (Level { price: p, size: sz }));
                }
            }
            assert forall|sz: u64| spec_has_level(side@, lv.price, sz) implies sz == lv.size by {
                let i = choose|i: int|
                    0 <= i < side@.len() && #[trigger] side@[i] == (Level {
                        price: lv.price,
                        size: sz,
                    });
                if i != k {
                    assert(old(side)@[i].price == lv.price);
                    assert(spec_price_before(asc, old(side)@[k as int].price, old(side)@[i].price)
                        || spec_price_before(asc, old(side)@[i].price, old(side)@[k as int].price));
                }
            }
            assert(side@[k as int] == lv);
        }
    } else {
        proof {
            if k < side@.len() {
                assert(spec_price_before(asc, lv.price, side@[k as int].price));
            }
        }
        side.insert(k, lv);
        proof {
            let s0 = old(side)@;
            let s1 = side@;
            assert(s1 == s0.insert(k as int, lv));
            assert forall|i: int, j: int|
                0 <= i < j < s1.len() implies spec_price_before(
                asc,
                s1[i].price,
                s1[j].price,
            ) by {
                if i < k {
                    assert(s1[i] == s0[i]);
                    assert(spec_price_before(asc, s0[i].price, lv.price));
                } else if i == k {
                    assert(s1[i] == lv);
                } else {
                    assert(s1[i] == s0[i - 1]);
                }
                if j < k {
                    assert(s1[j] == s0[j]);
                } else if j == k {
                    assert(s1[j] == lv);
                } else {
                    assert(s1[j] == s0[j - 1]);
                    assert(k < s0.len());
                    assert(spec_price_before(asc, lv.price, s0[k as int].price));
                    if j - 1 > k {
                        assert(spec_price_before(asc, s0[k as int].price, s0[j - 1].price));
                    }
                }
            }
            assert forall|p: u64, sz: u64|
                p != lv.price implies (spec_has_level(s1, p, sz) <==> spec_has_level(
                s0,
                p,
                sz,
            )) by {
                if spec_has_level(s1, p, sz) {
                    let i = choose|i: int|
                        0 <= i < s1.len() && #[trigger] s1[i] == (Level { price: p, size: sz });
                    if i < k {
                        assert(s0[i] == (Level { price: p, size: sz }));
                    } else {
                        assert(s0[i - 1] == (Level { price: p, size: sz }));
                    }
                }
                if spec_has_level(s0, p, sz) {
                    let i = choose|i: int|
                        0 <= i < s0.len() && #[trigger] s0[i] == (Level { price: p, size: sz });
                    if i < k {
                        assert(s1[i] == (Level { price: p, size: sz }));
                    } else {
                        assert(s1[i + 1] == (Level { price: p, size: sz }));
                    }
                }
            }
            assert forall|sz: u64| spec_has_level(s1, lv.price, sz) implies sz == lv.size by {
                let i = choose|i: int|
                    0 <= i < s1.len() && #[trigger] s1[i] == (Level { price: lv.price, size: sz });
                if i != k {
                    let j = if i < k {
                        i
                    } else {
                        i - 1
                    };
                    assert(s0[j].price == lv.price);
                    assert(forall|m: int| 0 <= m < k ==> spec_price_before(asc, s0[m].price, lv.price));
                    if k < s0.len() {
                        assert(spec_price_before(asc, lv.price, s0[k as int].price));
                    }
                }
            }
            assert(s1[k as int] == lv);
        }
    }
}

/// Drop the level at `price` from a sorted side, if it is there.
fn remove_price(asc: bool, side: &mut Vec<Level>, price: u64)
    requires
        spec_side_sorted(asc, old(side)@),
        spec_side_positive(old(side)@),
    ensures
        spec_side_sorted(asc, final(side)@),
        spec_side_positive(final(side)@),
        forall|p: u64, sz: u64|
            p != price ==> (spec_has_level(final(side)@, p, sz) <==> spec_has_level(
                old(side)@,
                p,
                sz,
            )),
        forall|sz: u64| !spec_has_level(final(side)@, price, sz),
{
    let mut k: usize = 0;
    while k < side.len() && side[k].price != price
        invariant
            0 <= k <= side@.len(),
            forall|i: int| 0 <= i < k ==> side@[i].price != price,
            side@ == old(side)@,
        decreases side@.len() - k,
    {
        k = k + 1;
    }
    if k < side.len() {
        side.remove(k);
        proof {
            let s0 = old(side)@;
            let s1 = side@;
            assert(s1 == s0.remove(k as int));
            assert(forall|m: int|
                0 <= m < s1.len() ==> s1[m] == (if m < k {
                    s0[m]
                } else {
                    s0[m + 1]
                }));
            assert forall|p: u64, sz: u64|
                p != price implies (spec_has_level(s1, p, sz) <==> spec_has_level(s0, p, sz)) by {
                if spec_has_level(s1, p, sz) {
                    let i = choose|i: int|
                        0 <= i < s1.len() && #[trigger] s1[i] == (Level { price: p, size: sz });
                    if i < k {
                        assert(s0[i] == (Level { price: p, size: sz }));
                    } else {
                        assert(s0[i + 1] == (Level { price: p, size: sz }));
                    }
                }
                if spec_has_level(s0, p, sz) {
                    let i = choose|i: int|
                        0 <= i < s0.len() && #[trigger] s0[i] == (Level { price: p, size: sz });
                    if i < k {
                        assert(s1[i] == (Level { price: p, size: sz }));
                    } else {
                        assert(s1[i - 1] == (Level { price: p, size: sz }));
                    }
                }
            }
            assert forall|sz: u64| !spec_has_level(s1, price, sz) by {
                if spec_has_level(s1, price, sz) {
                    let i = choose|i: int|
                        0 <= i < s1.len() && #[trigger] s1[i] == (Level { price, size: sz });
                    if i < k {
                        assert(s0[i].price != price);
                    } else {
                        assert(spec_price_before(asc, s0[k as int].price, s0[i + 1].price));
                        assert(s0[k as int].price == price);
                    }
                }
            }
        }
    } else {
        proof {
            assert forall|sz: u64| !spec_has_level(side@, price, sz) by {
                if spec_has_level(side@, price, sz) {
                    let i = choose|i: int|
                        0 <= i < side@.len() && #[trigger] side@[i] == (Level { price, size: sz });
                }
            }
        }
    }
}

/// Fold one side of a snapshot into a fresh, sorted, zero-free side.
fn build_side(asc: bool, input: &Vec<Level>) -> (r: Vec<Level>)
    ensures
        spec_side_sorted(asc, r@),
        spec_side_positive(r@),
        forall|p: u64, sz: u64|
            spec_has_level(r@, p, sz) <==> spec_snapshot_has(input@, p, sz),
{
    let mut side: Vec<Level> = Vec::new();
    let mut i: usize = 0;
    while i < input.len()
        invariant
            0 <= i <= input@.len(),
            spec_side_sorted(asc, side@),
            spec_side_positive(side@),
            forall|p: u64, sz: u64|
                spec_has_level(side@, p, sz) <==> spec_snapshot_has(
                    input@.take(i as int),
                    p,
                    sz,
                ),
        decreases input@.len() - i,
    {
        let lv = input[i];
        let ghost pre = side@;
        if lv.size == 0 {
            remove_price(asc, &mut side, lv.price);
        } else {
            upsert_level(asc, &mut side, lv);
        }
        proof {
            let t = input@.take(i + 1);
            assert(t.drop_last() == input@.take(i as int));
            assert(t.last() == input@[i as int]);
            assert forall|p: u64| #[trigger]
                spec_last_at(t, p) == (if p == lv.price {
                    Some(lv)
                } else {
                    spec_last_at(input@.take(i as int), p)
                }) by {}
        }
        i = i + 1;
    }
    proof {
        assert(input@.take(i as int) == input@);
    }
    side
}

/// One symbol's book: both sides held sorted and zero-free.
#[derive(Debug)]
pub struct OrderBook {
    pub symbol: String,
    pub asks: Vec<Level>,
    pub bids: Vec<Level>,
}

impl OrderBook {
    /// The book's invariant: asks ascending, bids descending, both strict
    /// (so unique by price), no zero-size level stored.
    pub open spec fn wf(self) -> bool {
        &&& spec_side_sorted(true, self.asks@)
        &&& spec_side_sorted(false, self.bids@)
        &&& spec_side_positive(self.asks@)
        &&& spec_side_positive(self.bids@)
    }

    /// An empty book for `symbol`, created on its first snapshot.
    pub fn new(symbol: String) -> (r: OrderBook)
        ensures
            r.wf(),
            r.symbol@ == symbol@,
            r.asks@.len() == 0,
            r.bids@.len() == 0,
    {
        OrderBook { symbol, asks: Vec::new(), bids: Vec::new() }
    }

    /// Replace the whole book with a snapshot: afterwards each side holds
    /// exactly the snapshot's non-zero levels for that side, in the side's
    /// order — nothing of the prior book survives.
    pub fn apply_snapshot(&mut self, asks: &Vec<Level>, bids: &Vec<Level>)
        ensures
            final(self).wf(),
            final(self).symbol@ == old(self).symbol@,
            forall|p: u64, sz: u64|
                spec_has_level(final(self).asks@, p, sz) <==> spec_snapshot_has(asks@, p, sz),
            forall|p: u64, sz: u64|
                spec_has_level(final(self).bids@, p, sz) <==> spec_snapshot_has(bids@, p, sz),
    {
        self.asks = build_side(true, asks);
        self.bids = build_side(false, bids);
    }

    /// An immutable copy handed to the dispatch boundary: later engine
    /// mutation cannot reach it.
    pub fn snapshot(&self) -> (r: OrderBook)
        ensures
            r.symbol@ == self.symbol@,
            r.asks@ == self.asks@,
            r.bids@ == self.bids@,
    {
        let mut asks: Vec<Level> = Vec::new();
        let mut bids: Vec<Level> = Vec::new();
        let mut i: usize = 0;
        while i < self.asks.len()
            invariant
                0 <= i <= self.asks@.len(),
                asks@ == self.asks@.take(i as int),
            decreases self.asks@.len() - i,
        {
            asks.push(self.asks[i]);
            proof {
                assert(self.asks@.take(i + 1) == self.asks@.take(i as int).push(
                    self.asks@[i as int],
                ));
            }
            i = i + 1;
        }
        let mut j: usize = 0;
        while j < self.bids.len()
            invariant
                0 <= j <= self.bids@.len(),
                bids@ == self.bids@.take(j as int),
            decreases self.bids@.len() - j,
        {
            bids.push(self.bids[j]);
            proof {
                assert(self.bids@.take(j + 1) == self.bids@.take(j as int).push(
                    self.bids@[j as int],
                ));
            }
            j = j + 1;
        }
        proof {
            assert(self.asks@.take(self.asks@.len() as int) == self.asks@);
            assert(self.bids@.take(self.bids@.len() as int) == self.bids@);
        }
        OrderBook { symbol: self.symbol.clone(), asks, bids }
    }

    /// The lowest ask, if the side is non-empty.
    pub fn best_ask(&self) -> (r: Option<Level>)
        requires
            self.wf(),
        ensures
            self.asks@.len() == 0 ==> r is None,
            self.asks@.len() > 0 ==> r == Some(self.asks@[0]),
    {
        if self.asks.len() > 0 {
            Some(self.asks[0])
        } else {
            None
        }
    }

    /// The highest bid, if the side is non-empty.
    pub fn best_bid(&self) -> (r: Option<Level>)
        requires
            self.wf(),
        ensures
            self.bids@.len() == 0 ==> r is None,
            self.bids@.len() > 0 ==> r == Some(self.bids@[0]),
    {
        if self.bids.len() > 0 {
            Some(self.bids[0])
        } else {
            None
        }
    }
}

/// The books of every symbol seen so far, unique by symbol; a book is
/// created lazily on the first snapshot for its symbol and lives on from
/// then on.
#[derive(Debug)]
pub struct BookSet {
    pub books: Vec<OrderBook>,
}

/// Every book well-formed, and no two books for one symbol.
pub open spec fn spec_books_wf(books: Seq<OrderBook>) -> bool {
    &&& forall|i: int| 0 <= i < books.len() ==> (#[trigger] books[i]).wf()
    &&& forall|i: int, j: int|
        0 <= i < j < books.len() ==> books[i].symbol@ != books[j].symbol@
}

impl BookSet {
    pub open spec fn wf(self) -> bool {
        spec_books_wf(self.books@)
    }

    pub fn new() -> (r: BookSet)
        ensures
            r.wf(),
            r.books@.len() == 0,
    {
        BookSet { books: Vec::new() }
    }

    /// Apply a whole-book snapshot to the named symbol's book, creating
    /// the book on its first snapshot, and hand back an immutable copy of
    /// the result for dispatch. Books of other symbols are untouched.
    pub fn apply_snapshot(
        &mut self,
        symbol: &String,
        asks: &Vec<Level>,
        bids: &Vec<Level>,
    ) -> (r: OrderBook)
        requires
            old(self).wf(),
        ensures
            final(self).wf(),
            r.wf(),
            r.symbol@ == symbol@,
            forall|p: u64, sz: u64|
                spec_has_level(r.asks@, p, sz) <==> spec_snapshot_has(asks@, p, sz),
            forall|p: u64, sz: u64|
                spec_has_level(r.bids@, p, sz) <==> spec_snapshot_has(bids@, p, sz),
            exists|i: int|
                0 <= i < final(self).books@.len() && (#[trigger] final(self).books@[i]).symbol@
                    == symbol@ && final(self).books@[i].asks@ == r.asks@
                    && final(self).books@[i].bids@ == r.bids@,
            forall|i: int|
                0 <= i < old(self).books@.len() && (#[trigger] old(self).books@[i]).symbol@
                    != symbol@ ==> exists|j: int|
                    0 <= j < final(self).books@.len() && final(self).books@[j]
                        == old(self).books@[i],
            (exists|i: int|
                0 <= i < old(self).books@.len() && (#[trigger] old(self).books@[i]).symbol@
                    == symbol@) ==> final(self).books@.len() == old(self).books@.len(),
            !(exists|i: int|
                0 <= i < old(self).books@.len() && (#[trigger] old(self).books@[i]).symbol@
                    == symbol@) ==> final(self).books@.len() == old(self).books@.len() + 1,
    {
        let mut i: usize = 0;
        while i < self.books.len()
            invariant
                0 <= i <= self.books@.len(),
                forall|j: int| 0 <= j < i ==> (#[trigger] self.books@[j]).symbol@ != symbol@,
                self.books@ == old(self).books@,
                old(self).wf(),
            decreases self.books@.len() - i,
        {
            if self.books[i].symbol == *symbol {
                let book = &mut self.books[i];
                book.apply_snapshot(asks, bids);
                let snap = self.books[i].snapshot();
                proof {
                    let s0 = old(self).books@;
                    let s1 = self.books@;
                    assert(s1 =~= s0.update(i as int, s1[i as int]));
                    assert forall|a: int| 0 <= a < s1.len() implies (#[trigger] s1[a]).wf() by {
                        if a != i {
                            assert(s1[a] == s0[a]);
                        }
                    }
                    assert forall|a: int, b: int|
                        0 <= a < b < s1.len() implies s1[a].symbol@ != s1[b].symbol@ by {
                        assert(s0[a].symbol@ != s0[b].symbol@);
                        if a != i {
                            assert(s1[a] == s0[a]);
                        }
                        if b != i {
                            assert(s1[b] == s0[b]);
                        }
                        assert(s1[i as int].symbol@ == s0[i as int].symbol@);
                    }
                    assert forall|a: int|
                        0 <= a < s0.len() && (#[trigger] s0[a]).symbol@ != symbol@ implies exists|
                        j: int,
                    | 0 <= j < s1.len() && s1[j] == s0[a] by {
                        assert(a != i);
                        assert(s1[a] == s0[a]);
                    }
                }
                return snap;
            }
            i = i + 1;
        }
        let mut book = OrderBook::new(symbol.clone());
        book.apply_snapshot(asks, bids);
        let snap = book.snapshot();
        self.books.push(book);
        proof {
            let s0 = old(self).books@;
            let s1 = self.books@;
            assert(s1[s0.len() as int].symbol@ == symbol@);
            assert forall|a: int| 0 <= a < s1.len() implies (#[trigger] s1[a]).wf() by {
                if a < s0.len() {
                    assert(s1[a] == s0[a]);
                }
            }
            assert forall|a: int, b: int|
                0 <= a < b < s1.len() implies s1[a].symbol@ != s1[b].symbol@ by {
                if b < s0.len() {
                    assert(s1[a] == s0[a]);
                    assert(s1[b] == s0[b]);
                    assert(s0[a].symbol@ != s0[b].symbol@);
                } else {
                    assert(s1[a] == s0[a]);
                    assert(s0[a].symbol@ != symbol@);
                }
            }
            assert forall|a: int|
                0 <= a < s0.len() && (#[trigger] s0[a]).symbol@ != symbol@ implies exists|j: int|
                0 <= j < s1.len() && s1[j] == s0[a] by {
                assert(s1[a] == s0[a]);
            }
        }
        snap
    }

    /// The book of the named symbol, if one has been created.
    pub fn get(&self, symbol: &String) -> (r: Option<&OrderBook>)
        requires
            self.wf(),
        ensures
            match r {
                Some(b) => b.wf() && b.symbol@ == symbol@ && exists|i: int|
                    0 <= i < self.books@.len() && #[trigger] self.books@[i] == *b,
                None => forall|i: int|
                    0 <= i < self.books@.len() ==> (#[trigger] self.books@[i]).symbol@
                        != symbol@,
            },
    {
        let mut i: usize = 0;
        while i < self.books.len()
            invariant
                0 <= i <= self.books@.len(),
                forall|j: int| 0 <= j < i ==> (#[trigger] self.books@[j]).symbol@ != symbol@,
                self.wf(),
            decreases self.books@.len() - i,
        {
            if self.books[i].symbol == *symbol {
                return Some(&self.books[i]);
            }
            i = i + 1;
        }
        None
    }
}

} // verus!
