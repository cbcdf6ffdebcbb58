//! On-chain limit order book.
//!
//! Makers post limit orders that lock their sell asset in the contract until a
//! fill keeper matches them at their price tick. Orders support partial fills,
//! and the maker can cancel a still-open order at any time to recover what has
//! not been filled. Resting orders are indexed by `(pair, price tick)` buckets
//! that fill keepers walk.
//!
//! The book is a state machine: each operation either fails and leaves the book
//! as it was, or succeeds, updates the book and appends the token transfers that
//! the contract shell must perform to `transfers`.
use vstd::prelude::*;

use crate::errors::ContractError;
use crate::types::AccountId;

verus! {

/// Fixed-point scale of a price tick: units of the buy asset per one unit of
/// the sell asset, scaled by 10^7.
pub const PRICE_SCALE: i128 = 10_000_000;

/// The two assets of an order: the maker sells `sell_asset` for `buy_asset`.
#[derive(Copy, Clone, Debug, PartialEq, Eq, Structural)]
pub struct AssetPair {
    pub sell_asset: AccountId,
    pub buy_asset: AccountId,
}

/// A resting or closed limit order.
#[derive(Copy, Clone, Debug, PartialEq, Eq, Structural)]
pub struct LimitOrder {
    pub id: u64,
    pub maker: AccountId,
    pub pair: AssetPair,
    pub sell_asset: AccountId,
    pub buy_asset: AccountId,
    /// Price in buy asset per unit of sell asset, fixed-point at `PRICE_SCALE`.
    pub price_tick: i128,
    /// Remaining sell-asset collateral locked by this order.
    pub amount: i128,
    pub original_amount: i128,
    pub remaining_amount: i128,
    pub filled_amount: i128,
    pub created_at_ledger: u32,
    /// Expiry ledger sequence; zero means the order does not expire.
    pub expiry: u32,
    pub active: bool,
}

/// What a fill did to an order.
#[derive(Copy, Clone, Debug, PartialEq, Eq, Structural)]
pub struct FillResult {
    pub order_id: u64,
    pub filled_amount: i128,
    pub paid_amount: i128,
    pub remaining_amount: i128,
    pub order_closed: bool,
}

/// A token transfer that the contract shell must perform: `amount` of the
/// token contract `token`, from `from` to `to`.
#[derive(Copy, Clone, Debug, PartialEq, Eq, Structural)]
pub struct TokenTransfer {
    pub token: AccountId,
    pub from: AccountId,
    pub to: AccountId,
    pub amount: i128,
}

/// The ids of the orders resting at one `(pair, price tick)`, in posting order.
pub struct TickBucket {
    pub pair: AssetPair,
    pub price_tick: i128,
    pub order_ids: Vec<u64>,
}

/// The order book: every order ever posted (indexed by its id) and the buckets
/// of resting orders.
pub struct OrderBook {
    next_order_id: u64,
    orders: Vec<LimitOrder>,
    buckets: Vec<TickBucket>,
}

/// Whether order `o` rests at `(pair, tick)`.
pub open spec fn rests_at(o: LimitOrder, pair: AssetPair, tick: i128) -> bool {
    o.active && o.pair == pair && o.price_tick == tick
}

/// The ids of the orders of `orders` that rest at `(pair, tick)`, in order.
pub open spec fn open_ids(orders: Seq<LimitOrder>, pair: AssetPair, tick: i128) -> Seq<u64>
    decreases orders.len(),
{
    if orders.len() == 0 {
        Seq::empty()
    } else {
        let rest = open_ids(orders.drop_last(), pair, tick);
        if rests_at(orders.last(), pair, tick) {
            rest.push(orders.last().id)
        } else {
            rest
        }
    }
}

/// `s` with every occurrence of `x` taken out, the rest in order.
pub open spec fn without(s: Seq<u64>, x: u64) -> Seq<u64>
    decreases s.len(),
{
    if s.len() == 0 {
        Seq::empty()
    } else {
        let rest = without(s.drop_last(), x);
        if s.last() == x {
            rest
        } else {
            rest.push(s.last())
        }
    }
}

/// What a fill of `fill_amount` at `price_tick` pays the maker, in the buy asset.
pub open spec fn paid_for(fill_amount: int, price_tick: int) -> int {
    (fill_amount * price_tick) / (PRICE_SCALE as int)
}

/// The order that `place_order_with_expiry` creates.
pub open spec fn new_order(
    id: u64,
    maker: AccountId,
    pair: AssetPair,
    price_tick: i128,
    sell_amount: i128,
    ledger_seq: u32,
    expiry: u32,
) -> LimitOrder {
    LimitOrder {
        id,
        maker,
        pair,
        sell_asset: pair.sell_asset,
        buy_asset: pair.buy_asset,
        price_tick,
        amount: sell_amount,
        original_amount: sell_amount,
        remaining_amount: sell_amount,
        filled_amount: 0,
        created_at_ledger: ledger_seq,
        expiry,
        active: true,
    }
}

/// Order `o` after a fill of `fill_amount`.
pub open spec fn filled_order(o: LimitOrder, fill_amount: i128) -> LimitOrder {
    let remaining = (o.remaining_amount - fill_amount) as i128;
    LimitOrder {
        remaining_amount: remaining,
        amount: remaining,
        filled_amount: (o.filled_amount + fill_amount) as i128,
        active: remaining != 0,
        ..o
    }
}

/// Order `o` after its maker cancelled it.
pub open spec fn cancelled_order(o: LimitOrder) -> LimitOrder {
    LimitOrder { remaining_amount: 0, amount: 0, active: false, ..o }
}

/// The bookkeeping that every stored order keeps.
pub open spec fn order_wf(o: LimitOrder, i: int) -> bool {
    &&& o.id == i
    &&& o.sell_asset == o.pair.sell_asset
    &&& o.buy_asset == o.pair.buy_asset
    &&& o.price_tick > 0
    &&& o.original_amount > 0
    &&& o.amount == o.remaining_amount
    &&& 0 <= o.remaining_amount
    &&& 0 <= o.filled_amount <= o.original_amount
    &&& o.active ==> o.remaining_amount > 0 && o.filled_amount + o.remaining_amount
        == o.original_amount
    &&& !o.active ==> o.remaining_amount == 0
}

/// Whether bucket `b` is the one for `(pair, tick)`.
pub open spec fn has_key(b: TickBucket, pair: AssetPair, tick: i128) -> bool {
    b.pair == pair && b.price_tick == tick
}

/// No two buckets share a `(pair, tick)`.
pub open spec fn keys_unique(bs: Seq<TickBucket>) -> bool {
    forall|i: int, j: int|
        #![trigger bs[i], bs[j]]
        0 <= i < j < bs.len() ==> !has_key(bs[i], bs[j].pair, bs[j].price_tick)
}

/// The ids stored in the bucket for `(pair, tick)`, or nothing if there is none.
pub open spec fn ids_at(bs: Seq<TickBucket>, pair: AssetPair, tick: i128) -> Seq<u64> {
    if exists|j: int| 0 <= j < bs.len() && has_key(#[trigger] bs[j], pair, tick) {
        bs[choose|j: int| 0 <= j < bs.len() && has_key(#[trigger] bs[j], pair, tick)].order_ids@
    } else {
        Seq::empty()
    }
}

proof fn lemma_ids_at_index(bs: Seq<TickBucket>, j: int)
    requires
        keys_unique(bs),
        0 <= j < bs.len(),
    ensures
        ids_at(bs, bs[j].pair, bs[j].price_tick) == bs[j].order_ids@,
{
    let pair = bs[j].pair;
    let tick = bs[j].price_tick;
    assert(has_key(bs[j], pair, tick));
    let c = choose|c: int| 0 <= c < bs.len() && has_key(#[trigger] bs[c], pair, tick);
    if c != j {
        if c < j {
            assert(!has_key(bs[c], bs[j].pair, bs[j].price_tick));
        } else {
            assert(!has_key(bs[j], bs[c].pair, bs[c].price_tick));
        }
    }
}

proof fn lemma_open_ids_push(s: Seq<LimitOrder>, o: LimitOrder, pair: AssetPair, tick: i128)
    ensures
        open_ids(s.push(o), pair, tick) == (if rests_at(o, pair, tick) {
            open_ids(s, pair, tick).push(o.id)
        } else {
            open_ids(s, pair, tick)
        }),
{
    assert(s.push(o).drop_last() =~= s);
}

/// Replacing an order by one that rests (or not) at `(pair, tick)` just as the
/// old one did, under the same id, leaves the ids resting there unchanged.
proof fn lemma_open_ids_update_same(
    s: Seq<LimitOrder>,
    i: int,
    o: LimitOrder,
    pair: AssetPair,
    tick: i128,
)
    requires
        0 <= i < s.len(),
        rests_at(s[i], pair, tick) == rests_at(o, pair, tick),
        rests_at(o, pair, tick) ==> s[i].id == o.id,
    ensures
        open_ids(s.update(i, o), pair, tick) == open_ids(s, pair, tick),
    decreases s.len(),
{
    let u = s.update(i, o);
    if i == s.len() - 1 {
        assert(u.drop_last() =~= s.drop_last());
    } else {
        assert(u.drop_last() =~= s.drop_last().update(i, o));
        lemma_open_ids_update_same(s.drop_last(), i, o, pair, tick);
    }
}

/// Every id resting at `(pair, tick)` is the id of an order of `s` that rests there.
proof fn lemma_open_ids_members(s: Seq<LimitOrder>, pair: AssetPair, tick: i128, v: u64)
    requires
        open_ids(s, pair, tick).contains(v),
    ensures
        exists|j: int| 0 <= j < s.len() && s[j].id == v && rests_at(s[j], pair, tick),
    decreases s.len(),
{
    if s.len() > 0 {
        let rest = open_ids(s.drop_last(), pair, tick);
        if rests_at(s.last(), pair, tick) && v == s.last().id {
            assert(s[s.len() - 1].id == v);
        } else {
            if rests_at(s.last(), pair, tick) {
                let k = choose|k: int| 0 <= k < rest.push(s.last().id).len() && rest.push(
                    s.last().id,
                )[k] == v;
                assert(rest[k] == v);
            }
            assert(rest.contains(v));
            lemma_open_ids_members(s.drop_last(), pair, tick, v);
            let j = choose|j: int|
                0 <= j < s.drop_last().len() && s.drop_last()[j].id == v && rests_at(
                    s.drop_last()[j],
                    pair,
                    tick,
                );
            assert(s[j] == s.drop_last()[j]);
        }
    }
}

proof fn lemma_without_absent(s: Seq<u64>, x: u64)
    requires
        !s.contains(x),
    ensures
        without(s, x) == s,
    decreases s.len(),
{
    if s.len() > 0 {
        assert(!s.drop_last().contains(x)) by {
            if s.drop_last().contains(x) {
                let k = choose|k: int| 0 <= k < s.drop_last().len() && s.drop_last()[k] == x;
                assert(s[k] == x);
            }
        }
        lemma_without_absent(s.drop_last(), x);
        assert(s.last() != x) by {
            assert(s[s.len() - 1] == s.last());
        }
        assert(s.drop_last().push(s.last()) =~= s);
    }
}

/// Closing the order at `i`, whose id no other order has, takes its id out of
/// the ids resting at `(pair, tick)`.
proof fn lemma_open_ids_close(s: Seq<LimitOrder>, i: int, o: LimitOrder, pair: AssetPair, tick: i128)
    requires
        0 <= i < s.len(),
        !o.active,
        forall|j: int| 0 <= j < s.len() && j != i ==> s[j].id != s[i].id,
    ensures
        open_ids(s.update(i, o), pair, tick) == without(open_ids(s, pair, tick), s[i].id),
    decreases s.len(),
{
    let u = s.update(i, o);
    let id = s[i].id;
    let rest = open_ids(s.drop_last(), pair, tick);
    if i == s.len() - 1 {
        assert(u.drop_last() =~= s.drop_last());
        assert(u.last() == o);
        if rest.contains(id) {
            lemma_open_ids_members(s.drop_last(), pair, tick, id);
            let j = choose|j: int|
                0 <= j < s.drop_last().len() && s.drop_last()[j].id == id && rests_at(
                    s.drop_last()[j],
                    pair,
                    tick,
                );
            assert(s[j].id == id);
        }
        lemma_without_absent(rest, id);
        if rests_at(s.last(), pair, tick) {
            assert(rest.push(id).drop_last() =~= rest);
        }
    } else {
        assert(u.drop_last() =~= s.drop_last().update(i, o));
        assert(u.last() == s.last());
        assert forall|j: int| 0 <= j < s.drop_last().len() && j != i implies s.drop_last()[j].id
            != s.drop_last()[i].id by {
            assert(s.drop_last()[j] == s[j]);
        }
        lemma_open_ids_close(s.drop_last(), i, o, pair, tick);
        if rests_at(s.last(), pair, tick) {
            assert(s.last().id != id) by {
                assert(s[s.len() - 1] == s.last());
            }
            let r = open_ids(s, pair, tick);
            assert(r.drop_last() =~= rest);
        }
    }
}

impl OrderBook {
    /// Every order of the book, indexed by id.
    pub closed spec fn orders_view(&self) -> Seq<LimitOrder> {
        self.orders@
    }

    /// The id that the next posted order gets.
    pub closed spec fn next_id(&self) -> u64 {
        self.next_order_id
    }

    /// The book's bookkeeping: ids are positions, each order keeps its
    /// accounting, and the bucket for `(pair, tick)` lists exactly the ids of the
    /// orders resting there, in posting order.
    pub closed spec fn wf(&self) -> bool {
        &&& self.next_order_id == self.orders@.len()
        &&& forall|i: int| 0 <= i < self.orders@.len() ==> order_wf(#[trigger] self.orders@[i], i)
        &&& keys_unique(self.buckets@)
        &&& forall|pair: AssetPair, tick: i128|
            #[trigger] ids_at(self.buckets@, pair, tick) == open_ids(self.orders@, pair, tick)
    }

    /// The ids resting at `(pair, tick)`, as the book's buckets list them.
    pub open spec fn resting_ids(&self, pair: AssetPair, tick: i128) -> Seq<u64> {
        open_ids(self.orders_view(), pair, tick)
    }

    /// In a well-formed book the order with id `i` stands at position `i` and
    /// keeps its accounting, and the next id is the number of orders posted.
    pub proof fn law_ids_are_positions(&self)
        requires
            self.wf(),
        ensures
            self.next_id() == self.orders_view().len(),
            forall|i: int| 0 <= i < self.orders_view().len() ==> order_wf(#[trigger] self.orders_view()[i], i),
    {
    }

    /// An empty book.
    pub fn new() -> (b: Self)
        ensures
            b.wf(),
            b.orders_view() == Seq::<LimitOrder>::empty(),
            b.next_id() == 0,
    {
        let b = OrderBook { next_order_id: 0, orders: Vec::new(), buckets: Vec::new() };
        assert forall|pair: AssetPair, tick: i128|
            #[trigger] ids_at(b.buckets@, pair, tick) == open_ids(b.orders@, pair, tick) by {
            assert(ids_at(b.buckets@, pair, tick) =~= Seq::<u64>::empty());
        }
        b
    }

    /// Take the next order id and advance the counter.
    fn next_order_id(&mut self) -> (id: u64)
        requires
            old(self).next_order_id < u64::MAX,
        ensures
            id == old(self).next_order_id,
            final(self).next_order_id == id + 1,
            final(self).orders == old(self).orders,
            final(self).buckets == old(self).buckets,
    {
        let id = self.next_order_id;
        self.next_order_id = id + 1;
        id
    }

    /// The position of the bucket for `(pair, tick)`, if there is one.
    fn find_bucket(&self, pair: AssetPair, tick: i128) -> (r: Option<usize>)
        ensures
            r matches Some(j) ==> j < self.buckets@.len() && has_key(self.buckets@[j as int], pair, tick),
            r is None ==> forall|j: int|
                0 <= j < self.buckets@.len() ==> !has_key(#[trigger] self.buckets@[j], pair, tick),
    {
        let mut j: usize = 0;
        while j < self.buckets.len()
            invariant
                j <= self.buckets@.len(),
                forall|k: int| 0 <= k < j ==> !has_key(#[trigger] self.buckets@[k], pair, tick),
            decreases self.buckets@.len() - j,
        {
            if self.buckets[j].pair == pair && self.buckets[j].price_tick == tick {
                return Some(j);
            }
            j = j + 1;
        }
        None
    }

    /// Append `order_id` to the bucket for `(pair, tick)`, creating it if needed.
    fn bucket_push(&mut self, pair: AssetPair, tick: i128, order_id: u64)
        requires
            keys_unique(old(self).buckets@),
        ensures
            keys_unique(final(self).buckets@),
            final(self).orders == old(self).orders,
            final(self).next_order_id == old(self).next_order_id,
            forall|p: AssetPair, t: i128|
                #[trigger] ids_at(final(self).buckets@, p, t) == (if p == pair && t == tick {
                    ids_at(old(self).buckets@, p, t).push(order_id)
                } else {
                    ids_at(old(self).buckets@, p, t)
                }),
    {
        let ghost bs = self.buckets@;
        match self.find_bucket(pair, tick) {
            Some(j) => {
                self.buckets[j].order_ids.push(order_id);
                let ghost nbs = self.buckets@;
                assert(nbs =~= bs.update(j as int, nbs[j as int]));
                assert forall|a: int, b: int|
                    0 <= a < b < nbs.len() implies !has_key(nbs[a], nbs[b].pair, nbs[b].price_tick) by {
                    assert(!has_key(bs[a], bs[b].pair, bs[b].price_tick));
                }
                assert forall|p: AssetPair, t: i128|
                    #[trigger] ids_at(nbs, p, t) == (if p == pair && t == tick {
                        ids_at(bs, p, t).push(order_id)
                    } else {
                        ids_at(bs, p, t)
                    }) by {
                    if p == pair && t == tick {
                        lemma_ids_at_index(bs, j as int);
                        lemma_ids_at_index(nbs, j as int);
                    } else {
                        if exists|k: int| 0 <= k < bs.len() && has_key(#[trigger] bs[k], p, t) {
                            let k = choose|k: int| 0 <= k < bs.len() && has_key(#[trigger] bs[k], p, t);
                            lemma_ids_at_index(bs, k);
                            lemma_ids_at_index(nbs, k);
                        } else {
                            assert(!exists|k: int|
                                0 <= k < nbs.len() && has_key(#[trigger] nbs[k], p, t));
                        }
                    }
                }
            },
            None => {
                let mut ids: Vec<u64> = Vec::new();
                ids.push(order_id);
                self.buckets.push(TickBucket { pair, price_tick: tick, order_ids: ids });
                let ghost nbs = self.buckets@;
                let ghost n = bs.len() as int;
                assert(nbs =~= bs.push(nbs[n]));
                assert forall|a: int, b: int|
                    0 <= a < b < nbs.len() implies !has_key(nbs[a], nbs[b].pair, nbs[b].price_tick) by {
                    if b < n {
                        assert(!has_key(bs[a], bs[b].pair, bs[b].price_tick));
                    } else {
                        assert(!has_key(bs[a], pair, tick));
                    }
                }
                assert forall|p: AssetPair, t: i128|
                    #[trigger] ids_at(nbs, p, t) == (if p == pair && t == tick {
                        ids_at(bs, p, t).push(order_id)
                    } else {
                        ids_at(bs, p, t)
                    }) by {
                    if p == pair && t == tick {
                        lemma_ids_at_index(nbs, n);
                        assert(ids_at(bs, p, t) =~= Seq::<u64>::empty());
                        assert(nbs[n].order_ids@ =~= seq![order_id]);
                    } else {
                        if exists|k: int| 0 <= k < bs.len() && has_key(#[trigger] bs[k], p, t) {
                            let k = choose|k: int| 0 <= k < bs.len() && has_key(#[trigger] bs[k], p, t);
                            lemma_ids_at_index(bs, k);
                            lemma_ids_at_index(nbs, k);
                        } else {
                            assert forall|k: int| 0 <= k < nbs.len() implies !has_key(
                                #[trigger] nbs[k],
                                p,
                                t,
                            ) by {
                                if k < n {
                                    assert(nbs[k] == bs[k]);
                                }
                            }
                        }
                    }
                }
            },
        }
    }

    /// Take `order_id` out of the bucket for `(pair, tick)`, dropping the bucket
    /// once it is empty.
    fn bucket_remove(&mut self, pair: AssetPair, tick: i128, order_id: u64)
        requires
            keys_unique(old(self).buckets@),
        ensures
            keys_unique(final(self).buckets@),
            final(self).orders == old(self).orders,
            final(self).next_order_id == old(self).next_order_id,
            forall|p: AssetPair, t: i128|
                #[trigger] ids_at(final(self).buckets@, p, t) == (if p == pair && t == tick {
                    without(ids_at(old(self).buckets@, p, t), order_id)
                } else {
                    ids_at(old(self).buckets@, p, t)
                }),
    {
        let ghost bs = self.buckets@;
        match self.find_bucket(pair, tick) {
            None => {
                assert forall|p: AssetPair, t: i128|
                    #[trigger] ids_at(self.buckets@, p, t) == (if p == pair && t == tick {
                        without(ids_at(bs, p, t), order_id)
                    } else {
                        ids_at(bs, p, t)
                    }) by {
                    if p == pair && t == tick {
                        assert(ids_at(bs, p, t) =~= Seq::<u64>::empty());
                        assert(without(ids_at(bs, p, t), order_id) =~= Seq::<u64>::empty());
                    }
                }
            },
            Some(j) => {
                let n = self.buckets[j].order_ids.len();
                let mut updated: Vec<u64> = Vec::new();
                let mut i: usize = 0;
                while i < n
                    invariant
                        self.buckets@ == bs,
                        j < bs.len(),
                        n == bs[j as int].order_ids@.len(),
                        i <= n,
                        updated@ == without(bs[j as int].order_ids@.subrange(0, i as int), order_id),
                    decreases n - i,
                {
                    let existing = self.buckets[j].order_ids[i];
                    let ghost before = updated@;
                    if existing != order_id {
                        updated.push(existing);
                    }
                    assert(bs[j as int].order_ids@.subrange(0, i + 1).drop_last()
                        =~= bs[j as int].order_ids@.subrange(0, i as int));
                    i = i + 1;
                }
                assert(bs[j as int].order_ids@.subrange(0, n as int) =~= bs[j as int].order_ids@);
                proof { lemma_ids_at_index(bs, j as int); }
                if updated.len() == 0 {
                    self.buckets.remove(j);
                    let ghost nbs = self.buckets@;
                    assert(nbs =~= bs.remove(j as int));
                    assert forall|a: int, b: int|
                        0 <= a < b < nbs.len() implies !has_key(nbs[a], nbs[b].pair, nbs[b].price_tick) by {
                        let a0 = if a < j { a } else { a + 1 };
                        let b0 = if b < j { b } else { b + 1 };
                        assert(nbs[a] == bs[a0]);
                        assert(nbs[b] == bs[b0]);
                        assert(!has_key(bs[a0], bs[b0].pair, bs[b0].price_tick));
                    }
                    assert forall|p: AssetPair, t: i128|
                        #[trigger] ids_at(nbs, p, t) == (if p == pair && t == tick {
                            without(ids_at(bs, p, t), order_id)
                        } else {
                            ids_at(bs, p, t)
                        }) by {
                        if p == pair && t == tick {
                            assert forall|k: int| 0 <= k < nbs.len() implies !has_key(
                                #[trigger] nbs[k],
                                p,
                                t,
                            ) by {
                                let k0 = if k < j { k } else { k + 1 };
                                assert(nbs[k] == bs[k0]);
                                if k0 < j {
                                    assert(!has_key(bs[k0], bs[j as int].pair, bs[j as int].price_tick));
                                } else {
                                    assert(!has_key(bs[j as int], bs[k0].pair, bs[k0].price_tick));
                                }
                            }
                            assert(ids_at(nbs, p, t) =~= Seq::<u64>::empty());
                        } else {
                            if exists|k: int| 0 <= k < bs.len() && has_key(#[trigger] bs[k], p, t) {
                                let k = choose|k: int| 0 <= k < bs.len() && has_key(#[trigger] bs[k], p, t);
                                assert(k != j);
                                let k1 = if k < j { k } else { k - 1 };
                                assert(nbs[k1] == bs[k]);
                                lemma_ids_at_index(bs, k);
                                lemma_ids_at_index(nbs, k1);
                            } else {
                                assert forall|k: int| 0 <= k < nbs.len() implies !has_key(
                                    #[trigger] nbs[k],
                                    p,
                                    t,
                                ) by {
                                    let k0 = if k < j { k } else { k + 1 };
                                    assert(nbs[k] == bs[k0]);
                                }
                            }
                        }
                    }
                } else {
                    self.buckets[j].order_ids = updated;
                    let ghost nbs = self.buckets@;
                    assert(nbs =~= bs.update(j as int, nbs[j as int]));
                    assert forall|a: int, b: int|
                        0 <= a < b < nbs.len() implies !has_key(nbs[a], nbs[b].pair, nbs[b].price_tick) by {
                        assert(!has_key(bs[a], bs[b].pair, bs[b].price_tick));
                    }
                    assert forall|p: AssetPair, t: i128|
                        #[trigger] ids_at(nbs, p, t) == (if p == pair && t == tick {
                            without(ids_at(bs, p, t), order_id)
                        } else {
                            ids_at(bs, p, t)
                        }) by {
                        if p == pair && t == tick {
                            lemma_ids_at_index(nbs, j as int);
                        } else {
                            if exists|k: int| 0 <= k < bs.len() && has_key(#[trigger] bs[k], p, t) {
                                let k = choose|k: int| 0 <= k < bs.len() && has_key(#[trigger] bs[k], p, t);
                                lemma_ids_at_index(bs, k);
                                lemma_ids_at_index(nbs, k);
                            } else {
                                assert(!exists|k: int|
                                    0 <= k < nbs.len() && has_key(#[trigger] nbs[k], p, t));
                            }
                        }
                    }
                }
            },
        }
    }
}


/// What order `o` holds of `token` in escrow: its remaining amount while it is open.
pub open spec fn escrow_share(o: LimitOrder, token: AccountId) -> int {
    if o.active && o.sell_asset == token {
        o.remaining_amount as int
    } else {
        0
    }
}

/// What the open orders of `orders` hold of `token` in escrow.
pub open spec fn escrowed(orders: Seq<LimitOrder>, token: AccountId) -> int
    decreases orders.len(),
{
    if orders.len() == 0 {
        0
    } else {
        escrowed(orders.drop_last(), token) + escrow_share(orders.last(), token)
    }
}

/// How transfer `t` changes `holder`'s balance of `token`.
pub open spec fn transfer_effect(t: TokenTransfer, token: AccountId, holder: AccountId) -> int {
    if t.token != token {
        0
    } else {
        (if t.to == holder { t.amount as int } else { 0 }) - (if t.from == holder {
            t.amount as int
        } else {
            0
        })
    }
}

/// How the transfers `ts` together change `holder`'s balance of `token`.
pub open spec fn net_inflow(ts: Seq<TokenTransfer>, token: AccountId, holder: AccountId) -> int
    decreases ts.len(),
{
    if ts.len() == 0 {
        0
    } else {
        net_inflow(ts.drop_last(), token, holder) + transfer_effect(ts.last(), token, holder)
    }
}

/// The transfer that locks a new order's sell amount in the contract.
pub open spec fn place_transfers(o: LimitOrder, contract: AccountId) -> Seq<TokenTransfer> {
    seq![TokenTransfer { token: o.pair.sell_asset, from: o.maker, to: contract, amount: o.original_amount }]
}

/// The transfers of a fill of `fill_amount` of order `o`: the filler pays the
/// maker in the buy asset and receives the sell asset from escrow.
pub open spec fn fill_transfers(
    o: LimitOrder,
    filler: AccountId,
    fill_amount: i128,
    contract: AccountId,
) -> Seq<TokenTransfer> {
    seq![
        TokenTransfer {
            token: o.pair.buy_asset,
            from: filler,
            to: o.maker,
            amount: paid_for(fill_amount as int, o.price_tick as int) as i128,
        },
        TokenTransfer { token: o.pair.sell_asset, from: contract, to: filler, amount: fill_amount },
    ]
}

/// The transfer that returns a cancelled order's unfilled balance to its maker.
pub open spec fn cancel_transfers(o: LimitOrder, contract: AccountId) -> Seq<TokenTransfer> {
    if o.remaining_amount > 0 {
        seq![
            TokenTransfer {
                token: o.pair.sell_asset,
                from: contract,
                to: o.maker,
                amount: o.remaining_amount,
            },
        ]
    } else {
        Seq::empty()
    }
}

/// Why a new order is refused, checked in this order; `None` if it is accepted.
pub open spec fn place_error(price_tick: i128, sell_amount: i128) -> Option<ContractError> {
    if sell_amount <= 0 {
        Some(ContractError::OrderZeroAmount)
    } else if price_tick <= 0 {
        Some(ContractError::OrderInvalidPrice)
    } else {
        None
    }
}

/// Why a fill is refused, checked in this order; `None` if it goes through.
pub open spec fn fill_error(
    orders: Seq<LimitOrder>,
    order_id: u64,
    fill_amount: i128,
    ledger_seq: u32,
) -> Option<ContractError> {
    if fill_amount <= 0 {
        Some(ContractError::OrderZeroAmount)
    } else if order_id >= orders.len() {
        Some(ContractError::OrderNotFound)
    } else if !orders[order_id as int].active {
        Some(ContractError::OrderAlreadyClosed)
    } else if orders[order_id as int].expiry != 0 && ledger_seq > orders[order_id as int].expiry {
        Some(ContractError::OrderAlreadyClosed)
    } else if fill_amount > orders[order_id as int].remaining_amount {
        Some(ContractError::OrderInsufficientRemaining)
    } else if fill_amount * orders[order_id as int].price_tick > i128::MAX {
        Some(ContractError::MathOverflow)
    } else {
        None
    }
}

/// Why a cancellation is refused, checked in this order; `None` if it goes through.
pub open spec fn cancel_error(orders: Seq<LimitOrder>, maker: AccountId, order_id: u64) -> Option<
    ContractError,
> {
    if order_id >= orders.len() {
        Some(ContractError::OrderNotFound)
    } else if orders[order_id as int].maker != maker {
        Some(ContractError::OrderNotMaker)
    } else if !orders[order_id as int].active {
        Some(ContractError::OrderAlreadyClosed)
    } else {
        None
    }
}

proof fn lemma_escrowed_push(s: Seq<LimitOrder>, o: LimitOrder, token: AccountId)
    ensures
        escrowed(s.push(o), token) == escrowed(s, token) + escrow_share(o, token),
{
    assert(s.push(o).drop_last() =~= s);
}

proof fn lemma_escrowed_update(s: Seq<LimitOrder>, i: int, o: LimitOrder, token: AccountId)
    requires
        0 <= i < s.len(),
    ensures
        escrowed(s.update(i, o), token) == escrowed(s, token) - escrow_share(s[i], token)
            + escrow_share(o, token),
    decreases s.len(),
{
    let u = s.update(i, o);
    if i == s.len() - 1 {
        assert(u.drop_last() =~= s.drop_last());
    } else {
        assert(u.drop_last() =~= s.drop_last().update(i, o));
        lemma_escrowed_update(s.drop_last(), i, o, token);
    }
}

proof fn lemma_net_inflow_one(t: TokenTransfer, token: AccountId, holder: AccountId)
    ensures
        net_inflow(seq![t], token, holder) == transfer_effect(t, token, holder),
{
    assert(seq![t].drop_last() =~= Seq::<TokenTransfer>::empty());
    assert(seq![t].last() == t);
    assert(net_inflow(Seq::<TokenTransfer>::empty(), token, holder) == 0);
}

proof fn lemma_net_inflow_two(t1: TokenTransfer, t2: TokenTransfer, token: AccountId, holder: AccountId)
    ensures
        net_inflow(seq![t1, t2], token, holder) == transfer_effect(t1, token, holder)
            + transfer_effect(t2, token, holder),
{
    assert(seq![t1, t2].drop_last() =~= seq![t1]);
    lemma_net_inflow_one(t1, token, holder);
}

impl OrderBook {
    /// Store a new order at the end of the book.
    fn save_new_order(&mut self, order: LimitOrder)
        ensures
            final(self).orders@ == old(self).orders@.push(order),
            final(self).buckets == old(self).buckets,
            final(self).next_order_id == old(self).next_order_id,
    {
        self.orders.push(order);
    }

    /// Store an updated order in its place.
    fn save_order(&mut self, order: LimitOrder)
        requires
            order.id < old(self).orders@.len(),
        ensures
            final(self).orders@ == old(self).orders@.update(order.id as int, order),
            final(self).buckets == old(self).buckets,
            final(self).next_order_id == old(self).next_order_id,
    {
        let n = self.orders.len();
        assert(order.id < n);
        let i = order.id as usize;
        self.orders[i] = order;
    }

    /// The order with id `order_id`.
    fn load_order(&self, order_id: u64) -> (r: Result<LimitOrder, ContractError>)
        requires
            self.wf(),
        ensures
            r == (if order_id < self.orders@.len() {
                Ok::<LimitOrder, ContractError>(self.orders@[order_id as int])
            } else {
                Err(ContractError::OrderNotFound)
            }),
    {
        if order_id < self.orders.len() as u64 {
            Ok(self.orders[order_id as usize])
        } else {
            Err(ContractError::OrderNotFound)
        }
    }

    /// Post a limit order that never expires: locks `sell_amount` of
    /// `pair.sell_asset` from `maker` in the contract until filled or cancelled.
    pub fn place_order(
        &mut self,
        maker: AccountId,
        pair: AssetPair,
        price_tick: i128,
        sell_amount: i128,
        ledger_seq: u32,
        contract: AccountId,
        transfers: &mut Vec<TokenTransfer>,
    ) -> (r: Result<LimitOrder, ContractError>)
        requires
            old(self).wf(),
            old(self).next_id() < u64::MAX,
        ensures
            final(self).wf(),
            r == (match place_error(price_tick, sell_amount) {
                Some(e) => Err(e),
                None => Ok::<LimitOrder, ContractError>(
                    new_order(old(self).next_id(), maker, pair, price_tick, sell_amount, ledger_seq, 0),
                ),
            }),
            r matches Ok(o) ==> {
                &&& final(self).orders_view() == old(self).orders_view().push(o)
                &&& final(self).next_id() == old(self).next_id() + 1
                &&& final(transfers)@ == old(transfers)@ + place_transfers(o, contract)
            },
            r is Err ==> final(self).orders_view() == old(self).orders_view() && final(self).next_id()
                == old(self).next_id() && final(transfers)@ == old(transfers)@,
            r is Ok && maker != contract ==> forall|token: AccountId|
                #[trigger] escrowed(final(self).orders_view(), token) == escrowed(
                    old(self).orders_view(),
                    token,
                ) + net_inflow(place_transfers(r->Ok_0, contract), token, contract),
    {
        self.place_order_with_expiry(maker, pair, price_tick, sell_amount, 0, ledger_seq, contract, transfers)
    }

    /// Post a limit order that stops being fillable after ledger `expiry`
    /// (zero: never).
    pub fn place_order_with_expiry(
        &mut self,
        maker: AccountId,
        pair: AssetPair,
        price_tick: i128,
        sell_amount: i128,
        expiry: u32,
        ledger_seq: u32,
        contract: AccountId,
        transfers: &mut Vec<TokenTransfer>,
    ) -> (r: Result<LimitOrder, ContractError>)
        requires
            old(self).wf(),
            old(self).next_id() < u64::MAX,
        ensures
            final(self).wf(),
            r == (match place_error(price_tick, sell_amount) {
                Some(e) => Err(e),
                None => Ok::<LimitOrder, ContractError>(
                    new_order(old(self).next_id(), maker, pair, price_tick, sell_amount, ledger_seq, expiry),
                ),
            }),
            r matches Ok(o) ==> {
                &&& final(self).orders_view() == old(self).orders_view().push(o)
                &&& final(self).next_id() == old(self).next_id() + 1
                &&& final(transfers)@ == old(transfers)@ + place_transfers(o, contract)
            },
            r is Err ==> final(self).orders_view() == old(self).orders_view() && final(self).next_id()
                == old(self).next_id() && final(transfers)@ == old(transfers)@,
            r is Ok && maker != contract ==> forall|token: AccountId|
                #[trigger] escrowed(final(self).orders_view(), token) == escrowed(
                    old(self).orders_view(),
                    token,
                ) + net_inflow(place_transfers(r->Ok_0, contract), token, contract),
    {
        if sell_amount <= 0 {
            return Err(ContractError::OrderZeroAmount);
        }
        if price_tick <= 0 {
            return Err(ContractError::OrderInvalidPrice);
        }
        let ghost old_orders = self.orders@;
        let ghost old_buckets = self.buckets@;
        transfers.push(TokenTransfer { token: pair.sell_asset, from: maker, to: contract, amount: sell_amount });
        let id = self.next_order_id();
        let order = LimitOrder {
            id,
            maker,
            pair,
            sell_asset: pair.sell_asset,
            buy_asset: pair.buy_asset,
            price_tick,
            amount: sell_amount,
            original_amount: sell_amount,
            remaining_amount: sell_amount,
            filled_amount: 0,
            created_at_ledger: ledger_seq,
            expiry,
            active: true,
        };
        self.save_new_order(order);
        self.bucket_push(pair, price_tick, id);
        proof {
            assert forall|i: int| 0 <= i < self.orders@.len() implies order_wf(
                #[trigger] self.orders@[i],
                i,
            ) by {
                if i < old_orders.len() {
                    assert(self.orders@[i] == old_orders[i]);
                }
            }
            assert forall|p: AssetPair, t: i128|
                #[trigger] ids_at(self.buckets@, p, t) == open_ids(self.orders@, p, t) by {
                lemma_open_ids_push(old_orders, order, p, t);
                assert(ids_at(old_buckets, p, t) == open_ids(old_orders, p, t));
            }
            assert(transfers@ =~= old(transfers)@ + place_transfers(order, contract));
            assert forall|token: AccountId| maker != contract implies #[trigger] escrowed(
                self.orders@,
                token,
            ) == escrowed(old_orders, token) + net_inflow(place_transfers(order, contract), token, contract) by {
                lemma_escrowed_push(old_orders, order, token);
                lemma_net_inflow_one(place_transfers(order, contract)[0], token, contract);
                assert(place_transfers(order, contract) =~= seq![place_transfers(order, contract)[0]]);
            }
        }
        Ok(order)
    }
}


impl OrderBook {
    /// Fill up to `fill_amount` of order `order_id`'s remaining balance. The
    /// filler pays the maker `fill_amount * price_tick / PRICE_SCALE` of the buy
    /// asset and receives `fill_amount` of the sell asset from escrow. A partial
    /// fill leaves the order open with a smaller remaining amount; a full fill
    /// closes it and takes it out of its bucket.
    pub fn fill_order(
        &mut self,
        filler: AccountId,
        order_id: u64,
        fill_amount: i128,
        ledger_seq: u32,
        contract: AccountId,
        transfers: &mut Vec<TokenTransfer>,
    ) -> (r: Result<FillResult, ContractError>)
        requires
            old(self).wf(),
        ensures
            final(self).wf(),
            final(self).next_id() == old(self).next_id(),
            r is Err <==> fill_error(old(self).orders_view(), order_id, fill_amount, ledger_seq) is Some,
            r matches Err(e) ==> {
                &&& fill_error(old(self).orders_view(), order_id, fill_amount, ledger_seq) == Some(e)
                &&& final(self).orders_view() == old(self).orders_view()
                &&& final(transfers)@ == old(transfers)@
            },
            r matches Ok(res) ==> {
                let o = old(self).orders_view()[order_id as int];
                &&& res == FillResult {
                    order_id,
                    filled_amount: fill_amount,
                    paid_amount: paid_for(fill_amount as int, o.price_tick as int) as i128,
                    remaining_amount: (o.remaining_amount - fill_amount) as i128,
                    order_closed: o.remaining_amount == fill_amount,
                }
                &&& final(self).orders_view() == old(self).orders_view().update(
                    order_id as int,
                    filled_order(o, fill_amount),
                )
                &&& final(transfers)@ == old(transfers)@ + fill_transfers(o, filler, fill_amount, contract)
            },
            r is Ok && filler != contract && old(self).orders_view()[order_id as int].maker != contract
                ==> forall|token: AccountId|
                #[trigger] escrowed(final(self).orders_view(), token) == escrowed(
                    old(self).orders_view(),
                    token,
                ) + net_inflow(
                    fill_transfers(old(self).orders_view()[order_id as int], filler, fill_amount, contract),
                    token,
                    contract,
                ),
    {
        if fill_amount <= 0 {
            return Err(ContractError::OrderZeroAmount);
        }
        let mut order = match self.load_order(order_id) {
            Ok(o) => o,
            Err(e) => return Err(e),
        };
        if !order.active {
            return Err(ContractError::OrderAlreadyClosed);
        }
        if order.expiry != 0 && ledger_seq > order.expiry {
            return Err(ContractError::OrderAlreadyClosed);
        }
        if fill_amount > order.remaining_amount {
            return Err(ContractError::OrderInsufficientRemaining);
        }
        let ghost old_orders = self.orders@;
        let ghost old_buckets = self.buckets@;
        let ghost o = order;
        assert(order_wf(old_orders[order_id as int], order_id as int));
        let product = match fill_amount.checked_mul(order.price_tick) {
            Some(p) => p,
            None => return Err(ContractError::MathOverflow),
        };
        let paid_amount = match product.checked_div(PRICE_SCALE) {
            Some(p) => p,
            None => return Err(ContractError::DivisionByZero),
        };
        transfers.push(TokenTransfer { token: order.pair.buy_asset, from: filler, to: order.maker, amount: paid_amount });
        transfers.push(TokenTransfer { token: order.pair.sell_asset, from: contract, to: filler, amount: fill_amount });
        order.remaining_amount = order.remaining_amount - fill_amount;
        order.amount = order.remaining_amount;
        order.filled_amount = order.filled_amount + fill_amount;
        let order_closed = order.remaining_amount == 0;
        if order_closed {
            order.active = false;
            self.bucket_remove(order.pair, order.price_tick, order.id);
        }
        self.save_order(order);
        proof {
            let i = order_id as int;
            assert(order == filled_order(o, fill_amount));
            assert forall|k: int| 0 <= k < self.orders@.len() implies order_wf(
                #[trigger] self.orders@[k],
                k,
            ) by {
                if k != i {
                    assert(self.orders@[k] == old_orders[k]);
                }
            }
            assert forall|p: AssetPair, t: i128|
                #[trigger] ids_at(self.buckets@, p, t) == open_ids(self.orders@, p, t) by {
                assert(ids_at(old_buckets, p, t) == open_ids(old_orders, p, t));
                if order_closed && p == o.pair && t == o.price_tick {
                    assert forall|j: int| 0 <= j < old_orders.len() && j != i implies old_orders[j].id
                        != old_orders[i].id by {
                        assert(order_wf(old_orders[j], j));
                    }
                    lemma_open_ids_close(old_orders, i, order, p, t);
                } else {
                    lemma_open_ids_update_same(old_orders, i, order, p, t);
                }
            }
            assert(transfers@ =~= old(transfers)@ + fill_transfers(o, filler, fill_amount, contract));
            assert forall|token: AccountId| filler != contract && o.maker != contract implies #[trigger] escrowed(
                self.orders@,
                token,
            ) == escrowed(old_orders, token) + net_inflow(
                fill_transfers(o, filler, fill_amount, contract),
                token,
                contract,
            ) by {
                lemma_escrowed_update(old_orders, i, order, token);
                let ts = fill_transfers(o, filler, fill_amount, contract);
                assert(ts =~= seq![ts[0], ts[1]]);
                lemma_net_inflow_two(ts[0], ts[1], token, contract);
            }
        }
        Ok(FillResult {
            order_id: order.id,
            filled_amount: fill_amount,
            paid_amount,
            remaining_amount: order.remaining_amount,
            order_closed,
        })
    }

    /// Cancel a still-open order and return its unfilled balance to the maker.
    /// Only the maker may cancel, at any time.
    pub fn cancel_order(
        &mut self,
        maker: AccountId,
        order_id: u64,
        contract: AccountId,
        transfers: &mut Vec<TokenTransfer>,
    ) -> (r: Result<i128, ContractError>)
        requires
            old(self).wf(),
        ensures
            final(self).wf(),
            final(self).next_id() == old(self).next_id(),
            r is Err <==> cancel_error(old(self).orders_view(), maker, order_id) is Some,
            r matches Err(e) ==> {
                &&& cancel_error(old(self).orders_view(), maker, order_id) == Some(e)
                &&& final(self).orders_view() == old(self).orders_view()
                &&& final(transfers)@ == old(transfers)@
            },
            r matches Ok(recovered) ==> {
                let o = old(self).orders_view()[order_id as int];
                &&& recovered == o.remaining_amount
                &&& final(self).orders_view() == old(self).orders_view().update(
                    order_id as int,
                    cancelled_order(o),
                )
                &&& final(transfers)@ == old(transfers)@ + cancel_transfers(o, contract)
            },
            r is Ok && maker != contract ==> forall|token: AccountId|
                #[trigger] escrowed(final(self).orders_view(), token) == escrowed(
                    old(self).orders_view(),
                    token,
                ) + net_inflow(
                    cancel_transfers(old(self).orders_view()[order_id as int], contract),
                    token,
                    contract,
                ),
    {
        let mut order = match self.load_order(order_id) {
            Ok(o) => o,
            Err(e) => return Err(e),
        };
        if order.maker != maker {
            return Err(ContractError::OrderNotMaker);
        }
        if !order.active {
            return Err(ContractError::OrderAlreadyClosed);
        }
        let ghost old_orders = self.orders@;
        let ghost old_buckets = self.buckets@;
        let ghost o = order;
        assert(order_wf(old_orders[order_id as int], order_id as int));
        let recovered = order.remaining_amount;
        order.remaining_amount = 0;
        order.amount = 0;
        order.active = false;
        self.bucket_remove(order.pair, order.price_tick, order.id);
        self.save_order(order);
        if recovered > 0 {
            transfers.push(TokenTransfer { token: order.pair.sell_asset, from: contract, to: maker, amount: recovered });
        }
        proof {
            let i = order_id as int;
            assert(order == cancelled_order(o));
            assert forall|k: int| 0 <= k < self.orders@.len() implies order_wf(
                #[trigger] self.orders@[k],
                k,
            ) by {
                if k != i {
                    assert(self.orders@[k] == old_orders[k]);
                }
            }
            assert forall|p: AssetPair, t: i128|
                #[trigger] ids_at(self.buckets@, p, t) == open_ids(self.orders@, p, t) by {
                assert(ids_at(old_buckets, p, t) == open_ids(old_orders, p, t));
                if p == o.pair && t == o.price_tick {
                    assert forall|j: int| 0 <= j < old_orders.len() && j != i implies old_orders[j].id
                        != old_orders[i].id by {
                        assert(order_wf(old_orders[j], j));
                    }
                    lemma_open_ids_close(old_orders, i, order, p, t);
                } else {
                    lemma_open_ids_update_same(old_orders, i, order, p, t);
                }
            }
            assert(transfers@ =~= old(transfers)@ + cancel_transfers(o, contract));
            assert forall|token: AccountId| maker != contract implies #[trigger] escrowed(
                self.orders@,
                token,
            ) == escrowed(old_orders, token) + net_inflow(cancel_transfers(o, contract), token, contract) by {
                lemma_escrowed_update(old_orders, i, order, token);
                let ts = cancel_transfers(o, contract);
                assert(ts =~= seq![ts[0]]);
                lemma_net_inflow_one(ts[0], token, contract);
            }
        }
        Ok(recovered)
    }

    /// The order with id `order_id`, if it was ever posted.
    pub fn get_order(&self, order_id: u64) -> (r: Option<LimitOrder>)
        requires
            self.wf(),
        ensures
            r == (if order_id < self.orders_view().len() {
                Some(self.orders_view()[order_id as int])
            } else {
                None
            }),
    {
        match self.load_order(order_id) {
            Ok(o) => Some(o),
            Err(_) => None,
        }
    }

    /// The ids of every order resting at `(pair, price_tick)`, in posting order.
    pub fn get_orders_at_tick(&self, pair: AssetPair, price_tick: i128) -> (r: Vec<u64>)
        requires
            self.wf(),
        ensures
            r@ == self.resting_ids(pair, price_tick),
    {
        proof {
            assert(ids_at(self.buckets@, pair, price_tick) == open_ids(self.orders@, pair, price_tick));
        }
        match self.find_bucket(pair, price_tick) {
            None => {
                assert(ids_at(self.buckets@, pair, price_tick) =~= Seq::<u64>::empty());
                Vec::new()
            },
            Some(j) => {
                proof { lemma_ids_at_index(self.buckets@, j as int); }
                let n = self.buckets[j].order_ids.len();
                let mut ids: Vec<u64> = Vec::new();
                let mut i: usize = 0;
                while i < n
                    invariant
                        j < self.buckets@.len(),
                        n == self.buckets@[j as int].order_ids@.len(),
                        i <= n,
                        ids@ == self.buckets@[j as int].order_ids@.subrange(0, i as int),
                    decreases n - i,
                {
                    ids.push(self.buckets[j].order_ids[i]);
                    assert(ids@ =~= self.buckets@[j as int].order_ids@.subrange(0, i + 1));
                    i = i + 1;
                }
                assert(ids@ =~= self.buckets@[j as int].order_ids@);
                ids
            },
        }
    }
}


/// A newly posted order is listed last among the orders resting at its
/// `(pair, tick)`; the lists of other ticks do not change.
pub proof fn law_placed_order_rests_last(
    orders: Seq<LimitOrder>,
    o: LimitOrder,
    pair: AssetPair,
    tick: i128,
)
    requires
        o.active,
    ensures
        open_ids(orders.push(o), o.pair, o.price_tick) == open_ids(orders, o.pair, o.price_tick).push(
            o.id,
        ),
        !(pair == o.pair && tick == o.price_tick) ==> open_ids(orders.push(o), pair, tick)
            == open_ids(orders, pair, tick),
{
    lemma_open_ids_push(orders, o, o.pair, o.price_tick);
    lemma_open_ids_push(orders, o, pair, tick);
}

/// Closing an order (by a full fill or a cancellation) takes exactly its id
/// out of the list of orders resting at its tick, and no other list changes.
pub proof fn law_closed_order_leaves_its_tick(
    orders: Seq<LimitOrder>,
    i: int,
    closed: LimitOrder,
    pair: AssetPair,
    tick: i128,
)
    requires
        0 <= i < orders.len(),
        forall|j: int| 0 <= j < orders.len() ==> (#[trigger] orders[j]).id == j,
        !closed.active,
    ensures
        open_ids(orders.update(i, closed), orders[i].pair, orders[i].price_tick) == without(
            open_ids(orders, orders[i].pair, orders[i].price_tick),
            orders[i].id,
        ),
        !(pair == orders[i].pair && tick == orders[i].price_tick) ==> open_ids(
            orders.update(i, closed),
            pair,
            tick,
        ) == open_ids(orders, pair, tick),
{
    assert forall|j: int| 0 <= j < orders.len() && j != i implies orders[j].id != orders[i].id by {
        assert(orders[j].id == j);
        assert(orders[i].id == i);
    }
    lemma_open_ids_close(orders, i, closed, orders[i].pair, orders[i].price_tick);
    if !(pair == orders[i].pair && tick == orders[i].price_tick) {
        lemma_open_ids_update_same(orders, i, closed, pair, tick);
    }
}

/// A fill keeps an order's accounting: what has been filled plus what remains
/// is what was posted, and the order closes exactly when nothing remains.
pub proof fn law_fill_keeps_accounting(o: LimitOrder, fill_amount: i128)
    requires
        order_wf(o, o.id as int),
        o.active,
        0 < fill_amount <= o.remaining_amount,
    ensures
        filled_order(o, fill_amount).filled_amount + filled_order(o, fill_amount).remaining_amount
            == o.original_amount,
        filled_order(o, fill_amount).active <==> fill_amount < o.remaining_amount,
        order_wf(filled_order(o, fill_amount), o.id as int),
{
}

/// Two partial fills leave an order as one fill of their sum would.
pub proof fn law_fills_compose(o: LimitOrder, first: i128, second: i128)
    requires
        order_wf(o, o.id as int),
        o.active,
        0 < first,
        0 < second,
        first + second <= o.remaining_amount,
    ensures
        filled_order(filled_order(o, first), second) == filled_order(o, (first + second) as i128),
{
}

/// Cancelling a freshly posted order succeeds for its maker and gives the maker
/// back exactly what posting took: the two transfers cancel out for every party.
pub proof fn law_cancel_undoes_place(
    orders: Seq<LimitOrder>,
    maker: AccountId,
    pair: AssetPair,
    price_tick: i128,
    sell_amount: i128,
    ledger_seq: u32,
    expiry: u32,
    contract: AccountId,
    token: AccountId,
    holder: AccountId,
)
    requires
        place_error(price_tick, sell_amount) is None,
        orders.len() < u64::MAX,
        maker != contract,
    ensures
        ({
            let o = new_order(orders.len() as u64, maker, pair, price_tick, sell_amount, ledger_seq, expiry);
            &&& cancel_error(orders.push(o), maker, o.id) is None
            &&& cancelled_order(o).remaining_amount == 0
            &&& net_inflow(place_transfers(o, contract) + cancel_transfers(o, contract), token, holder)
                == 0
        }),
{
    let o = new_order(orders.len() as u64, maker, pair, price_tick, sell_amount, ledger_seq, expiry);
    let ts = place_transfers(o, contract) + cancel_transfers(o, contract);
    assert(ts =~= seq![ts[0], ts[1]]);
    lemma_net_inflow_two(ts[0], ts[1], token, holder);
    assert(orders.push(o)[o.id as int] == o);
}


/// Whether `o` keeps the bookkeeping of an order stored at position `i`.
fn order_ok(o: &LimitOrder, i: u64) -> (r: bool)
    ensures
        r == order_wf(*o, i as int),
{
    if o.id != i || o.sell_asset != o.pair.sell_asset || o.buy_asset != o.pair.buy_asset {
        return false;
    }
    if o.price_tick <= 0 || o.original_amount <= 0 || o.amount != o.remaining_amount {
        return false;
    }
    if o.remaining_amount < 0 || o.filled_amount < 0 || o.filled_amount > o.original_amount {
        return false;
    }
    if o.active {
        if o.remaining_amount <= 0 {
            return false;
        }
        match o.filled_amount.checked_add(o.remaining_amount) {
            Some(total) => total == o.original_amount,
            None => false,
        }
    } else {
        o.remaining_amount == 0
    }
}

impl OrderBook {
    /// The book holding `orders` (the order with id `i` at position `i`), with
    /// its buckets rebuilt from the open orders; `None` unless every order
    /// keeps its bookkeeping.
    pub fn from_orders(orders: Vec<LimitOrder>) -> (r: Option<OrderBook>)
        requires
            orders@.len() < u64::MAX,
        ensures
            r is Some <==> forall|i: int| 0 <= i < orders@.len() ==> order_wf(#[trigger] orders@[i], i),
            r matches Some(book) ==> book.wf() && book.orders_view() == orders@ && book.next_id() == orders@.len(),
    {
        let n = orders.len();
        let mut book = OrderBook::new();
        let mut i: usize = 0;
        while i < n
            invariant
                n == orders@.len(),
                n < u64::MAX,
                i <= n,
                book.orders@ == Seq::<LimitOrder>::empty(),
                book.next_order_id == 0,
                keys_unique(book.buckets@),
                forall|k: int| 0 <= k < i ==> order_wf(#[trigger] orders@[k], k),
                forall|p: AssetPair, t: i128|
                    #[trigger] ids_at(book.buckets@, p, t) == open_ids(orders@.subrange(0, i as int), p, t),
            decreases n - i,
        {
            let o = orders[i];
            if !order_ok(&o, i as u64) {
                return None;
            }
            let ghost before = book.buckets@;
            if o.active {
                book.bucket_push(o.pair, o.price_tick, o.id);
            }
            proof {
                assert(orders@.subrange(0, i + 1) =~= orders@.subrange(0, i as int).push(o));
                assert forall|p: AssetPair, t: i128|
                    #[trigger] ids_at(book.buckets@, p, t) == open_ids(orders@.subrange(0, i + 1), p, t) by {
                    lemma_open_ids_push(orders@.subrange(0, i as int), o, p, t);
                    assert(ids_at(before, p, t) == open_ids(orders@.subrange(0, i as int), p, t));
                }
            }
            i = i + 1;
        }
        assert(orders@.subrange(0, n as int) =~= orders@);
        let book = OrderBook { next_order_id: n as u64, orders, buckets: book.buckets };
        Some(book)
    }

    /// Every order of the book, indexed by id.
    pub fn into_orders(self) -> (orders: Vec<LimitOrder>)
        ensures
            orders@ == self.orders_view(),
    {
        self.orders
    }
}

} // verus!
