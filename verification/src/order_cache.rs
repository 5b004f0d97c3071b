//! The local order cache and the client-order-id map.
//!
//! The cache maps exchange order id to the last-known order record; it is
//! written only by private order-event delivery and read by queries, and
//! an update for an id simply replaces what was there — the cache holds
//! the latest record, nothing older. The id map correlates caller-chosen
//! client order ids with the venue's ids once a submission returns one;
//! neither structure evicts for the life of the process.

use vstd::prelude::*;
use std::collections::HashMap;
use crate::model::Order;

verus! {

broadcast use vstd::std_specs::hash::group_hash_axioms;

/// The order cache: exchange order id to last-known record.
#[derive(Debug)]
pub struct OrderCache {
    map: HashMap<u64, Order>,
}

impl OrderCache {
    /// The cache as a map from id to record.
    pub closed spec fn view(self) -> Map<u64, Order> {
        self.map@
    }

    pub fn new() -> (r: OrderCache)
        ensures
            r@ == Map::<u64, Order>::empty(),
    {
        OrderCache { map: HashMap::new() }
    }

    /// Record an order update: the record is stored under its own id,
    /// replacing any earlier record for that id and touching no other.
    pub fn upsert(&mut self, order: Order)
        ensures
            final(self)@ == old(self)@.insert(order.order_id, order),
    {
        let id = order.order_id;
        self.map.insert(id, order);
    }

    /// The last-known record for an id, if one was ever delivered.
    pub fn get(&self, order_id: u64) -> (r: Option<&Order>)
        ensures
            match r {
                Some(o) => self@.contains_key(order_id) && *o == self@[order_id],
                None => !self@.contains_key(order_id),
            },
    {
        self.map.get(&order_id)
    }

    /// How many ids the cache holds.
    pub fn len(&self) -> (r: usize)
        ensures
            r == self@.len(),
    {
        self.map.len()
    }
}

/// Law: of two updates for one id, only the later survives — after
/// recording `a` and then `b` with the same id, the cache holds `b` for
/// that id, and exactly what it held before for every other.
pub proof fn lemma_cache_holds_latest(m: Map<u64, Order>, a: Order, b: Order)
    requires
        a.order_id == b.order_id,
    ensures
        m.insert(a.order_id, a).insert(b.order_id, b) == m.insert(b.order_id, b),
        m.insert(a.order_id, a).insert(b.order_id, b)[b.order_id] == b,
{
    assert(m.insert(a.order_id, a).insert(b.order_id, b) =~= m.insert(b.order_id, b));
}

/// The client-order-id map: caller-chosen id to the venue's id, filled at
/// submission time, unique by client id, overwritten on reuse.
#[derive(Debug)]
pub struct ClientOidMap {
    pub entries: Vec<(String, u64)>,
}

/// No client id appears twice.
pub open spec fn spec_unique_oids(entries: Seq<(String, u64)>) -> bool {
    forall|i: int, j: int| 0 <= i < j < entries.len() ==> entries[i].0@ != entries[j].0@
}

/// Whether the map binds `key` to `val`.
pub open spec fn spec_has_oid(entries: Seq<(String, u64)>, key: Seq<char>, val: u64) -> bool {
    exists|i: int|
        0 <= i < entries.len() && (#[trigger] entries[i]).0@ == key && entries[i].1 == val
}

impl ClientOidMap {
    pub open spec fn wf(self) -> bool {
        spec_unique_oids(self.entries@)
    }

    pub fn new() -> (r: ClientOidMap)
        ensures
            r.wf(),
            r.entries@.len() == 0,
    {
        ClientOidMap { entries: Vec::new() }
    }

    /// Bind a client order id to the venue's order id, replacing any
    /// earlier binding of the same client id.
    pub fn record(&mut self, client_order_id: String, order_id: u64)
        requires
            old(self).wf(),
        ensures
            final(self).wf(),
            spec_has_oid(final(self).entries@, client_order_id@, order_id),
            forall|k: Seq<char>, v: u64|
                k != client_order_id@ ==> (spec_has_oid(final(self).entries@, k, v)
                    <==> spec_has_oid(old(self).entries@, k, v)),
            forall|v: u64|
                spec_has_oid(final(self).entries@, client_order_id@, v) <==> v == order_id,
    {
        let mut i: usize = 0;
        while i < self.entries.len()
            invariant
                0 <= i <= self.entries@.len(),
                forall|j: int| 0 <= j < i ==> (#[trigger] self.entries@[j]).0@ != client_order_id@,
                self.entries@ == old(self).entries@,
                old(self).wf(),
            decreases self.entries@.len() - i,
        {
            if self.entries[i].0 == client_order_id {
                self.entries.set(i, (client_order_id, order_id));
                proof {
                    let s0 = old(self).entries@;
                    let s1 = self.entries@;
                    assert(s1 == s0.update(i as int, (client_order_id, order_id)));
                    assert(s1[i as int].0@ == client_order_id@ && s1[i as int].1 == order_id);
                    assert forall|a: int, b: int|
                        0 <= a < b < s1.len() implies s1[a].0@ != s1[b].0@ by {
                        assert(s0[a].0@ != s0[b].0@);
                        if a != i {
                            assert(s1[a] == s0[a]);
                        }
                        if b != i {
                            assert(s1[b] == s0[b]);
                        }
                    }
                    assert forall|k: Seq<char>, v: u64|
                        k != client_order_id@ implies (spec_has_oid(s1, k, v) <==> spec_has_oid(
                        s0,
                        k,
                        v,
                    )) by {
                        if spec_has_oid(s1, k, v) {
                            let a = choose|a: int|
                                0 <= a < s1.len() && (#[trigger] s1[a]).0@ == k && s1[a].1 == v;
                            assert(s0[a].0@ == k && s0[a].1 == v);
                        }
                        if spec_has_oid(s0, k, v) {
                            let a = choose|a: int|
                                0 <= a < s0.len() && (#[trigger] s0[a]).0@ == k && s0[a].1 == v;
                            assert(s1[a].0@ == k && s1[a].1 == v);
                        }
                    }
                    assert forall|v: u64|
                        spec_has_oid(s1, client_order_id@, v) implies v == order_id by {
                        let a = choose|a: int|
                            0 <= a < s1.len() && (#[trigger] s1[a]).0@ == client_order_id@
                                && s1[a].1 == v;
                        if a != i {
                            assert(s0[a].0@ == client_order_id@);
                            assert(s0[i as int].0@ == client_order_id@);
                        }
                    }
                }
                return ;
            }
            i = i + 1;
        }
        self.entries.push((client_order_id, order_id));
        proof {
            let s0 = old(self).entries@;
            let s1 = self.entries@;
            assert(s1[s0.len() as int].0@ == client_order_id@);
            assert forall|a: int, b: int| 0 <= a < b < s1.len() implies s1[a].0@ != s1[b].0@ by {
                if b < s0.len() {
                    assert(s1[a] == s0[a]);
                    assert(s1[b] == s0[b]);
                    assert(s0[a].0@ != s0[b].0@);
                } else {
                    assert(s1[a] == s0[a]);
                    assert(s0[a].0@ != client_order_id@);
                }
            }
            assert forall|k: Seq<char>, v: u64|
                k != client_order_id@ implies (spec_has_oid(s1, k, v) <==> spec_has_oid(
                s0,
                k,
                v,
            )) by {
                if spec_has_oid(s1, k, v) {
                    let a = choose|a: int|
                        0 <= a < s1.len() && (#[trigger] s1[a]).0@ == k && s1[a].1 == v;
                    assert(s0[a].0@ == k && s0[a].1 == v);
                }
                if spec_has_oid(s0, k, v) {
                    let a = choose|a: int|
                        0 <= a < s0.len() && (#[trigger] s0[a]).0@ == k && s0[a].1 == v;
                    assert(s1[a].0@ == k && s1[a].1 == v);
                }
            }
            assert forall|v: u64| spec_has_oid(s1, client_order_id@, v) implies v == order_id by {
                let a = choose|a: int|
                    0 <= a < s1.len() && (#[trigger] s1[a]).0@ == client_order_id@ && s1[a].1
                        == v;
                if a < s0.len() {
                    assert(s0[a].0@ != client_order_id@);
                }
            }
        }
    }

    /// The venue id bound to a client id, if one was recorded.
    pub fn lookup(&self, client_order_id: &String) -> (r: Option<u64>)
        requires
            self.wf(),
        ensures
            match r {
                Some(v) => spec_has_oid(self.entries@, client_order_id@, v),
                None => forall|v: u64| !spec_has_oid(self.entries@, client_order_id@, v),
            },
    {
        let mut i: usize = 0;
        while i < self.entries.len()
            invariant
                0 <= i <= self.entries@.len(),
                forall|j: int| 0 <= j < i ==> (#[trigger] self.entries@[j]).0@ != client_order_id@,
            decreases self.entries@.len() - i,
        {
            if self.entries[i].0 == *client_order_id {
                proof {
                    assert(self.entries@[i as int].0@ == client_order_id@);
                }
                return Some(self.entries[i].1);
            }
            i = i + 1;
        }
        proof {
            assert forall|v: u64| !spec_has_oid(self.entries@, client_order_id@, v) by {
                if spec_has_oid(self.entries@, client_order_id@, v) {
                    let a = choose|a: int|
                        0 <= a < self.entries@.len() && (#[trigger] self.entries@[a]).0@
                            == client_order_id@ && self.entries@[a].1 == v;
                }
            }
        }
        None
    }
}

/// Record a submission's outcome. The venue's reply carries the new order
/// id as decimal text; a parsable positive id is recorded under the
/// caller's client order id and returned, while anything else — absent,
/// malformed, overflowing or zero — records nothing and returns zero, the
/// stand-in for no id.
pub fn record_submission(map: &mut ClientOidMap, client_order_id: String, data: &[u8]) -> (r:
    u64)
    requires
        old(map).wf(),
    ensures
        final(map).wf(),
        r == (if crate::textnum::spec_is_digits(data@) && crate::textnum::spec_dec_val(data@)
            <= u64::MAX {
            crate::textnum::spec_dec_val(data@) as int
        } else {
            0
        }),
        r > 0 ==> spec_has_oid(final(map).entries@, client_order_id@, r) && (forall|
            k: Seq<char>,
            v: u64,
        |
            k != client_order_id@ ==> (spec_has_oid(final(map).entries@, k, v) <==> spec_has_oid(
                old(map).entries@,
                k,
                v,
            ))),
        r == 0 ==> final(map).entries@ == old(map).entries@,
{
    match crate::textnum::parse_u64(data) {
        Some(v) => {
            if v > 0 {
                map.record(client_order_id, v);
            }
            v
        },
        None => 0,
    }
}

} // verus!
