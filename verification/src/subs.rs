//! The durable subscription set and the resubscription replay.
//!
//! A subscription is the tuple (channel, symbol, option); the set is keyed
//! by the whole tuple and never shrinks for the life of a connection
//! object. On every successful connect, the replay gathers one subscribe
//! command per stored tuple plus whatever commands were queued while
//! connecting, and sends them deduplicated in ascending byte order — a
//! deterministic sequence, paced by the subscribe rate limiter.

use vstd::prelude::*;
use crate::messages::spec_subscribe_msg;
use crate::messages::build_subscribe_msg;

verus! {

/// Strict byte-wise lexicographic order.
pub open spec fn spec_lex_lt(a: Seq<u8>, b: Seq<u8>) -> bool
    decreases a.len(),
{
    if b.len() == 0 {
        false
    } else if a.len() == 0 {
        true
    } else if a[0] < b[0] {
        true
    } else if a[0] > b[0] {
        false
    } else {
        spec_lex_lt(a.drop_first(), b.drop_first())
    }
}

/// Exactly one of `a < b`, `a == b`, `b < a` holds.
pub proof fn lemma_lex_trichotomy(a: Seq<u8>, b: Seq<u8>)
    ensures
        spec_lex_lt(a, b) || spec_lex_lt(b, a) || a =~= b,
        spec_lex_lt(a, b) ==> !spec_lex_lt(b, a) && a != b,
        spec_lex_lt(b, a) ==> !spec_lex_lt(a, b) && a != b,
    decreases a.len(),
{
    if a.len() > 0 && b.len() > 0 && a[0] == b[0] {
        lemma_lex_trichotomy(a.drop_first(), b.drop_first());
        if a.drop_first() =~= b.drop_first() {
            assert forall|i: int| 0 <= i < a.len() implies a[i] == b[i] by {
                if i > 0 {
                    assert(a.drop_first()[i - 1] == b.drop_first()[i - 1]);
                }
            }
            assert(a =~= b);
        }
    }
}

/// The order is transitive.
pub proof fn lemma_lex_transitive(a: Seq<u8>, b: Seq<u8>, c: Seq<u8>)
    requires
        spec_lex_lt(a, b),
        spec_lex_lt(b, c),
    ensures
        spec_lex_lt(a, c),
    decreases a.len(),
{
    if a.len() > 0 && b.len() > 0 && c.len() > 0 && a[0] == b[0] && b[0] == c[0] {
        lemma_lex_transitive(a.drop_first(), b.drop_first(), c.drop_first());
    }
}

/// Compare two byte strings in lexicographic order.
pub fn lex_lt(a: &[u8], b: &[u8]) -> (r: bool)
    ensures
        r == spec_lex_lt(a@, b@),
{
    let mut i: usize = 0;
    proof {
        assert(a@.skip(0) == a@);
        assert(b@.skip(0) == b@);
        assert(a@.take(0) =~= b@.take(0));
    }
    loop
        invariant
            0 <= i <= a@.len(),
            i <= b@.len(),
            a@.take(i as int) == b@.take(i as int),
            spec_lex_lt(a@, b@) == spec_lex_lt(a@.skip(i as int), b@.skip(i as int)),
        decreases a@.len() - i,
    {
        if i >= b.len() {
            return false;
        }
        if i >= a.len() {
            return true;
        }
        let x = a[i];
        let y = b[i];
        if x < y {
            return true;
        }
        if x > y {
            return false;
        }
        proof {
            assert(a@.skip(i as int).drop_first() == a@.skip(i + 1));
            assert(b@.skip(i as int).drop_first() == b@.skip(i + 1));
            assert(a@.take(i + 1) == a@.take(i as int).push(a@[i as int]));
            assert(b@.take(i + 1) == b@.take(i as int).push(b@[i as int]));
        }
        i = i + 1;
    }
}

/// Whether two byte strings are equal.
pub fn bytes_eq(a: &[u8], b: &[u8]) -> (r: bool)
    ensures
        r == (a@ == b@),
{
    if a.len() != b.len() {
        return false;
    }
    let mut i: usize = 0;
    while i < a.len()
        invariant
            0 <= i <= a@.len(),
            a@.len() == b@.len(),
            forall|j: int| 0 <= j < i ==> a@[j] == b@[j],
        decreases a@.len() - i,
    {
        if a[i] != b[i] {
            return false;
        }
        i = i + 1;
    }
    proof {
        assert(a@ =~= b@);
    }
    true
}

/// One durable subscription: channel, symbol, and an option such as a
/// taker-only filter — the empty option standing for none.
#[derive(Debug)]
pub struct Subscription {
    pub channel: Vec<u8>,
    pub symbol: Vec<u8>,
    pub option: Vec<u8>,
}

impl Subscription {
    /// The tuple as a triple of byte strings.
    pub open spec fn spec_tuple(self) -> (Seq<u8>, Seq<u8>, Seq<u8>) {
        (self.channel@, self.symbol@, self.option@)
    }

    /// The subscribe command this subscription replays as.
    pub open spec fn spec_msg(self) -> Seq<u8> {
        spec_subscribe_msg(self.channel@, self.symbol@, self.option@)
    }

    pub fn new(channel: Vec<u8>, symbol: Vec<u8>, option: Vec<u8>) -> (r: Subscription)
        ensures
            r.channel@ == channel@,
            r.symbol@ == symbol@,
            r.option@ == option@,
    {
        Subscription { channel, symbol, option }
    }

    /// Whether two subscriptions are the same tuple.
    pub fn same_tuple(&self, other: &Subscription) -> (r: bool)
        ensures
            r == (self.spec_tuple() == other.spec_tuple()),
    {
        let c = bytes_eq(self.channel.as_slice(), other.channel.as_slice());
        let s = bytes_eq(self.symbol.as_slice(), other.symbol.as_slice());
        let o = bytes_eq(self.option.as_slice(), other.option.as_slice());
        c && s && o
    }
}

/// Whether the sequence holds the tuple.
pub open spec fn spec_has_tuple(
    subs: Seq<Subscription>,
    t: (Seq<u8>, Seq<u8>, Seq<u8>),
) -> bool {
    exists|i: int| 0 <= i < subs.len() && #[trigger] subs[i].spec_tuple() == t
}

/// No two subscriptions in the sequence share a tuple.
pub open spec fn spec_unique_tuples(subs: Seq<Subscription>) -> bool {
    forall|i: int, j: int|
        0 <= i < j < subs.len() ==> subs[i].spec_tuple() != subs[j].spec_tuple()
}

/// The set of subscriptions, unique by tuple, in insertion order.
#[derive(Debug)]
pub struct SubscriptionSet {
    pub subs: Vec<Subscription>,
}

impl SubscriptionSet {
    /// No two stored subscriptions share a tuple.
    pub open spec fn wf(self) -> bool {
        spec_unique_tuples(self.subs@)
    }

    pub fn new() -> (r: SubscriptionSet)
        ensures
            r.wf(),
            r.subs@.len() == 0,
    {
        SubscriptionSet { subs: Vec::new() }
    }

    /// Record a subscription. A tuple already stored is not stored twice;
    /// nothing is ever removed.
    pub fn add(&mut self, sub: Subscription)
        requires
            old(self).wf(),
        ensures
            final(self).wf(),
            spec_has_tuple(final(self).subs@, sub.spec_tuple()),
            forall|t: (Seq<u8>, Seq<u8>, Seq<u8>)|
                t != sub.spec_tuple() ==> (spec_has_tuple(final(self).subs@, t)
                    <==> spec_has_tuple(old(self).subs@, t)),
            spec_has_tuple(old(self).subs@, sub.spec_tuple()) ==> final(self).subs@ == old(
                self,
            ).subs@,
    {
        let mut i: usize = 0;
        while i < self.subs.len()
            invariant
                0 <= i <= self.subs@.len(),
                forall|j: int| 0 <= j < i ==> self.subs@[j].spec_tuple() != sub.spec_tuple(),
                self.subs@ == old(self).subs@,
                old(self).wf(),
            decreases self.subs@.len() - i,
        {
            if self.subs[i].same_tuple(&sub) {
                proof {
                    assert(self.subs@[i as int].spec_tuple() == sub.spec_tuple());
                }
                return ;
            }
            i = i + 1;
        }
        self.subs.push(sub);
        proof {
            let s1 = self.subs@;
            let s0 = old(self).subs@;
            assert(s1 == s0.push(sub));
            assert(s1[s0.len() as int].spec_tuple() == sub.spec_tuple());
            assert forall|i: int, j: int|
                0 <= i < j < s1.len() implies s1[i].spec_tuple() != s1[j].spec_tuple() by {
                if j < s0.len() {
                    assert(s1[i] == s0[i]);
                    assert(s1[j] == s0[j]);
                    assert(spec_unique_tuples(s0));
                } else {
                    assert(s1[j] == sub);
                    assert(s1[i] == s0[i]);
                    assert(s0[i].spec_tuple() != sub.spec_tuple());
                }
            }
            assert(spec_unique_tuples(s1));
            assert forall|t: (Seq<u8>, Seq<u8>, Seq<u8>)|
                t != sub.spec_tuple() implies (spec_has_tuple(s1, t) <==> spec_has_tuple(
                s0,
                t,
            )) by {
                if spec_has_tuple(s1, t) {
                    let i = choose|i: int| 0 <= i < s1.len() && #[trigger] s1[i].spec_tuple() == t;
                    assert(s0[i].spec_tuple() == t);
                }
                if spec_has_tuple(s0, t) {
                    let i = choose|i: int| 0 <= i < s0.len() && #[trigger] s0[i].spec_tuple() == t;
                    assert(s1[i].spec_tuple() == t);
                }
            }
        }
    }

    /// How many distinct tuples are stored.
    pub fn len(&self) -> (r: usize)
        ensures
            r == self.subs@.len(),
    {
        self.subs.len()
    }
}

/// A sorted, duplicate-free command list: strictly ascending byte order.
pub open spec fn spec_sorted_unique(cmds: Seq<Vec<u8>>) -> bool {
    forall|i: int, j: int|
        0 <= i < j < cmds.len() ==> spec_lex_lt(cmds[i]@, cmds[j]@)
}

/// Whether the command list holds the byte string `m`.
pub open spec fn spec_has_cmd(cmds: Seq<Vec<u8>>, m: Seq<u8>) -> bool {
    exists|i: int| 0 <= i < cmds.len() && (#[trigger] cmds[i])@ == m
}

/// The insertion point for `m` in a sorted command list: the index of the
/// first command not strictly below it.
fn find_cmd_pos(cmds: &Vec<Vec<u8>>, m: &[u8]) -> (k: usize)
    ensures
        0 <= k <= cmds@.len(),
        forall|i: int| 0 <= i < k ==> spec_lex_lt((#[trigger] cmds@[i])@, m@),
        k < cmds@.len() ==> !spec_lex_lt(cmds@[k as int]@, m@),
{
    let mut k: usize = 0;
    while k < cmds.len()
        invariant
            0 <= k <= cmds@.len(),
            forall|i: int| 0 <= i < k ==> spec_lex_lt((#[trigger] cmds@[i])@, m@),
        decreases cmds@.len() - k,
    {
        if !lex_lt(cmds[k].as_slice(), m) {
            return k;
        }
        k = k + 1;
    }
    k
}

/// Insert a command into a sorted, duplicate-free list, dropping it if it
/// is already there.
fn insert_cmd(cmds: &mut Vec<Vec<u8>>, m: Vec<u8>)
    requires
        spec_sorted_unique(old(cmds)@),
    ensures
        spec_sorted_unique(final(cmds)@),
        forall|x: Seq<u8>|
            spec_has_cmd(final(cmds)@, x) <==> (spec_has_cmd(old(cmds)@, x) || x == m@),
{
    let k = find_cmd_pos(cmds, m.as_slice());
    if k < cmds.len() {
        if bytes_eq(cmds[k].as_slice(), m.as_slice()) {
            proof {
                assert(cmds@[k as int]@ == m@);
                assert forall|x: Seq<u8>|
                    spec_has_cmd(cmds@, x) <==> (spec_has_cmd(old(cmds)@, x) || x == m@) by {
                    if x == m@ {
                        assert(spec_has_cmd(cmds@, x));
                    }
                }
            }
            return ;
        }
    }
    proof {
        if k < cmds@.len() {
            lemma_lex_trichotomy(cmds@[k as int]@, m@);
            assert(spec_lex_lt(m@, cmds@[k as int]@));
        }
    }
    cmds.insert(k, m);
    proof {
        let s0 = old(cmds)@;
        let s1 = cmds@;
        assert(s1 == s0.insert(k as int, m));
        assert forall|i: int, j: int|
            0 <= i < j < s1.len() implies spec_lex_lt(s1[i]@, s1[j]@) by {
            if i < k {
                assert(s1[i] == s0[i]);
                assert(spec_lex_lt(s0[i]@, m@));
            } else if i == k {
                assert(s1[i] == m);
            } else {
                assert(s1[i] == s0[i - 1]);
            }
            if j < k {
                assert(s1[j] == s0[j]);
            } else if j == k {
                assert(s1[j] == m);
            } else {
                assert(s1[j] == s0[j - 1]);
                assert(k < s0.len());
                assert(spec_lex_lt(m@, s0[k as int]@));
                if j - 1 > k {
                    assert(spec_lex_lt(s0[k as int]@, s0[j - 1]@));
                    lemma_lex_transitive(m@, s0[k as int]@, s0[j - 1]@);
                }
                if i < k {
                    lemma_lex_transitive(s0[i]@, m@, s1[j]@);
                }
            }
            if i < k && j == k {
                assert(spec_lex_lt(s0[i]@, m@));
            }
        }
        assert forall|x: Seq<u8>|
            spec_has_cmd(s1, x) <==> (spec_has_cmd(s0, x) || x == m@) by {
            if spec_has_cmd(s1, x) {
                let i = choose|i: int| 0 <= i < s1.len() && (#[trigger] s1[i])@ == x;
                if i < k {
                    assert(s0[i]@ == x);
                } else if i == k {
                } else {
                    assert(s0[i - 1]@ == x);
                }
            }
            if spec_has_cmd(s0, x) {
                let i = choose|i: int| 0 <= i < s0.len() && (#[trigger] s0[i])@ == x;
                if i < k {
                    assert(s1[i]@ == x);
                } else {
                    assert(s1[i + 1]@ == x);
                }
            }
            if x == m@ {
                assert(s1[k as int]@ == x);
            }
        }
    }
}

/// Law: a sorted, duplicate-free command list is canonical — two such
/// lists holding the same commands are the same list, element for
/// element. With `replay_commands`' ensures this makes the replay of a
/// given subscription set and queue one deterministic sequence, however
/// the set was accumulated.
pub proof fn lemma_sorted_unique_canonical(a: Seq<Vec<u8>>, b: Seq<Vec<u8>>)
    requires
        spec_sorted_unique(a),
        spec_sorted_unique(b),
        forall|x: Seq<u8>| spec_has_cmd(a, x) <==> spec_has_cmd(b, x),
    ensures
        a.len() == b.len(),
        forall|i: int| 0 <= i < a.len() ==> (#[trigger] a[i])@ == b[i]@,
    decreases a.len(),
{
    if a.len() == 0 {
        if b.len() > 0 {
            assert(spec_has_cmd(b, b[0]@));
            assert(spec_has_cmd(a, b[0]@));
            let i = choose|i: int| 0 <= i < a.len() && (#[trigger] a[i])@ == b[0]@;
            assert(false);
        }
    } else {
        assert(spec_has_cmd(a, a[0]@));
        assert(spec_has_cmd(b, a[0]@));
        assert(b.len() > 0) by {
            let j = choose|j: int| 0 <= j < b.len() && (#[trigger] b[j])@ == a[0]@;
        }
        assert(a[0]@ == b[0]@) by {
            let j = choose|j: int| 0 <= j < b.len() && (#[trigger] b[j])@ == a[0]@;
            assert(spec_has_cmd(a, b[0]@));
            let k = choose|k: int| 0 <= k < a.len() && (#[trigger] a[k])@ == b[0]@;
            if j > 0 && k > 0 {
                assert(spec_lex_lt(b[0]@, b[j]@));
                assert(spec_lex_lt(a[0]@, a[k]@));
                lemma_lex_trichotomy(a[0]@, b[0]@);
            }
        }
        let at = a.drop_first();
        let bt = b.drop_first();
        assert forall|x: Seq<u8>| spec_has_cmd(at, x) <==> spec_has_cmd(bt, x) by {
            lemma_tail_membership(a, x);
            lemma_tail_membership(b, x);
            assert(a[0]@ == b[0]@);
        }
        assert(spec_sorted_unique(at)) by {
            assert forall|i: int, j: int|
                0 <= i < j < at.len() implies spec_lex_lt(at[i]@, at[j]@) by {
                assert(at[i] == a[i + 1]);
                assert(at[j] == a[j + 1]);
            }
        }
        assert(spec_sorted_unique(bt)) by {
            assert forall|i: int, j: int|
                0 <= i < j < bt.len() implies spec_lex_lt(bt[i]@, bt[j]@) by {
                assert(bt[i] == b[i + 1]);
                assert(bt[j] == b[j + 1]);
            }
        }
        lemma_sorted_unique_canonical(at, bt);
        assert forall|i: int| 0 <= i < a.len() implies (#[trigger] a[i])@ == b[i]@ by {
            if i > 0 {
                assert(at[i - 1]@ == bt[i - 1]@);
            }
        }
    }
}

/// In a sorted, duplicate-free list, the tail holds exactly the commands
/// other than the head's.
proof fn lemma_tail_membership(a: Seq<Vec<u8>>, x: Seq<u8>)
    requires
        a.len() > 0,
        spec_sorted_unique(a),
    ensures
        spec_has_cmd(a.drop_first(), x) <==> (spec_has_cmd(a, x) && x != a[0]@),
{
    let t = a.drop_first();
    if spec_has_cmd(t, x) {
        let i = choose|i: int| 0 <= i < t.len() && (#[trigger] t[i])@ == x;
        assert(a[i + 1]@ == x);
        assert(spec_has_cmd(a, x));
        assert(spec_lex_lt(a[0]@, a[i + 1]@));
        lemma_lex_trichotomy(a[0]@, x);
    }
    if spec_has_cmd(a, x) && x != a[0]@ {
        let i = choose|i: int| 0 <= i < a.len() && (#[trigger] a[i])@ == x;
        assert(i > 0);
        assert(t[i - 1]@ == x);
    }
}

/// The commands a fresh connection replays: one subscribe command per
/// stored tuple, plus everything queued, deduplicated exactly and sorted
/// into ascending byte order — the same deterministic sequence for the
/// same set, however it was accumulated.
pub fn replay_commands(set: &SubscriptionSet, queued: &Vec<Vec<u8>>) -> (r: Vec<Vec<u8>>)
    ensures
        spec_sorted_unique(r@),
        forall|x: Seq<u8>|
            spec_has_cmd(r@, x) <==> ((exists|i: int|
                0 <= i < set.subs@.len() && (#[trigger] set.subs@[i]).spec_msg() == x)
                || spec_has_cmd(queued@, x)),
{
    let mut out: Vec<Vec<u8>> = Vec::new();
    let mut i: usize = 0;
    while i < set.subs.len()
        invariant
            0 <= i <= set.subs@.len(),
            spec_sorted_unique(out@),
            forall|x: Seq<u8>|
                spec_has_cmd(out@, x) <==> exists|j: int|
                    0 <= j < i && (#[trigger] set.subs@[j]).spec_msg() == x,
        decreases set.subs@.len() - i,
    {
        let sub = &set.subs[i];
        let msg = build_subscribe_msg(
            sub.channel.as_slice(),
            sub.symbol.as_slice(),
            sub.option.as_slice(),
        );
        insert_cmd(&mut out, msg);
        i = i + 1;
    }
    let mut j: usize = 0;
    while j < queued.len()
        invariant
            0 <= j <= queued@.len(),
            spec_sorted_unique(out@),
            forall|x: Seq<u8>|
                spec_has_cmd(out@, x) <==> ((exists|i: int|
                    0 <= i < set.subs@.len() && (#[trigger] set.subs@[i]).spec_msg() == x)
                    || exists|m: int| 0 <= m < j && (#[trigger] queued@[m])@ == x),
        decreases queued@.len() - j,
    {
        let mut q: Vec<u8> = Vec::new();
        let item = &queued[j];
        let mut b: usize = 0;
        while b < item.len()
            invariant
                0 <= b <= item@.len(),
                q@ == item@.take(b as int),
                item == queued@[j as int],
            decreases item@.len() - b,
        {
            q.push(item[b]);
            proof {
                assert(item@.take(b + 1) == item@.take(b as int).push(item@[b as int]));
            }
            b = b + 1;
        }
        proof {
            assert(item@.take(b as int) == item@);
        }
        insert_cmd(&mut out, q);
        j = j + 1;
    }
    out
}

} // verus!
