//! The auction's data model: lots, bids, escrow entries, and the state value
//! that every operation reads and updates.
//!
//! Account identifiers are plain strings and timestamps are logical seconds
//! supplied by the caller; the engine never reads a clock.  Money is held in
//! fixed-point integer amounts only.

use vstd::prelude::*;

verus! {

/// An amount of a single currency.
#[derive(Debug)]
#[verifier::ext_equal]
pub struct Coin {
    pub denom: String,
    pub amount: u128,
}

/// Process-wide configuration, fixed when the auction engine is created.
pub struct Config {
    /// The privileged account that may settle lots.
    pub owner: String,
    /// The single currency accepted for escrow deposits.
    pub denom: String,
}

/// The lifecycle stage of a lot.
///
/// Transitions form a strict DAG: `Init -> Bidding -> {Sold, Canceled}`,
/// plus cancellation straight from `Init`; `Sold` and `Canceled` are
/// terminal.
#[derive(Clone, Copy, Debug, PartialEq, Eq, Structural)]
pub enum Status {
    Init,
    Bidding,
    Sold,
    Canceled,
}

/// The current highest bid on a lot.  Only the highest bid is retained; no
/// bid history is kept.
#[verifier::ext_equal]
pub struct Bid {
    pub buyer_id: String,
    pub resource_id: u64,
    pub price: u64,
}

/// One lot offered for sale.
#[verifier::ext_equal]
pub struct Resource {
    pub seller_id: String,
    /// Unique, monotonically assigned, never reused.
    pub resource_id: u64,
    pub volume: u64,
    pub price: u64,
    pub status: Status,
    pub highest_bid: Option<Bid>,
    /// Logical timestamp after which bidding closes.
    pub expire: u64,
    /// Every account that has ever bid on this lot, without duplicates.
    pub bidders: Vec<String>,
}

/// Cumulative funds deposited by one bidder toward one lot.
#[verifier::ext_equal]
pub struct Deposit {
    pub buyer_id: String,
    pub resource_id: u64,
    pub amount: u128,
}

/// The whole state of the auction engine.
pub struct AuctionState {
    pub config: Config,
    /// The id handed to the most recently created lot; ids start at 1.
    pub next_resource_id: u64,
    /// All lots ever created; the lot with id `i` sits at index `i - 1`.
    pub resources: Vec<Resource>,
    /// The escrow ledger, keyed by `(buyer_id, resource_id)`.
    pub deposits: Vec<Deposit>,
}

/// Whether `a` occurs among the addresses of `s`.
pub open spec fn addr_in(s: Seq<String>, a: Seq<char>) -> bool {
    exists|i: int| 0 <= i < s.len() && #[trigger] s[i]@ == a
}

/// Whether the addresses of `s` are pairwise distinct.
pub open spec fn addrs_unique(s: Seq<String>) -> bool {
    forall|i: int, j: int| 0 <= i < j < s.len() ==> #[trigger] s[i]@ != #[trigger] s[j]@
}

/// Whether `d` is the escrow entry for `(b, rid)`.
pub open spec fn key_matches(d: Deposit, b: Seq<char>, rid: u64) -> bool {
    d.buyer_id@ == b && d.resource_id == rid
}

/// The cumulative escrow balance recorded in `ds` for `(b, rid)`, zero when
/// no entry exists.
pub open spec fn escrow_lookup(ds: Seq<Deposit>, b: Seq<char>, rid: u64) -> u128
    decreases ds.len(),
{
    if ds.len() == 0 {
        0
    } else if key_matches(ds[0], b, rid) {
        ds[0].amount
    } else {
        escrow_lookup(ds.drop_first(), b, rid)
    }
}

/// Whether the `(buyer, lot)` keys of `ds` are pairwise distinct.
pub open spec fn escrow_keys_unique(ds: Seq<Deposit>) -> bool {
    forall|i: int, j: int|
        0 <= i < j < ds.len() ==> !key_matches(
            #[trigger] ds[j],
            (#[trigger] ds[i]).buyer_id@,
            ds[i].resource_id,
        )
}

/// The internal consistency of one lot record.
pub open spec fn lot_wf(r: Resource) -> bool {
    &&& r.volume >= 1
    &&& r.price >= 1
    &&& (r.highest_bid matches Some(b) ==> b.resource_id == r.resource_id && b.price >= 1
        && addr_in(r.bidders@, b.buyer_id@))
    &&& (r.highest_bid is None ==> r.bidders@.len() == 0)
    &&& addrs_unique(r.bidders@)
}

/// Whether two lot records carry the same data.  Lists of bidders are
/// compared by contents.
pub open spec fn lot_like(a: Resource, b: Resource) -> bool {
    &&& a.seller_id == b.seller_id
    &&& a.resource_id == b.resource_id
    &&& a.volume == b.volume
    &&& a.price == b.price
    &&& a.status == b.status
    &&& a.highest_bid == b.highest_bid
    &&& a.expire == b.expire
    &&& a.bidders@ == b.bidders@
}

/// The fields of a lot that no operation ever changes after creation.
pub open spec fn same_lot_core(pre: Resource, post: Resource) -> bool {
    &&& post.seller_id == pre.seller_id
    &&& post.resource_id == pre.resource_id
    &&& post.volume == pre.volume
    &&& post.price == pre.price
}

/// What a lot owes in total: `volume * price`, as an unbounded integer.
pub open spec fn total_due(r: Resource) -> int {
    r.volume * r.price
}

impl AuctionState {
    /// Lot ids are assigned 1, 2, 3, ... in creation order.
    pub open spec fn lots_wf(self) -> bool {
        &&& self.next_resource_id as int == self.resources@.len()
        &&& forall|i: int|
            0 <= i < self.resources@.len() ==> (#[trigger] self.resources@[i]).resource_id == i
                + 1
        &&& forall|i: int| 0 <= i < self.resources@.len() ==> lot_wf(#[trigger] self.resources@[i])
    }

    /// Escrow entries carry distinct keys and every entry points at an
    /// existing lot.  A balance can outlive a rejected bid: funds sent with
    /// a bid that failed the sufficiency check stay banked toward the lot.
    pub open spec fn deposits_wf(self) -> bool {
        &&& escrow_keys_unique(self.deposits@)
        &&& forall|i: int|
            0 <= i < self.deposits@.len() ==> 1 <= (#[trigger] self.deposits@[i]).resource_id
                && self.deposits@[i].resource_id as int <= self.resources@.len()
    }

    /// The state invariant that every operation preserves.
    pub open spec fn wf(self) -> bool {
        self.lots_wf() && self.deposits_wf()
    }

    /// Whether a lot with id `rid` exists.
    pub open spec fn has_lot(self, rid: u64) -> bool {
        1 <= rid && rid as int <= self.resources@.len()
    }

    /// The lot with id `rid` (meaningful only when `has_lot(rid)`).
    pub open spec fn lot(self, rid: u64) -> Resource {
        self.resources@[rid as int - 1]
    }

    /// The escrow balance held by `b` toward lot `rid`, zero when absent.
    pub open spec fn escrow_of(self, b: Seq<char>, rid: u64) -> u128 {
        escrow_lookup(self.deposits@, b, rid)
    }
}

/// Whether `a` occurs among the addresses of `v`.
pub fn contains_addr(v: &Vec<String>, a: &String) -> (b: bool)
    ensures
        b == addr_in(v@, a@),
{
    let mut i: usize = 0;
    while i < v.len()
        invariant
            i <= v@.len(),
            forall|j: int| 0 <= j < i ==> #[trigger] v@[j]@ != a@,
        decreases v@.len() - i,
    {
        if v[i] == *a {
            return true;
        }
        i = i + 1;
    }
    false
}

/// An exact copy of a list of addresses.
pub fn clone_addrs(v: &Vec<String>) -> (r: Vec<String>)
    ensures
        r@ == v@,
{
    let r = v.clone();
    proof {
        assert forall|i: int| 0 <= i < v@.len() implies r@[i] == v@[i] by {
            assert(cloned::<String>(v@[i], r@[i]));
        }
        assert(r@ =~= v@);
    }
    r
}

/// An exact copy of a bid.
pub fn clone_bid(b: &Bid) -> (r: Bid)
    ensures
        r == *b,
{
    let r = Bid { buyer_id: b.buyer_id.clone(), resource_id: b.resource_id, price: b.price };
    proof {
        assert(r =~= *b);
    }
    r
}

/// An exact copy of a lot record.
pub fn clone_lot(r: &Resource) -> (c: Resource)
    ensures
        lot_like(c, *r),
{
    let highest_bid = match &r.highest_bid {
        Some(b) => Some(clone_bid(b)),
        None => None,
    };
    let c = Resource {
        seller_id: r.seller_id.clone(),
        resource_id: r.resource_id,
        volume: r.volume,
        price: r.price,
        status: r.status,
        highest_bid,
        expire: r.expire,
        bidders: clone_addrs(&r.bidders),
    };
    c
}

/// Whether the addresses of `v` are pairwise distinct.
pub fn addrs_distinct(v: &Vec<String>) -> (b: bool)
    ensures
        b == addrs_unique(v@),
{
    let mut i: usize = 0;
    while i < v.len()
        invariant
            i <= v@.len(),
            forall|a: int, c: int|
                0 <= a < i && a < c < v@.len() ==> #[trigger] v@[a]@ != #[trigger] v@[c]@,
        decreases v@.len() - i,
    {
        let mut j: usize = i + 1;
        while j < v.len()
            invariant
                i < j,
                j <= v@.len(),
                i < v@.len(),
                forall|c: int| i < c < j ==> v@[i as int]@ != #[trigger] v@[c]@,
            decreases v@.len() - j,
        {
            if v[i] == v[j] {
                return false;
            }
            j = j + 1;
        }
        i = i + 1;
    }
    true
}

/// Whether the `(buyer, lot)` keys of `ds` are pairwise distinct.
pub fn escrow_keys_distinct(ds: &Vec<Deposit>) -> (b: bool)
    ensures
        b == escrow_keys_unique(ds@),
{
    let mut i: usize = 0;
    while i < ds.len()
        invariant
            i <= ds@.len(),
            forall|a: int, c: int|
                0 <= a < i && a < c < ds@.len() ==> !key_matches(
                    #[trigger] ds@[c],
                    (#[trigger] ds@[a]).buyer_id@,
                    ds@[a].resource_id,
                ),
        decreases ds@.len() - i,
    {
        let mut j: usize = i + 1;
        while j < ds.len()
            invariant
                i < j,
                j <= ds@.len(),
                i < ds@.len(),
                forall|c: int|
                    i < c < j ==> !key_matches(
                        #[trigger] ds@[c],
                        ds@[i as int].buyer_id@,
                        ds@[i as int].resource_id,
                    ),
            decreases ds@.len() - j,
        {
            if ds[i].buyer_id == ds[j].buyer_id && ds[i].resource_id == ds[j].resource_id {
                return false;
            }
            j = j + 1;
        }
        i = i + 1;
    }
    true
}

/// Whether one lot record is internally consistent.
fn lot_consistent(r: &Resource) -> (b: bool)
    ensures
        b == lot_wf(*r),
{
    if r.volume == 0 || r.price == 0 {
        return false;
    }
    match &r.highest_bid {
        Some(hb) => {
            if hb.resource_id != r.resource_id || hb.price == 0 {
                return false;
            }
            if !contains_addr(&r.bidders, &hb.buyer_id) {
                return false;
            }
        },
        None => {
            if r.bidders.len() != 0 {
                return false;
            }
        },
    }
    addrs_distinct(&r.bidders)
}

impl AuctionState {
    /// Decides at run time whether this state satisfies the engine's
    /// invariant, so that state loaded from an untrusted store can be
    /// checked before any operation runs on it.
    pub fn check_wf(&self) -> (b: bool)
        ensures
            b == self.wf(),
    {
        if self.next_resource_id != self.resources.len() as u64 {
            return false;
        }
        let mut i: usize = 0;
        while i < self.resources.len()
            invariant
                i <= self.resources@.len(),
                self.next_resource_id as int == self.resources@.len(),
                forall|k: int|
                    0 <= k < i ==> (#[trigger] self.resources@[k]).resource_id == k + 1 && lot_wf(
                        self.resources@[k],
                    ),
            decreases self.resources@.len() - i,
        {
            if self.resources[i].resource_id != (i as u64) + 1 {
                return false;
            }
            if !lot_consistent(&self.resources[i]) {
                return false;
            }
            i = i + 1;
        }
        if !escrow_keys_distinct(&self.deposits) {
            return false;
        }
        let mut j: usize = 0;
        while j < self.deposits.len()
            invariant
                j <= self.deposits@.len(),
                self.lots_wf(),
                escrow_keys_unique(self.deposits@),
                forall|k: int|
                    0 <= k < j ==> 1 <= (#[trigger] self.deposits@[k]).resource_id
                        && self.deposits@[k].resource_id as int <= self.resources@.len(),
            decreases self.deposits@.len() - j,
        {
            let rid = self.deposits[j].resource_id;
            if rid == 0 || rid > self.resources.len() as u64 {
                return false;
            }
            j = j + 1;
        }
        true
    }
}

/// A lookup skips any prefix free of the key.
proof fn lemma_escrow_skip(ds: Seq<Deposit>, b: Seq<char>, rid: u64, i: int)
    requires
        0 <= i <= ds.len(),
        forall|j: int| 0 <= j < i ==> !key_matches(#[trigger] ds[j], b, rid),
    ensures
        escrow_lookup(ds, b, rid) == escrow_lookup(ds.subrange(i, ds.len() as int), b, rid),
    decreases i,
{
    if i == 0 {
        assert(ds.subrange(0, ds.len() as int) =~= ds);
    } else {
        let tail = ds.drop_first();
        assert(forall|j: int| 0 <= j < i - 1 ==> !key_matches(#[trigger] tail[j], b, rid));
        lemma_escrow_skip(tail, b, rid, i - 1);
        assert(tail.subrange(i - 1, tail.len() as int) =~= ds.subrange(i, ds.len() as int));
    }
}

/// Replacing an entry whose key is not `(b2, rid2)` with another such entry
/// leaves the lookup of `(b2, rid2)` unchanged.
proof fn lemma_escrow_update_other(ds: Seq<Deposit>, i: int, d: Deposit, b2: Seq<char>, rid2: u64)
    requires
        0 <= i < ds.len(),
        !key_matches(d, b2, rid2),
        !key_matches(ds[i], b2, rid2),
    ensures
        escrow_lookup(ds.update(i, d), b2, rid2) == escrow_lookup(ds, b2, rid2),
    decreases ds.len(),
{
    let post = ds.update(i, d);
    if i == 0 {
        assert(post.drop_first() =~= ds.drop_first());
    } else {
        if key_matches(ds[0], b2, rid2) {
        } else {
            lemma_escrow_update_other(ds.drop_first(), i - 1, d, b2, rid2);
            assert(post.drop_first() =~= ds.drop_first().update(i - 1, d));
        }
    }
}

/// Appending an entry whose key is not `(b2, rid2)` leaves the lookup of
/// `(b2, rid2)` unchanged.
proof fn lemma_escrow_push_other(ds: Seq<Deposit>, d: Deposit, b2: Seq<char>, rid2: u64)
    requires
        !key_matches(d, b2, rid2),
    ensures
        escrow_lookup(ds.push(d), b2, rid2) == escrow_lookup(ds, b2, rid2),
    decreases ds.len(),
{
    assert(ds.push(d).len() == ds.len() + 1);
    if ds.len() == 0 {
        assert(ds.push(d)[0] == d);
        assert(ds.push(d).drop_first() =~= Seq::<Deposit>::empty());
        assert(escrow_lookup(Seq::<Deposit>::empty(), b2, rid2) == 0);
        assert(escrow_lookup(ds.push(d), b2, rid2) == 0);
    } else {
        assert(ds.push(d)[0] == ds[0]);
        if key_matches(ds[0], b2, rid2) {
        } else {
            lemma_escrow_push_other(ds.drop_first(), d, b2, rid2);
            assert(ds.push(d).drop_first() =~= ds.drop_first().push(d));
        }
    }
}

/// The index of the escrow entry for `(buyer, rid)`, when one exists.
fn find_entry(ds: &Vec<Deposit>, buyer: &String, rid: u64) -> (r: Option<usize>)
    ensures
        (r matches Some(i) ==> i < ds@.len() && key_matches(ds@[i as int], buyer@, rid) && (forall|
            j: int,
        | 0 <= j < i ==> !key_matches(#[trigger] ds@[j], buyer@, rid))),
        (r is None ==> forall|j: int|
            0 <= j < ds@.len() ==> !key_matches(#[trigger] ds@[j], buyer@, rid)),
{
    let mut i: usize = 0;
    while i < ds.len()
        invariant
            i <= ds@.len(),
            forall|j: int| 0 <= j < i ==> !key_matches(#[trigger] ds@[j], buyer@, rid),
        decreases ds@.len() - i,
    {
        if ds[i].buyer_id == *buyer && ds[i].resource_id == rid {
            return Some(i);
        }
        i = i + 1;
    }
    None
}

/// Reads the cumulative escrow balance for `(buyer, rid)`: zero when no
/// entry exists.
pub fn escrow_get(ds: &Vec<Deposit>, buyer: &String, rid: u64) -> (amt: u128)
    ensures
        amt == escrow_lookup(ds@, buyer@, rid),
{
    match find_entry(ds, buyer, rid) {
        Some(i) => {
            proof {
                lemma_escrow_skip(ds@, buyer@, rid, i as int);
                let suffix = ds@.subrange(i as int, ds@.len() as int);
                assert(suffix[0] == ds@[i as int]);
                assert(escrow_lookup(suffix, buyer@, rid) == ds@[i as int].amount);
            }
            ds[i].amount
        },
        None => {
            proof {
                lemma_escrow_skip(ds@, buyer@, rid, ds@.len() as int);
                assert(ds@.subrange(ds@.len() as int, ds@.len() as int) =~= Seq::<
                    Deposit,
                >::empty());
            }
            0
        },
    }
}

/// Adds `amount` to the escrow balance for `(buyer, rid)` and returns the
/// new cumulative total.  Balances never decrease, and no other key moves.
pub fn escrow_add(ds: &mut Vec<Deposit>, buyer: &String, rid: u64, amount: u128) -> (total: u128)
    requires
        escrow_keys_unique(old(ds)@),
        escrow_lookup(old(ds)@, buyer@, rid) + amount <= u128::MAX,
    ensures
        escrow_keys_unique(final(ds)@),
        total == escrow_lookup(old(ds)@, buyer@, rid) + amount,
        escrow_lookup(final(ds)@, buyer@, rid) == total,
        forall|b2: Seq<char>, rid2: u64|
            !(b2 == buyer@ && rid2 == rid) ==> #[trigger] escrow_lookup(final(ds)@, b2, rid2)
                == escrow_lookup(old(ds)@, b2, rid2),
        forall|i: int|
            0 <= i < final(ds)@.len() ==> ((#[trigger] final(ds)@[i]).buyer_id@ == buyer@
                && final(ds)@[i].resource_id == rid) || (exists|j: int|
                0 <= j < old(ds)@.len() && final(ds)@[i] == #[trigger] old(ds)@[j]),
{
    let ghost pre = ds@;
    match find_entry(ds, buyer, rid) {
        Some(i) => {
            proof {
                lemma_escrow_skip(pre, buyer@, rid, i as int);
                let suffix = pre.subrange(i as int, pre.len() as int);
                assert(suffix[0] == pre[i as int]);
                assert(escrow_lookup(pre, buyer@, rid) == pre[i as int].amount);
            }
            let cur = ds[i].amount;
            let total = cur + amount;
            let nd = Deposit { buyer_id: buyer.clone(), resource_id: rid, amount: total };
            ds[i] = nd;
            proof {
                let post = ds@;
                assert(post =~= pre.update(i as int, nd));
                assert forall|a: int, b: int| 0 <= a < b < post.len() implies !key_matches(
                    post[b],
                    post[a].buyer_id@,
                    post[a].resource_id,
                ) by {
                    assert(post[a].buyer_id@ == pre[a].buyer_id@ && post[a].resource_id
                        == pre[a].resource_id);
                    assert(post[b].buyer_id@ == pre[b].buyer_id@ && post[b].resource_id
                        == pre[b].resource_id);
                }
                lemma_escrow_skip(post, buyer@, rid, i as int);
                let suffix = post.subrange(i as int, post.len() as int);
                assert(suffix[0] == nd);
                assert(escrow_lookup(post, buyer@, rid) == total);
                assert forall|b2: Seq<char>, rid2: u64| !(b2 == buyer@ && rid2 == rid) implies #[trigger] escrow_lookup(
                    post,
                    b2,
                    rid2,
                ) == escrow_lookup(pre, b2, rid2) by {
                    lemma_escrow_update_other(pre, i as int, nd, b2, rid2);
                }
            }
            total
        },
        None => {
            proof {
                lemma_escrow_skip(pre, buyer@, rid, pre.len() as int);
                assert(pre.subrange(pre.len() as int, pre.len() as int) =~= Seq::<
                    Deposit,
                >::empty());
                assert(escrow_lookup(pre, buyer@, rid) == 0);
            }
            let nd = Deposit { buyer_id: buyer.clone(), resource_id: rid, amount };
            ds.push(nd);
            proof {
                let post = ds@;
                assert(post =~= pre.push(nd));
                assert forall|a: int, b: int| 0 <= a < b < post.len() implies !key_matches(
                    post[b],
                    post[a].buyer_id@,
                    post[a].resource_id,
                ) by {
                    if b < pre.len() {
                    } else {
                        assert(post[b] == nd);
                        assert(!key_matches(pre[a], buyer@, rid));
                    }
                }
                lemma_escrow_skip(post, buyer@, rid, pre.len() as int);
                let suffix = post.subrange(pre.len() as int, post.len() as int);
                assert(suffix[0] == nd);
                assert(escrow_lookup(post, buyer@, rid) == amount);
                assert forall|b2: Seq<char>, rid2: u64| !(b2 == buyer@ && rid2 == rid) implies #[trigger] escrow_lookup(
                    post,
                    b2,
                    rid2,
                ) == escrow_lookup(pre, b2, rid2) by {
                    lemma_escrow_push_other(pre, nd, b2, rid2);
                }
            }
            amount
        },
    }
}

/// Clears the escrow balance for `(buyer, rid)` once its refund has been
/// decided, so that a repeated settlement cannot refund it again.  Every
/// other key keeps its balance.
pub fn escrow_zero(ds: &mut Vec<Deposit>, buyer: &String, rid: u64)
    requires
        escrow_keys_unique(old(ds)@),
    ensures
        escrow_keys_unique(final(ds)@),
        escrow_lookup(final(ds)@, buyer@, rid) == 0,
        forall|b2: Seq<char>, rid2: u64|
            !(b2 == buyer@ && rid2 == rid) ==> #[trigger] escrow_lookup(final(ds)@, b2, rid2)
                == escrow_lookup(old(ds)@, b2, rid2),
        final(ds)@.len() == old(ds)@.len(),
        forall|i: int|
            0 <= i < final(ds)@.len() ==> (#[trigger] final(ds)@[i]).buyer_id@
                == old(ds)@[i].buyer_id@ && final(ds)@[i].resource_id == old(ds)@[i].resource_id
                && (final(ds)@[i].amount == old(ds)@[i].amount || final(ds)@[i].amount == 0),
{
    let ghost pre = ds@;
    match find_entry(ds, buyer, rid) {
        Some(i) => {
            let nd = Deposit { buyer_id: buyer.clone(), resource_id: rid, amount: 0 };
            ds[i] = nd;
            proof {
                let post = ds@;
                assert(post =~= pre.update(i as int, nd));
                assert forall|a: int, b: int| 0 <= a < b < post.len() implies !key_matches(
                    post[b],
                    post[a].buyer_id@,
                    post[a].resource_id,
                ) by {
                    assert(post[a].buyer_id@ == pre[a].buyer_id@ && post[a].resource_id
                        == pre[a].resource_id);
                    assert(post[b].buyer_id@ == pre[b].buyer_id@ && post[b].resource_id
                        == pre[b].resource_id);
                }
                lemma_escrow_skip(post, buyer@, rid, i as int);
                let suffix = post.subrange(i as int, post.len() as int);
                assert(suffix[0] == nd);
                assert(escrow_lookup(post, buyer@, rid) == 0);
                assert forall|b2: Seq<char>, rid2: u64| !(b2 == buyer@ && rid2 == rid) implies #[trigger] escrow_lookup(
                    post,
                    b2,
                    rid2,
                ) == escrow_lookup(pre, b2, rid2) by {
                    lemma_escrow_update_other(pre, i as int, nd, b2, rid2);
                }
            }
        },
        None => {
            proof {
                lemma_escrow_skip(pre, buyer@, rid, pre.len() as int);
                assert(pre.subrange(pre.len() as int, pre.len() as int) =~= Seq::<
                    Deposit,
                >::empty());
            }
        },
    }
}

} // verus!
