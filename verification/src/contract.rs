//! The auction operations: lot lifecycle, bidding, settlement, and the
//! price-sorted read model.
//!
//! Every operation takes the full [`AuctionState`] explicitly and returns
//! exactly one error on failure.  A failed operation leaves the state
//! untouched, with one deliberate exception: funds attached to a bid that
//! reaches the sufficiency check stay banked in escrow even when that
//! check rejects the bid, so a bidder can top up across calls.

use vstd::prelude::*;

use crate::error::ContractError;
use crate::helpers::extract_coin;
use crate::msg::{
    ExecuteMsg, ExecuteResponse, FinalizedLot, InstantiateMsg, QueryMsg, QueryResourcesResponse,
    TransferInstruction, TransferView,
};
use crate::state::{
    addr_in, addrs_unique, clone_addrs, clone_lot, contains_addr, escrow_add, escrow_get,
    escrow_keys_unique, escrow_lookup, escrow_zero, lot_like, lot_wf, same_lot_core, total_due,
    AuctionState, Bid, Coin, Config, Deposit, Resource, Status,
};

verus! {

/// How long a freshly created lot accepts bids: 72 hours of logical seconds.
pub const DEFAULT_WINDOW: u64 = 259200;

/// The anti-sniping horizon: a bid landing within one hour of expiry pushes
/// the deadline out to a full hour from now.
pub const ANTI_SNIPE_WINDOW: u64 = 3600;

/// The account an optional request field names, or the request sender when
/// the field is empty.
pub open spec fn resolved(opt: Option<String>, sender: String) -> String {
    match opt {
        Some(a) => a,
        None => sender,
    }
}

/// Creates a fresh auction engine with no lots and an empty escrow ledger.
///
/// The owner is the address named in the request, or the request sender when
/// none is named.
pub fn instantiate(msg: InstantiateMsg, sender: String) -> (st: AuctionState)
    ensures
        st.wf(),
        st.config.owner == resolved(msg.owner, sender),
        st.config.denom == msg.denom,
        st.resources@.len() == 0,
        st.deposits@.len() == 0,
{
    let owner = match msg.owner {
        Some(o) => o,
        None => sender,
    };
    AuctionState {
        config: Config { owner, denom: msg.denom },
        next_resource_id: 0,
        resources: Vec::new(),
        deposits: Vec::new(),
    }
}

/// Everything `new_resource` promises of its result and of the state it
/// leaves behind.
pub open spec fn new_resource_outcome(
    pre: AuctionState,
    post: AuctionState,
    r: Result<(u64, u64), ContractError>,
    now: u64,
    sender: String,
    seller_id: Option<String>,
    volume: u64,
    price: u64,
) -> bool {
    &&& ((r matches Err(ContractError::InvalidQuantity {})) <==> (volume == 0 || price == 0))
    &&& ((r is Ok) <==> !(volume == 0 || price == 0))
    &&& (r is Err ==> post == pre)
    &&& (r is Ok ==> r == Ok::<(u64, u64), ContractError>(
        ((pre.next_resource_id + 1) as u64, (now + DEFAULT_WINDOW) as u64),
    ))
    &&& (r is Ok ==> {
        let rid = (pre.next_resource_id + 1) as u64;
        let l = post.lot(rid);
        &&& post.resources@.len() == pre.resources@.len() + 1
        &&& post.next_resource_id == rid
        &&& l.seller_id == resolved(seller_id, sender)
        &&& l.resource_id == rid
        &&& l.volume == volume
        &&& l.price == price
        &&& l.status == Status::Init
        &&& l.highest_bid is None
        &&& l.expire == now + DEFAULT_WINDOW
        &&& l.bidders@.len() == 0
        &&& forall|i: int|
            0 <= i < pre.resources@.len() ==> #[trigger] post.resources@[i] == pre.resources@[i]
        &&& post.deposits@ == pre.deposits@
        &&& post.config == pre.config
    })
}

/// Creates a lot in `Init` with the next id and a 72-hour bidding window.
///
/// Returns the assigned lot id and the expiry timestamp.  Fails
/// `InvalidQuantity` exactly when `volume` or `price` is zero.
pub fn new_resource(
    st: &mut AuctionState,
    now: u64,
    sender: String,
    seller_id: Option<String>,
    volume: u64,
    price: u64,
) -> (r: Result<(u64, u64), ContractError>)
    requires
        old(st).wf(),
        old(st).next_resource_id < u64::MAX,
        now <= u64::MAX - DEFAULT_WINDOW,
    ensures
        final(st).wf(),
        new_resource_outcome(*old(st), *final(st), r, now, sender, seller_id, volume, price),
{
    if volume == 0 || price == 0 {
        return Err(ContractError::InvalidQuantity {});
    }
    let seller = match seller_id {
        Some(a) => a,
        None => sender,
    };
    let rid = st.next_resource_id + 1;
    let expire = now + DEFAULT_WINDOW;
    let lot = Resource {
        seller_id: seller,
        resource_id: rid,
        volume,
        price,
        status: Status::Init,
        highest_bid: None,
        expire,
        bidders: Vec::new(),
    };
    st.next_resource_id = rid;
    st.resources.push(lot);
    proof {
        assert forall|i: int| 0 <= i < st.resources@.len() implies lot_wf(
            #[trigger] st.resources@[i],
        ) && st.resources@[i].resource_id == i + 1 by {
            if i < st.resources@.len() - 1 {
                assert(st.resources@[i] == old(st).resources@[i]);
            }
        }
        assert forall|i: int|
            0 <= i < st.deposits@.len() implies 1 <= (#[trigger] st.deposits@[i]).resource_id
            && st.deposits@[i].resource_id as int <= st.resources@.len() by {
            assert(st.deposits@[i] == old(st).deposits@[i]);
        }
    }
    Ok((rid, expire))
}

/// A bid names an existing lot.
pub open spec fn bid_lot_ok(st: AuctionState, rid: u64) -> bool {
    st.has_lot(rid)
}

/// ... and the lot is accepting bids.
pub open spec fn bid_status_ok(st: AuctionState, rid: u64) -> bool {
    bid_lot_ok(st, rid) && st.lot(rid).status == Status::Bidding
}

/// ... and the bidder is not the lot's own seller.
pub open spec fn bid_auth_ok(st: AuctionState, rid: u64, buyer: Seq<char>) -> bool {
    bid_status_ok(st, rid) && buyer != st.lot(rid).seller_id@
}

/// ... and the bid arrives before the lot expires.
pub open spec fn bid_time_ok(st: AuctionState, rid: u64, buyer: Seq<char>, now: u64) -> bool {
    bid_auth_ok(st, rid, buyer) && now <= st.lot(rid).expire
}

/// ... and the price strictly exceeds the current highest bid; a first bid
/// only has to be positive.
pub open spec fn bid_price_ok(
    st: AuctionState,
    rid: u64,
    buyer: Seq<char>,
    now: u64,
    price: u64,
) -> bool {
    &&& bid_time_ok(st, rid, buyer, now)
    &&& price >= 1
    &&& (st.lot(rid).highest_bid matches Some(hb) ==> price > hb.price)
}

/// The deadline a bid arriving at `now` leaves behind: pushed out to a full
/// anti-sniping window when less than one window remained, else unchanged.
pub open spec fn extended_expire(expire: u64, now: u64) -> int {
    if expire - now < ANTI_SNIPE_WINDOW {
        now + ANTI_SNIPE_WINDOW
    } else {
        expire as int
    }
}

/// How an accepted bid of `price` by `buyer`, backed by `amount` freshly
/// escrowed funds, transforms the state.
pub open spec fn bid_accepted(
    pre: AuctionState,
    post: AuctionState,
    rid: u64,
    buyer: String,
    price: u64,
    amount: u128,
    now: u64,
) -> bool {
    let pre_l = pre.lot(rid);
    let post_l = post.lot(rid);
    &&& bid_price_ok(pre, rid, buyer@, now, price)
    &&& pre.escrow_of(buyer@, rid) + amount >= total_due(pre_l)
    &&& post.resources@.len() == pre.resources@.len()
    &&& same_lot_core(pre_l, post_l)
    &&& post_l.status == Status::Bidding
    &&& post_l.highest_bid == Some(Bid { buyer_id: buyer, resource_id: rid, price })
    &&& post_l.expire == extended_expire(pre_l.expire, now)
    &&& (if addr_in(pre_l.bidders@, buyer@) {
        post_l.bidders@ == pre_l.bidders@
    } else {
        post_l.bidders@ == pre_l.bidders@.push(buyer)
    })
    &&& forall|i: int|
        0 <= i < pre.resources@.len() && i != rid - 1 ==> #[trigger] post.resources@[i]
            == pre.resources@[i]
    &&& post.escrow_of(buyer@, rid) == pre.escrow_of(buyer@, rid) + amount
    &&& forall|b2: Seq<char>, r2: u64|
        !(b2 == buyer@ && r2 == rid) ==> #[trigger] post.escrow_of(b2, r2) == pre.escrow_of(
            b2,
            r2,
        )
    &&& post.config == pre.config
    &&& post.next_resource_id == pre.next_resource_id
}

/// Everything `place_bid` promises of its result and of the state it
/// leaves behind.
pub open spec fn place_bid_outcome(
    pre: AuctionState,
    post: AuctionState,
    r: Result<(u64, u64), ContractError>,
    now: u64,
    sender: String,
    funds: Seq<Coin>,
    resource_id: u64,
    buyer_id: Option<String>,
    price: u64,
) -> bool {
    let buyer = resolved(buyer_id, sender);
    &&& (r is Err && !(r matches Err(ContractError::InsufficientDeposit {})) ==> post == pre)
    &&& (r matches Err(ContractError::InsufficientDeposit {}) ==> {
        // the top-up outlives the rejected bid: the funds stay banked
        // toward the lot, and nothing else moves
        &&& post.resources@ == pre.resources@
        &&& post.config == pre.config
        &&& post.next_resource_id == pre.next_resource_id
        &&& post.escrow_of(buyer@, resource_id) == pre.escrow_of(buyer@, resource_id)
            + funds[0].amount
        &&& forall|b2: Seq<char>, r2: u64|
            !(b2 == buyer@ && r2 == resource_id) ==> #[trigger] post.escrow_of(b2, r2)
                == pre.escrow_of(b2, r2)
    })
    &&& ((r matches Err(ContractError::LotNotFound {})) <==> !bid_lot_ok(pre, resource_id))
    &&& ((r matches Err(ContractError::NotBidding {})) <==> (bid_lot_ok(pre, resource_id)
        && !bid_status_ok(pre, resource_id)))
    &&& ((r matches Err(ContractError::Unauthorized {})) <==> (bid_status_ok(pre, resource_id)
        && !bid_auth_ok(pre, resource_id, buyer@)))
    &&& ((r matches Err(ContractError::ResourceExpired {})) <==> (bid_auth_ok(
        pre,
        resource_id,
        buyer@,
    ) && !bid_time_ok(pre, resource_id, buyer@, now)))
    &&& ((r matches Err(ContractError::BidTooLow {})) <==> (bid_time_ok(
        pre,
        resource_id,
        buyer@,
        now,
    ) && !bid_price_ok(pre, resource_id, buyer@, now, price)))
    &&& ((r matches Err(ContractError::WrongCoinSent {})) <==> (bid_price_ok(
        pre,
        resource_id,
        buyer@,
        now,
        price,
    ) && funds.len() != 1))
    &&& ((r matches Err(ContractError::WrongFundCoin { .. })) <==> (bid_price_ok(
        pre,
        resource_id,
        buyer@,
        now,
        price,
    ) && funds.len() == 1 && funds[0].denom@ != pre.config.denom@))
    &&& (r matches Err(ContractError::WrongFundCoin { expected, got }) ==> expected@
        == pre.config.denom@ && got@ == funds[0].denom@)
    &&& ((r matches Err(ContractError::InsufficientDeposit {})) <==> (bid_price_ok(
        pre,
        resource_id,
        buyer@,
        now,
        price,
    ) && funds.len() == 1 && funds[0].denom@ == pre.config.denom@ && pre.escrow_of(
        buyer@,
        resource_id,
    ) + funds[0].amount < total_due(pre.lot(resource_id))))
    &&& ((r is Ok) <==> (bid_price_ok(pre, resource_id, buyer@, now, price) && funds.len() == 1
        && funds[0].denom@ == pre.config.denom@ && pre.escrow_of(buyer@, resource_id)
        + funds[0].amount >= total_due(pre.lot(resource_id))))
    &&& (r is Ok ==> r == Ok::<(u64, u64), ContractError>(
        (price, extended_expire(pre.lot(resource_id).expire, now) as u64),
    ) && bid_accepted(pre, post, resource_id, buyer, price, funds[0].amount, now))
}

/// Validates and records a bid on a lot, topping up the bidder's escrow
/// with the attached funds.
///
/// On success returns the accepted price and the (possibly anti-sniping
/// extended) expiry.  The sufficiency check uses the bidder's cumulative
/// escrow balance, not the latest payment alone.  Any failure leaves the
/// state exactly as it was.
pub fn place_bid(
    st: &mut AuctionState,
    now: u64,
    sender: String,
    funds: Vec<Coin>,
    resource_id: u64,
    buyer_id: Option<String>,
    price: u64,
) -> (r: Result<(u64, u64), ContractError>)
    requires
        old(st).wf(),
        now <= u64::MAX - ANTI_SNIPE_WINDOW,
        funds@.len() == 1 ==> old(st).escrow_of(resolved(buyer_id, sender)@, resource_id)
            + funds@[0].amount <= u128::MAX,
    ensures
        final(st).wf(),
        place_bid_outcome(
            *old(st),
            *final(st),
            r,
            now,
            sender,
            funds@,
            resource_id,
            buyer_id,
            price,
        ),
{
    let buyer = match buyer_id {
        Some(a) => a,
        None => sender,
    };
    if resource_id == 0 || resource_id > st.resources.len() as u64 {
        return Err(ContractError::LotNotFound {});
    }
    let idx = (resource_id - 1) as usize;
    if st.resources[idx].status != Status::Bidding {
        return Err(ContractError::NotBidding {});
    }
    if st.resources[idx].seller_id == buyer {
        return Err(ContractError::Unauthorized {});
    }
    if now > st.resources[idx].expire {
        return Err(ContractError::ResourceExpired {});
    }
    let too_low = match &st.resources[idx].highest_bid {
        Some(hb) => price <= hb.price,
        None => price == 0,
    };
    if too_low {
        return Err(ContractError::BidTooLow {});
    }
    let sent = match extract_coin(&funds, &st.config.denom) {
        Ok(c) => c,
        Err(e) => {
            return Err(e);
        },
    };
    let due_volume = st.resources[idx].volume as u128;
    let due_price = st.resources[idx].price as u128;
    proof {
        assert(due_volume * due_price <= u128::MAX) by (nonlinear_arith)
            requires
                due_volume <= u64::MAX,
                due_price <= u64::MAX,
        ;
    }
    let due = due_volume * due_price;
    // the attached funds are banked before the sufficiency check and stay
    // banked even when the cumulative balance falls short of the total due
    let total = escrow_add(&mut st.deposits, &buyer, resource_id, sent.amount);
    if total < due {
        proof {
            assert forall|i: int|
                0 <= i < st.deposits@.len() implies 1 <= (#[trigger] st.deposits@[i]).resource_id
                && st.deposits@[i].resource_id as int <= st.resources@.len() by {
                if st.deposits@[i].buyer_id@ == buyer@ && st.deposits@[i].resource_id
                    == resource_id {
                } else {
                    let j = choose|j: int|
                        0 <= j < old(st).deposits@.len() && st.deposits@[i] == old(
                            st,
                        ).deposits@[j];
                    assert(old(st).deposits@[j].resource_id == st.deposits@[i].resource_id);
                }
            }
        }
        return Err(ContractError::InsufficientDeposit {});
    }
    let mut lot = clone_lot(&st.resources[idx]);
    lot.highest_bid = Some(Bid { buyer_id: buyer.clone(), resource_id, price });
    if lot.expire - now < ANTI_SNIPE_WINDOW {
        lot.expire = now + ANTI_SNIPE_WINDOW;
    }
    let ghost pre_bidders = lot.bidders@;
    if !contains_addr(&lot.bidders, &buyer) {
        lot.bidders.push(buyer.clone());
        proof {
            assert(lot.bidders@ =~= pre_bidders.push(buyer));
        }
    }
    let new_expire = lot.expire;
    st.resources[idx] = lot;
    proof {
        let post_l = st.resources@[idx as int];
        assert(addr_in(post_l.bidders@, buyer@)) by {
            if addr_in(pre_bidders, buyer@) {
            } else {
                assert(post_l.bidders@[post_l.bidders@.len() - 1]@ == buyer@);
            }
        }
        assert(crate::state::addrs_unique(post_l.bidders@)) by {
            let pre_l = old(st).lot(resource_id);
            if addr_in(pre_l.bidders@, buyer@) {
            } else {
                assert forall|i: int, j: int| 0 <= i < j < post_l.bidders@.len() implies post_l
                    .bidders@[i]@ != post_l.bidders@[j]@ by {
                    if j < post_l.bidders@.len() - 1 {
                        assert(post_l.bidders@[i] == pre_l.bidders@[i]);
                        assert(post_l.bidders@[j] == pre_l.bidders@[j]);
                    } else {
                        assert(post_l.bidders@[j]@ == buyer@);
                        assert(!addr_in(pre_l.bidders@, buyer@));
                        assert(post_l.bidders@[i] == pre_l.bidders@[i]);
                    }
                }
            }
        }
        assert forall|i: int| 0 <= i < st.resources@.len() implies lot_wf(
            #[trigger] st.resources@[i],
        ) && st.resources@[i].resource_id == i + 1 by {
            if i != idx {
                assert(st.resources@[i] == old(st).resources@[i]);
            }
        }
        assert forall|i: int|
            0 <= i < st.deposits@.len() implies 1 <= (#[trigger] st.deposits@[i]).resource_id
            && st.deposits@[i].resource_id as int <= st.resources@.len() by {
            if st.deposits@[i].buyer_id@ == buyer@ && st.deposits@[i].resource_id == resource_id {
            } else {
                let j = choose|j: int|
                    0 <= j < old(st).deposits@.len() && st.deposits@[i] == old(st).deposits@[j];
                assert(old(st).deposits@[j].resource_id == st.deposits@[i].resource_id);
            }
        }
    }
    Ok((price, new_expire))
}

/// The address a skip parameter names, if any.
pub open spec fn opt_addr_view(o: Option<&String>) -> Option<Seq<char>> {
    match o {
        Some(s) => Some(s@),
        None => None,
    }
}

/// The refund instructions owed when a lot closes: one transfer per listed
/// bidder, in list order, of that bidder's full escrow balance in `ds`,
/// skipping the winner and bidders holding no escrow.
pub open spec fn refund_plan(
    ds: Seq<Deposit>,
    denom: Seq<char>,
    rid: u64,
    bidders: Seq<String>,
    winner: Option<Seq<char>>,
) -> Seq<TransferView>
    decreases bidders.len(),
{
    if bidders.len() == 0 {
        Seq::empty()
    } else {
        let rest = refund_plan(ds, denom, rid, bidders.drop_last(), winner);
        let b = bidders.last();
        if winner != Some(b@) && escrow_lookup(ds, b@, rid) > 0 {
            rest.push(
                TransferView {
                    destination: b@,
                    amount: escrow_lookup(ds, b@, rid),
                    denom: denom,
                },
            )
        } else {
            rest
        }
    }
}

/// Decides the refunds owed to `bidders` for lot `rid` (skipping the winner
/// when one is given) and clears each refunded balance, so that a repeated
/// settlement finds nothing left to refund.
fn refunds_for(
    deposits: &mut Vec<Deposit>,
    denom: &String,
    rid: u64,
    bidders: &Vec<String>,
    skip: Option<&String>,
) -> (txs: Vec<TransferInstruction>)
    requires
        escrow_keys_unique(old(deposits)@),
        addrs_unique(bidders@),
    ensures
        escrow_keys_unique(final(deposits)@),
        txs@.map_values(|t: TransferInstruction| t@) == refund_plan(
            old(deposits)@,
            denom@,
            rid,
            bidders@,
            opt_addr_view(skip),
        ),
        forall|b2: Seq<char>, r2: u64|
            #![trigger escrow_lookup(final(deposits)@, b2, r2)]
            escrow_lookup(final(deposits)@, b2, r2) == (if r2 == rid && addr_in(bidders@, b2)
                && opt_addr_view(skip) != Some(b2) {
                0
            } else {
                escrow_lookup(old(deposits)@, b2, r2)
            }),
        final(deposits)@.len() == old(deposits)@.len(),
        forall|i: int|
            0 <= i < final(deposits)@.len() ==> {
                let d = #[trigger] final(deposits)@[i];
                let d0 = old(deposits)@[i];
                d.buyer_id@ == d0.buyer_id@ && d.resource_id == d0.resource_id && (d.amount
                    == d0.amount || d.amount == 0)
            },
{
    let ghost pre = old(deposits)@;
    let mut txs: Vec<TransferInstruction> = Vec::new();
    let mut i: usize = 0;
    while i < bidders.len()
        invariant
            i <= bidders@.len(),
            escrow_keys_unique(deposits@),
            addrs_unique(bidders@),
            txs@.map_values(|t: TransferInstruction| t@) == refund_plan(
                pre,
                denom@,
                rid,
                bidders@.subrange(0, i as int),
                opt_addr_view(skip),
            ),
            forall|b2: Seq<char>, r2: u64|
                #![trigger escrow_lookup(deposits@, b2, r2)]
                escrow_lookup(deposits@, b2, r2) == (if r2 == rid && addr_in(
                    bidders@.subrange(0, i as int),
                    b2,
                ) && opt_addr_view(skip) != Some(b2) {
                    0
                } else {
                    escrow_lookup(pre, b2, r2)
                }),
            deposits@.len() == pre.len(),
            forall|k: int|
                0 <= k < deposits@.len() ==> (#[trigger] deposits@[k]).buyer_id@
                    == pre[k].buyer_id@ && deposits@[k].resource_id == pre[k].resource_id && (
                deposits@[k].amount == pre[k].amount || deposits@[k].amount == 0),
        decreases bidders@.len() - i,
    {
        let ghost prefix = bidders@.subrange(0, i as int);
        let ghost prefix1 = bidders@.subrange(0, i as int + 1);
        proof {
            assert(prefix1.drop_last() =~= prefix);
            assert(prefix1.last() == bidders@[i as int]);
            assert forall|b2: Seq<char>| addr_in(prefix1, b2) implies addr_in(prefix, b2) || b2
                == bidders@[i as int]@ by {
                let k = choose|k: int| 0 <= k < prefix1.len() && prefix1[k]@ == b2;
                if k < prefix.len() {
                    assert(prefix[k]@ == b2);
                }
            }
            assert forall|b2: Seq<char>| addr_in(prefix, b2) implies addr_in(prefix1, b2) by {
                let k = choose|k: int| 0 <= k < prefix.len() && prefix[k]@ == b2;
                assert(prefix1[k]@ == b2);
            }
            assert(addr_in(prefix1, bidders@[i as int]@)) by {
                assert(prefix1[i as int]@ == bidders@[i as int]@);
            }
            // the current bidder was not processed before
            assert(!addr_in(prefix, bidders@[i as int]@)) by {
                if addr_in(prefix, bidders@[i as int]@) {
                    let k = choose|k: int| 0 <= k < prefix.len() && prefix[k]@ == bidders@[i as int]@;
                    assert(bidders@[k]@ == bidders@[i as int]@);
                }
            }
        }
        let b = &bidders[i];
        let is_skip = match skip {
            Some(s) => *s == *b,
            None => false,
        };
        if !is_skip {
            let amt = escrow_get(deposits, b, rid);
            proof {
                assert(amt == escrow_lookup(pre, b@, rid));
            }
            if amt > 0 {
                txs.push(TransferInstruction {
                    destination: b.clone(),
                    amount: amt,
                    denom: denom.clone(),
                });
                escrow_zero(deposits, b, rid);
                proof {
                    assert(txs@.map_values(|t: TransferInstruction| t@) =~= refund_plan(
                        pre,
                        denom@,
                        rid,
                        prefix1,
                        opt_addr_view(skip),
                    ));
                }
            }
        }
        i = i + 1;
    }
    proof {
        assert(bidders@.subrange(0, bidders@.len() as int) =~= bidders@);
    }
    txs
}

/// Everything `cancel_resource` promises of its result and of the state
/// it leaves behind.
pub open spec fn cancel_outcome(
    pre: AuctionState,
    post: AuctionState,
    r: Result<Vec<TransferInstruction>, ContractError>,
    sender: String,
    resource_id: u64,
) -> bool {
    &&& ((r matches Err(ContractError::LotNotFound {})) <==> !pre.has_lot(resource_id))
    &&& ((r matches Err(ContractError::AlreadySold {})) <==> (pre.has_lot(resource_id) && pre.lot(
        resource_id,
    ).status == Status::Sold))
    &&& ((r matches Err(ContractError::Unauthorized {})) <==> (pre.has_lot(resource_id) && pre.lot(
        resource_id,
    ).status != Status::Sold && sender@ != pre.lot(resource_id).seller_id@))
    &&& ((r is Ok) <==> (pre.has_lot(resource_id) && pre.lot(resource_id).status != Status::Sold
        && sender@ == pre.lot(resource_id).seller_id@))
    &&& (r is Err ==> post == pre)
    &&& (r matches Ok(txs) ==> {
        let pre_l = pre.lot(resource_id);
        let post_l = post.lot(resource_id);
        &&& txs@.map_values(|t: TransferInstruction| t@) == refund_plan(
            pre.deposits@,
            pre.config.denom@,
            resource_id,
            pre_l.bidders@,
            None,
        )
        &&& same_lot_core(pre_l, post_l)
        &&& post_l.status == Status::Canceled
        &&& post_l.highest_bid == pre_l.highest_bid
        &&& post_l.expire == pre_l.expire
        &&& post_l.bidders@ == pre_l.bidders@
        &&& post.resources@.len() == pre.resources@.len()
        &&& forall|i: int|
            0 <= i < pre.resources@.len() && i != resource_id - 1 ==> #[trigger] post.resources@[i]
                == pre.resources@[i]
        &&& forall|b2: Seq<char>, r2: u64|
            #![trigger post.escrow_of(b2, r2)]
            post.escrow_of(b2, r2) == (if r2 == resource_id && addr_in(pre_l.bidders@, b2) {
                0
            } else {
                pre.escrow_of(b2, r2)
            })
        &&& post.config == pre.config
        &&& post.next_resource_id == pre.next_resource_id
    })
}

/// Cancels a lot and decides a full refund for every bidder on it.
///
/// Only the seller may cancel, and a sold lot can no longer be canceled.
pub fn cancel_resource(st: &mut AuctionState, sender: String, resource_id: u64) -> (r: Result<
    Vec<TransferInstruction>,
    ContractError,
>)
    requires
        old(st).wf(),
    ensures
        final(st).wf(),
        cancel_outcome(*old(st), *final(st), r, sender, resource_id),
{
    if resource_id == 0 || resource_id > st.resources.len() as u64 {
        return Err(ContractError::LotNotFound {});
    }
    let idx = (resource_id - 1) as usize;
    if st.resources[idx].status == Status::Sold {
        return Err(ContractError::AlreadySold {});
    }
    if !(st.resources[idx].seller_id == sender) {
        return Err(ContractError::Unauthorized {});
    }
    let bidders = clone_addrs(&st.resources[idx].bidders);
    let mut lot = clone_lot(&st.resources[idx]);
    lot.status = Status::Canceled;
    st.resources[idx] = lot;
    let txs = refunds_for(&mut st.deposits, &st.config.denom, resource_id, &bidders, None);
    proof {
        assert forall|i: int| 0 <= i < st.resources@.len() implies lot_wf(
            #[trigger] st.resources@[i],
        ) && st.resources@[i].resource_id == i + 1 by {
            if i != idx {
                assert(st.resources@[i] == old(st).resources@[i]);
            }
        }
        assert forall|i: int|
            0 <= i < st.deposits@.len() implies 1 <= (#[trigger] st.deposits@[i]).resource_id
            && st.deposits@[i].resource_id as int <= st.resources@.len() by {
            assert(st.deposits@[i].resource_id == old(st).deposits@[i].resource_id);
        }
    }
    Ok(txs)
}

/// The account holding the current highest bid on a lot, if any.
pub open spec fn winner_of(l: Resource) -> Option<Seq<char>> {
    match l.highest_bid {
        Some(b) => Some(b.buyer_id@),
        None => None,
    }
}

/// How settling lot `rid` transforms the state: the lot becomes `Sold` when
/// a highest bid exists and `Canceled` otherwise, every losing bidder's
/// escrow is cleared, and the winner's escrow is retained as payment.
pub open spec fn lot_settled(pre: AuctionState, post: AuctionState, rid: u64) -> bool {
    let pre_l = pre.lot(rid);
    let post_l = post.lot(rid);
    &&& pre.has_lot(rid)
    &&& pre_l.status == Status::Bidding
    &&& post.resources@.len() == pre.resources@.len()
    &&& same_lot_core(pre_l, post_l)
    &&& post_l.status == (if pre_l.highest_bid is Some {
        Status::Sold
    } else {
        Status::Canceled
    })
    &&& post_l.highest_bid == pre_l.highest_bid
    &&& post_l.expire == pre_l.expire
    &&& post_l.bidders@ == pre_l.bidders@
    &&& forall|i: int|
        0 <= i < pre.resources@.len() && i != rid - 1 ==> #[trigger] post.resources@[i]
            == pre.resources@[i]
    &&& forall|b2: Seq<char>, r2: u64|
        #![trigger post.escrow_of(b2, r2)]
        post.escrow_of(b2, r2) == (if r2 == rid && addr_in(pre_l.bidders@, b2) && winner_of(pre_l)
            != Some(b2) {
            0
        } else {
            pre.escrow_of(b2, r2)
        })
    &&& post.config == pre.config
    &&& post.next_resource_id == pre.next_resource_id
}

/// Everything `finalize_bid` promises of its result and of the state it
/// leaves behind.
pub open spec fn finalize_outcome(
    pre: AuctionState,
    post: AuctionState,
    r: Result<(bool, Vec<TransferInstruction>), ContractError>,
    now: u64,
    sender: String,
    resource_id: u64,
) -> bool {
    &&& ((r matches Err(ContractError::Unauthorized {})) <==> sender@ != pre.config.owner@)
    &&& ((r matches Err(ContractError::LotNotFound {})) <==> (sender@ == pre.config.owner@
        && !pre.has_lot(resource_id)))
    &&& ((r matches Err(ContractError::NotBidding {})) <==> (sender@ == pre.config.owner@
        && pre.has_lot(resource_id) && pre.lot(resource_id).status != Status::Bidding))
    &&& ((r matches Err(ContractError::NotExpire {})) <==> (sender@ == pre.config.owner@
        && pre.has_lot(resource_id) && pre.lot(resource_id).status == Status::Bidding && now
        < pre.lot(resource_id).expire))
    &&& ((r is Ok) <==> (sender@ == pre.config.owner@ && pre.has_lot(resource_id) && pre.lot(
        resource_id,
    ).status == Status::Bidding && now >= pre.lot(resource_id).expire))
    &&& (r is Err ==> post == pre)
    &&& (r matches Ok((sold, txs)) ==> {
        let pre_l = pre.lot(resource_id);
        &&& lot_settled(pre, post, resource_id)
        &&& sold == (pre_l.highest_bid is Some)
        &&& txs@.map_values(|t: TransferInstruction| t@) == refund_plan(
            pre.deposits@,
            pre.config.denom@,
            resource_id,
            pre_l.bidders@,
            winner_of(pre_l),
        )
    })
}

/// Settles one expired lot: declares the winner (when a highest bid
/// exists), decides refunds for every losing bidder, and closes the lot.
///
/// Only the configured owner may settle.  Returns whether the lot was sold
/// and the refund instructions for the external ledger; the engine itself
/// never moves funds.
pub fn finalize_bid(st: &mut AuctionState, now: u64, sender: String, resource_id: u64) -> (r:
    Result<(bool, Vec<TransferInstruction>), ContractError>)
    requires
        old(st).wf(),
    ensures
        final(st).wf(),
        finalize_outcome(*old(st), *final(st), r, now, sender, resource_id),
{
    if !(st.config.owner == sender) {
        return Err(ContractError::Unauthorized {});
    }
    if resource_id == 0 || resource_id > st.resources.len() as u64 {
        return Err(ContractError::LotNotFound {});
    }
    let idx = (resource_id - 1) as usize;
    if st.resources[idx].status != Status::Bidding {
        return Err(ContractError::NotBidding {});
    }
    if now < st.resources[idx].expire {
        return Err(ContractError::NotExpire {});
    }
    let winner: Option<String> = match &st.resources[idx].highest_bid {
        Some(hb) => Some(hb.buyer_id.clone()),
        None => None,
    };
    let bidders = clone_addrs(&st.resources[idx].bidders);
    let mut lot = clone_lot(&st.resources[idx]);
    let sold = winner.is_some();
    lot.status = if sold {
        Status::Sold
    } else {
        Status::Canceled
    };
    st.resources[idx] = lot;
    let txs = match &winner {
        Some(w) => refunds_for(&mut st.deposits, &st.config.denom, resource_id, &bidders, Some(w)),
        None => refunds_for(&mut st.deposits, &st.config.denom, resource_id, &bidders, None),
    };
    proof {
        assert forall|i: int| 0 <= i < st.resources@.len() implies lot_wf(
            #[trigger] st.resources@[i],
        ) && st.resources@[i].resource_id == i + 1 by {
            if i != idx {
                assert(st.resources@[i] == old(st).resources@[i]);
            }
        }
        assert forall|i: int|
            0 <= i < st.deposits@.len() implies 1 <= (#[trigger] st.deposits@[i]).resource_id
            && st.deposits@[i].resource_id as int <= st.resources@.len() by {
            assert(st.deposits@[i].resource_id == old(st).deposits@[i].resource_id);
        }
    }
    Ok((sold, txs))
}

/// Whether lot `rid` is ripe for settlement at `now`: it exists, is still
/// bidding, and its deadline has passed.
pub open spec fn due_for_settlement(st: AuctionState, rid: u64, now: u64) -> bool {
    st.has_lot(rid) && st.lot(rid).status == Status::Bidding && now >= st.lot(rid).expire
}

/// The refund plan is unchanged by ledger changes that leave every listed
/// bidder's balance toward `rid` alone.
proof fn lemma_refund_plan_congruence(
    ds1: Seq<Deposit>,
    ds0: Seq<Deposit>,
    denom: Seq<char>,
    rid: u64,
    bidders: Seq<String>,
    winner: Option<Seq<char>>,
)
    requires
        forall|k: int|
            0 <= k < bidders.len() ==> escrow_lookup(ds1, (#[trigger] bidders[k])@, rid)
                == escrow_lookup(ds0, bidders[k]@, rid),
    ensures
        refund_plan(ds1, denom, rid, bidders, winner) == refund_plan(
            ds0,
            denom,
            rid,
            bidders,
            winner,
        ),
    decreases bidders.len(),
{
    if bidders.len() > 0 {
        lemma_refund_plan_congruence(ds1, ds0, denom, rid, bidders.drop_last(), winner);
    }
}

/// How settling every due lot up to index `bound` (exclusive) transforms
/// the state: each due lot closes as in [`lot_settled`], every other lot
/// and every other escrow balance stays put.
pub open spec fn batch_settled_state(
    pre: AuctionState,
    post: AuctionState,
    bound: int,
    now: u64,
) -> bool {
    &&& post.config == pre.config
    &&& post.next_resource_id == pre.next_resource_id
    &&& post.resources@.len() == pre.resources@.len()
    &&& forall|i: int|
        0 <= i < pre.resources@.len() && (i >= bound || !due_for_settlement(
            pre,
            (i + 1) as u64,
            now,
        )) ==> #[trigger] post.resources@[i] == pre.resources@[i]
    &&& forall|i: int|
        0 <= i < bound && i < pre.resources@.len() && due_for_settlement(pre, (i + 1) as u64, now)
            ==> {
            let pre_l = pre.resources@[i];
            let post_l = #[trigger] post.resources@[i];
            &&& same_lot_core(pre_l, post_l)
            &&& post_l.status == (if pre_l.highest_bid is Some {
                Status::Sold
            } else {
                Status::Canceled
            })
            &&& post_l.highest_bid == pre_l.highest_bid
            &&& post_l.expire == pre_l.expire
            &&& post_l.bidders@ == pre_l.bidders@
        }
    &&& forall|b2: Seq<char>, r2: u64|
        #![trigger post.escrow_of(b2, r2)]
        post.escrow_of(b2, r2) == (if 1 <= r2 && r2 as int <= bound && due_for_settlement(
            pre,
            r2,
            now,
        ) && addr_in(pre.lot(r2).bidders@, b2) && winner_of(pre.lot(r2)) != Some(b2) {
            0
        } else {
            pre.escrow_of(b2, r2)
        })
}

/// Whether `out` reports, in ascending id order, exactly the lots up to
/// index `bound` (exclusive) that were due for settlement, each with its
/// outcome and its refund plan against the pre-settlement ledger.
pub open spec fn batch_report_ok(
    pre: AuctionState,
    out: Seq<FinalizedLot>,
    bound: int,
    now: u64,
) -> bool {
    &&& forall|k: int|
        0 <= k < out.len() ==> {
            let f = #[trigger] out[k];
            &&& 1 <= f.resource_id
            &&& f.resource_id as int <= bound
            &&& due_for_settlement(pre, f.resource_id, now)
            &&& f.sold == (pre.lot(f.resource_id).highest_bid is Some)
            &&& f.refunds@.map_values(|t: TransferInstruction| t@) == refund_plan(
                pre.deposits@,
                pre.config.denom@,
                f.resource_id,
                pre.lot(f.resource_id).bidders@,
                winner_of(pre.lot(f.resource_id)),
            )
        }
    &&& forall|rid2: u64|
        1 <= rid2 && rid2 as int <= bound && #[trigger] due_for_settlement(pre, rid2, now)
            ==> exists|k: int| 0 <= k < out.len() && (#[trigger] out[k]).resource_id == rid2
    &&& forall|k1: int, k2: int|
        0 <= k1 < k2 < out.len() ==> (#[trigger] out[k1]).resource_id
            < (#[trigger] out[k2]).resource_id
}

/// Everything `finalize_bids` promises of its result and of the state it
/// leaves behind.
pub open spec fn finalize_bids_outcome(
    pre: AuctionState,
    post: AuctionState,
    r: Result<Vec<FinalizedLot>, ContractError>,
    now: u64,
    sender: String,
) -> bool {
    &&& ((r matches Err(ContractError::Unauthorized {})) <==> sender@ != pre.config.owner@)
    &&& ((r is Ok) <==> sender@ == pre.config.owner@)
    &&& (r is Err ==> post == pre)
    &&& (r matches Ok(out) ==> batch_settled_state(pre, post, pre.resources@.len() as int, now)
        && batch_report_ok(pre, out@, pre.resources@.len() as int, now))
}

/// Settles every lot whose deadline has passed, one lot at a time, with the
/// same per-lot effect as [`finalize_bid`]; lots still running or already
/// closed are left alone.
///
/// Only the configured owner may settle.  Returns one record per settled
/// lot, in ascending id order.
pub fn finalize_bids(st: &mut AuctionState, now: u64, sender: String) -> (r: Result<
    Vec<FinalizedLot>,
    ContractError,
>)
    requires
        old(st).wf(),
    ensures
        final(st).wf(),
        finalize_bids_outcome(*old(st), *final(st), r, now, sender),
{
    if !(st.config.owner == sender) {
        return Err(ContractError::Unauthorized {});
    }
    let mut out: Vec<FinalizedLot> = Vec::new();
    let n = st.resources.len();
    let mut idx: usize = 0;
    while idx < n
        invariant
            idx <= n,
            n == st.resources@.len(),
            st.wf(),
            old(st).wf(),
            n == old(st).resources@.len(),
            batch_settled_state(*old(st), *st, idx as int, now),
            batch_report_ok(*old(st), out@, idx as int, now),
        decreases n - idx,
    {
        let ghost snap = *st;
        let rid = (idx as u64) + 1;
        proof {
            assert(st.resources@[idx as int] == old(st).resources@[idx as int]);
        }
        if st.resources[idx].status == Status::Bidding && now >= st.resources[idx].expire {
            let winner: Option<String> = match &st.resources[idx].highest_bid {
                Some(hb) => Some(hb.buyer_id.clone()),
                None => None,
            };
            let bidders = clone_addrs(&st.resources[idx].bidders);
            let mut lot = clone_lot(&st.resources[idx]);
            let sold = winner.is_some();
            lot.status = if sold {
                Status::Sold
            } else {
                Status::Canceled
            };
            st.resources[idx] = lot;
            let skip_ref: Option<&String> = match &winner {
                Some(w) => Some(w),
                None => None,
            };
            let txs = refunds_for(&mut st.deposits, &st.config.denom, rid, &bidders, skip_ref);
            proof {
                let pre = *old(st);
                let pre_l = pre.lot(rid);
                assert(due_for_settlement(pre, rid, now));
                assert(opt_addr_view(skip_ref) == winner_of(pre_l));
                // the plan drawn from the current ledger equals the plan
                // against the original one: nothing touched this lot's keys
                assert forall|k: int|
                    0 <= k < bidders@.len() implies escrow_lookup(
                    snap.deposits@,
                    (#[trigger] bidders@[k])@,
                    rid,
                ) == escrow_lookup(pre.deposits@, bidders@[k]@, rid) by {
                    assert(snap.escrow_of(bidders@[k]@, rid) == pre.escrow_of(bidders@[k]@, rid));
                }
                lemma_refund_plan_congruence(
                    snap.deposits@,
                    pre.deposits@,
                    pre.config.denom@,
                    rid,
                    bidders@,
                    winner_of(pre_l),
                );
                assert(txs@.map_values(|t: TransferInstruction| t@) == refund_plan(
                    pre.deposits@,
                    pre.config.denom@,
                    rid,
                    pre_l.bidders@,
                    winner_of(pre_l),
                ));
                // the state invariant survives the settlement of this lot
                assert forall|i: int| 0 <= i < st.resources@.len() implies lot_wf(
                    #[trigger] st.resources@[i],
                ) && st.resources@[i].resource_id == i + 1 by {
                    if i != idx {
                        assert(st.resources@[i] == snap.resources@[i]);
                    }
                }
                assert forall|i: int|
                    0 <= i < st.deposits@.len() implies 1 <= (
                #[trigger] st.deposits@[i]).resource_id && st.deposits@[i].resource_id as int
                    <= st.resources@.len() by {
                    assert(st.deposits@[i].resource_id == snap.deposits@[i].resource_id);
                }
                // the settled prefix now reaches one lot further
                assert forall|b2: Seq<char>, r2: u64|
                    #![trigger st.escrow_of(b2, r2)]
                    st.escrow_of(b2, r2) == (if 1 <= r2 && r2 as int <= idx + 1
                        && due_for_settlement(pre, r2, now) && addr_in(pre.lot(r2).bidders@, b2)
                        && winner_of(pre.lot(r2)) != Some(b2) {
                        0
                    } else {
                        pre.escrow_of(b2, r2)
                    }) by {
                    assert(escrow_lookup(st.deposits@, b2, r2) == st.escrow_of(b2, r2));
                    assert(escrow_lookup(snap.deposits@, b2, r2) == snap.escrow_of(b2, r2));
                    if r2 == rid {
                        assert(pre_l.bidders@ == bidders@);
                        assert(snap.escrow_of(b2, r2) == pre.escrow_of(b2, r2));
                    }
                }
            }
            let ghost out_pre = out@;
            out.push(FinalizedLot { resource_id: rid, sold, refunds: txs });
            proof {
                assert forall|rid2: u64|
                    1 <= rid2 && rid2 as int <= idx + 1 && #[trigger] due_for_settlement(
                        *old(st),
                        rid2,
                        now,
                    ) implies exists|k: int|
                    0 <= k < out@.len() && (#[trigger] out@[k]).resource_id == rid2 by {
                    if rid2 == rid {
                        assert(out@[out@.len() - 1].resource_id == rid2);
                    } else {
                        let k = choose|k: int|
                            0 <= k < out_pre.len() && (#[trigger] out_pre[k]).resource_id == rid2;
                        assert(out@[k] == out_pre[k]);
                        assert(out@[k].resource_id == rid2);
                    }
                }
            }
        } else {
            proof {
                let pre = *old(st);
                assert(!due_for_settlement(pre, rid, now));
                assert forall|b2: Seq<char>, r2: u64|
                    #![trigger st.escrow_of(b2, r2)]
                    st.escrow_of(b2, r2) == (if 1 <= r2 && r2 as int <= idx + 1
                        && due_for_settlement(pre, r2, now) && addr_in(pre.lot(r2).bidders@, b2)
                        && winner_of(pre.lot(r2)) != Some(b2) {
                        0
                    } else {
                        pre.escrow_of(b2, r2)
                    }) by {}
            }
        }
        idx = idx + 1;
    }
    Ok(out)
}

/// Everything `start_bidding` promises of its result and of the state it
/// leaves behind.
pub open spec fn start_bidding_outcome(
    pre: AuctionState,
    post: AuctionState,
    r: Result<(), ContractError>,
    sender: String,
    resource_id: u64,
) -> bool {
    &&& ((r matches Err(ContractError::LotNotFound {})) <==> !pre.has_lot(resource_id))
    &&& ((r matches Err(ContractError::Unauthorized {})) <==> (pre.has_lot(resource_id) && sender@
        != pre.lot(resource_id).seller_id@))
    &&& ((r matches Err(ContractError::NotInit {})) <==> (pre.has_lot(resource_id) && sender@
        == pre.lot(resource_id).seller_id@ && pre.lot(resource_id).status != Status::Init))
    &&& ((r is Ok) <==> (pre.has_lot(resource_id) && sender@ == pre.lot(resource_id).seller_id@
        && pre.lot(resource_id).status == Status::Init))
    &&& (r is Err ==> post == pre)
    &&& (r is Ok ==> {
        let pre_l = pre.lot(resource_id);
        let post_l = post.lot(resource_id);
        &&& same_lot_core(pre_l, post_l)
        &&& post_l.status == Status::Bidding
        &&& post_l.highest_bid == pre_l.highest_bid
        &&& post_l.expire == pre_l.expire
        &&& post_l.bidders@ == pre_l.bidders@
        &&& post.resources@.len() == pre.resources@.len()
        &&& forall|i: int|
            0 <= i < pre.resources@.len() && i != resource_id - 1 ==> #[trigger] post.resources@[i]
                == pre.resources@[i]
        &&& post.deposits@ == pre.deposits@
        &&& post.config == pre.config
        &&& post.next_resource_id == pre.next_resource_id
    })
}

/// Opens a lot for bidding: `Init -> Bidding`.
///
/// Only the seller may start bidding; fails `Unauthorized` otherwise, and
/// `NotInit` when the lot has left `Init`.
pub fn start_bidding(st: &mut AuctionState, sender: String, resource_id: u64) -> (r: Result<
    (),
    ContractError,
>)
    requires
        old(st).wf(),
    ensures
        final(st).wf(),
        start_bidding_outcome(*old(st), *final(st), r, sender, resource_id),
{
    if resource_id == 0 || resource_id > st.resources.len() as u64 {
        return Err(ContractError::LotNotFound {});
    }
    let idx = (resource_id - 1) as usize;
    if !(st.resources[idx].seller_id == sender) {
        return Err(ContractError::Unauthorized {});
    }
    if st.resources[idx].status != Status::Init {
        return Err(ContractError::NotInit {});
    }
    let mut lot = clone_lot(&st.resources[idx]);
    lot.status = Status::Bidding;
    st.resources[idx] = lot;
    proof {
        assert forall|i: int| 0 <= i < st.resources@.len() implies lot_wf(
            #[trigger] st.resources@[i],
        ) && st.resources@[i].resource_id == i + 1 by {
            if i != idx {
                assert(st.resources@[i] == old(st).resources@[i]);
            }
        }
        assert forall|i: int|
            0 <= i < st.deposits@.len() implies 1 <= (#[trigger] st.deposits@[i]).resource_id
            && st.deposits@[i].resource_id as int <= st.resources@.len() by {
            assert(st.deposits@[i] == old(st).deposits@[i]);
        }
    }
    Ok(())
}

/// The total amount a refund plan pays out.
pub open spec fn sum_plan(txs: Seq<TransferView>) -> int
    decreases txs.len(),
{
    if txs.len() == 0 {
        0
    } else {
        sum_plan(txs.drop_last()) + txs.last().amount
    }
}

/// The total escrow held in `ds` toward lot `rid` by the listed bidders,
/// leaving out the balance of `except`.
pub open spec fn sum_escrow_except(
    ds: Seq<Deposit>,
    rid: u64,
    bidders: Seq<String>,
    except: Option<Seq<char>>,
) -> int
    decreases bidders.len(),
{
    if bidders.len() == 0 {
        0
    } else {
        sum_escrow_except(ds, rid, bidders.drop_last(), except) + (if except != Some(
            bidders.last()@,
        ) {
            escrow_lookup(ds, bidders.last()@, rid) as int
        } else {
            0
        })
    }
}

/// Settlement completeness: the refund plan pays out exactly the sum of
/// the escrow balances of every listed bidder other than the winner, and
/// no instruction in it pays the winner.
pub proof fn lemma_settlement_completeness(
    ds: Seq<Deposit>,
    denom: Seq<char>,
    rid: u64,
    bidders: Seq<String>,
    winner: Option<Seq<char>>,
)
    ensures
        sum_plan(refund_plan(ds, denom, rid, bidders, winner)) == sum_escrow_except(
            ds,
            rid,
            bidders,
            winner,
        ),
        forall|k: int|
            0 <= k < refund_plan(ds, denom, rid, bidders, winner).len() ==> Some(
                (#[trigger] refund_plan(ds, denom, rid, bidders, winner)[k]).destination,
            ) != winner,
    decreases bidders.len(),
{
    if bidders.len() > 0 {
        lemma_settlement_completeness(ds, denom, rid, bidders.drop_last(), winner);
        let rest = refund_plan(ds, denom, rid, bidders.drop_last(), winner);
        let b = bidders.last();
        if winner != Some(b@) && escrow_lookup(ds, b@, rid) > 0 {
            let tx = TransferView {
                destination: b@,
                amount: escrow_lookup(ds, b@, rid),
                denom: denom,
            };
            assert(rest.push(tx).drop_last() =~= rest);
            assert(rest.push(tx).last() == tx);
        }
    }
}

/// Idempotent settlement: a second settlement of an already settled lot,
/// by the owner, fails `NotBidding`, emits no transfers, and leaves the
/// state exactly as the first settlement left it.
pub proof fn lemma_settlement_idempotent(
    pre: AuctionState,
    mid: AuctionState,
    post: AuctionState,
    rid: u64,
    sender: String,
    now2: u64,
    r2: Result<(bool, Vec<TransferInstruction>), ContractError>,
)
    requires
        lot_settled(pre, mid, rid),
        finalize_outcome(mid, post, r2, now2, sender, rid),
        sender@ == mid.config.owner@,
    ensures
        r2 == Err::<(bool, Vec<TransferInstruction>), ContractError>(
            ContractError::NotBidding {},
        ),
        post == mid,
{
    assert(mid.has_lot(rid));
    assert(mid.lot(rid).status != Status::Bidding);
}

/// The winner's escrow is retained as payment: settlement leaves the
/// winning bidder's balance toward the lot exactly as it was.
pub proof fn lemma_winner_escrow_retained(
    pre: AuctionState,
    post: AuctionState,
    rid: u64,
    w: Seq<char>,
)
    requires
        lot_settled(pre, post, rid),
        winner_of(pre.lot(rid)) == Some(w),
    ensures
        post.escrow_of(w, rid) == pre.escrow_of(w, rid),
{
}

/// Monotonic bidding: of two bids accepted one after the other on the same
/// lot, the second strictly outbids the first.  Prices over any sequence
/// of accepted bids on a lot are therefore strictly increasing.
pub proof fn lemma_monotonic_bidding(
    s0: AuctionState,
    s1: AuctionState,
    s2: AuctionState,
    rid: u64,
    b1: String,
    p1: u64,
    a1: u128,
    t1: u64,
    b2: String,
    p2: u64,
    a2: u128,
    t2: u64,
)
    requires
        bid_accepted(s0, s1, rid, b1, p1, a1, t1),
        bid_accepted(s1, s2, rid, b2, p2, a2, t2),
    ensures
        p2 > p1,
{
    assert(s1.lot(rid).highest_bid == Some(Bid { buyer_id: b1, resource_id: rid, price: p1 }));
}

/// Monotonic bidding over whole histories: along any chain of states
/// linked by accepted bids on one lot, the accepted prices are strictly
/// increasing.  Each bid in the chain is its buyer, price, escrowed amount
/// and arrival time.
pub proof fn lemma_bid_history_monotonic(
    states: Seq<AuctionState>,
    bids: Seq<(String, u64, u128, u64)>,
    rid: u64,
    i: int,
    j: int,
)
    requires
        states.len() == bids.len() + 1,
        forall|k: int|
            0 <= k < bids.len() ==> bid_accepted(
                states[k],
                states[k + 1],
                rid,
                (#[trigger] bids[k]).0,
                bids[k].1,
                bids[k].2,
                bids[k].3,
            ),
        0 <= i < j < bids.len(),
    ensures
        bids[i].1 < bids[j].1,
    decreases j - i,
{
    if j == i + 1 {
        lemma_monotonic_bidding(
            states[i],
            states[i + 1],
            states[i + 2],
            rid,
            bids[i].0,
            bids[i].1,
            bids[i].2,
            bids[i].3,
            bids[j].0,
            bids[j].1,
            bids[j].2,
            bids[j].3,
        );
    } else {
        lemma_bid_history_monotonic(states, bids, rid, i, j - 1);
        lemma_bid_history_monotonic(states, bids, rid, j - 1, j);
    }
}

/// Escrow monotonicity: an accepted bid never decreases any escrow
/// balance, and grows the bidder's own balance by exactly the attached
/// amount.
pub proof fn lemma_escrow_monotonic(
    pre: AuctionState,
    post: AuctionState,
    rid: u64,
    buyer: String,
    price: u64,
    amount: u128,
    now: u64,
)
    requires
        bid_accepted(pre, post, rid, buyer, price, amount, now),
    ensures
        forall|b2: Seq<char>, r2: u64| #[trigger] post.escrow_of(b2, r2) >= pre.escrow_of(b2, r2),
        post.escrow_of(buyer@, rid) == pre.escrow_of(buyer@, rid) + amount,
{
    assert forall|b2: Seq<char>, r2: u64| #[trigger] post.escrow_of(b2, r2) >= pre.escrow_of(
        b2,
        r2,
    ) by {
        if b2 == buyer@ && r2 == rid {
            assert(post.escrow_of(b2, r2) == pre.escrow_of(buyer@, rid) + amount);
        }
    }
}

/// Anti-sniping: a bid accepted with less than one hour left strictly
/// increases the deadline, to exactly one hour past `now`; a bid accepted
/// with more time left leaves the deadline unchanged.
pub proof fn lemma_anti_sniping(
    pre: AuctionState,
    post: AuctionState,
    rid: u64,
    buyer: String,
    price: u64,
    amount: u128,
    now: u64,
)
    requires
        bid_accepted(pre, post, rid, buyer, price, amount, now),
    ensures
        pre.lot(rid).expire - now < ANTI_SNIPE_WINDOW ==> post.lot(rid).expire == now
            + ANTI_SNIPE_WINDOW && post.lot(rid).expire > pre.lot(rid).expire,
        pre.lot(rid).expire - now >= ANTI_SNIPE_WINDOW ==> post.lot(rid).expire == pre.lot(
            rid,
        ).expire,
{
}

/// The read model's total order on lots: ascending unit price, ties broken
/// by ascending lot id.
pub open spec fn price_le(a: Resource, b: Resource) -> bool {
    a.price < b.price || (a.price == b.price && a.resource_id <= b.resource_id)
}

/// Whether `s` is sorted by [`price_le`].
pub open spec fn sorted_by_price(s: Seq<Resource>) -> bool {
    forall|i: int, j: int| 0 <= i < j < s.len() ==> price_le(#[trigger] s[i], #[trigger] s[j])
}

/// Whether `a` comes no later than `b` in the read model's order.
fn lot_before(a: &Resource, b: &Resource) -> (r: bool)
    ensures
        r == price_le(*a, *b),
{
    a.price < b.price || (a.price == b.price && a.resource_id <= b.resource_id)
}

/// A fresh snapshot of every lot, sorted ascending by unit price with ties
/// broken by lot id.  Read-only: the state is borrowed immutably.
pub fn query_resources(st: &AuctionState) -> (resp: QueryResourcesResponse)
    requires
        st.wf(),
    ensures
        resp.resources@.len() == st.resources@.len(),
        sorted_by_price(resp.resources@),
        forall|k: int|
            0 <= k < resp.resources@.len() ==> {
                let l = #[trigger] resp.resources@[k];
                st.has_lot(l.resource_id) && lot_like(l, st.lot(l.resource_id))
            },
        forall|k1: int, k2: int|
            0 <= k1 < k2 < resp.resources@.len() ==> (#[trigger] resp.resources@[k1]).resource_id
                != (#[trigger] resp.resources@[k2]).resource_id,
        forall|rid: u64|
            #[trigger] st.has_lot(rid) ==> exists|k: int|
                0 <= k < resp.resources@.len() && (#[trigger] resp.resources@[k]).resource_id
                    == rid,
{
    let n = st.resources.len();
    let mut out: Vec<Resource> = Vec::new();
    let mut i: usize = 0;
    while i < n
        invariant
            i <= n,
            n == st.resources@.len(),
            st.wf(),
            out@.len() == i,
            sorted_by_price(out@),
            forall|k: int|
                0 <= k < out@.len() ==> {
                    let l = #[trigger] out@[k];
                    1 <= l.resource_id && l.resource_id as int <= i && lot_like(
                        l,
                        st.resources@[l.resource_id as int - 1],
                    )
                },
            forall|k1: int, k2: int|
                0 <= k1 < k2 < out@.len() ==> (#[trigger] out@[k1]).resource_id
                    != (#[trigger] out@[k2]).resource_id,
            forall|rid: u64|
                #[trigger] st.has_lot(rid) && rid as int <= i ==> exists|k: int|
                    0 <= k < out@.len() && (#[trigger] out@[k]).resource_id == rid,
        decreases n - i,
    {
        let lot = clone_lot(&st.resources[i]);
        let ghost lotg = lot;
        let mut pos: usize = 0;
        while pos < out.len()
            invariant
                pos <= out@.len(),
                lotg == lot,
                forall|k: int| 0 <= k < pos ==> price_le(#[trigger] out@[k], lotg),
            ensures
                pos <= out@.len(),
                forall|k: int| 0 <= k < pos ==> price_le(#[trigger] out@[k], lotg),
                pos < out@.len() ==> !price_le(out@[pos as int], lotg),
            decreases out@.len() - pos,
        {
            if !lot_before(&out[pos], &lot) {
                break ;
            }
            pos = pos + 1;
        }
        let ghost out_pre = out@;
        out.insert(pos, lot);
        proof {
            assert(out@ =~= out_pre.insert(pos as int, lotg));
            assert forall|k1: int, k2: int| 0 <= k1 < k2 < out@.len() implies price_le(
                #[trigger] out@[k1],
                #[trigger] out@[k2],
            ) by {
                if k1 == pos {
                    assert(out@[k2] == out_pre[k2 - 1]);
                    if k2 - 1 > pos as int {
                        assert(price_le(out_pre[pos as int], out_pre[k2 - 1]));
                    }
                } else if k2 == pos {
                    assert(out@[k1] == out_pre[k1]);
                } else if k1 < pos && k2 > pos {
                    assert(out@[k1] == out_pre[k1] && out@[k2] == out_pre[k2 - 1]);
                    if k2 - 1 > k1 {
                        assert(price_le(out_pre[k1], out_pre[k2 - 1]));
                    }
                } else if k2 < pos {
                    assert(out@[k1] == out_pre[k1] && out@[k2] == out_pre[k2]);
                } else {
                    assert(out@[k1] == out_pre[k1 - 1] && out@[k2] == out_pre[k2 - 1]);
                }
            }
            assert forall|rid: u64|
                #[trigger] st.has_lot(rid) && rid as int <= i + 1 implies exists|k: int|
                0 <= k < out@.len() && (#[trigger] out@[k]).resource_id == rid by {
                if rid as int == i + 1 {
                    assert(out@[pos as int].resource_id == rid);
                } else {
                    let k = choose|k: int|
                        0 <= k < out_pre.len() && (#[trigger] out_pre[k]).resource_id == rid;
                    if k < pos as int {
                        assert(out@[k] == out_pre[k]);
                    } else {
                        assert(out@[k + 1] == out_pre[k]);
                    }
                }
            }
        }
        i = i + 1;
    }
    QueryResourcesResponse { resources: out }
}

/// Answers one state-mutating request by dispatching it to the matching
/// operation, and wraps what that operation decided into an event record.
///
/// The request set is closed and matched exhaustively; each arm promises
/// exactly what the operation it dispatches to promises.
pub fn execute(
    st: &mut AuctionState,
    now: u64,
    sender: String,
    funds: Vec<Coin>,
    msg: ExecuteMsg,
) -> (r: Result<ExecuteResponse, ContractError>)
    requires
        old(st).wf(),
        msg matches ExecuteMsg::NewResource { .. } ==> old(st).next_resource_id < u64::MAX && now
            <= u64::MAX - DEFAULT_WINDOW,
        msg matches ExecuteMsg::PlaceBid { resource_id, buyer_id, .. } ==> now <= u64::MAX
            - ANTI_SNIPE_WINDOW && (funds@.len() == 1 ==> old(st).escrow_of(
            resolved(buyer_id, sender)@,
            resource_id,
        ) + funds@[0].amount <= u128::MAX),
    ensures
        final(st).wf(),
        msg matches ExecuteMsg::NewResource { seller_id, volume, price } ==> {
            &&& (r matches Err(e) ==> new_resource_outcome(
                *old(st),
                *final(st),
                Err(e),
                now,
                sender,
                seller_id,
                volume,
                price,
            ))
            &&& (r matches Ok(resp) ==> resp matches ExecuteResponse::Created {
                resource_id: rid2,
                seller_id: s2,
                volume: v2,
                price: p2,
                expire: e2,
            } && s2 == resolved(seller_id, sender) && v2 == volume && p2 == price
                && new_resource_outcome(
                *old(st),
                *final(st),
                Ok((rid2, e2)),
                now,
                sender,
                seller_id,
                volume,
                price,
            ))
        },
        msg matches ExecuteMsg::PlaceBid { resource_id, buyer_id, price } ==> {
            &&& (r matches Err(e) ==> place_bid_outcome(
                *old(st),
                *final(st),
                Err(e),
                now,
                sender,
                funds@,
                resource_id,
                buyer_id,
                price,
            ))
            &&& (r matches Ok(resp) ==> resp matches ExecuteResponse::BidPlaced {
                resource_id: rid2,
                buyer_id: b2,
                price: p2,
                expire: e2,
            } && rid2 == resource_id && b2 == resolved(buyer_id, sender) && place_bid_outcome(
                *old(st),
                *final(st),
                Ok((p2, e2)),
                now,
                sender,
                funds@,
                resource_id,
                buyer_id,
                price,
            ))
        },
        msg matches ExecuteMsg::CancelResource { resource_id } ==> {
            &&& (r matches Err(e) ==> cancel_outcome(
                *old(st),
                *final(st),
                Err(e),
                sender,
                resource_id,
            ))
            &&& (r matches Ok(resp) ==> resp matches ExecuteResponse::Canceled {
                resource_id: rid2,
                refunds,
            } && rid2 == resource_id && cancel_outcome(
                *old(st),
                *final(st),
                Ok(refunds),
                sender,
                resource_id,
            ))
        },
        msg matches ExecuteMsg::StartBidding { resource_id } ==> {
            &&& (r matches Err(e) ==> start_bidding_outcome(
                *old(st),
                *final(st),
                Err(e),
                sender,
                resource_id,
            ))
            &&& (r matches Ok(resp) ==> resp matches ExecuteResponse::BiddingStarted {
                resource_id: rid2,
            } && rid2 == resource_id && start_bidding_outcome(
                *old(st),
                *final(st),
                Ok(()),
                sender,
                resource_id,
            ))
        },
        msg matches ExecuteMsg::FinalizeBid { resource_id } ==> {
            &&& (r matches Err(e) ==> finalize_outcome(
                *old(st),
                *final(st),
                Err(e),
                now,
                sender,
                resource_id,
            ))
            &&& (r matches Ok(resp) ==> resp matches ExecuteResponse::Finalized {
                resource_id: rid2,
                sold,
                refunds,
            } && rid2 == resource_id && finalize_outcome(
                *old(st),
                *final(st),
                Ok((sold, refunds)),
                now,
                sender,
                resource_id,
            ))
        },
        msg matches ExecuteMsg::FinalizeBids {  } ==> {
            &&& (r matches Err(e) ==> finalize_bids_outcome(
                *old(st),
                *final(st),
                Err(e),
                now,
                sender,
            ))
            &&& (r matches Ok(resp) ==> resp matches ExecuteResponse::BatchFinalized { settled }
                && finalize_bids_outcome(*old(st), *final(st), Ok(settled), now, sender))
        },
{
    match msg {
        ExecuteMsg::NewResource { seller_id, volume, price } => {
            let seller = match &seller_id {
                Some(s) => s.clone(),
                None => sender.clone(),
            };
            match new_resource(st, now, sender, seller_id, volume, price) {
                Ok((rid, expire)) => Ok(
                    ExecuteResponse::Created {
                        resource_id: rid,
                        seller_id: seller,
                        volume,
                        price,
                        expire,
                    },
                ),
                Err(e) => Err(e),
            }
        },
        ExecuteMsg::PlaceBid { resource_id, buyer_id, price } => {
            let buyer = match &buyer_id {
                Some(b) => b.clone(),
                None => sender.clone(),
            };
            match place_bid(st, now, sender, funds, resource_id, buyer_id, price) {
                Ok((accepted, expire)) => Ok(
                    ExecuteResponse::BidPlaced {
                        resource_id,
                        buyer_id: buyer,
                        price: accepted,
                        expire,
                    },
                ),
                Err(e) => Err(e),
            }
        },
        ExecuteMsg::CancelResource { resource_id } => {
            match cancel_resource(st, sender, resource_id) {
                Ok(refunds) => Ok(ExecuteResponse::Canceled { resource_id, refunds }),
                Err(e) => Err(e),
            }
        },
        ExecuteMsg::StartBidding { resource_id } => {
            match start_bidding(st, sender, resource_id) {
                Ok(()) => Ok(ExecuteResponse::BiddingStarted { resource_id }),
                Err(e) => Err(e),
            }
        },
        ExecuteMsg::FinalizeBids {  } => {
            match finalize_bids(st, now, sender) {
                Ok(settled) => Ok(ExecuteResponse::BatchFinalized { settled }),
                Err(e) => Err(e),
            }
        },
        ExecuteMsg::FinalizeBid { resource_id } => {
            match finalize_bid(st, now, sender, resource_id) {
                Ok((sold, refunds)) => Ok(
                    ExecuteResponse::Finalized { resource_id, sold, refunds },
                ),
                Err(e) => Err(e),
            }
        },
    }
}

/// Answers one read-only request.
pub fn query(st: &AuctionState, msg: QueryMsg) -> (resp: QueryResourcesResponse)
    requires
        st.wf(),
    ensures
        (msg matches QueryMsg::QueryResources {  }) ==> {
            &&& resp.resources@.len() == st.resources@.len()
            &&& sorted_by_price(resp.resources@)
            &&& forall|k: int|
                0 <= k < resp.resources@.len() ==> {
                    let l = #[trigger] resp.resources@[k];
                    st.has_lot(l.resource_id) && lot_like(l, st.lot(l.resource_id))
                }
            &&& forall|k1: int, k2: int|
                0 <= k1 < k2 < resp.resources@.len() ==> (
                #[trigger] resp.resources@[k1]).resource_id
                    != (#[trigger] resp.resources@[k2]).resource_id
            &&& forall|rid: u64|
                #[trigger] st.has_lot(rid) ==> exists|k: int|
                    0 <= k < resp.resources@.len() && (#[trigger] resp.resources@[k]).resource_id
                        == rid
        },
{
    match msg {
        QueryMsg::QueryResources {  } => query_resources(st),
    }
}

} // verus!
