use auction::contract::{
    cancel_resource, execute, finalize_bid, finalize_bids, instantiate, new_resource, place_bid,
    query_resources, start_bidding,
};
use auction::error::ContractError;
use auction::helpers::extract_coin;
use auction::msg::{ExecuteMsg, InstantiateMsg};
use auction::state::{escrow_add, escrow_get, escrow_zero, AuctionState, Coin, Deposit, Status};

fn addr(s: &str) -> String {
    s.to_string()
}

fn coins(amount: u128, denom: &str) -> Vec<Coin> {
    vec![Coin { denom: denom.to_string(), amount }]
}

fn fresh_state() -> AuctionState {
    let msg = InstantiateMsg { owner: None, denom: String::from("umgl") };
    instantiate(msg, addr("creator"))
}

/// One lot (volume 100, price 1, so 100 due) with bidding started at time 0.
fn state_with_open_lot() -> AuctionState {
    let mut state = fresh_state();
    new_resource(&mut state, 0, addr("addr0000"), None, 100, 1).unwrap();
    start_bidding(&mut state, addr("addr0000"), 1).unwrap();
    state
}

#[test]
fn cumulative_deposit_covers_total_due() {
    let mut state = state_with_open_lot();

    // 50 escrowed of 100 due: the bid is rejected and nothing is recorded
    let res = place_bid(&mut state, 1, addr("addr0002"), coins(50, "umgl"), 1, None, 2);
    assert_eq!(res.unwrap_err(), ContractError::InsufficientDeposit {});
    assert!(state.resources[0].highest_bid.is_none());

    // 50 more: the cumulative balance of 100 now covers the total due
    let res = place_bid(&mut state, 1, addr("addr0002"), coins(50, "umgl"), 1, None, 2);
    assert_eq!(res.unwrap(), (2, 259200));
    assert_eq!(escrow_get(&state.deposits, &addr("addr0002"), 1), 100);
}

#[test]
fn bid_after_expiry_fails() {
    let mut state = state_with_open_lot();
    // the lot expires at 259200; a bid one second later is rejected
    let res = place_bid(&mut state, 259201, addr("addr0002"), coins(200, "umgl"), 1, None, 2);
    assert_eq!(res.unwrap_err(), ContractError::ResourceExpired {});
}

#[test]
fn bid_at_expiry_instant_is_accepted() {
    let mut state = state_with_open_lot();
    let res = place_bid(&mut state, 259200, addr("addr0002"), coins(200, "umgl"), 1, None, 2);
    // the last moment still counts, and lies within the anti-sniping window
    assert_eq!(res.unwrap(), (2, 259200 + 3600));
}

#[test]
fn finalize_before_expiry_fails() {
    let mut state = state_with_open_lot();
    place_bid(&mut state, 1, addr("addr0002"), coins(200, "umgl"), 1, None, 2).unwrap();
    let res = finalize_bid(&mut state, 259199, addr("creator"), 1);
    assert_eq!(res.unwrap_err(), ContractError::NotExpire {});
}

#[test]
fn finalize_requires_owner() {
    let mut state = state_with_open_lot();
    let res = finalize_bid(&mut state, 300000, addr("addr0000"), 1);
    assert_eq!(res.unwrap_err(), ContractError::Unauthorized {});
}

#[test]
fn finalize_refunds_losers_exactly() {
    let mut state = state_with_open_lot();
    place_bid(&mut state, 1, addr("addr0002"), coins(150, "umgl"), 1, None, 2).unwrap();
    place_bid(&mut state, 2, addr("addr0003"), coins(300, "umgl"), 1, None, 5).unwrap();

    let (sold, refunds) = finalize_bid(&mut state, 259200, addr("creator"), 1).unwrap();
    assert!(sold);
    assert_eq!(state.resources[0].status, Status::Sold);

    // the loser gets back exactly the full escrow balance, in one instruction
    assert_eq!(refunds.len(), 1);
    assert_eq!(refunds[0].destination, addr("addr0002"));
    assert_eq!(refunds[0].amount, 150);
    assert_eq!(refunds[0].denom, addr("umgl"));

    // the refunded balance is cleared; the winner's is retained untouched
    assert_eq!(escrow_get(&state.deposits, &addr("addr0002"), 1), 0);
    assert_eq!(escrow_get(&state.deposits, &addr("addr0003"), 1), 300);
}

#[test]
fn finalize_twice_fails_invalid_state() {
    let mut state = state_with_open_lot();
    place_bid(&mut state, 1, addr("addr0002"), coins(150, "umgl"), 1, None, 2).unwrap();
    place_bid(&mut state, 2, addr("addr0003"), coins(300, "umgl"), 1, None, 5).unwrap();
    finalize_bid(&mut state, 259200, addr("creator"), 1).unwrap();

    // the second settlement fails and emits no further transfers
    let res = finalize_bid(&mut state, 259200, addr("creator"), 1);
    assert_eq!(res.unwrap_err(), ContractError::NotBidding {});
    assert_eq!(state.resources[0].status, Status::Sold);
    assert_eq!(escrow_get(&state.deposits, &addr("addr0003"), 1), 300);
}

#[test]
fn finalize_unsold_lot_cancels() {
    let mut state = state_with_open_lot();
    let (sold, refunds) = finalize_bid(&mut state, 259200, addr("creator"), 1).unwrap();
    assert!(!sold);
    assert_eq!(refunds.len(), 0);
    assert_eq!(state.resources[0].status, Status::Canceled);
}

#[test]
fn cancel_refunds_all_bidders() {
    let mut state = state_with_open_lot();
    place_bid(&mut state, 1, addr("addr0002"), coins(150, "umgl"), 1, None, 2).unwrap();
    place_bid(&mut state, 2, addr("addr0003"), coins(300, "umgl"), 1, None, 5).unwrap();

    let refunds = cancel_resource(&mut state, addr("addr0000"), 1).unwrap();
    assert_eq!(state.resources[0].status, Status::Canceled);
    assert_eq!(refunds.len(), 2);
    assert_eq!(refunds[0].destination, addr("addr0002"));
    assert_eq!(refunds[0].amount, 150);
    assert_eq!(refunds[1].destination, addr("addr0003"));
    assert_eq!(refunds[1].amount, 300);

    // canceling again refunds nothing: the balances are already cleared
    let refunds = cancel_resource(&mut state, addr("addr0000"), 1).unwrap();
    assert_eq!(refunds.len(), 0);
}

#[test]
fn cancel_requires_seller() {
    let mut state = state_with_open_lot();
    let res = cancel_resource(&mut state, addr("addr0001"), 1);
    assert_eq!(res.unwrap_err(), ContractError::Unauthorized {});
}

#[test]
fn cancel_sold_lot_fails() {
    let mut state = state_with_open_lot();
    place_bid(&mut state, 1, addr("addr0002"), coins(150, "umgl"), 1, None, 2).unwrap();
    finalize_bid(&mut state, 259200, addr("creator"), 1).unwrap();
    let res = cancel_resource(&mut state, addr("addr0000"), 1);
    assert_eq!(res.unwrap_err(), ContractError::AlreadySold {});
}

#[test]
fn wrong_coin_shape_rejected() {
    let mut state = state_with_open_lot();

    // no funds at all
    let res = place_bid(&mut state, 1, addr("addr0002"), Vec::new(), 1, None, 2);
    assert_eq!(res.unwrap_err(), ContractError::WrongCoinSent {});

    // two denominations at once
    let two = vec![
        Coin { denom: addr("umgl"), amount: 100 },
        Coin { denom: addr("token"), amount: 100 },
    ];
    let res = place_bid(&mut state, 1, addr("addr0002"), two, 1, None, 2);
    assert_eq!(res.unwrap_err(), ContractError::WrongCoinSent {});

    // the wrong denomination
    let res = place_bid(&mut state, 1, addr("addr0002"), coins(200, "token"), 1, None, 2);
    assert_eq!(
        res.unwrap_err(),
        ContractError::WrongFundCoin { expected: addr("umgl"), got: addr("token") },
    );
}

#[test]
fn extract_coin_checks_shape_and_denom() {
    let denom = addr("umgl");
    let got = extract_coin(&coins(7, "umgl"), &denom).unwrap();
    assert_eq!(got.amount, 7);
    assert_eq!(got.denom, addr("umgl"));
    assert_eq!(
        extract_coin(&Vec::new(), &denom).unwrap_err(),
        ContractError::WrongCoinSent {},
    );
    assert_eq!(
        extract_coin(&coins(7, "token"), &denom).unwrap_err(),
        ContractError::WrongFundCoin { expected: addr("umgl"), got: addr("token") },
    );
}

#[test]
fn zero_quantity_rejected() {
    let mut state = fresh_state();
    let res = new_resource(&mut state, 0, addr("addr0000"), None, 0, 1);
    assert_eq!(res.unwrap_err(), ContractError::InvalidQuantity {});
    let res = new_resource(&mut state, 0, addr("addr0000"), None, 100, 0);
    assert_eq!(res.unwrap_err(), ContractError::InvalidQuantity {});
    assert_eq!(state.resources.len(), 0);
}

#[test]
fn seller_cannot_bid_on_own_lot() {
    let mut state = state_with_open_lot();
    let res = place_bid(&mut state, 1, addr("addr0000"), coins(200, "umgl"), 1, None, 2);
    assert_eq!(res.unwrap_err(), ContractError::Unauthorized {});
}

#[test]
fn first_bid_must_be_positive() {
    let mut state = state_with_open_lot();
    let res = place_bid(&mut state, 1, addr("addr0002"), coins(200, "umgl"), 1, None, 0);
    assert_eq!(res.unwrap_err(), ContractError::BidTooLow {});
}

#[test]
fn escrow_balances_accumulate() {
    let mut deposits: Vec<Deposit> = Vec::new();
    assert_eq!(escrow_add(&mut deposits, &addr("a"), 1, 50), 50);
    assert_eq!(escrow_add(&mut deposits, &addr("a"), 1, 70), 120);
    assert_eq!(escrow_get(&deposits, &addr("a"), 1), 120);
    // other keys are untouched
    assert_eq!(escrow_get(&deposits, &addr("b"), 1), 0);
    assert_eq!(escrow_get(&deposits, &addr("a"), 2), 0);
    escrow_zero(&mut deposits, &addr("a"), 1);
    assert_eq!(escrow_get(&deposits, &addr("a"), 1), 0);
}

#[test]
fn finalize_bids_settles_only_expired_lots() {
    let mut state = fresh_state();
    // the first lot expires at 259200, the second at 359200
    new_resource(&mut state, 0, addr("addr0000"), None, 100, 1).unwrap();
    start_bidding(&mut state, addr("addr0000"), 1).unwrap();
    new_resource(&mut state, 100000, addr("addr0001"), None, 100, 1).unwrap();
    start_bidding(&mut state, addr("addr0001"), 2).unwrap();

    place_bid(&mut state, 1, addr("addr0002"), coins(150, "umgl"), 1, None, 2).unwrap();
    place_bid(&mut state, 2, addr("addr0003"), coins(300, "umgl"), 1, None, 5).unwrap();

    let settled = finalize_bids(&mut state, 300000, addr("creator")).unwrap();
    assert_eq!(settled.len(), 1);
    assert_eq!(settled[0].resource_id, 1);
    assert!(settled[0].sold);
    assert_eq!(settled[0].refunds.len(), 1);
    assert_eq!(settled[0].refunds[0].destination, addr("addr0002"));
    assert_eq!(settled[0].refunds[0].amount, 150);

    assert_eq!(state.resources[0].status, Status::Sold);
    assert_eq!(state.resources[1].status, Status::Bidding);
}

#[test]
fn finalize_bids_requires_owner() {
    let mut state = state_with_open_lot();
    let res = finalize_bids(&mut state, 300000, addr("addr0000"));
    assert_eq!(res.unwrap_err(), ContractError::Unauthorized {});
}

#[test]
fn query_sorts_by_price_then_id() {
    let mut state = fresh_state();
    new_resource(&mut state, 0, addr("addr0000"), None, 100, 1).unwrap();
    new_resource(&mut state, 0, addr("addr0001"), None, 100, 3).unwrap();
    new_resource(&mut state, 0, addr("addr0002"), None, 100, 2).unwrap();

    let resp = query_resources(&state);
    assert_eq!(resp.resources.len(), 3);
    // prices come out ascending, carrying their lot ids along
    assert_eq!(resp.resources[0].resource_id, 1);
    assert_eq!(resp.resources[1].resource_id, 3);
    assert_eq!(resp.resources[2].resource_id, 2);
    assert_eq!(resp.resources[0].price, 1);
    assert_eq!(resp.resources[1].price, 2);
    assert_eq!(resp.resources[2].price, 3);

    // equal prices are ordered by lot id
    let mut state = fresh_state();
    new_resource(&mut state, 0, addr("addr0000"), None, 100, 5).unwrap();
    new_resource(&mut state, 0, addr("addr0001"), None, 100, 5).unwrap();
    new_resource(&mut state, 0, addr("addr0002"), None, 100, 3).unwrap();
    let resp = query_resources(&state);
    assert_eq!(resp.resources[0].resource_id, 3);
    assert_eq!(resp.resources[1].resource_id, 1);
    assert_eq!(resp.resources[2].resource_id, 2);
}

#[test]
fn bids_strictly_increase() {
    let mut state = state_with_open_lot();
    place_bid(&mut state, 1, addr("addr0002"), coins(200, "umgl"), 1, None, 2).unwrap();
    // an equal price is rejected, from another bidder too
    let res = place_bid(&mut state, 1, addr("addr0003"), coins(200, "umgl"), 1, None, 2);
    assert_eq!(res.unwrap_err(), ContractError::BidTooLow {});
    // a higher price lands and becomes the new floor
    place_bid(&mut state, 1, addr("addr0003"), coins(200, "umgl"), 1, None, 3).unwrap();
    let res = place_bid(&mut state, 1, addr("addr0002"), Vec::new(), 1, None, 3);
    assert_eq!(res.unwrap_err(), ContractError::BidTooLow {});
}

#[test]
fn run_of_operations_keeps_state_consistent() {
    let mut state = state_with_open_lot();
    assert!(state.check_wf());
    place_bid(&mut state, 1, addr("addr0002"), coins(150, "umgl"), 1, None, 2).unwrap();
    place_bid(&mut state, 2, addr("addr0003"), coins(300, "umgl"), 1, None, 5).unwrap();
    assert!(state.check_wf());
    finalize_bid(&mut state, 259200, addr("creator"), 1).unwrap();
    assert!(state.check_wf());

    // a state whose lot ids do not line up is recognised as inconsistent
    let mut broken = state_with_open_lot();
    broken.resources[0].resource_id = 7;
    assert!(!broken.check_wf());
}

#[test]
fn bid_on_missing_lot_fails() {
    let mut state = state_with_open_lot();
    let res = place_bid(&mut state, 1, addr("addr0002"), coins(200, "umgl"), 9, None, 2);
    assert_eq!(res.unwrap_err(), ContractError::LotNotFound {});
    let res = execute(
        &mut state,
        1,
        addr("creator"),
        Vec::new(),
        ExecuteMsg::FinalizeBid { resource_id: 9 },
    );
    assert_eq!(res.unwrap_err(), ContractError::LotNotFound {});
}
