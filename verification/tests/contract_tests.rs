use auction::contract::{execute, instantiate, query};
use auction::error::ContractError;
use auction::msg::{ExecuteMsg, ExecuteResponse, InstantiateMsg, QueryMsg};
use auction::state::Coin;

fn addr(s: &str) -> String {
    s.to_string()
}

fn coins(amount: u128, denom: &str) -> Vec<Coin> {
    vec![Coin { denom: denom.to_string(), amount }]
}

#[test]
fn proper_initialization() {
    // no owner specified in the instantiation message
    let msg = InstantiateMsg { owner: None, denom: String::from("umgl") };
    let state = instantiate(msg, addr("creator"));
    assert_eq!(state.config.owner, addr("creator"));
    assert_eq!(state.config.denom, String::from("umgl"));

    // specifying an owner address in the instantiation message
    let msg = InstantiateMsg {
        owner: Some("specified_owner".to_string()),
        denom: String::from("umgl"),
    };
    let state = instantiate(msg, addr("creator"));
    assert_eq!(state.config.owner, addr("specified_owner"));
    assert_eq!(state.config.denom, String::from("umgl"));
}

#[test]
fn test_new_resource() {
    let msg = InstantiateMsg { owner: None, denom: String::from("umgl") };
    let mut state = instantiate(msg, addr("creator"));

    let msg = ExecuteMsg::NewResource { seller_id: None, volume: 100, price: 1 };
    let res = execute(&mut state, 0, addr("addr0000"), coins(2, "umgl"), msg).unwrap();
    match res {
        ExecuteResponse::Created { resource_id, seller_id, volume, price, expire } => {
            assert_eq!(resource_id, 1);
            assert_eq!(seller_id, addr("addr0000"));
            assert_eq!(volume, 100);
            assert_eq!(price, 1);
            assert_eq!(expire, 259200);
        },
        _ => panic!("expected a created lot"),
    }
}

#[test]
fn test_start_bidding() {
    let msg = InstantiateMsg { owner: None, denom: String::from("umgl") };
    let mut state = instantiate(msg, addr("creator"));

    let msg = ExecuteMsg::NewResource { seller_id: None, volume: 100, price: 1 };
    execute(&mut state, 0, addr("addr0000"), coins(2, "umgl"), msg).unwrap();

    // start bidding with a different address than the seller
    let msg = ExecuteMsg::StartBidding { resource_id: 1 };
    let res = execute(&mut state, 0, addr("addr0001"), coins(2, "umgl"), msg);
    assert_eq!(res.unwrap_err(), ContractError::Unauthorized {});

    // start bidding with the correct address
    let msg = ExecuteMsg::StartBidding { resource_id: 1 };
    let res = execute(&mut state, 0, addr("addr0000"), coins(2, "umgl"), msg).unwrap();
    match res {
        ExecuteResponse::BiddingStarted { resource_id } => {
            assert_eq!(resource_id, 1);
        },
        _ => panic!("expected bidding to start"),
    }
}

#[test]
fn test_place_bid() {
    let msg = InstantiateMsg { owner: None, denom: String::from("umgl") };
    let mut state = instantiate(msg, addr("creator"));

    // create a new resource
    let init_time = 0;
    let msg = ExecuteMsg::NewResource { seller_id: None, volume: 100, price: 1 };
    execute(&mut state, init_time, addr("addr0000"), coins(2, "umgl"), msg).unwrap();

    // placing a bid should fail since bidding has not started yet
    let msg = ExecuteMsg::PlaceBid { resource_id: 1, buyer_id: None, price: 2 };
    let res = execute(&mut state, init_time + 1, addr("addr0002"), coins(2, "umgl"), msg);
    assert!(res.is_err());

    // start bidding
    let msg = ExecuteMsg::StartBidding { resource_id: 1 };
    let res = execute(&mut state, init_time + 1, addr("addr0000"), coins(2, "umgl"), msg).unwrap();
    match res {
        ExecuteResponse::BiddingStarted { resource_id } => {
            assert_eq!(resource_id, 1);
        },
        _ => panic!("expected bidding to start"),
    }

    // placing a bid should now succeed
    let msg = ExecuteMsg::PlaceBid { resource_id: 1, buyer_id: None, price: 2 };
    let res = execute(&mut state, init_time + 1, addr("addr0002"), coins(200, "umgl"), msg)
        .unwrap();
    match res {
        ExecuteResponse::BidPlaced { resource_id, buyer_id, price, .. } => {
            assert_eq!(resource_id, 1);
            assert_eq!(buyer_id, addr("addr0002"));
            assert_eq!(price, 2);
        },
        _ => panic!("expected the bid to land"),
    }

    // placing a bid after expiry should fail
    let msg = ExecuteMsg::PlaceBid { resource_id: 1, buyer_id: None, price: 2 };
    let res = execute(
        &mut state,
        init_time + 259200 + 1,
        addr("addr0002"),
        coins(200, "umgl"),
        msg,
    );
    assert_eq!(res.unwrap_err(), ContractError::ResourceExpired {});

    // placing a bid on an unknown resource id should fail
    let msg = ExecuteMsg::PlaceBid { resource_id: 2, buyer_id: None, price: 2 };
    let res = execute(&mut state, init_time + 1, addr("addr0002"), coins(200, "umgl"), msg);
    assert_eq!(res.is_err(), true);

    // placing a bid with too low a price should fail
    let msg = ExecuteMsg::PlaceBid { resource_id: 1, buyer_id: None, price: 1 };
    let res = execute(&mut state, init_time + 1, addr("addr0002"), coins(200, "umgl"), msg);
    assert_eq!(res.unwrap_err(), ContractError::BidTooLow {});

    // placing a bid with an insufficient deposit should fail
    let msg = ExecuteMsg::PlaceBid { resource_id: 1, buyer_id: None, price: 3 };
    let res = execute(&mut state, init_time + 1, addr("addr0003"), coins(1, "umgl"), msg);
    assert_eq!(res.unwrap_err(), ContractError::InsufficientDeposit {});
}

#[test]
fn test_place_bid_add_up_deposit() {
    let msg = InstantiateMsg { owner: None, denom: String::from("umgl") };
    let mut state = instantiate(msg, addr("creator"));

    // create a new resource
    let init_time = 0;
    let msg = ExecuteMsg::NewResource { seller_id: None, volume: 100, price: 1 };
    execute(&mut state, init_time, addr("addr0000"), coins(2, "umgl"), msg).unwrap();

    // start bidding
    let msg = ExecuteMsg::StartBidding { resource_id: 1 };
    execute(&mut state, init_time + 1, addr("addr0000"), coins(2, "umgl"), msg).unwrap();

    // the first bid should succeed
    let msg = ExecuteMsg::PlaceBid { resource_id: 1, buyer_id: None, price: 2 };
    let res = execute(&mut state, init_time + 1, addr("addr0002"), coins(200, "umgl"), msg)
        .unwrap();
    match res {
        ExecuteResponse::BidPlaced { resource_id, buyer_id, price, .. } => {
            assert_eq!(resource_id, 1);
            assert_eq!(buyer_id, addr("addr0002"));
            assert_eq!(price, 2);
        },
        _ => panic!("expected the bid to land"),
    }

    // a second, higher bid by the same buyer adds to the deposit
    let msg = ExecuteMsg::PlaceBid { resource_id: 1, buyer_id: None, price: 4 };
    let res = execute(&mut state, init_time + 1, addr("addr0002"), coins(200, "umgl"), msg)
        .unwrap();
    match res {
        ExecuteResponse::BidPlaced { resource_id, buyer_id, price, .. } => {
            assert_eq!(resource_id, 1);
            assert_eq!(buyer_id, addr("addr0002"));
            assert_eq!(price, 4);
        },
        _ => panic!("expected the bid to land"),
    }
}

#[test]
fn test_query_resources() {
    let msg = InstantiateMsg { owner: None, denom: String::from("umgl") };
    let mut state = instantiate(msg, addr("creator"));

    let msg = ExecuteMsg::NewResource { seller_id: None, volume: 100, price: 1 };
    execute(&mut state, 0, addr("addr0000"), coins(2, "token"), msg).unwrap();

    let msg = ExecuteMsg::NewResource { seller_id: None, volume: 100, price: 3 };
    execute(&mut state, 0, addr("addr0001"), coins(2, "token"), msg).unwrap();

    let msg = ExecuteMsg::NewResource { seller_id: None, volume: 100, price: 2 };
    execute(&mut state, 0, addr("addr0002"), coins(2, "token"), msg).unwrap();

    let value = query(&state, QueryMsg::QueryResources {});
    // test length
    assert_eq!(value.resources.len(), 3);
    // test orders
    assert_eq!(value.resources[0].price, 1);
    assert_eq!(value.resources[1].price, 2);
    assert_eq!(value.resources[2].price, 3);
}

#[test]
fn test_place_bid_extend_expire() {
    let msg = InstantiateMsg { owner: None, denom: String::from("umgl") };
    let mut state = instantiate(msg, addr("creator"));

    // create a new resource at time zero: it expires at 259200
    let msg = ExecuteMsg::NewResource { seller_id: None, volume: 100, price: 1 };
    execute(&mut state, 0, addr("addr0000"), coins(2, "umgl"), msg).unwrap();

    let msg = ExecuteMsg::StartBidding { resource_id: 1 };
    execute(&mut state, 0, addr("addr0000"), coins(2, "umgl"), msg).unwrap();

    // a bid with more than an hour left leaves the deadline unchanged
    let msg = ExecuteMsg::PlaceBid { resource_id: 1, buyer_id: None, price: 2 };
    let res = execute(&mut state, 1000, addr("addr0003"), coins(200, "umgl"), msg).unwrap();
    match res {
        ExecuteResponse::BidPlaced { expire, .. } => {
            assert_eq!(expire, 259200);
        },
        _ => panic!("expected the bid to land"),
    }
    assert_eq!(state.resources[0].expire, 259200);

    // a bid with 1800 seconds left extends the deadline to one hour from now
    let bid_time = 259200 - 1800;
    let msg = ExecuteMsg::PlaceBid { resource_id: 1, buyer_id: None, price: 3 };
    let res = execute(&mut state, bid_time, addr("addr0002"), coins(200, "umgl"), msg).unwrap();
    match res {
        ExecuteResponse::BidPlaced { expire, .. } => {
            assert_eq!(expire, bid_time + 3600);
        },
        _ => panic!("expected the bid to land"),
    }
    assert_eq!(state.resources[0].expire, bid_time + 3600);
}
