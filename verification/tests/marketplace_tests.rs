use marketplace::contract::{
    execute, execute_approve, execute_buy, execute_list, execute_unlist, instantiate,
    parse_offering, query, query_listing, query_offerings, _transfer_nft, _update_approvals,
    check_can_approve, check_can_send, MAX_LISTING_DURATION, MIN_LISTING_DURATION,
};
use marketplace::error::ContractError;
use marketplace::msg::{ExecuteMsg, InstantiateMsg, Instruction, MessageInfo, QueryAnswer, QueryMsg};
use marketplace::state::{BlockInfo, Coin, Expiration, Marketplace};

fn ust(amount: u128) -> Coin {
    Coin { denom: "UST".to_string(), amount }
}

fn msg_info(sender: &str, funds: Vec<Coin>) -> MessageInfo {
    MessageInfo { sender: sender.to_string(), funds }
}

fn env_at(height: u64) -> BlockInfo {
    BlockInfo { height, time: height }
}

fn fresh_marketplace() -> Marketplace {
    let info = msg_info("deployer", vec![]);
    let (state, _resp) = instantiate(&info, &InstantiateMsg { count: 0 }, "mkt".to_string());
    state
}

/// A marketplace where "seller" has listed "t1" at 100 UST, expiring at 1100,
/// with block height 1000 at listing time.
fn marketplace_with_listing() -> Marketplace {
    let mut state = fresh_marketplace();
    let r = execute_list(
        &mut state,
        &env_at(1000),
        &msg_info("seller", vec![]),
        ust(100),
        1100,
        0,
        "t1".to_string(),
        "registry".to_string(),
        &"seller".to_string(),
    );
    assert!(r.is_ok());
    state
}

#[test]
fn instantiate_starts_empty() {
    let info = msg_info("deployer", vec![]);
    let (state, resp) = instantiate(&info, &InstantiateMsg { count: 17 }, "mkt".to_string());
    assert_eq!(state.marketplace, "mkt");
    assert_eq!(state.listings.entries.len(), 0);
    assert_eq!(state.operators.grants.len(), 0);
    assert_eq!(resp.messages.len(), 0);
    let offerings = query_offerings(&state.listings, 0, 100);
    assert_eq!(offerings.offerings.len(), 0);
}

#[test]
fn list_then_get_listing() {
    let state = marketplace_with_listing();
    let resp = query_listing(&state.listings, &"t1".to_string()).unwrap();
    assert_eq!(resp.owner, "seller");
    assert_eq!(resp.token_id, "t1");
    assert_eq!(resp.price.amount, 100);
    assert_eq!(resp.price.denom, "UST");
    assert_eq!(resp.expiry, 1100);
    // the marketplace granted itself a transfer approval at listing time
    assert_eq!(resp.approvals.len(), 1);
    assert_eq!(resp.approvals[0].spender, "mkt");
    assert_eq!(resp.approvals[0].expires, Expiration::AtHeight(1100));
}

#[test]
fn list_twice_fails_already_listed() {
    let mut state = marketplace_with_listing();
    let r = execute_list(
        &mut state,
        &env_at(1010),
        &msg_info("seller", vec![]),
        ust(200),
        1200,
        0,
        "t1".to_string(),
        "registry".to_string(),
        &"seller".to_string(),
    );
    assert_eq!(r.unwrap_err(), ContractError::AlreadyListed);
    // the first listing stands untouched
    let resp = query_listing(&state.listings, &"t1".to_string()).unwrap();
    assert_eq!(resp.price.amount, 100);
    assert_eq!(resp.expiry, 1100);
}

#[test]
fn list_by_non_owner_fails_unauthorized() {
    let mut state = fresh_marketplace();
    let r = execute_list(
        &mut state,
        &env_at(1000),
        &msg_info("mallory", vec![]),
        ust(100),
        1100,
        0,
        "t1".to_string(),
        "registry".to_string(),
        &"seller".to_string(),
    );
    assert_eq!(r.unwrap_err(), ContractError::Unauthorized);
    assert_eq!(state.listings.entries.len(), 0);
}

#[test]
fn list_rejects_zero_price() {
    let mut state = fresh_marketplace();
    let r = execute_list(
        &mut state,
        &env_at(1000),
        &msg_info("seller", vec![]),
        ust(0),
        1100,
        0,
        "t1".to_string(),
        "registry".to_string(),
        &"seller".to_string(),
    );
    assert_eq!(r.unwrap_err(), ContractError::InvalidPrice);
    assert_eq!(state.listings.entries.len(), 0);
    assert!(query_listing(&state.listings, &"t1".to_string()).is_err());
}

#[test]
fn list_rejects_wrong_denom() {
    let mut state = fresh_marketplace();
    let r = execute_list(
        &mut state,
        &env_at(1000),
        &msg_info("seller", vec![]),
        Coin { denom: "LUNA".to_string(), amount: 100 },
        1100,
        0,
        "t1".to_string(),
        "registry".to_string(),
        &"seller".to_string(),
    );
    assert_eq!(r.unwrap_err(), ContractError::OnlyUST);
    assert_eq!(state.listings.entries.len(), 0);
}

#[test]
fn list_expiry_boundaries() {
    let now: u64 = 1000;
    let try_expiry = |expiry: u64| -> Result<(), ContractError> {
        let mut state = fresh_marketplace();
        execute_list(
            &mut state,
            &env_at(now),
            &msg_info("seller", vec![]),
            ust(100),
            expiry,
            0,
            "t1".to_string(),
            "registry".to_string(),
            &"seller".to_string(),
        )
        .map(|_| ())
    };
    // at or before now: in the past
    assert_eq!(try_expiry(now).unwrap_err(), ContractError::ExpiryInPast);
    assert_eq!(try_expiry(now - 1).unwrap_err(), ContractError::ExpiryInPast);
    // exactly now + MIN is accepted; one less is too short
    assert!(try_expiry(now + MIN_LISTING_DURATION).is_ok());
    assert_eq!(
        try_expiry(now + MIN_LISTING_DURATION - 1).unwrap_err(),
        ContractError::ExpiryTooShort
    );
    // exactly now + MAX is accepted; one more is too long
    assert!(try_expiry(now + MAX_LISTING_DURATION).is_ok());
    assert_eq!(
        try_expiry(now + MAX_LISTING_DURATION + 1).unwrap_err(),
        ContractError::ExpiryTooLong
    );
}

#[test]
fn approve_twice_replaces_entry() {
    let mut state = marketplace_with_listing();
    let env = env_at(1010);
    let info = msg_info("seller", vec![]);
    let r1 = execute_approve(
        &mut state.listings,
        &state.operators,
        &env,
        &info,
        "bob".to_string(),
        "t1".to_string(),
        Some(Expiration::AtHeight(2000)),
    );
    assert!(r1.is_ok());
    let r2 = execute_approve(
        &mut state.listings,
        &state.operators,
        &env,
        &info,
        "bob".to_string(),
        "t1".to_string(),
        Some(Expiration::AtHeight(3000)),
    );
    assert!(r2.is_ok());
    let resp = query_listing(&state.listings, &"t1".to_string()).unwrap();
    let bob_entries: Vec<_> =
        resp.approvals.iter().filter(|a| a.spender == "bob").collect();
    assert_eq!(bob_entries.len(), 1);
    assert_eq!(bob_entries[0].expires, Expiration::AtHeight(3000));
    // the marketplace's own approval is still the only other entry
    assert_eq!(resp.approvals.len(), 2);
}

#[test]
fn approve_on_unlisted_token_fails() {
    let mut state = fresh_marketplace();
    let r = execute_approve(
        &mut state.listings,
        &state.operators,
        &env_at(1000),
        &msg_info("seller", vec![]),
        "bob".to_string(),
        "t1".to_string(),
        None,
    );
    assert_eq!(r.unwrap_err(), ContractError::NotListed);
}

#[test]
fn approve_with_lapsed_expiration_fails() {
    let mut state = marketplace_with_listing();
    let r = execute_approve(
        &mut state.listings,
        &state.operators,
        &env_at(1010),
        &msg_info("seller", vec![]),
        "bob".to_string(),
        "t1".to_string(),
        Some(Expiration::AtHeight(1010)),
    );
    assert_eq!(r.unwrap_err(), ContractError::Expired);
    // nothing was granted
    let resp = query_listing(&state.listings, &"t1".to_string()).unwrap();
    assert!(resp.approvals.iter().all(|a| a.spender != "bob"));
}

#[test]
fn approve_by_stranger_fails_unauthorized() {
    let mut state = marketplace_with_listing();
    let before = query_listing(&state.listings, &"t1".to_string()).unwrap();
    let r = execute_approve(
        &mut state.listings,
        &state.operators,
        &env_at(1010),
        &msg_info("mallory", vec![]),
        "mallory".to_string(),
        "t1".to_string(),
        None,
    );
    assert_eq!(r.unwrap_err(), ContractError::Unauthorized);
    // the approvals list is unchanged
    let after = query_listing(&state.listings, &"t1".to_string()).unwrap();
    assert_eq!(after.approvals.len(), before.approvals.len());
}

#[test]
fn revoke_removes_approval() {
    let mut state = marketplace_with_listing();
    let env = env_at(1010);
    let seller = msg_info("seller", vec![]);
    execute_approve(
        &mut state.listings,
        &state.operators,
        &env,
        &seller,
        "bob".to_string(),
        "t1".to_string(),
        None,
    )
    .unwrap();
    let r = _update_approvals(
        &mut state.listings,
        &state.operators,
        &env,
        &seller,
        &"bob".to_string(),
        &"t1".to_string(),
        false,
        None,
    );
    assert!(r.is_ok());
    let resp = query_listing(&state.listings, &"t1".to_string()).unwrap();
    assert!(resp.approvals.iter().all(|a| a.spender != "bob"));
}

#[test]
fn operator_can_approve_until_delegation_lapses() {
    let mut state = marketplace_with_listing();
    state.operators.set_operator(
        "seller".to_string(),
        "oscar".to_string(),
        Expiration::AtHeight(1005),
    );
    // before the delegation lapses the operator may grant approvals
    let r = execute_approve(
        &mut state.listings,
        &state.operators,
        &env_at(1002),
        &msg_info("oscar", vec![]),
        "carol".to_string(),
        "t1".to_string(),
        None,
    );
    assert!(r.is_ok());
}

#[test]
fn lapsed_operator_is_denied_like_a_stranger() {
    let mut state = marketplace_with_listing();
    state.operators.set_operator(
        "seller".to_string(),
        "oscar".to_string(),
        Expiration::AtHeight(1005),
    );
    let env = env_at(1010);
    // the delegation lapsed at 1005; at 1010 the operator is denied
    let r = execute_approve(
        &mut state.listings,
        &state.operators,
        &env,
        &msg_info("oscar", vec![]),
        "oscar".to_string(),
        "t1".to_string(),
        None,
    );
    assert_eq!(r.unwrap_err(), ContractError::Expired);
    // and may not transfer either
    let t = _transfer_nft(
        &mut state.listings,
        &state.operators,
        &env,
        &msg_info("oscar", vec![]),
        &"oscar".to_string(),
        &"t1".to_string(),
    );
    assert_eq!(t.unwrap_err(), ContractError::Expired);
    // a caller never granted anything is denied the same way, with the other
    // diagnostic; the outcome does not differ
    let s = execute_approve(
        &mut state.listings,
        &state.operators,
        &env,
        &msg_info("nobody", vec![]),
        "nobody".to_string(),
        "t1".to_string(),
        None,
    );
    assert_eq!(s.unwrap_err(), ContractError::Unauthorized);
    // the listing's approvals are unchanged throughout
    let resp = query_listing(&state.listings, &"t1".to_string()).unwrap();
    assert_eq!(resp.approvals.len(), 1);
    assert_eq!(resp.approvals[0].spender, "mkt");
}

#[test]
fn check_can_send_accepts_owner_spender_and_operator() {
    let state = marketplace_with_listing();
    let env = env_at(1010);
    let token = state.listings.load(&"t1".to_string()).unwrap();
    assert!(check_can_send(&state.operators, &env, &"seller".to_string(), token).is_ok());
    // the marketplace holds the self-approval taken at listing time
    assert!(check_can_send(&state.operators, &env, &"mkt".to_string(), token).is_ok());
    assert_eq!(
        check_can_send(&state.operators, &env, &"mallory".to_string(), token).unwrap_err(),
        ContractError::Unauthorized
    );
    // after the listing's own approval window, the marketplace's approval lapsed
    let late = env_at(1100);
    assert_eq!(
        check_can_send(&state.operators, &late, &"mkt".to_string(), token).unwrap_err(),
        ContractError::Expired
    );
}

#[test]
fn check_can_approve_rejects_direct_spender() {
    // a direct approval grants transfer rights, never approval management
    let mut state = marketplace_with_listing();
    let env = env_at(1010);
    execute_approve(
        &mut state.listings,
        &state.operators,
        &env,
        &msg_info("seller", vec![]),
        "bob".to_string(),
        "t1".to_string(),
        None,
    )
    .unwrap();
    let token = state.listings.load(&"t1".to_string()).unwrap();
    assert!(check_can_send(&state.operators, &env, &"bob".to_string(), token).is_ok());
    assert_eq!(
        check_can_approve(&state.operators, &env, &"bob".to_string(), token).unwrap_err(),
        ContractError::Unauthorized
    );
}

#[test]
fn buy_requires_exact_funds() {
    let env = env_at(1050);
    for (amount, expect_ok) in [(99u128, false), (100u128, true), (101u128, false)] {
        let mut state = marketplace_with_listing();
        let r = execute_buy(
            &mut state,
            &env,
            &msg_info("buyer", vec![ust(amount)]),
            "t1".to_string(),
        );
        if expect_ok {
            assert!(r.is_ok());
        } else {
            assert_eq!(r.unwrap_err(), ContractError::InvalidFunds);
            // the listing still stands
            assert!(query_listing(&state.listings, &"t1".to_string()).is_ok());
        }
    }
}

#[test]
fn buy_rejects_wrong_denom_and_split_funds() {
    let env = env_at(1050);
    let mut state = marketplace_with_listing();
    let r = execute_buy(
        &mut state,
        &env,
        &msg_info("buyer", vec![Coin { denom: "LUNA".to_string(), amount: 100 }]),
        "t1".to_string(),
    );
    assert_eq!(r.unwrap_err(), ContractError::InvalidFunds);
    let r2 = execute_buy(
        &mut state,
        &env,
        &msg_info("buyer", vec![ust(50), ust(50)]),
        "t1".to_string(),
    );
    assert_eq!(r2.unwrap_err(), ContractError::InvalidFunds);
    let r3 = execute_buy(&mut state, &env, &msg_info("buyer", vec![]), "t1".to_string());
    assert_eq!(r3.unwrap_err(), ContractError::InvalidFunds);
}

#[test]
fn buy_expired_listing_fails_and_leaves_it() {
    let mut state = marketplace_with_listing();
    // at exactly the expiry height the listing is no longer purchasable
    let r = execute_buy(
        &mut state,
        &env_at(1100),
        &msg_info("buyer", vec![ust(100)]),
        "t1".to_string(),
    );
    assert_eq!(r.unwrap_err(), ContractError::Expired);
    let r2 = execute_buy(
        &mut state,
        &env_at(1500),
        &msg_info("buyer", vec![ust(100)]),
        "t1".to_string(),
    );
    assert_eq!(r2.unwrap_err(), ContractError::Expired);
    // the listing is untouched
    let resp = query_listing(&state.listings, &"t1".to_string()).unwrap();
    assert_eq!(resp.owner, "seller");
    assert_eq!(resp.price.amount, 100);
    assert_eq!(resp.expiry, 1100);
}

#[test]
fn buy_unlisted_token_fails_not_listed() {
    let mut state = fresh_marketplace();
    let r = execute_buy(
        &mut state,
        &env_at(1000),
        &msg_info("buyer", vec![ust(100)]),
        "t1".to_string(),
    );
    assert_eq!(r.unwrap_err(), ContractError::NotListed);
}

#[test]
fn end_to_end_sale() {
    // seller lists "t1" at 100 UST expiring at now+100; buyer pays exactly 100
    // before the expiry; the listing disappears and both settlement
    // instructions are produced together
    let mut state = fresh_marketplace();
    let now = env_at(1000);
    let list = execute(
        &mut state,
        &now,
        &msg_info("seller", vec![]),
        ExecuteMsg::List {
            expires: 1100,
            price: ust(100),
            minimum_bid: 0,
            token_id: "t1".to_string(),
        },
        &"seller".to_string(),
        "registry".to_string(),
    );
    assert!(list.is_ok());

    let buy = execute(
        &mut state,
        &env_at(1050),
        &msg_info("buyer", vec![ust(100)]),
        ExecuteMsg::Buy { token_id: "t1".to_string() },
        &"unused".to_string(),
        "unused".to_string(),
    )
    .unwrap();
    assert_eq!(buy.messages.len(), 2);
    match &buy.messages[0] {
        Instruction::FundTransfer { to_address, amount } => {
            assert_eq!(to_address, "seller");
            assert_eq!(amount.amount, 100);
            assert_eq!(amount.denom, "UST");
        },
        _ => panic!("expected the fund transfer first"),
    }
    match &buy.messages[1] {
        Instruction::OwnershipTransfer { contract_addr, recipient, token_id } => {
            assert_eq!(contract_addr, "registry");
            assert_eq!(recipient, "buyer");
            assert_eq!(token_id, "t1");
        },
        _ => panic!("expected the ownership transfer second"),
    }

    let q = query(&state.listings, &QueryMsg::GetListing { token_id: "t1".to_string() });
    assert_eq!(q.unwrap_err(), ContractError::NotListed);
}

#[test]
fn unlist_by_owner_removes_listing() {
    let mut state = marketplace_with_listing();
    let r = execute_unlist(&mut state, &msg_info("seller", vec![]), "t1".to_string());
    assert!(r.is_ok());
    assert!(query_listing(&state.listings, &"t1".to_string()).is_err());
}

#[test]
fn unlist_by_non_owner_fails() {
    let mut state = marketplace_with_listing();
    let r = execute_unlist(&mut state, &msg_info("mallory", vec![]), "t1".to_string());
    assert_eq!(r.unwrap_err(), ContractError::Unauthorized);
    assert!(query_listing(&state.listings, &"t1".to_string()).is_ok());
    let r2 = execute_unlist(&mut state, &msg_info("nobody", vec![]), "t2".to_string());
    assert_eq!(r2.unwrap_err(), ContractError::NotListed);
}

#[test]
fn transfer_by_approved_spender_reassigns_and_clears() {
    let mut state = marketplace_with_listing();
    let env = env_at(1010);
    execute_approve(
        &mut state.listings,
        &state.operators,
        &env,
        &msg_info("seller", vec![]),
        "bob".to_string(),
        "t1".to_string(),
        None,
    )
    .unwrap();
    let t = _transfer_nft(
        &mut state.listings,
        &state.operators,
        &env,
        &msg_info("bob", vec![]),
        &"carol".to_string(),
        &"t1".to_string(),
    )
    .unwrap();
    assert_eq!(t.owner, "carol");
    assert_eq!(t.approvals.len(), 0);
    let resp = query_listing(&state.listings, &"t1".to_string()).unwrap();
    assert_eq!(resp.owner, "carol");
    assert_eq!(resp.approvals.len(), 0);
}

#[test]
fn query_offerings_paginates() {
    let mut state = fresh_marketplace();
    for (token, price) in [("t1", 100u128), ("t2", 200), ("t3", 300)] {
        execute_list(
            &mut state,
            &env_at(1000),
            &msg_info("seller", vec![]),
            ust(price),
            1100,
            0,
            token.to_string(),
            "registry".to_string(),
            &"seller".to_string(),
        )
        .unwrap();
    }
    let all = query_offerings(&state.listings, 0, 10);
    assert_eq!(all.offerings.len(), 3);
    assert_eq!(all.offerings[0].id, "t1");
    assert_eq!(all.offerings[0].token_id, "t1");
    assert_eq!(all.offerings[0].seller, "seller");
    assert_eq!(all.offerings[0].contract_addr, "registry");
    assert_eq!(all.offerings[0].list_price.amount, 100);

    let middle = query_offerings(&state.listings, 1, 3);
    assert_eq!(middle.offerings.len(), 2);
    assert_eq!(middle.offerings[0].id, "t2");
    assert_eq!(middle.offerings[1].id, "t3");

    assert_eq!(query_offerings(&state.listings, 5, 10).offerings.len(), 0);
    assert_eq!(query_offerings(&state.listings, 2, 1).offerings.len(), 0);

    match query(
        &state.listings,
        &QueryMsg::GetAllListings { start: 0, end: 2 },
    )
    .unwrap()
    {
        QueryAnswer::Offerings(resp) => assert_eq!(resp.offerings.len(), 2),
        _ => panic!("expected the enumeration answer"),
    }
}

#[test]
fn query_offerings_enumerates_in_key_order() {
    let mut state = fresh_marketplace();
    for token in ["tb", "ta", "tc"] {
        execute_list(
            &mut state,
            &env_at(1000),
            &msg_info("seller", vec![]),
            ust(100),
            1100,
            0,
            token.to_string(),
            "registry".to_string(),
            &"seller".to_string(),
        )
        .unwrap();
    }
    let all = query_offerings(&state.listings, 0, 10);
    let ids: Vec<&str> = all.offerings.iter().map(|o| o.id.as_str()).collect();
    assert_eq!(ids, vec!["ta", "tb", "tc"]);
}

#[test]
fn parse_offering_projects_fields() {
    let state = marketplace_with_listing();
    let nft = state.listings.load(&"t1".to_string()).unwrap();
    let projected = parse_offering("t1".to_string(), nft);
    assert_eq!(projected.id, "t1");
    assert_eq!(projected.token_id, "t1");
    assert_eq!(projected.list_price.amount, 100);
    assert_eq!(projected.contract_addr, "registry");
    assert_eq!(projected.seller, "seller");
}

#[test]
fn expiration_kinds() {
    let block = BlockInfo { height: 100, time: 5000 };
    assert!(Expiration::AtHeight(100).is_expired(&block));
    assert!(!Expiration::AtHeight(101).is_expired(&block));
    assert!(Expiration::AtTime(5000).is_expired(&block));
    assert!(!Expiration::AtTime(5001).is_expired(&block));
    assert!(!Expiration::Never.is_expired(&block));
}

#[test]
fn execute_routes_approve_and_unlist() {
    let mut state = marketplace_with_listing();
    let env = env_at(1010);
    let r = execute(
        &mut state,
        &env,
        &msg_info("seller", vec![]),
        ExecuteMsg::Approve {
            spender: "bob".to_string(),
            token_id: "t1".to_string(),
            expires: Some(Expiration::AtHeight(1050)),
        },
        &"unused".to_string(),
        "unused".to_string(),
    );
    assert!(r.is_ok());
    let resp = query_listing(&state.listings, &"t1".to_string()).unwrap();
    assert!(resp.approvals.iter().any(|a| a.spender == "bob"));

    let u = execute(
        &mut state,
        &env,
        &msg_info("seller", vec![]),
        ExecuteMsg::Unlist { token_id: "t1".to_string() },
        &"unused".to_string(),
        "unused".to_string(),
    );
    assert!(u.is_ok());
    assert!(query_listing(&state.listings, &"t1".to_string()).is_err());
}
