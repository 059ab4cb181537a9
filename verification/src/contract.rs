use crate::error::ContractError;
use crate::msg::{
    Attribute, ExecuteMsg, InstantiateMsg, Instruction, ListingResponse, MessageInfo, QueryAnswer,
    QueryMsg, Response,
};
use crate::state::{
    allowed_denom, approvals_without, denom_matches, has_approval_entry, has_valid_approval,
    key_lt, Approval, BlockInfo, Coin, Expiration, ListingStore, Marketplace, NFT,
    OfferingsResponse, OperatorStore, QueryOfferingsResult,
};
use vstd::prelude::*;

verus! {

/// Shortest allowed listing window, in logical-clock units: a listing must be
/// actionable before it lapses.
pub const MIN_LISTING_DURATION: u64 = 10;

/// Longest allowed listing window, roughly six months at one unit per second:
/// bounds long-lived stale state.
pub const MAX_LISTING_DURATION: u64 = 15780000;

// ---------------------------------------------------------------------------
// Authorization checker
// ---------------------------------------------------------------------------

/// An absent expiration descriptor stands for a grant that never lapses.
pub open spec fn effective_expiration(expires: Option<Expiration>) -> Expiration {
    match expires {
        Option::Some(e) => e,
        Option::None => Expiration::Never,
    }
}

/// `sender` may manage approvals on `token`: it is the recorded owner, or an
/// operator the owner delegated whose delegation has not lapsed. A direct
/// per-token approval grants transfer rights only, never approval management.
pub open spec fn spec_can_approve(
    operators: OperatorStore,
    token: NFT,
    sender: Seq<char>,
    block: BlockInfo,
) -> bool {
    token.owner@ == sender || (operators.contains(token.owner@, sender) && !operators.spec_get(
        token.owner@,
        sender,
    ).spec_is_expired(block))
}

/// `sender` may transfer `token`: it is the recorded owner, or holds an
/// unlapsed direct approval on the token, or is an unlapsed delegated
/// operator of the owner.
pub open spec fn spec_can_send(
    operators: OperatorStore,
    token: NFT,
    sender: Seq<char>,
    block: BlockInfo,
) -> bool {
    token.owner@ == sender || has_valid_approval(token.approvals@, sender, block)
        || (operators.contains(token.owner@, sender) && !operators.spec_get(
        token.owner@,
        sender,
    ).spec_is_expired(block))
}

/// Decide whether `sender` may manage approvals on `token`. Denials tell a
/// lapsed delegation (`Expired`) from one never granted (`Unauthorized`);
/// both deny.
pub fn check_can_approve(
    operators: &OperatorStore,
    env: &BlockInfo,
    sender: &String,
    token: &NFT,
) -> (r: Result<(), ContractError>)
    requires
        operators.wf(),
    ensures
        r is Ok <==> spec_can_approve(*operators, *token, sender@, *env),
        r == Result::<(), ContractError>::Err(ContractError::Expired) <==> (!spec_can_approve(
            *operators,
            *token,
            sender@,
            *env,
        ) && operators.contains(token.owner@, sender@)),
        r == Result::<(), ContractError>::Err(ContractError::Unauthorized) <==> (!spec_can_approve(
            *operators,
            *token,
            sender@,
            *env,
        ) && !operators.contains(token.owner@, sender@)),
{
    if token.owner == *sender {
        return Ok(());
    }
    match operators.get_grant(&token.owner, sender) {
        Some(ex) => {
            if ex.is_expired(env) {
                Err(ContractError::Expired)
            } else {
                Ok(())
            }
        },
        None => Err(ContractError::Unauthorized),
    }
}

/// Decide whether `sender` may transfer `token`. Denials tell a lapsed grant
/// (`Expired`, some entry for the sender exists but has lapsed) from rights
/// never granted (`Unauthorized`); both deny.
pub fn check_can_send(
    operators: &OperatorStore,
    env: &BlockInfo,
    sender: &String,
    token: &NFT,
) -> (r: Result<(), ContractError>)
    requires
        operators.wf(),
    ensures
        r is Ok <==> spec_can_send(*operators, *token, sender@, *env),
        r == Result::<(), ContractError>::Err(ContractError::Expired) <==> (!spec_can_send(
            *operators,
            *token,
            sender@,
            *env,
        ) && (operators.contains(token.owner@, sender@) || has_approval_entry(
            token.approvals@,
            sender@,
        ))),
        r == Result::<(), ContractError>::Err(ContractError::Unauthorized) <==> (!spec_can_send(
            *operators,
            *token,
            sender@,
            *env,
        ) && !operators.contains(token.owner@, sender@) && !has_approval_entry(
            token.approvals@,
            sender@,
        )),
{
    if token.owner == *sender {
        return Ok(());
    }
    let mut seen_entry: bool = false;
    let mut i: usize = 0;
    while i < token.approvals.len()
        invariant
            i <= token.approvals@.len(),
            seen_entry == exists|j: int|
                0 <= j < i && #[trigger] token.approvals@[j].spender@ == sender@,
            forall|j: int|
                0 <= j < i ==> !(#[trigger] token.approvals@[j].spender@ == sender@
                    && !token.approvals@[j].expires.spec_is_expired(*env)),
        decreases token.approvals@.len() - i,
    {
        if token.approvals[i].spender == *sender {
            if !token.approvals[i].expires.is_expired(env) {
                return Ok(());
            }
            seen_entry = true;
        }
        i += 1;
    }
    match operators.get_grant(&token.owner, sender) {
        Some(ex) => {
            if ex.is_expired(env) {
                Err(ContractError::Expired)
            } else {
                Ok(())
            }
        },
        None => {
            if seen_entry {
                Err(ContractError::Expired)
            } else {
                Err(ContractError::Unauthorized)
            }
        },
    }
}

// ---------------------------------------------------------------------------
// Approvals: grant and revoke
// ---------------------------------------------------------------------------

/// The approvals of a listing after an update for `spender`: every previous
/// entry for the spender is removed, and, when adding, exactly one fresh
/// entry is appended. Re-approving replaces, never duplicates.
pub open spec fn updated_approvals(
    s: Seq<Approval>,
    spender: String,
    add: bool,
    expires: Option<Expiration>,
) -> Seq<Approval> {
    let base = approvals_without(s, spender@);
    if add {
        base.push(Approval { spender: spender, expires: effective_expiration(expires) })
    } else {
        base
    }
}

/// The two listings agree on every field (approvals compared as sequences).
pub open spec fn same_listing_fields(a: NFT, b: NFT) -> bool {
    a.owner == b.owner && a.token_id == b.token_id && a.price == b.price && a.expiry == b.expiry
        && a.contract_addr == b.contract_addr && a.approvals@ == b.approvals@
}

/// Grant (`add`) or revoke (`!add`) `spender`'s transfer right over the
/// listed token `token_id`, at the caller's authority. Any previous approval
/// for the same spender is removed first; a grant whose expiration has
/// already lapsed is rejected. On any failure the store is left unchanged.
pub fn _update_approvals(
    listings: &mut ListingStore,
    operators: &OperatorStore,
    env: &BlockInfo,
    info: &MessageInfo,
    spender: &String,
    token_id: &String,
    add: bool,
    expires: Option<Expiration>,
) -> (r: Result<NFT, ContractError>)
    requires
        old(listings).wf(),
        operators.wf(),
    ensures
        final(listings).wf(),
        r is Err ==> *final(listings) == *old(listings),
        r == Result::<NFT, ContractError>::Err(ContractError::NotListed) <==> !old(listings).contains(token_id@),
        old(listings).contains(token_id@) ==> {
            let token = old(listings).spec_get(token_id@);
            let can = spec_can_approve(*operators, token, info.sender@, *env);
            &&& (r == Result::<NFT, ContractError>::Err(ContractError::Unauthorized) <==> (!can
                && !operators.contains(token.owner@, info.sender@)))
            &&& (!can && operators.contains(token.owner@, info.sender@)
                ==> r == Result::<NFT, ContractError>::Err(ContractError::Expired))
            &&& (can && add && effective_expiration(expires).spec_is_expired(*env)
                ==> r == Result::<NFT, ContractError>::Err(ContractError::Expired))
            &&& (r is Ok <==> (can && (add ==> !effective_expiration(expires).spec_is_expired(
                *env,
            ))))
        },
        r matches Ok(t) ==> {
            let token = old(listings).spec_get(token_id@);
            let updated = updated_approvals(token.approvals@, *spender, add, expires);
            &&& old(listings).contains(token_id@)
            &&& t.owner == token.owner && t.token_id == token.token_id && t.price == token.price
                && t.expiry == token.expiry && t.contract_addr == token.contract_addr
            &&& t.approvals@ == updated
            &&& final(listings).contains(token_id@)
            &&& same_listing_fields(final(listings).spec_get(token_id@), t)
            &&& forall|k: Seq<char>|
                k != token_id@ ==> (#[trigger] final(listings).contains(k) <==> old(listings).contains(k))
            &&& forall|k: Seq<char>|
                k != token_id@ && old(listings).contains(k) ==> #[trigger] final(listings).spec_get(k) == old(listings).spec_get(k)
        },
{
    let token_ref = match listings.load(token_id) {
        None => {
            return Err(ContractError::NotListed);
        },
        Some(t) => t,
    };
    match check_can_approve(operators, env, &info.sender, token_ref) {
        Err(e) => {
            return Err(e);
        },
        Ok(()) => {},
    }
    let mut token = token_ref.clone();

    // remove any entry for the same spender before adding
    let mut kept: Vec<Approval> = Vec::new();
    let mut i: usize = 0;
    while i < token.approvals.len()
        invariant
            i <= token.approvals@.len(),
            kept@ == approvals_without(token.approvals@.subrange(0, i as int), spender@),
        decreases token.approvals@.len() - i,
    {
        proof {
            assert(token.approvals@.subrange(0, i + 1 as int).drop_last() =~= token.approvals@
                .subrange(0, i as int));
            assert(token.approvals@.subrange(0, i + 1 as int).last() == token.approvals@[i as int]);
        }
        if !(token.approvals[i].spender == *spender) {
            kept.push(token.approvals[i].clone());
        }
        i += 1;
    }
    proof {
        assert(token.approvals@.subrange(0, token.approvals@.len() as int) =~= token.approvals@);
    }

    if add {
        // reject a grant that has already lapsed
        let exp = match expires {
            Some(e) => e,
            None => Expiration::Never,
        };
        if exp.is_expired(env) {
            return Err(ContractError::Expired);
        }
        kept.push(Approval { spender: spender.clone(), expires: exp });
    }

    let ghost old_approvals = token.approvals@;
    token.approvals = kept;
    let result = token.clone();
    proof {
        assert(token.approvals@ == updated_approvals(old_approvals, *spender, add, expires));
    }
    listings.save(token);
    Ok(result)
}

/// Grant `spender` a transfer right over the listed token, replacing any
/// previous approval for the same spender.
pub fn execute_approve(
    listings: &mut ListingStore,
    operators: &OperatorStore,
    env: &BlockInfo,
    info: &MessageInfo,
    spender: String,
    token_id: String,
    expires: Option<Expiration>,
) -> (r: Result<Response, ContractError>)
    requires
        old(listings).wf(),
        operators.wf(),
    ensures
        final(listings).wf(),
        r is Err ==> *final(listings) == *old(listings),
        r == Result::<Response, ContractError>::Err(ContractError::NotListed) <==> !old(listings).contains(token_id@),
        old(listings).contains(token_id@) ==> {
            let token = old(listings).spec_get(token_id@);
            let can = spec_can_approve(*operators, token, info.sender@, *env);
            &&& (r == Result::<Response, ContractError>::Err(ContractError::Unauthorized) <==> (
            !can && !operators.contains(token.owner@, info.sender@)))
            &&& (!can && operators.contains(token.owner@, info.sender@)
                ==> r == Result::<Response, ContractError>::Err(ContractError::Expired))
            &&& (can && effective_expiration(expires).spec_is_expired(*env)
                ==> r == Result::<Response, ContractError>::Err(ContractError::Expired))
            &&& (r is Ok <==> (can && !effective_expiration(expires).spec_is_expired(*env)))
        },
        r matches Ok(resp) ==> {
            let token = old(listings).spec_get(token_id@);
            let updated = updated_approvals(token.approvals@, spender, true, expires);
            &&& old(listings).contains(token_id@)
            &&& final(listings).contains(token_id@)
            &&& final(listings).spec_get(token_id@).owner == token.owner
            &&& final(listings).spec_get(token_id@).token_id == token.token_id
            &&& final(listings).spec_get(token_id@).price == token.price
            &&& final(listings).spec_get(token_id@).expiry == token.expiry
            &&& final(listings).spec_get(token_id@).contract_addr == token.contract_addr
            &&& final(listings).spec_get(token_id@).approvals@ == updated
            &&& forall|k: Seq<char>|
                k != token_id@ ==> (#[trigger] final(listings).contains(k) <==> old(listings).contains(k))
            &&& forall|k: Seq<char>|
                k != token_id@ && old(listings).contains(k) ==> #[trigger] final(listings).spec_get(k) == old(listings).spec_get(k)
            &&& resp.messages@.len() == 0
        },
{
    let updated = match _update_approvals(
        listings,
        operators,
        env,
        info,
        &spender,
        &token_id,
        true,
        expires,
    ) {
        Err(e) => {
            return Err(e);
        },
        Ok(t) => t,
    };
    let mut attributes: Vec<Attribute> = Vec::new();
    attributes.push(Attribute { key: "action".to_owned(), value: "approve".to_owned() });
    attributes.push(Attribute { key: "sender".to_owned(), value: info.sender.clone() });
    attributes.push(Attribute { key: "spender".to_owned(), value: spender });
    attributes.push(Attribute { key: "token_id".to_owned(), value: token_id });
    Ok(Response { messages: Vec::new(), attributes })
}

// ---------------------------------------------------------------------------
// Transfer
// ---------------------------------------------------------------------------

/// Reassign the listed token `token_id` to `recipient`, at the caller's
/// transfer authority, and drop every approval on it. On any failure the
/// store is left unchanged.
pub fn _transfer_nft(
    listings: &mut ListingStore,
    operators: &OperatorStore,
    env: &BlockInfo,
    info: &MessageInfo,
    recipient: &String,
    token_id: &String,
) -> (r: Result<NFT, ContractError>)
    requires
        old(listings).wf(),
        operators.wf(),
    ensures
        final(listings).wf(),
        r is Err ==> *final(listings) == *old(listings),
        r == Result::<NFT, ContractError>::Err(ContractError::NotListed) <==> !old(listings).contains(token_id@),
        old(listings).contains(token_id@) ==> {
            let token = old(listings).spec_get(token_id@);
            let can = spec_can_send(*operators, token, info.sender@, *env);
            &&& (r is Ok <==> can)
            &&& (r == Result::<NFT, ContractError>::Err(ContractError::Expired) <==> (!can && (
            operators.contains(token.owner@, info.sender@) || has_approval_entry(
                token.approvals@,
                info.sender@,
            ))))
            &&& (r == Result::<NFT, ContractError>::Err(ContractError::Unauthorized) <==> (!can
                && !operators.contains(token.owner@, info.sender@) && !has_approval_entry(
                token.approvals@,
                info.sender@,
            )))
        },
        r matches Ok(t) ==> {
            let token = old(listings).spec_get(token_id@);
            &&& t.owner == *recipient
            &&& t.token_id == token.token_id && t.price == token.price && t.expiry == token.expiry
                && t.contract_addr == token.contract_addr
            &&& t.approvals@ == Seq::<Approval>::empty()
            &&& final(listings).contains(token_id@)
            &&& same_listing_fields(final(listings).spec_get(token_id@), t)
            &&& forall|k: Seq<char>|
                k != token_id@ ==> (#[trigger] final(listings).contains(k) <==> old(listings).contains(k))
            &&& forall|k: Seq<char>|
                k != token_id@ && old(listings).contains(k) ==> #[trigger] final(listings).spec_get(
                    k,
                ) == old(listings).spec_get(k)
        },
{
    let token_ref = match listings.load(token_id) {
        None => {
            return Err(ContractError::NotListed);
        },
        Some(t) => t,
    };
    match check_can_send(operators, env, &info.sender, token_ref) {
        Err(e) => {
            return Err(e);
        },
        Ok(()) => {},
    }
    let mut token = token_ref.clone();
    token.owner = recipient.clone();
    token.approvals = Vec::new();
    let result = token.clone();
    listings.save(token);
    Ok(result)
}

// ---------------------------------------------------------------------------
// Listing
// ---------------------------------------------------------------------------

/// Put `token_id` up for sale. `token_owner` is the asset-ownership
/// registry's current owner of the token, read by the host right before the
/// call; `contract_address` is the registry's address, recorded with the
/// listing for the settlement instruction. The minimum bid is accepted and
/// ignored: the marketplace implements no bidding.
///
/// Each precondition is checked independently and any failure short-circuits
/// with the whole state unchanged. On success the listing is created and the
/// marketplace grants itself a transfer approval over the token through the
/// approve path, so that the registry will accept the settlement transfer it
/// issues at sale time.
pub fn execute_list(
    state: &mut Marketplace,
    env: &BlockInfo,
    info: &MessageInfo,
    price: Coin,
    expires: u64,
    minimum_bid: u128,
    token_id: String,
    contract_address: String,
    token_owner: &String,
) -> (r: Result<Response, ContractError>)
    requires
        old(state).inv(),
    ensures
        final(state).inv(),
        final(state).operators == old(state).operators,
        final(state).marketplace == old(state).marketplace,
        r is Err ==> *final(state) == *old(state),
        r == Result::<Response, ContractError>::Err(ContractError::Unauthorized) <==> info.sender@
            != token_owner@,
        r == Result::<Response, ContractError>::Err(ContractError::AlreadyListed) <==> (
        info.sender@ == token_owner@ && old(state).listings.contains(token_id@)),
        r == Result::<Response, ContractError>::Err(ContractError::InvalidPrice) <==> (info.sender@
            == token_owner@ && !old(state).listings.contains(token_id@) && price.amount == 0),
        r == Result::<Response, ContractError>::Err(ContractError::OnlyUST) <==> (info.sender@
            == token_owner@ && !old(state).listings.contains(token_id@) && price.amount > 0
            && price.denom@ != allowed_denom()),
        r == Result::<Response, ContractError>::Err(ContractError::ExpiryInPast) <==> (info.sender@
            == token_owner@ && !old(state).listings.contains(token_id@) && price.amount > 0
            && price.denom@ == allowed_denom() && expires <= env.height),
        r == Result::<Response, ContractError>::Err(ContractError::ExpiryTooShort) <==> (
        info.sender@ == token_owner@ && !old(state).listings.contains(token_id@) && price.amount > 0
            && price.denom@ == allowed_denom() && expires > env.height && expires - env.height
            < MIN_LISTING_DURATION),
        r == Result::<Response, ContractError>::Err(ContractError::ExpiryTooLong) <==> (info.sender@
            == token_owner@ && !old(state).listings.contains(token_id@) && price.amount > 0
            && price.denom@ == allowed_denom() && expires > env.height && expires - env.height
            >= MIN_LISTING_DURATION && expires - env.height > MAX_LISTING_DURATION),
        r is Ok <==> (info.sender@ == token_owner@ && !old(state).listings.contains(token_id@)
            && price.amount > 0 && price.denom@ == allowed_denom() && expires > env.height
            && expires - env.height >= MIN_LISTING_DURATION && expires - env.height
            <= MAX_LISTING_DURATION),
        r matches Ok(resp) ==> {
            &&& final(state).listings.contains(token_id@)
            &&& final(state).listings.spec_get(token_id@).owner == info.sender
            &&& final(state).listings.spec_get(token_id@).token_id == token_id
            &&& final(state).listings.spec_get(token_id@).price == price
            &&& final(state).listings.spec_get(token_id@).expiry == expires
            &&& final(state).listings.spec_get(token_id@).contract_addr == contract_address
            &&& final(state).listings.spec_get(token_id@).approvals@ == seq![
                Approval { spender: old(state).marketplace, expires: Expiration::AtHeight(expires) },
            ]
            &&& forall|k: Seq<char>|
                k != token_id@ ==> (#[trigger] final(state).listings.contains(k) <==> old(state).listings.contains(k))
            &&& forall|k: Seq<char>|
                k != token_id@ && old(state).listings.contains(k) ==> #[trigger] final(state).listings.spec_get(k) == old(state).listings.spec_get(k)
            &&& resp.messages@.len() == 0
        },
{
    // the seller must be the registry-recorded owner of the token
    if !(info.sender == *token_owner) {
        return Err(ContractError::Unauthorized);
    }
    // the token must not already be listed
    if state.listings.load(&token_id).is_some() {
        return Err(ContractError::AlreadyListed);
    }
    // the price must be positive
    if price.amount == 0 {
        return Err(ContractError::InvalidPrice);
    }
    // and in the settlement denomination
    if !denom_matches(&price.denom) {
        return Err(ContractError::OnlyUST);
    }
    // the expiry must lie strictly between now plus the minimum window and
    // now plus the maximum window, inclusive at both bounds
    if expires <= env.height {
        return Err(ContractError::ExpiryInPast);
    }
    let window = expires - env.height;
    if window < MIN_LISTING_DURATION {
        return Err(ContractError::ExpiryTooShort);
    }
    if window > MAX_LISTING_DURATION {
        return Err(ContractError::ExpiryTooLong);
    }

    let newnft = NFT {
        owner: info.sender.clone(),
        token_id: token_id.clone(),
        price,
        expiry: expires,
        contract_addr: contract_address,
        approvals: Vec::new(),
    };
    state.listings.save(newnft);

    // the marketplace becomes an approved spender of the token, through the
    // same approve path a caller would use, so that it can later execute the
    // settlement transfer on the seller's behalf
    let spender = state.marketplace.clone();
    let approve_result = execute_approve(
        &mut state.listings,
        &state.operators,
        env,
        info,
        spender,
        token_id.clone(),
        Some(Expiration::AtHeight(expires)),
    );
    match approve_result {
        Ok(_approve_resp) => {},
        Err(e) => {
            // cannot happen: the seller owns the fresh listing and the
            // window check put its expiry after the current height
            proof {
                assert(false);
            }
            return Err(e);
        },
    }
    proof {
        assert(approvals_without(Seq::<Approval>::empty(), old(state).marketplace@)
            =~= Seq::<Approval>::empty());
        assert(state.listings.spec_get(token_id@).approvals@ =~= seq![
            Approval { spender: old(state).marketplace, expires: Expiration::AtHeight(expires) },
        ]);
    }
    let mut attributes: Vec<Attribute> = Vec::new();
    attributes.push(Attribute { key: "action".to_owned(), value: "list".to_owned() });
    attributes.push(Attribute { key: "token_id".to_owned(), value: token_id });
    Ok(Response { messages: Vec::new(), attributes })
}

// ---------------------------------------------------------------------------
// Buy and settlement
// ---------------------------------------------------------------------------

/// The attached funds settle the price exactly: one coin, of the listing's
/// denomination, of exactly the asked amount. No partial payment, no
/// change-making, no overpayment.
pub open spec fn funds_match(funds: Seq<Coin>, price: Coin) -> bool {
    funds.len() == 1 && funds[0].amount == price.amount && funds[0].denom@ == price.denom@
}

/// Buy the listed token `token_id` with the funds attached to the
/// transaction. On success the listing is deleted and the two settlement
/// instructions are produced together: the funds to the seller, the token to
/// the buyer. The host submits them atomically with the state change; on any
/// failure the state is unchanged and no instruction is produced.
pub fn execute_buy(
    state: &mut Marketplace,
    env: &BlockInfo,
    info: &MessageInfo,
    token_id: String,
) -> (r: Result<Response, ContractError>)
    requires
        old(state).inv(),
    ensures
        final(state).inv(),
        final(state).operators == old(state).operators,
        final(state).marketplace == old(state).marketplace,
        r is Err ==> *final(state) == *old(state),
        r == Result::<Response, ContractError>::Err(ContractError::NotListed) <==> !old(state).listings.contains(token_id@),
        r == Result::<Response, ContractError>::Err(ContractError::InvalidFunds) <==> (old(state).listings.contains(token_id@) && !funds_match(
            info.funds@,
            old(state).listings.spec_get(token_id@).price,
        )),
        r == Result::<Response, ContractError>::Err(ContractError::Expired) <==> (old(state).listings.contains(token_id@) && funds_match(
            info.funds@,
            old(state).listings.spec_get(token_id@).price,
        ) && old(state).listings.spec_get(token_id@).expiry <= env.height),
        r is Ok <==> (old(state).listings.contains(token_id@) && funds_match(
            info.funds@,
            old(state).listings.spec_get(token_id@).price,
        ) && env.height < old(state).listings.spec_get(token_id@).expiry),
        r matches Ok(resp) ==> {
            let listing = old(state).listings.spec_get(token_id@);
            &&& !final(state).listings.contains(token_id@)
            &&& forall|k: Seq<char>|
                k != token_id@ ==> (#[trigger] final(state).listings.contains(k) <==> old(state).listings.contains(k))
            &&& forall|k: Seq<char>|
                k != token_id@ && old(state).listings.contains(k) ==> #[trigger] final(state).listings.spec_get(k) == old(state).listings.spec_get(k)
            &&& resp.messages@.len() == 2
            &&& resp.messages@[0] == Instruction::FundTransfer {
                to_address: listing.owner,
                amount: listing.price,
            }
            &&& resp.messages@[1] == Instruction::OwnershipTransfer {
                contract_addr: listing.contract_addr,
                recipient: info.sender,
                token_id: token_id,
            }
        },
{
    let (seller, price_coin, registry) = match state.listings.load(&token_id) {
        None => {
            return Err(ContractError::NotListed);
        },
        Some(listing) => {
            // the attached funds must settle the price exactly
            if !(info.funds.len() == 1) {
                return Err(ContractError::InvalidFunds);
            }
            if !(info.funds[0].amount == listing.price.amount) {
                return Err(ContractError::InvalidFunds);
            }
            if !(info.funds[0].denom == listing.price.denom) {
                return Err(ContractError::InvalidFunds);
            }
            // the listing must still be purchasable
            if listing.expiry <= env.height {
                return Err(ContractError::Expired);
            }
            (listing.owner.clone(), listing.price.clone(), listing.contract_addr.clone())
        },
    };
    state.listings.remove(&token_id);
    let mut messages: Vec<Instruction> = Vec::new();
    messages.push(Instruction::FundTransfer { to_address: seller, amount: price_coin });
    messages.push(
        Instruction::OwnershipTransfer {
            contract_addr: registry,
            recipient: info.sender.clone(),
            token_id: token_id.clone(),
        },
    );
    let mut attributes: Vec<Attribute> = Vec::new();
    attributes.push(Attribute { key: "action".to_owned(), value: "buy".to_owned() });
    attributes.push(Attribute { key: "token_id".to_owned(), value: token_id });
    Ok(Response { messages, attributes })
}

// ---------------------------------------------------------------------------
// Unlist
// ---------------------------------------------------------------------------

/// Take `token_id` off sale. Only the listing's recorded owner may; the
/// listing and every approval on it are deleted.
pub fn execute_unlist(state: &mut Marketplace, info: &MessageInfo, token_id: String) -> (r: Result<
    Response,
    ContractError,
>)
    requires
        old(state).inv(),
    ensures
        final(state).inv(),
        final(state).operators == old(state).operators,
        final(state).marketplace == old(state).marketplace,
        r is Err ==> *final(state) == *old(state),
        r == Result::<Response, ContractError>::Err(ContractError::NotListed) <==> !old(state).listings.contains(token_id@),
        r == Result::<Response, ContractError>::Err(ContractError::Unauthorized) <==> (old(state).listings.contains(token_id@) && old(state).listings.spec_get(token_id@).owner@
            != info.sender@),
        r is Ok <==> (old(state).listings.contains(token_id@) && old(state).listings.spec_get(
            token_id@,
        ).owner@ == info.sender@),
        r matches Ok(resp) ==> {
            &&& !final(state).listings.contains(token_id@)
            &&& forall|k: Seq<char>|
                k != token_id@ ==> (#[trigger] final(state).listings.contains(k) <==> old(state).listings.contains(k))
            &&& forall|k: Seq<char>|
                k != token_id@ && old(state).listings.contains(k) ==> #[trigger] final(state).listings.spec_get(k) == old(state).listings.spec_get(k)
            &&& resp.messages@.len() == 0
        },
{
    match state.listings.load(&token_id) {
        None => {
            return Err(ContractError::NotListed);
        },
        Some(listing) => {
            // only the listing's recorded owner may unlist
            if !(listing.owner == info.sender) {
                return Err(ContractError::Unauthorized);
            }
        },
    }
    state.listings.remove(&token_id);
    let mut attributes: Vec<Attribute> = Vec::new();
    attributes.push(Attribute { key: "action".to_owned(), value: "unlist".to_owned() });
    attributes.push(Attribute { key: "token_id".to_owned(), value: token_id });
    Ok(Response { messages: Vec::new(), attributes })
}

// ---------------------------------------------------------------------------
// Entry points
// ---------------------------------------------------------------------------

/// Set an empty marketplace up, with `marketplace_addr` as its own operating
/// identity. The counter carried by the message is accepted and ignored.
pub fn instantiate(info: &MessageInfo, _msg: &InstantiateMsg, marketplace_addr: String) -> (r: (
    Marketplace,
    Response,
))
    ensures
        r.0.inv(),
        r.0.listings.entries@.len() == 0,
        forall|k: Seq<char>| !r.0.listings.contains(k),
        r.0.operators.grants@.len() == 0,
        forall|ow: Seq<char>, op: Seq<char>| !r.0.operators.contains(ow, op),
        r.0.marketplace == marketplace_addr,
        r.1.messages@.len() == 0,
{
    let state = Marketplace {
        listings: ListingStore::new(),
        operators: OperatorStore::new(),
        marketplace: marketplace_addr,
    };
    let mut attributes: Vec<Attribute> = Vec::new();
    attributes.push(Attribute { key: "method".to_owned(), value: "instantiate".to_owned() });
    attributes.push(Attribute { key: "owner".to_owned(), value: info.sender.clone() });
    (state, Response { messages: Vec::new(), attributes })
}

/// The first listing check that fails, in evaluation order, if any: the
/// error a `List` command reports.
pub open spec fn spec_list_error(
    listings: ListingStore,
    sender: Seq<char>,
    token_owner: Seq<char>,
    price: Coin,
    expires: u64,
    height: u64,
    token_id: Seq<char>,
) -> Option<ContractError> {
    if sender != token_owner {
        Option::Some(ContractError::Unauthorized)
    } else if listings.contains(token_id) {
        Option::Some(ContractError::AlreadyListed)
    } else if price.amount == 0 {
        Option::Some(ContractError::InvalidPrice)
    } else if price.denom@ != allowed_denom() {
        Option::Some(ContractError::OnlyUST)
    } else if expires <= height {
        Option::Some(ContractError::ExpiryInPast)
    } else if expires - height < MIN_LISTING_DURATION {
        Option::Some(ContractError::ExpiryTooShort)
    } else if expires - height > MAX_LISTING_DURATION {
        Option::Some(ContractError::ExpiryTooLong)
    } else {
        Option::None
    }
}

/// The first buy check that fails, in evaluation order, if any: the error a
/// `Buy` command reports.
pub open spec fn spec_buy_error(
    listings: ListingStore,
    funds: Seq<Coin>,
    height: u64,
    token_id: Seq<char>,
) -> Option<ContractError> {
    if !listings.contains(token_id) {
        Option::Some(ContractError::NotListed)
    } else if !funds_match(funds, listings.spec_get(token_id).price) {
        Option::Some(ContractError::InvalidFunds)
    } else if listings.spec_get(token_id).expiry <= height {
        Option::Some(ContractError::Expired)
    } else {
        Option::None
    }
}

/// Route a command to its handler. For a `List` the host supplies
/// `token_owner`, the asset-ownership registry's current owner of the token
/// named in the message, and `contract_address`, the registry's address; the
/// other commands ignore both.
pub fn execute(
    state: &mut Marketplace,
    env: &BlockInfo,
    info: &MessageInfo,
    msg: ExecuteMsg,
    token_owner: &String,
    contract_address: String,
) -> (r: Result<Response, ContractError>)
    requires
        old(state).inv(),
    ensures
        final(state).inv(),
        final(state).operators == old(state).operators,
        final(state).marketplace == old(state).marketplace,
        r is Err ==> *final(state) == *old(state),
        msg matches ExecuteMsg::List { expires, price, minimum_bid, token_id } ==> {
            &&& (r is Ok <==> (info.sender@ == token_owner@ && !old(state).listings.contains(
                token_id@,
            ) && price.amount > 0 && price.denom@ == allowed_denom() && expires > env.height
                && expires - env.height >= MIN_LISTING_DURATION && expires - env.height
                <= MAX_LISTING_DURATION))
            &&& (r matches Err(e) ==> spec_list_error(
                old(state).listings,
                info.sender@,
                token_owner@,
                price,
                expires,
                env.height,
                token_id@,
            ) == Option::Some(e))
            &&& (r is Ok ==> final(state).listings.contains(token_id@) && final(state).listings.spec_get(token_id@).owner == info.sender && final(state).listings.spec_get(
                token_id@,
            ).price == price && final(state).listings.spec_get(token_id@).expiry == expires)
        },
        msg matches ExecuteMsg::Buy { token_id } ==> {
            &&& (r is Ok <==> (old(state).listings.contains(token_id@) && funds_match(
                info.funds@,
                old(state).listings.spec_get(token_id@).price,
            ) && env.height < old(state).listings.spec_get(token_id@).expiry))
            &&& (r matches Err(e) ==> spec_buy_error(
                old(state).listings,
                info.funds@,
                env.height,
                token_id@,
            ) == Option::Some(e))
            &&& (r matches Ok(resp) ==> {
                let listing = old(state).listings.spec_get(token_id@);
                &&& !final(state).listings.contains(token_id@)
                &&& resp.messages@.len() == 2
                &&& resp.messages@[0] == Instruction::FundTransfer {
                    to_address: listing.owner,
                    amount: listing.price,
                }
                &&& resp.messages@[1] == Instruction::OwnershipTransfer {
                    contract_addr: listing.contract_addr,
                    recipient: info.sender,
                    token_id: token_id,
                }
            })
        },
        msg matches ExecuteMsg::Approve { spender, token_id, expires } ==> {
            &&& (r == Result::<Response, ContractError>::Err(ContractError::NotListed) <==> !old(state).listings.contains(token_id@))
            &&& (old(state).listings.contains(token_id@) ==> (r is Ok <==> (spec_can_approve(
                old(state).operators,
                old(state).listings.spec_get(token_id@),
                info.sender@,
                *env,
            ) && !effective_expiration(expires).spec_is_expired(*env))))
            &&& (old(state).listings.contains(token_id@) ==> {
                let token = old(state).listings.spec_get(token_id@);
                let can = spec_can_approve(old(state).operators, token, info.sender@, *env);
                &&& (r == Result::<Response, ContractError>::Err(ContractError::Unauthorized) <==> (
                !can && !old(state).operators.contains(token.owner@, info.sender@)))
                &&& (!can && old(state).operators.contains(token.owner@, info.sender@)
                    ==> r == Result::<Response, ContractError>::Err(ContractError::Expired))
                &&& (can && effective_expiration(expires).spec_is_expired(*env)
                    ==> r == Result::<Response, ContractError>::Err(ContractError::Expired))
            })
            &&& (r is Ok ==> final(state).listings.contains(token_id@) && final(state).listings.spec_get(token_id@).approvals@ == updated_approvals(
                old(state).listings.spec_get(token_id@).approvals@,
                spender,
                true,
                expires,
            ))
        },
        msg matches ExecuteMsg::Unlist { token_id } ==> {
            &&& (r is Ok <==> (old(state).listings.contains(token_id@) && old(state).listings.spec_get(token_id@).owner@ == info.sender@))
            &&& (r == Result::<Response, ContractError>::Err(ContractError::NotListed) <==> !old(
                state,
            ).listings.contains(token_id@))
            &&& (r == Result::<Response, ContractError>::Err(ContractError::Unauthorized) <==> (
            old(state).listings.contains(token_id@) && old(state).listings.spec_get(
                token_id@,
            ).owner@ != info.sender@))
            &&& (r is Ok ==> !final(state).listings.contains(token_id@))
        },
{
    match msg {
        ExecuteMsg::List { expires, price, minimum_bid, token_id } => execute_list(
            state,
            env,
            info,
            price,
            expires,
            minimum_bid,
            token_id,
            contract_address,
            token_owner,
        ),
        ExecuteMsg::Buy { token_id } => execute_buy(state, env, info, token_id),
        ExecuteMsg::Unlist { token_id } => execute_unlist(state, info, token_id),
        ExecuteMsg::Approve { spender, token_id, expires } => execute_approve(
            &mut state.listings,
            &state.operators,
            env,
            info,
            spender,
            token_id,
            expires,
        ),
    }
}

// ---------------------------------------------------------------------------
// Query service
// ---------------------------------------------------------------------------

/// One stored listing as the enumeration query projects it: keyed by its
/// token id, with the price, registry address, and seller.
pub open spec fn offering_projection(nft: NFT) -> QueryOfferingsResult {
    QueryOfferingsResult {
        id: nft.token_id,
        token_id: nft.token_id,
        list_price: nft.price,
        contract_addr: nft.contract_addr,
        seller: nft.owner,
    }
}

/// Turn one stored listing, keyed by `id`, into its enumeration projection.
pub fn parse_offering(id: String, offering: &NFT) -> (r: QueryOfferingsResult)
    ensures
        r.id == id,
        r.token_id == offering.token_id,
        r.list_price == offering.price,
        r.contract_addr == offering.contract_addr,
        r.seller == offering.owner,
{
    QueryOfferingsResult {
        id,
        token_id: offering.token_id.clone(),
        list_price: offering.price.clone(),
        contract_addr: offering.contract_addr.clone(),
        seller: offering.owner.clone(),
    }
}

/// Read the listing for `token_id`. Read-only.
pub fn query_listing(listings: &ListingStore, token_id: &String) -> (r: Result<
    ListingResponse,
    ContractError,
>)
    requires
        listings.wf(),
    ensures
        r is Ok <==> listings.contains(token_id@),
        r is Err ==> r == Result::<ListingResponse, ContractError>::Err(ContractError::NotListed),
        r matches Ok(resp) ==> {
            let listing = listings.spec_get(token_id@);
            &&& resp.owner == listing.owner
            &&& resp.token_id == *token_id
            &&& resp.price == listing.price
            &&& resp.expiry == listing.expiry
            &&& resp.approvals@ == listing.approvals@
        },
{
    match listings.load(token_id) {
        None => Err(ContractError::NotListed),
        Some(listing) => {
            let cloned = listing.clone();
            Ok(
                ListingResponse {
                    owner: cloned.owner,
                    token_id: token_id.clone(),
                    price: cloned.price,
                    expiry: cloned.expiry,
                    approvals: cloned.approvals,
                },
            )
        },
    }
}

/// Enumerate the listings at positions `start` (inclusive) to `end`
/// (exclusive) of the store's enumeration, each projected for the caller,
/// in the store's natural key order: ascending by token id. Read-only,
/// finite, and restartable from any position.
pub fn query_offerings(listings: &ListingStore, start: u128, end: u128) -> (r: OfferingsResponse)
    ensures
        ({
            let n = listings.entries@.len() as int;
            let lo = if start as int > n { n } else { start as int };
            let hi0 = if end as int > n { n } else { end as int };
            let hi = if hi0 < lo { lo } else { hi0 };
            &&& r.offerings@.len() == hi - lo
            &&& forall|j: int|
                0 <= j < hi - lo ==> r.offerings@[j] == offering_projection(
                    listings.entries@[lo + j],
                )
        }),
        listings.wf() ==> forall|j1: int, j2: int|
            0 <= j1 < j2 < r.offerings@.len() ==> key_lt(
                #[trigger] r.offerings@[j1].token_id@,
                #[trigger] r.offerings@[j2].token_id@,
            ),
{
    let n = listings.entries.len();
    let lo: usize = if start >= n as u128 {
        n
    } else {
        start as usize
    };
    let hi0: usize = if end >= n as u128 {
        n
    } else {
        end as usize
    };
    let hi: usize = if hi0 < lo {
        lo
    } else {
        hi0
    };
    let mut offerings: Vec<QueryOfferingsResult> = Vec::new();
    let mut i: usize = lo;
    while i < hi
        invariant
            lo <= i <= hi,
            hi <= listings.entries@.len(),
            offerings@.len() == i - lo,
            forall|j: int|
                0 <= j < offerings@.len() ==> offerings@[j] == offering_projection(
                    listings.entries@[lo + j],
                ),
        decreases hi - i,
    {
        let entry = &listings.entries[i];
        let projected = parse_offering(entry.token_id.clone(), entry);
        proof {
            assert(projected == offering_projection(listings.entries@[i as int]));
        }
        offerings.push(projected);
        i += 1;
    }
    proof {
        if listings.wf() {
            assert forall|j1: int, j2: int| 0 <= j1 < j2 < offerings@.len() implies key_lt(
                offerings@[j1].token_id@,
                offerings@[j2].token_id@,
            ) by {
                assert(key_lt(
                    listings.entries@[lo as int + j1].token_id@,
                    listings.entries@[lo as int + j2].token_id@,
                ));
            }
        }
    }
    OfferingsResponse { offerings }
}

/// Answer one query against the listing store. Read-only: never mutates.
pub fn query(listings: &ListingStore, msg: &QueryMsg) -> (r: Result<QueryAnswer, ContractError>)
    requires
        listings.wf(),
    ensures
        msg matches QueryMsg::GetListing { token_id } ==> {
            &&& (r is Ok <==> listings.contains(token_id@))
            &&& (r is Err ==> r == Result::<QueryAnswer, ContractError>::Err(
                ContractError::NotListed,
            ))
            &&& (r matches Ok(a) ==> a matches QueryAnswer::Listing(resp) && {
                let listing = listings.spec_get(token_id@);
                &&& resp.owner == listing.owner
                &&& resp.token_id == token_id
                &&& resp.price == listing.price
                &&& resp.expiry == listing.expiry
                &&& resp.approvals@ == listing.approvals@
            })
        },
        msg matches QueryMsg::GetAllListings { start, end } ==> {
            &&& r is Ok
            &&& (r matches Ok(a) ==> a matches QueryAnswer::Offerings(resp) && {
                let n = listings.entries@.len() as int;
                let lo = if start as int > n { n } else { start as int };
                let hi0 = if end as int > n { n } else { end as int };
                let hi = if hi0 < lo { lo } else { hi0 };
                &&& resp.offerings@.len() == hi - lo
                &&& forall|j: int|
                    0 <= j < hi - lo ==> resp.offerings@[j] == offering_projection(
                        listings.entries@[lo + j],
                    )
                &&& forall|j1: int, j2: int|
                    0 <= j1 < j2 < resp.offerings@.len() ==> key_lt(
                        #[trigger] resp.offerings@[j1].token_id@,
                        #[trigger] resp.offerings@[j2].token_id@,
                    )
            })
        },
{
    match msg {
        QueryMsg::GetListing { token_id } => {
            match query_listing(listings, token_id) {
                Ok(resp) => Ok(QueryAnswer::Listing(resp)),
                Err(e) => Err(e),
            }
        },
        QueryMsg::GetAllListings { start, end } => {
            Ok(QueryAnswer::Offerings(query_offerings(listings, *start, *end)))
        },
    }
}

} // verus!
