use crate::contract::{
    effective_expiration, spec_can_approve, spec_can_send, updated_approvals,
};
use crate::state::{
    allowed_denom, approvals_without, count_approvals_for, has_valid_approval, valid_listing,
    Approval, BlockInfo, Expiration, ListingStore, OperatorStore, NFT,
};
use vstd::prelude::*;

verus! {

/// For all tokens, at most one listing exists at any time: in a well-formed
/// store, two positions holding the same token id are one and the same.
pub proof fn lemma_at_most_one_listing(store: ListingStore, i: int, j: int)
    requires
        store.wf(),
        0 <= i < store.entries@.len(),
        0 <= j < store.entries@.len(),
        store.entries@[i].token_id@ == store.entries@[j].token_id@,
    ensures
        i == j,
{
    if i < j {
        assert(store.entries@[i].token_id@ != store.entries@[j].token_id@);
    }
    if j < i {
        assert(store.entries@[j].token_id@ != store.entries@[i].token_id@);
    }
}

/// Every listing a well-formed store holds has a positive price in the
/// settlement denomination: a listing that would violate either rule is
/// rejected at creation and never stored.
pub proof fn lemma_stored_listing_valid(store: ListingStore, token_id: Seq<char>)
    requires
        store.wf(),
        store.contains(token_id),
    ensures
        valid_listing(store.spec_get(token_id)),
        store.spec_get(token_id).price.amount > 0,
        store.spec_get(token_id).price.denom@ == allowed_denom(),
{
    let i = store.spec_index_of(token_id);
    assert(0 <= i < store.entries@.len() && store.entries@[i].token_id@ == token_id);
    assert(valid_listing(store.entries@[i]));
}

/// Appending an approval changes the count for each spender by exactly the
/// new entry's contribution.
proof fn lemma_count_push(s: Seq<Approval>, a: Approval, spender: Seq<char>)
    ensures
        count_approvals_for(s.push(a), spender) == count_approvals_for(s, spender) + (
        if a.spender@ == spender {
            1nat
        } else {
            0nat
        }),
{
    assert(s.push(a).drop_last() =~= s);
    assert(s.push(a).last() == a);
}

/// Removing a spender's entries removes all of them and only them: the
/// removed spender counts zero afterwards, every other spender counts as
/// before, and validity of any other spender's grant is untouched.
pub proof fn lemma_without_removes_exactly(s: Seq<Approval>, spender: Seq<char>)
    ensures
        count_approvals_for(approvals_without(s, spender), spender) == 0,
        forall|sp2: Seq<char>|
            sp2 != spender ==> #[trigger] count_approvals_for(approvals_without(s, spender), sp2)
                == count_approvals_for(s, sp2),
    decreases s.len(),
{
    if s.len() == 0 {
    } else {
        let s0 = s.drop_last();
        let x = s.last();
        lemma_without_removes_exactly(s0, spender);
        if x.spender@ == spender {
            assert forall|sp2: Seq<char>| sp2 != spender implies #[trigger] count_approvals_for(
                approvals_without(s, spender),
                sp2,
            ) == count_approvals_for(s, sp2) by {
                assert(count_approvals_for(approvals_without(s0, spender), sp2)
                    == count_approvals_for(s0, sp2));
            }
        } else {
            lemma_count_push(approvals_without(s0, spender), x, spender);
            assert forall|sp2: Seq<char>| sp2 != spender implies #[trigger] count_approvals_for(
                approvals_without(s, spender),
                sp2,
            ) == count_approvals_for(s, sp2) by {
                lemma_count_push(approvals_without(s0, spender), x, sp2);
                assert(count_approvals_for(approvals_without(s0, spender), sp2)
                    == count_approvals_for(s0, sp2));
            }
        }
    }
}

/// Approving a spender replaces, never duplicates: after an approval update
/// that adds, the listing holds exactly one entry for that spender, the
/// entry carries the latest expiration, and every other spender's count is
/// as before. Approving the same spender twice therefore still leaves one
/// entry, with the second call's expiration.
pub proof fn lemma_approve_replaces(s: Seq<Approval>, spender: String, expires: Option<Expiration>)
    ensures
        count_approvals_for(updated_approvals(s, spender, true, expires), spender@) == 1,
        updated_approvals(s, spender, true, expires).last() == (Approval {
            spender: spender,
            expires: effective_expiration(expires),
        }),
        forall|sp2: Seq<char>|
            sp2 != spender@ ==> #[trigger] count_approvals_for(
                updated_approvals(s, spender, true, expires),
                sp2,
            ) == count_approvals_for(s, sp2),
{
    let base = approvals_without(s, spender@);
    let added = Approval { spender: spender, expires: effective_expiration(expires) };
    lemma_without_removes_exactly(s, spender@);
    lemma_count_push(base, added, spender@);
    assert forall|sp2: Seq<char>| sp2 != spender@ implies #[trigger] count_approvals_for(
        updated_approvals(s, spender, true, expires),
        sp2,
    ) == count_approvals_for(s, sp2) by {
        lemma_count_push(base, added, sp2);
    }
}

/// Revoking a spender leaves no entry for it and every other spender's
/// entries as they were.
pub proof fn lemma_revoke_removes(s: Seq<Approval>, spender: String)
    ensures
        count_approvals_for(updated_approvals(s, spender, false, Option::None), spender@) == 0,
        forall|sp2: Seq<char>|
            sp2 != spender@ ==> #[trigger] count_approvals_for(
                updated_approvals(s, spender, false, Option::None),
                sp2,
            ) == count_approvals_for(s, sp2),
{
    lemma_without_removes_exactly(s, spender@);
}

/// A lapsed grant authorizes nothing: when the caller is not the owner, its
/// operator delegation (if any) has lapsed, and it holds no unlapsed direct
/// approval, then it can neither manage approvals nor transfer — exactly as
/// if nothing had ever been granted. Only the reported diagnostic tells the
/// two histories apart.
pub proof fn lemma_lapsed_grants_deny(
    operators: OperatorStore,
    token: NFT,
    sender: Seq<char>,
    block: BlockInfo,
)
    requires
        token.owner@ != sender,
        operators.contains(token.owner@, sender) ==> operators.spec_get(
            token.owner@,
            sender,
        ).spec_is_expired(block),
        !has_valid_approval(token.approvals@, sender, block),
    ensures
        !spec_can_approve(operators, token, sender, block),
        !spec_can_send(operators, token, sender, block),
{
}

} // verus!
