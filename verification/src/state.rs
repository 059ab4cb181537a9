use vstd::prelude::*;
use vstd::utf8::{encode_utf8, encode_utf8_decode_utf8};

verus! {

// ---------------------------------------------------------------------------
// Logical clock and expiry descriptors
// ---------------------------------------------------------------------------

/// The host ledger's logical clock at the moment a command executes.
#[derive(Clone, Copy, PartialEq, Eq, Structural, Debug)]
pub struct BlockInfo {
    /// Monotonically increasing block height.
    pub height: u64,
    /// Monotonically increasing timestamp.
    pub time: u64,
}

/// When a time-bounded grant lapses: at a block height, at a timestamp, or never.
#[derive(Clone, Copy, PartialEq, Eq, Structural, Debug)]
pub enum Expiration {
    AtHeight(u64),
    AtTime(u64),
    Never,
}

impl Expiration {
    /// A grant is lapsed once the clock reaches its bound.
    pub open spec fn spec_is_expired(self, block: BlockInfo) -> bool {
        match self {
            Expiration::AtHeight(h) => block.height >= h,
            Expiration::AtTime(t) => block.time >= t,
            Expiration::Never => false,
        }
    }

    pub fn is_expired(&self, block: &BlockInfo) -> (r: bool)
        ensures
            r == self.spec_is_expired(*block),
    {
        match self {
            Expiration::AtHeight(h) => block.height >= *h,
            Expiration::AtTime(t) => block.time >= *t,
            Expiration::Never => false,
        }
    }
}

// ---------------------------------------------------------------------------
// Funds
// ---------------------------------------------------------------------------

/// An amount of funds in a single denomination.
#[derive(Debug)]
pub struct Coin {
    pub denom: String,
    pub amount: u128,
}

impl Clone for Coin {
    fn clone(&self) -> (r: Self)
        ensures
            r == *self,
    {
        Coin { denom: self.denom.clone(), amount: self.amount }
    }
}

/// The one denomination the marketplace settles in.
pub open spec fn allowed_denom() -> Seq<char> {
    "UST"@
}

/// Whether a denomination is the marketplace's settlement denomination.
pub fn denom_matches(denom: &String) -> (r: bool)
    ensures
        r == (denom@ == allowed_denom()),
{
    let allowed: String = "UST".to_owned();
    *denom == allowed
}

// ---------------------------------------------------------------------------
// Per-token approvals
// ---------------------------------------------------------------------------

/// A token-scoped, time-bounded grant of transfer rights to one spender.
#[derive(Debug)]
pub struct Approval {
    /// Identity granted the right to transfer the token.
    pub spender: String,
    /// When the grant lapses.
    pub expires: Expiration,
}

impl Clone for Approval {
    fn clone(&self) -> (r: Self)
        ensures
            r == *self,
    {
        Approval { spender: self.spender.clone(), expires: self.expires }
    }
}

/// The approvals of `s` with every entry for `spender` removed,
/// the order of the remaining entries kept.
pub open spec fn approvals_without(s: Seq<Approval>, spender: Seq<char>) -> Seq<Approval>
    decreases s.len(),
{
    if s.len() == 0 {
        Seq::<Approval>::empty()
    } else if s.last().spender@ == spender {
        approvals_without(s.drop_last(), spender)
    } else {
        approvals_without(s.drop_last(), spender).push(s.last())
    }
}

/// How many entries of `s` name `spender`.
pub open spec fn count_approvals_for(s: Seq<Approval>, spender: Seq<char>) -> nat
    decreases s.len(),
{
    if s.len() == 0 {
        0
    } else {
        count_approvals_for(s.drop_last(), spender) + if s.last().spender@ == spender {
            1nat
        } else {
            0nat
        }
    }
}

/// Some entry of `s` names `spender`, lapsed or not.
pub open spec fn has_approval_entry(s: Seq<Approval>, spender: Seq<char>) -> bool {
    exists|i: int| 0 <= i < s.len() && #[trigger] s[i].spender@ == spender
}

/// Some entry of `s` names `spender` and has not lapsed.
pub open spec fn has_valid_approval(s: Seq<Approval>, spender: Seq<char>, block: BlockInfo) -> bool {
    exists|i: int|
        0 <= i < s.len() && #[trigger] s[i].spender@ == spender
            && !s[i].expires.spec_is_expired(block)
}

// ---------------------------------------------------------------------------
// The store's natural key order
// ---------------------------------------------------------------------------

/// Strict lexicographic order on byte strings: the order in which the
/// underlying key-value store yields its raw keys.
pub open spec fn lex_lt(a: Seq<u8>, b: Seq<u8>) -> bool
    decreases a.len(),
{
    if b.len() == 0 {
        false
    } else if a.len() == 0 {
        true
    } else if a[0] < b[0] {
        true
    } else if b[0] < a[0] {
        false
    } else {
        lex_lt(a.drop_first(), b.drop_first())
    }
}

/// The store's natural order on token ids: lexicographic on their UTF-8
/// encodings, the raw bytes the store keys by.
pub open spec fn key_lt(a: Seq<char>, b: Seq<char>) -> bool {
    lex_lt(encode_utf8(a), encode_utf8(b))
}

/// Two byte strings compare one way, the other way, or are equal.
pub proof fn lemma_lex_lt_trichotomy(a: Seq<u8>, b: Seq<u8>)
    ensures
        lex_lt(a, b) || lex_lt(b, a) || a == b,
    decreases a.len(),
{
    if a.len() == 0 && b.len() == 0 {
        assert(a =~= b);
    } else if a.len() > 0 && b.len() > 0 && a[0] == b[0] {
        lemma_lex_lt_trichotomy(a.drop_first(), b.drop_first());
        assert(lex_lt(a, b) == lex_lt(a.drop_first(), b.drop_first()));
        assert(lex_lt(b, a) == lex_lt(b.drop_first(), a.drop_first()));
        if !lex_lt(a, b) && !lex_lt(b, a) {
            assert(a.drop_first() == b.drop_first());
            assert forall|i: int| 0 <= i < a.len() implies a[i] == b[i] by {
                if i > 0 {
                    assert(a[i] == a.drop_first()[i - 1]);
                    assert(b[i] == b.drop_first()[i - 1]);
                }
            }
            assert(a =~= b);
        }
    }
}

/// Nothing compares below itself.
pub proof fn lemma_lex_lt_irreflexive(a: Seq<u8>)
    ensures
        !lex_lt(a, a),
    decreases a.len(),
{
    if a.len() > 0 {
        lemma_lex_lt_irreflexive(a.drop_first());
    }
}

/// The byte order is transitive.
pub proof fn lemma_lex_lt_transitive(a: Seq<u8>, b: Seq<u8>, c: Seq<u8>)
    requires
        lex_lt(a, b),
        lex_lt(b, c),
    ensures
        lex_lt(a, c),
    decreases a.len(),
{
    if a.len() > 0 && b.len() > 0 && c.len() > 0 && a[0] == b[0] && b[0] == c[0] {
        lemma_lex_lt_transitive(a.drop_first(), b.drop_first(), c.drop_first());
    }
}

/// Distinct token ids are ordered one way or the other, and ordered ids are
/// distinct: the UTF-8 encoding keeps distinct ids apart, since decoding it
/// returns the id.
pub proof fn lemma_key_lt_connects(a: Seq<char>, b: Seq<char>)
    ensures
        a == b || key_lt(a, b) || key_lt(b, a),
        key_lt(a, b) ==> a != b,
{
    lemma_lex_lt_trichotomy(encode_utf8(a), encode_utf8(b));
    if encode_utf8(a) == encode_utf8(b) {
        encode_utf8_decode_utf8(a);
        encode_utf8_decode_utf8(b);
    }
    if a == b {
        lemma_lex_lt_irreflexive(encode_utf8(a));
    }
}

/// The key order is transitive.
pub proof fn lemma_key_lt_transitive(a: Seq<char>, b: Seq<char>, c: Seq<char>)
    requires
        key_lt(a, b),
        key_lt(b, c),
    ensures
        key_lt(a, c),
{
    lemma_lex_lt_transitive(encode_utf8(a), encode_utf8(b), encode_utf8(c));
}

/// Compare two token ids in the store's natural key order.
fn key_lt_exec(a: &String, b: &String) -> (r: bool)
    ensures
        r == key_lt(a@, b@),
{
    let ab = a.as_str().as_bytes();
    let bb = b.as_str().as_bytes();
    proof {
        assert(ab@ == encode_utf8(a@));
        assert(bb@ == encode_utf8(b@));
        assert(ab@.skip(0) =~= ab@);
        assert(bb@.skip(0) =~= bb@);
    }
    let mut i: usize = 0;
    loop
        invariant
            i <= ab@.len(),
            i <= bb@.len(),
            lex_lt(ab@, bb@) == lex_lt(ab@.skip(i as int), bb@.skip(i as int)),
            ab@ == encode_utf8(a@),
            bb@ == encode_utf8(b@),
        decreases ab@.len() - i,
    {
        if i >= bb.len() {
            return false;
        }
        if i >= ab.len() {
            return true;
        }
        let x = ab[i];
        let y = bb[i];
        proof {
            assert(ab@.skip(i as int)[0] == x);
            assert(bb@.skip(i as int)[0] == y);
        }
        if x < y {
            return true;
        }
        if y < x {
            return false;
        }
        proof {
            assert(ab@.skip(i as int).drop_first() =~= ab@.skip(i + 1 as int));
            assert(bb@.skip(i as int).drop_first() =~= bb@.skip(i + 1 as int));
        }
        i += 1;
    }
}

// ---------------------------------------------------------------------------
// Listings
// ---------------------------------------------------------------------------

/// An active sell offer: one token at a fixed price with an expiry, together
/// with the per-spender transfer approvals granted against the token.
#[derive(Debug)]
pub struct NFT {
    /// Identity of the seller, as recorded by the asset-ownership registry
    /// at listing time.
    pub owner: String,
    /// Opaque unique identifier of the asset.
    pub token_id: String,
    /// Asking price; always positive and in the settlement denomination.
    pub price: Coin,
    /// Block height at and after which the listing can no longer be bought.
    pub expiry: u64,
    /// Address of the asset-ownership registry that records the token.
    pub contract_addr: String,
    /// Per-spender transfer approvals granted against this token.
    pub approvals: Vec<Approval>,
}

fn clone_approvals(v: &Vec<Approval>) -> (r: Vec<Approval>)
    ensures
        r@ == v@,
{
    let mut out: Vec<Approval> = Vec::new();
    let mut i: usize = 0;
    while i < v.len()
        invariant
            i <= v@.len(),
            out@ == v@.subrange(0, i as int),
        decreases v@.len() - i,
    {
        out.push(v[i].clone());
        assert(v@.subrange(0, i + 1 as int) =~= v@.subrange(0, i as int).push(v@[i as int]));
        i += 1;
    }
    assert(v@.subrange(0, v@.len() as int) =~= v@);
    out
}

impl Clone for NFT {
    fn clone(&self) -> (r: Self)
        ensures
            r.owner == self.owner,
            r.token_id == self.token_id,
            r.price == self.price,
            r.expiry == self.expiry,
            r.contract_addr == self.contract_addr,
            r.approvals@ == self.approvals@,
    {
        NFT {
            owner: self.owner.clone(),
            token_id: self.token_id.clone(),
            price: self.price.clone(),
            expiry: self.expiry,
            contract_addr: self.contract_addr.clone(),
            approvals: clone_approvals(&self.approvals),
        }
    }
}

/// The record invariant of every stored listing: a positive price in the
/// settlement denomination.
pub open spec fn valid_listing(nft: NFT) -> bool {
    nft.price.amount > 0 && nft.price.denom@ == allowed_denom()
}

// ---------------------------------------------------------------------------
// Listing store
// ---------------------------------------------------------------------------

/// The listing store: a keyed mapping from token identifier to listing,
/// its entries kept in the store's natural key order, so that enumeration
/// yields them ascending by token id as the underlying raw-key store would.
pub struct ListingStore {
    pub entries: Vec<NFT>,
}

impl ListingStore {
    /// At most one listing exists per token, the entries are strictly
    /// ascending in the natural key order, and every stored listing
    /// satisfies the record invariant.
    pub open spec fn wf(self) -> bool {
        &&& forall|i: int, j: int|
            0 <= i < j < self.entries@.len() ==> #[trigger] self.entries@[i].token_id@
                != #[trigger] self.entries@[j].token_id@
        &&& forall|i: int, j: int|
            0 <= i < j < self.entries@.len() ==> key_lt(
                #[trigger] self.entries@[i].token_id@,
                #[trigger] self.entries@[j].token_id@,
            )
        &&& forall|i: int|
            0 <= i < self.entries@.len() ==> valid_listing(#[trigger] self.entries@[i])
    }

    /// A listing for `token_id` exists.
    pub open spec fn contains(self, token_id: Seq<char>) -> bool {
        exists|i: int|
            0 <= i < self.entries@.len() && #[trigger] self.entries@[i].token_id@ == token_id
    }

    pub open spec fn spec_index_of(self, token_id: Seq<char>) -> int {
        choose|i: int|
            0 <= i < self.entries@.len() && #[trigger] self.entries@[i].token_id@ == token_id
    }

    /// The listing stored under `token_id` (meaningful only when `contains`).
    pub open spec fn spec_get(self, token_id: Seq<char>) -> NFT {
        self.entries@[self.spec_index_of(token_id)]
    }

    /// Under well-formedness, each entry is the one listing of its token.
    pub proof fn lemma_get_at(self, i: int)
        requires
            self.wf(),
            0 <= i < self.entries@.len(),
        ensures
            self.contains(self.entries@[i].token_id@),
            self.spec_index_of(self.entries@[i].token_id@) == i,
            self.spec_get(self.entries@[i].token_id@) == self.entries@[i],
    {
        let k = self.entries@[i].token_id@;
        assert(self.contains(k));
        let j = self.spec_index_of(k);
        assert(0 <= j < self.entries@.len() && self.entries@[j].token_id@ == k);
        if i < j {
            assert(self.entries@[i].token_id@ != self.entries@[j].token_id@);
        }
        if j < i {
            assert(self.entries@[j].token_id@ != self.entries@[i].token_id@);
        }
    }

    pub fn new() -> (r: ListingStore)
        ensures
            r.wf(),
            r.entries@.len() == 0,
            forall|k: Seq<char>| !r.contains(k),
    {
        ListingStore { entries: Vec::new() }
    }

    fn find_index(&self, token_id: &String) -> (r: Option<usize>)
        ensures
            match r {
                Option::Some(i) => i < self.entries@.len() && self.entries@[i as int].token_id@
                    == token_id@,
                Option::None => !self.contains(token_id@),
            },
    {
        let mut i: usize = 0;
        while i < self.entries.len()
            invariant
                i <= self.entries@.len(),
                forall|j: int| 0 <= j < i ==> #[trigger] self.entries@[j].token_id@ != token_id@,
            decreases self.entries@.len() - i,
        {
            if self.entries[i].token_id == *token_id {
                return Some(i);
            }
            i += 1;
        }
        None
    }

    /// Read the listing for `token_id`, if one exists.
    pub fn load(&self, token_id: &String) -> (r: Option<&NFT>)
        requires
            self.wf(),
        ensures
            match r {
                Option::Some(nft) => self.contains(token_id@) && *nft == self.spec_get(token_id@)
                    && valid_listing(*nft),
                Option::None => !self.contains(token_id@),
            },
    {
        match self.find_index(token_id) {
            Some(i) => {
                proof {
                    self.lemma_get_at(i as int);
                }
                Some(&self.entries[i])
            },
            None => None,
        }
    }

    /// The position at which a fresh key would keep the entries ascending:
    /// the first position whose entry does not compare below `token_id`.
    fn find_insert_pos(&self, token_id: &String) -> (r: usize)
        ensures
            r <= self.entries@.len(),
            forall|j: int|
                0 <= j < r ==> key_lt(#[trigger] self.entries@[j].token_id@, token_id@),
            r < self.entries@.len() ==> !key_lt(self.entries@[r as int].token_id@, token_id@),
    {
        let mut i: usize = 0;
        while i < self.entries.len()
            invariant
                i <= self.entries@.len(),
                forall|j: int|
                    0 <= j < i ==> key_lt(#[trigger] self.entries@[j].token_id@, token_id@),
            decreases self.entries@.len() - i,
        {
            if !key_lt_exec(&self.entries[i].token_id, token_id) {
                return i;
            }
            i += 1;
        }
        i
    }

    /// Write `nft` under its token id, replacing any previous listing of the
    /// same token, touching no other key, and keeping the entries in the
    /// natural key order.
    pub fn save(&mut self, nft: NFT)
        requires
            old(self).wf(),
            valid_listing(nft),
        ensures
            final(self).wf(),
            final(self).contains(nft.token_id@),
            final(self).spec_get(nft.token_id@) == nft,
            forall|k: Seq<char>|
                k != nft.token_id@ ==> (#[trigger] final(self).contains(k) <==> old(self).contains(
                    k,
                )),
            forall|k: Seq<char>|
                k != nft.token_id@ && old(self).contains(k) ==> #[trigger] final(self).spec_get(k)
                    == old(self).spec_get(k),
    {
        let ghost old_entries = self.entries@;
        let ghost key = nft.token_id@;
        match self.find_index(&nft.token_id) {
            Some(i) => {
                self.entries.remove(i);
                self.entries.insert(i, nft);
                proof {
                    assert(self.entries@ =~= old_entries.update(i as int, nft));
                    assert forall|p: int, q: int|
                        0 <= p < q < self.entries@.len() implies self.entries@[p].token_id@
                        != self.entries@[q].token_id@ by {
                        assert(old_entries[p].token_id@ != old_entries[q].token_id@);
                    }
                    assert forall|p: int, q: int|
                        0 <= p < q < self.entries@.len() implies key_lt(
                        self.entries@[p].token_id@,
                        self.entries@[q].token_id@,
                    ) by {
                        assert(key_lt(old_entries[p].token_id@, old_entries[q].token_id@));
                    }
                    assert forall|k2: Seq<char>| k2 != key implies (self.contains(k2) <==> old(
                        self,
                    ).contains(k2)) by {
                        if self.contains(k2) {
                            let m = choose|m: int|
                                0 <= m < self.entries@.len() && self.entries@[m].token_id@ == k2;
                            assert(old_entries[m].token_id@ == k2);
                        }
                        if old(self).contains(k2) {
                            let m = choose|m: int|
                                0 <= m < old_entries.len() && old_entries[m].token_id@ == k2;
                            assert(self.entries@[m].token_id@ == k2);
                        }
                    }
                    self.lemma_get_at(i as int);
                    assert forall|k2: Seq<char>|
                        k2 != key && old(self).contains(k2) implies self.spec_get(k2) == old(
                        self,
                    ).spec_get(k2) by {
                        let m = choose|m: int|
                            0 <= m < old_entries.len() && old_entries[m].token_id@ == k2;
                        old(self).lemma_get_at(m);
                        assert(self.entries@[m].token_id@ == k2);
                        self.lemma_get_at(m);
                    }
                }
            },
            None => {
                let pos = self.find_insert_pos(&nft.token_id);
                self.entries.insert(pos, nft);
                proof {
                    let n = old_entries.len() as int;
                    let p = pos as int;
                    assert(self.entries@ =~= old_entries.subrange(0, p) + seq![nft]
                        + old_entries.subrange(p, n));
                    assert forall|j: int|
                        0 <= j < self.entries@.len() implies self.entries@[j] == (if j < p {
                        old_entries[j]
                    } else if j == p {
                        nft
                    } else {
                        old_entries[j - 1]
                    }) by {}
                    assert forall|j: int| 0 <= j < n implies old_entries[j].token_id@ != key by {
                        if old_entries[j].token_id@ == key {
                            assert(old(self).contains(key));
                        }
                    }
                    assert forall|p2: int, q2: int|
                        0 <= p2 < q2 < self.entries@.len() implies key_lt(
                        self.entries@[p2].token_id@,
                        self.entries@[q2].token_id@,
                    ) by {
                        if q2 == p {
                            assert(key_lt(old_entries[p2].token_id@, key));
                        } else if p2 == p {
                            let m = q2 - 1;
                            assert(old_entries[p].token_id@ != key);
                            lemma_key_lt_connects(key, old_entries[p].token_id@);
                            assert(key_lt(key, old_entries[p].token_id@));
                            if m > p {
                                assert(key_lt(
                                    old_entries[p].token_id@,
                                    old_entries[m].token_id@,
                                ));
                                lemma_key_lt_transitive(
                                    key,
                                    old_entries[p].token_id@,
                                    old_entries[m].token_id@,
                                );
                            }
                        } else if p2 < p && q2 > p {
                            assert(key_lt(
                                old_entries[p2].token_id@,
                                old_entries[q2 - 1].token_id@,
                            ));
                        } else if q2 < p {
                            assert(key_lt(old_entries[p2].token_id@, old_entries[q2].token_id@));
                        } else {
                            assert(key_lt(
                                old_entries[p2 - 1].token_id@,
                                old_entries[q2 - 1].token_id@,
                            ));
                        }
                    }
                    assert forall|p2: int, q2: int|
                        0 <= p2 < q2 < self.entries@.len() implies self.entries@[p2].token_id@
                        != self.entries@[q2].token_id@ by {
                        lemma_key_lt_connects(
                            self.entries@[p2].token_id@,
                            self.entries@[q2].token_id@,
                        );
                    }
                    assert forall|j: int|
                        0 <= j < self.entries@.len() implies valid_listing(self.entries@[j]) by {
                        if j != p {
                            let m = if j < p {
                                j
                            } else {
                                j - 1
                            };
                            assert(valid_listing(old_entries[m]));
                        }
                    }
                    assert(self.entries@[p].token_id@ == key);
                    self.lemma_get_at(p);
                    assert forall|k2: Seq<char>| k2 != key implies (self.contains(k2) <==> old(
                        self,
                    ).contains(k2)) by {
                        if self.contains(k2) {
                            let m = choose|m: int|
                                0 <= m < self.entries@.len() && self.entries@[m].token_id@ == k2;
                            let m2 = if m < p {
                                m
                            } else {
                                m - 1
                            };
                            assert(old_entries[m2].token_id@ == k2);
                        }
                        if old(self).contains(k2) {
                            let m = choose|m: int|
                                0 <= m < old_entries.len() && old_entries[m].token_id@ == k2;
                            let m2 = if m < p {
                                m
                            } else {
                                m + 1
                            };
                            assert(self.entries@[m2].token_id@ == k2);
                        }
                    }
                    assert forall|k2: Seq<char>|
                        k2 != key && old(self).contains(k2) implies self.spec_get(k2) == old(
                        self,
                    ).spec_get(k2) by {
                        let m = choose|m: int|
                            0 <= m < old_entries.len() && old_entries[m].token_id@ == k2;
                        old(self).lemma_get_at(m);
                        let m2 = if m < p {
                            m
                        } else {
                            m + 1
                        };
                        assert(self.entries@[m2].token_id@ == k2);
                        self.lemma_get_at(m2);
                    }
                }
            },
        }
    }

    /// Delete the listing for `token_id`, if any, touching no other key.
    pub fn remove(&mut self, token_id: &String)
        requires
            old(self).wf(),
        ensures
            final(self).wf(),
            !final(self).contains(token_id@),
            forall|k: Seq<char>|
                k != token_id@ ==> (#[trigger] final(self).contains(k) <==> old(self).contains(k)),
            forall|k: Seq<char>|
                k != token_id@ && old(self).contains(k) ==> #[trigger] final(self).spec_get(k)
                    == old(self).spec_get(k),
    {
        let ghost old_entries = self.entries@;
        let ghost key = token_id@;
        match self.find_index(token_id) {
            Some(i) => {
                self.entries.remove(i);
                proof {
                    let n = old_entries.len() as int;
                    let ii = i as int;
                    assert forall|j: int|
                        0 <= j < self.entries@.len() implies self.entries@[j] == (if j < ii {
                        old_entries[j]
                    } else {
                        old_entries[j + 1]
                    }) by {}
                    assert forall|p: int, q: int|
                        0 <= p < q < self.entries@.len() implies self.entries@[p].token_id@
                        != self.entries@[q].token_id@ by {
                        let p2 = if p < ii { p } else { p + 1 };
                        let q2 = if q < ii { q } else { q + 1 };
                        assert(old_entries[p2].token_id@ != old_entries[q2].token_id@);
                    }
                    assert forall|p: int, q: int|
                        0 <= p < q < self.entries@.len() implies key_lt(
                        self.entries@[p].token_id@,
                        self.entries@[q].token_id@,
                    ) by {
                        let p2 = if p < ii { p } else { p + 1 };
                        let q2 = if q < ii { q } else { q + 1 };
                        assert(key_lt(old_entries[p2].token_id@, old_entries[q2].token_id@));
                    }
                    assert forall|j: int|
                        0 <= j < self.entries@.len() implies self.entries@[j].token_id@
                        != key by {
                        let j2 = if j < ii { j } else { j + 1 };
                        if j2 != ii {
                            if j2 < ii {
                                assert(old_entries[j2].token_id@ != old_entries[ii].token_id@);
                            } else {
                                assert(old_entries[ii].token_id@ != old_entries[j2].token_id@);
                            }
                        }
                    }
                    assert forall|k2: Seq<char>| k2 != key implies (self.contains(k2) <==> old(
                        self,
                    ).contains(k2)) by {
                        if self.contains(k2) {
                            let m = choose|m: int|
                                0 <= m < self.entries@.len() && self.entries@[m].token_id@ == k2;
                            let m2 = if m < ii { m } else { m + 1 };
                            assert(old_entries[m2].token_id@ == k2);
                        }
                        if old(self).contains(k2) {
                            let m = choose|m: int|
                                0 <= m < old_entries.len() && old_entries[m].token_id@ == k2;
                            let m2 = if m < ii { m } else { m - 1 };
                            assert(self.entries@[m2].token_id@ == k2);
                        }
                    }
                    assert forall|k2: Seq<char>|
                        k2 != key && old(self).contains(k2) implies self.spec_get(k2) == old(
                        self,
                    ).spec_get(k2) by {
                        let m = choose|m: int|
                            0 <= m < old_entries.len() && old_entries[m].token_id@ == k2;
                        old(self).lemma_get_at(m);
                        let m2 = if m < ii { m } else { m - 1 };
                        assert(self.entries@[m2].token_id@ == k2);
                        self.lemma_get_at(m2);
                    }
                }
            },
            None => {},
        }
    }
}

// ---------------------------------------------------------------------------
// Operator delegations
// ---------------------------------------------------------------------------

/// A blanket grant from an owner to an operator over all the owner's tokens.
pub struct OperatorGrant {
    pub owner: String,
    pub operator: String,
    pub expires: Expiration,
}

impl Clone for OperatorGrant {
    fn clone(&self) -> (r: Self)
        ensures
            r == *self,
    {
        OperatorGrant {
            owner: self.owner.clone(),
            operator: self.operator.clone(),
            expires: self.expires,
        }
    }
}

/// The operator delegation store: a keyed mapping from `(owner, operator)`
/// to the delegation's expiration.
pub struct OperatorStore {
    pub grants: Vec<OperatorGrant>,
}

impl OperatorStore {
    /// At most one grant exists per `(owner, operator)` pair.
    pub open spec fn wf(self) -> bool {
        forall|i: int, j: int|
            0 <= i < j < self.grants@.len() ==> !(#[trigger] self.grants@[i].owner@
                == #[trigger] self.grants@[j].owner@ && self.grants@[i].operator@
                == self.grants@[j].operator@)
    }

    /// A delegation from `owner` to `operator` exists (lapsed or not).
    pub open spec fn contains(self, owner: Seq<char>, operator: Seq<char>) -> bool {
        exists|i: int|
            0 <= i < self.grants@.len() && #[trigger] self.grants@[i].owner@ == owner
                && self.grants@[i].operator@ == operator
    }

    pub open spec fn spec_index_of(self, owner: Seq<char>, operator: Seq<char>) -> int {
        choose|i: int|
            0 <= i < self.grants@.len() && #[trigger] self.grants@[i].owner@ == owner
                && self.grants@[i].operator@ == operator
    }

    /// The expiration of the delegation from `owner` to `operator`
    /// (meaningful only when `contains`).
    pub open spec fn spec_get(self, owner: Seq<char>, operator: Seq<char>) -> Expiration {
        self.grants@[self.spec_index_of(owner, operator)].expires
    }

    pub proof fn lemma_get_at(self, i: int)
        requires
            self.wf(),
            0 <= i < self.grants@.len(),
        ensures
            self.contains(self.grants@[i].owner@, self.grants@[i].operator@),
            self.spec_index_of(self.grants@[i].owner@, self.grants@[i].operator@) == i,
            self.spec_get(self.grants@[i].owner@, self.grants@[i].operator@)
                == self.grants@[i].expires,
    {
        let ow = self.grants@[i].owner@;
        let op = self.grants@[i].operator@;
        assert(self.contains(ow, op));
        let j = self.spec_index_of(ow, op);
        assert(0 <= j < self.grants@.len() && self.grants@[j].owner@ == ow
            && self.grants@[j].operator@ == op);
        if i < j {
            assert(!(self.grants@[i].owner@ == self.grants@[j].owner@ && self.grants@[i].operator@
                == self.grants@[j].operator@));
        }
        if j < i {
            assert(!(self.grants@[j].owner@ == self.grants@[i].owner@ && self.grants@[j].operator@
                == self.grants@[i].operator@));
        }
    }

    pub fn new() -> (r: OperatorStore)
        ensures
            r.wf(),
            r.grants@.len() == 0,
            forall|ow: Seq<char>, op: Seq<char>| !r.contains(ow, op),
    {
        OperatorStore { grants: Vec::new() }
    }

    fn find_index(&self, owner: &String, operator: &String) -> (r: Option<usize>)
        ensures
            match r {
                Option::Some(i) => i < self.grants@.len() && self.grants@[i as int].owner@
                    == owner@ && self.grants@[i as int].operator@ == operator@,
                Option::None => !self.contains(owner@, operator@),
            },
    {
        let mut i: usize = 0;
        while i < self.grants.len()
            invariant
                i <= self.grants@.len(),
                forall|j: int|
                    0 <= j < i ==> !(#[trigger] self.grants@[j].owner@ == owner@
                        && self.grants@[j].operator@ == operator@),
            decreases self.grants@.len() - i,
        {
            if self.grants[i].owner == *owner && self.grants[i].operator == *operator {
                return Some(i);
            }
            i += 1;
        }
        None
    }

    /// Read the expiration of the delegation from `owner` to `operator`,
    /// if one exists. Lapsed entries are returned, never auto-deleted;
    /// the authorization checker treats them as absent.
    pub fn get_grant(&self, owner: &String, operator: &String) -> (r: Option<Expiration>)
        requires
            self.wf(),
        ensures
            match r {
                Option::Some(e) => self.contains(owner@, operator@) && e == self.spec_get(
                    owner@,
                    operator@,
                ),
                Option::None => !self.contains(owner@, operator@),
            },
    {
        match self.find_index(owner, operator) {
            Some(i) => {
                proof {
                    self.lemma_get_at(i as int);
                }
                Some(self.grants[i].expires)
            },
            None => None,
        }
    }

    /// Create or overwrite the delegation from `owner` to `operator`,
    /// touching no other pair.
    pub fn set_operator(&mut self, owner: String, operator: String, expires: Expiration)
        requires
            old(self).wf(),
        ensures
            final(self).wf(),
            final(self).contains(owner@, operator@),
            final(self).spec_get(owner@, operator@) == expires,
            forall|ow: Seq<char>, op: Seq<char>|
                !(ow == owner@ && op == operator@) ==> (#[trigger] final(self).contains(ow, op)
                    <==> old(self).contains(ow, op)),
            forall|ow: Seq<char>, op: Seq<char>|
                !(ow == owner@ && op == operator@) && old(self).contains(ow, op)
                    ==> #[trigger] final(self).spec_get(ow, op) == old(self).spec_get(ow, op),
    {
        let ghost old_grants = self.grants@;
        let ghost kow = owner@;
        let ghost kop = operator@;
        let found = self.find_index(&owner, &operator);
        let grant = OperatorGrant { owner, operator, expires };
        match found {
            Some(i) => {
                self.grants.remove(i);
                self.grants.insert(i, grant);
                proof {
                    assert(self.grants@ =~= old_grants.update(i as int, grant));
                    assert forall|p: int, q: int|
                        0 <= p < q < self.grants@.len() implies !(self.grants@[p].owner@
                        == self.grants@[q].owner@ && self.grants@[p].operator@
                        == self.grants@[q].operator@) by {
                        assert(!(old_grants[p].owner@ == old_grants[q].owner@
                            && old_grants[p].operator@ == old_grants[q].operator@));
                    }
                    assert forall|ow: Seq<char>, op: Seq<char>|
                        !(ow == kow && op == kop) implies (self.contains(ow, op) <==> old(
                        self,
                    ).contains(ow, op)) by {
                        if self.contains(ow, op) {
                            let m = choose|m: int|
                                0 <= m < self.grants@.len() && self.grants@[m].owner@ == ow
                                    && self.grants@[m].operator@ == op;
                            assert(old_grants[m].owner@ == ow && old_grants[m].operator@ == op);
                        }
                        if old(self).contains(ow, op) {
                            let m = choose|m: int|
                                0 <= m < old_grants.len() && old_grants[m].owner@ == ow
                                    && old_grants[m].operator@ == op;
                            assert(self.grants@[m].owner@ == ow && self.grants@[m].operator@
                                == op);
                        }
                    }
                    self.lemma_get_at(i as int);
                    assert forall|ow: Seq<char>, op: Seq<char>|
                        !(ow == kow && op == kop) && old(self).contains(ow, op) implies
                        self.spec_get(ow, op) == old(self).spec_get(ow, op) by {
                        let m = choose|m: int|
                            0 <= m < old_grants.len() && old_grants[m].owner@ == ow
                                && old_grants[m].operator@ == op;
                        old(self).lemma_get_at(m);
                        assert(self.grants@[m].owner@ == ow && self.grants@[m].operator@ == op);
                        self.lemma_get_at(m);
                    }
                }
            },
            None => {
                self.grants.push(grant);
                proof {
                    let n = old_grants.len() as int;
                    assert(self.grants@ =~= old_grants.push(grant));
                    assert forall|p: int, q: int|
                        0 <= p < q < self.grants@.len() implies !(self.grants@[p].owner@
                        == self.grants@[q].owner@ && self.grants@[p].operator@
                        == self.grants@[q].operator@) by {
                        if q < n {
                            assert(!(old_grants[p].owner@ == old_grants[q].owner@
                                && old_grants[p].operator@ == old_grants[q].operator@));
                        } else {
                            assert(!old(self).contains(kow, kop));
                        }
                    }
                    self.lemma_get_at(n);
                    assert forall|ow: Seq<char>, op: Seq<char>|
                        !(ow == kow && op == kop) implies (self.contains(ow, op) <==> old(
                        self,
                    ).contains(ow, op)) by {
                        if self.contains(ow, op) {
                            let m = choose|m: int|
                                0 <= m < self.grants@.len() && self.grants@[m].owner@ == ow
                                    && self.grants@[m].operator@ == op;
                            assert(m < n);
                            assert(old_grants[m].owner@ == ow && old_grants[m].operator@ == op);
                        }
                        if old(self).contains(ow, op) {
                            let m = choose|m: int|
                                0 <= m < old_grants.len() && old_grants[m].owner@ == ow
                                    && old_grants[m].operator@ == op;
                            assert(self.grants@[m].owner@ == ow && self.grants@[m].operator@
                                == op);
                        }
                    }
                    assert forall|ow: Seq<char>, op: Seq<char>|
                        !(ow == kow && op == kop) && old(self).contains(ow, op) implies
                        self.spec_get(ow, op) == old(self).spec_get(ow, op) by {
                        let m = choose|m: int|
                            0 <= m < old_grants.len() && old_grants[m].owner@ == ow
                                && old_grants[m].operator@ == op;
                        old(self).lemma_get_at(m);
                        assert(self.grants@[m].owner@ == ow && self.grants@[m].operator@ == op);
                        self.lemma_get_at(m);
                    }
                }
            },
        }
    }
}

// ---------------------------------------------------------------------------
// The marketplace state handle
// ---------------------------------------------------------------------------

/// The whole mutable state of the marketplace, passed explicitly into every
/// operation: the listing store, the operator delegation store, and the
/// marketplace's own operating identity (the spender of the self-approval
/// taken at listing time).
pub struct Marketplace {
    pub listings: ListingStore,
    pub operators: OperatorStore,
    /// The marketplace's own operating identity.
    pub marketplace: String,
}

impl Marketplace {
    pub open spec fn inv(self) -> bool {
        self.listings.wf() && self.operators.wf()
    }
}

// ---------------------------------------------------------------------------
// Query projections
// ---------------------------------------------------------------------------

/// One listing as projected by the full-enumeration query.
#[derive(Debug)]
pub struct QueryOfferingsResult {
    /// The store key of the listing (its token id).
    pub id: String,
    pub token_id: String,
    pub list_price: Coin,
    pub contract_addr: String,
    pub seller: String,
}

/// The full-enumeration query's answer.
#[derive(Debug)]
pub struct OfferingsResponse {
    pub offerings: Vec<QueryOfferingsResult>,
}

} // verus!
