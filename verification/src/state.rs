//! The whole system state: the case store, the secondary indexes, the issuer
//! and sponsorship registries and the ledger, with its well-formedness
//! invariant and the ledger primitives every operation charges fees through.

use vstd::prelude::*;
use crate::data::{
    AccountId, Balance, BlockNumber, CollectionItem, H256, LegalOfficerCase, LocId,
    OtherAccountId, Requester, Sponsorship, SponsorshipId, TokensRecord, VerifiedIssuer, Error,
};
use crate::store::{AssocMap, StoreKey};
use crate::fees::sat_add;
use crate::fees::saturating_add_u128;

verus! {

/// Key of a verified-issuer nomination.
#[derive(Clone, Copy, Debug, PartialEq, Eq, Structural)]
pub struct NominationKey {
    pub legal_officer: AccountId,
    pub issuer: AccountId,
}

/// Key of an issuer selection, as seen from the LOC.
#[derive(Clone, Copy, Debug, PartialEq, Eq, Structural)]
pub struct SelectionKey {
    pub loc_id: LocId,
    pub issuer: AccountId,
}

/// Key of an issuer selection, as seen from the issuer.
#[derive(Clone, Copy, Debug, PartialEq, Eq, Structural)]
pub struct IssuerLocKey {
    pub issuer: AccountId,
    pub legal_officer: AccountId,
    pub loc_id: LocId,
}

impl StoreKey for NominationKey {
    fn key_eq(&self, other: &Self) -> (r: bool) {
        *self == *other
    }
}

impl StoreKey for SelectionKey {
    fn key_eq(&self, other: &Self) -> (r: bool) {
        *self == *other
    }
}

impl StoreKey for IssuerLocKey {
    fn key_eq(&self, other: &Self) -> (r: bool) {
        *self == *other
    }
}

/// Metadata names are pairwise distinct, file hashes are pairwise distinct
/// and link targets are pairwise distinct within one LOC.
pub open spec fn loc_items_wf(loc: LegalOfficerCase) -> bool {
    &&& forall|i: int, j: int|
        0 <= i < j < loc.metadata@.len() ==> loc.metadata@[i].name != loc.metadata@[j].name
    &&& forall|i: int, j: int|
        0 <= i < j < loc.files@.len() ==> loc.files@[i].hash != loc.files@[j].hash
    &&& forall|i: int, j: int|
        0 <= i < j < loc.links@.len() ==> loc.links@[i].id != loc.links@[j].id
}

/// Every metadata item and file of the LOC is acknowledged.
pub open spec fn all_items_acknowledged(loc: LegalOfficerCase) -> bool {
    &&& forall|i: int| 0 <= i < loc.metadata@.len() ==> loc.metadata@[i].acknowledged
    &&& forall|i: int| 0 <= i < loc.files@.len() ==> loc.files@[i].acknowledged
}

/// Some metadata item of the LOC bears this name.
pub open spec fn metadata_has_name(loc: LegalOfficerCase, name: H256) -> bool {
    exists|i: int| 0 <= i < loc.metadata@.len() && loc.metadata@[i].name == name
}

/// Some file of the LOC bears this hash.
pub open spec fn files_has_hash(loc: LegalOfficerCase, hash: H256) -> bool {
    exists|i: int| 0 <= i < loc.files@.len() && loc.files@[i].hash == hash
}

/// Some link of the LOC points at this target.
pub open spec fn links_has_target(loc: LegalOfficerCase, target: LocId) -> bool {
    exists|i: int| 0 <= i < loc.links@.len() && loc.links@[i].id == target
}

/// The system state; owned exclusively by the lifecycle operations.
pub struct LogionLoc {
    pub legal_officers: Vec<AccountId>,
    pub treasury: AccountId,
    pub block_number: BlockNumber,
    pub balances: AssocMap<AccountId, Balance>,
    pub locs: AssocMap<LocId, LegalOfficerCase>,
    pub account_locs: AssocMap<AccountId, Vec<LocId>>,
    pub other_account_locs: AssocMap<OtherAccountId, Vec<LocId>>,
    pub identity_loc_locs: AssocMap<LocId, Vec<LocId>>,
    pub collection_items: AssocMap<LocId, AssocMap<H256, CollectionItem>>,
    pub tokens_records: AssocMap<LocId, AssocMap<H256, TokensRecord>>,
    pub verified_issuers: AssocMap<NominationKey, VerifiedIssuer>,
    pub verified_issuers_by_loc: AssocMap<SelectionKey, ()>,
    pub locs_by_verified_issuer: AssocMap<IssuerLocKey, ()>,
    pub sponsorships: AssocMap<SponsorshipId, Sponsorship>,
}

impl LogionLoc {
    /// The two mirrored selection indexes agree, and only reference existing
    /// LOCs under their current owner.
    pub open spec fn selections_mirrored(self) -> bool {
        &&& forall|k: SelectionKey|
            self.verified_issuers_by_loc@.dom().contains(k) ==> self.locs@.dom().contains(k.loc_id)
                && self.locs_by_verified_issuer@.dom().contains(
                (IssuerLocKey {
                    issuer: k.issuer,
                    legal_officer: self.locs@[k.loc_id].owner,
                    loc_id: k.loc_id,
                }),
            )
        &&& forall|k: IssuerLocKey|
            self.locs_by_verified_issuer@.dom().contains(k) ==> self.locs@.dom().contains(k.loc_id)
                && self.locs@[k.loc_id].owner == k.legal_officer
                && self.verified_issuers_by_loc@.dom().contains(
                (SelectionKey { loc_id: k.loc_id, issuer: k.issuer }),
            )
    }

    pub open spec fn wf(self) -> bool {
        &&& self.balances.wf()
        &&& self.locs.wf()
        &&& self.account_locs.wf()
        &&& self.other_account_locs.wf()
        &&& self.identity_loc_locs.wf()
        &&& self.collection_items.wf()
        &&& self.tokens_records.wf()
        &&& self.verified_issuers.wf()
        &&& self.verified_issuers_by_loc.wf()
        &&& self.locs_by_verified_issuer.wf()
        &&& self.sponsorships.wf()
        &&& forall|id: LocId|
            self.collection_items@.dom().contains(id) ==> self.collection_items@[id].wf()
        &&& forall|id: LocId|
            self.tokens_records@.dom().contains(id) ==> self.tokens_records@[id].wf()
        &&& forall|id: LocId| self.locs@.dom().contains(id) ==> loc_items_wf(#[trigger] self.locs@[id])
        &&& self.selections_mirrored()
    }

    pub open spec fn has_loc(self, id: LocId) -> bool {
        self.locs@.dom().contains(id)
    }

    pub open spec fn spec_loc(self, id: LocId) -> LegalOfficerCase {
        self.locs@[id]
    }

    pub open spec fn loc_void(self, id: LocId) -> bool {
        self.spec_loc(id).void_info.is_some()
    }

    pub open spec fn spec_is_legal_officer(self, account: AccountId) -> bool {
        self.legal_officers@.contains(account)
    }

    pub open spec fn spec_balance(self, account: AccountId) -> int {
        if self.balances@.dom().contains(account) {
            self.balances@[account] as int
        } else {
            0
        }
    }

    /// The issuer currently holds a selection on this LOC.
    pub open spec fn spec_selected(self, loc_id: LocId, issuer: AccountId) -> bool {
        self.verified_issuers_by_loc@.dom().contains((SelectionKey { loc_id, issuer }))
    }

    /// The account holds a current nomination by this legal officer.
    pub open spec fn spec_nominated(self, legal_officer: AccountId, issuer: AccountId) -> bool {
        self.verified_issuers@.dom().contains((NominationKey { legal_officer, issuer }))
    }

    pub open spec fn spec_sponsorship(self, id: SponsorshipId) -> Option<Sponsorship> {
        if self.sponsorships@.dom().contains(id) {
            Some(self.sponsorships@[id])
        } else {
            None
        }
    }

    pub open spec fn spec_account_locs(self, account: AccountId) -> Seq<LocId> {
        if self.account_locs@.dom().contains(account) {
            self.account_locs@[account]@
        } else {
            Seq::empty()
        }
    }

    pub open spec fn spec_other_account_locs(self, account: OtherAccountId) -> Seq<LocId> {
        if self.other_account_locs@.dom().contains(account) {
            self.other_account_locs@[account]@
        } else {
            Seq::empty()
        }
    }

    pub open spec fn spec_identity_loc_locs(self, id: LocId) -> Seq<LocId> {
        if self.identity_loc_locs@.dom().contains(id) {
            self.identity_loc_locs@[id]@
        } else {
            Seq::empty()
        }
    }

    pub open spec fn spec_collection_item(self, loc_id: LocId, item_id: H256) -> Option<
        CollectionItem,
    > {
        if self.collection_items@.dom().contains(loc_id)
            && self.collection_items@[loc_id]@.dom().contains(item_id) {
            Some(self.collection_items@[loc_id]@[item_id])
        } else {
            None
        }
    }

    pub open spec fn spec_collection_size(self, loc_id: LocId) -> int {
        if self.collection_items@.dom().contains(loc_id) {
            self.collection_items@[loc_id]@.dom().len() as int
        } else {
            0
        }
    }

    pub open spec fn spec_tokens_record(self, loc_id: LocId, record_id: H256) -> Option<
        TokensRecord,
    > {
        if self.tokens_records@.dom().contains(loc_id)
            && self.tokens_records@[loc_id]@.dom().contains(record_id) {
            Some(self.tokens_records@[loc_id]@[record_id])
        } else {
            None
        }
    }

    /// A fresh state: the given legal officers and treasury account, block
    /// zero, and every store empty.
    pub fn new(legal_officers: Vec<AccountId>, treasury: AccountId) -> (r: Self)
        ensures
            r.wf(),
            r.legal_officers == legal_officers,
            r.treasury == treasury,
            r.block_number == 0,
            r.balances@ == Map::<AccountId, Balance>::empty(),
            r.locs@ == Map::<LocId, LegalOfficerCase>::empty(),
            r.account_locs@ == Map::<AccountId, Vec<LocId>>::empty(),
            r.other_account_locs@ == Map::<OtherAccountId, Vec<LocId>>::empty(),
            r.identity_loc_locs@ == Map::<LocId, Vec<LocId>>::empty(),
            r.collection_items@ == Map::<LocId, AssocMap<H256, CollectionItem>>::empty(),
            r.tokens_records@ == Map::<LocId, AssocMap<H256, TokensRecord>>::empty(),
            r.verified_issuers@ == Map::<NominationKey, VerifiedIssuer>::empty(),
            r.verified_issuers_by_loc@ == Map::<SelectionKey, ()>::empty(),
            r.locs_by_verified_issuer@ == Map::<IssuerLocKey, ()>::empty(),
            r.sponsorships@ == Map::<SponsorshipId, Sponsorship>::empty(),
    {
        LogionLoc {
            legal_officers,
            treasury,
            block_number: 0,
            balances: AssocMap::new(),
            locs: AssocMap::new(),
            account_locs: AssocMap::new(),
            other_account_locs: AssocMap::new(),
            identity_loc_locs: AssocMap::new(),
            collection_items: AssocMap::new(),
            tokens_records: AssocMap::new(),
            verified_issuers: AssocMap::new(),
            verified_issuers_by_loc: AssocMap::new(),
            locs_by_verified_issuer: AssocMap::new(),
            sponsorships: AssocMap::new(),
        }
    }

    pub fn is_legal_officer(&self, account: AccountId) -> (r: bool)
        ensures
            r == self.spec_is_legal_officer(account),
    {
        let n = self.legal_officers.len();
        for i in 0..n
            invariant
                n == self.legal_officers@.len(),
                forall|j: int| 0 <= j < i ==> self.legal_officers@[j] != account,
        {
            if self.legal_officers[i] == account {
                return true;
            }
        }
        false
    }

    /// Moves the host's block height forward.
    pub fn set_block_number(&mut self, n: BlockNumber)
        requires
            old(self).wf(),
        ensures
            final(self).wf(),
            *final(self) == (LogionLoc { block_number: n, ..*old(self) }),
    {
        self.block_number = n;
    }

    pub fn current_block_number(&self) -> (r: BlockNumber)
        ensures
            r == self.block_number,
    {
        self.block_number
    }

    pub fn balance_of(&self, account: AccountId) -> (r: Balance)
        requires
            self.wf(),
        ensures
            r == self.spec_balance(account),
    {
        match self.balances.get(&account) {
            Some(b) => *b,
            None => 0,
        }
    }

    /// Forces an account's balance, as the host's ledger administration does.
    pub fn set_balance(&mut self, account: AccountId, amount: Balance)
        requires
            old(self).wf(),
        ensures
            final(self).wf(),
            *final(self) == (LogionLoc { balances: final(self).balances, ..*old(self) }),
            final(self).balances@ == old(self).balances@.insert(account, amount),
            final(self).spec_balance(account) == amount,
            forall|a: AccountId|
                a != account ==> final(self).spec_balance(a) == old(self).spec_balance(a),
    {
        self.balances.insert(account, amount);
    }

    /// Gives every listed account the same starting balance, as a host does
    /// before exercising the system.
    pub fn setup_default_balances(&mut self, accounts: &Vec<AccountId>, amount: Balance)
        requires
            old(self).wf(),
        ensures
            final(self).wf(),
            *final(self) == (LogionLoc { balances: final(self).balances, ..*old(self) }),
            forall|a: AccountId|
                accounts@.contains(a) ==> final(self).spec_balance(a) == amount,
            forall|a: AccountId|
                !accounts@.contains(a) ==> final(self).spec_balance(a) == old(self).spec_balance(a),
    {
        let n = accounts.len();
        for i in 0..n
            invariant
                n == accounts@.len(),
                self.wf(),
                *self == (LogionLoc { balances: self.balances, ..*old(self) }),
                forall|a: AccountId|
                    (exists|j: int| 0 <= j < i && accounts@[j] == a) ==> self.spec_balance(a)
                        == amount,
                forall|a: AccountId|
                    !accounts@.contains(a) ==> self.spec_balance(a) == old(self).spec_balance(a),
        {
            self.set_balance(accounts[i], amount);
        }
        proof {
            assert forall|a: AccountId| accounts@.contains(a) implies self.spec_balance(a)
                == amount by {
                let j = choose|j: int| 0 <= j < accounts@.len() && accounts@[j] == a;
                assert(exists|j2: int| 0 <= j2 < n && accounts@[j2] == a);
            }
        }
    }

    /// Credits an account, clamping at the ledger's range.
    fn credit(&mut self, account: AccountId, amount: Balance)
        requires
            old(self).wf(),
        ensures
            final(self).wf(),
            *final(self) == (LogionLoc { balances: final(self).balances, ..*old(self) }),
            final(self).spec_balance(account) == sat_add(
                old(self).spec_balance(account),
                amount as int,
            ),
            forall|a: AccountId|
                a != account ==> final(self).spec_balance(a) == old(self).spec_balance(a),
    {
        let current = self.balance_of(account);
        let updated = saturating_add_u128(current, amount);
        self.balances.insert(account, updated);
    }

    /// Debits an account that holds at least the amount.
    fn debit(&mut self, account: AccountId, amount: Balance)
        requires
            old(self).wf(),
            amount <= old(self).spec_balance(account),
        ensures
            final(self).wf(),
            *final(self) == (LogionLoc { balances: final(self).balances, ..*old(self) }),
            final(self).spec_balance(account) == old(self).spec_balance(account) - amount,
            forall|a: AccountId|
                a != account ==> final(self).spec_balance(a) == old(self).spec_balance(a),
    {
        let current = self.balance_of(account);
        self.balances.insert(account, current - amount);
    }

    /// Moves `amount` from `payer` to `beneficiary`, failing with no effect
    /// when the payer's balance does not cover it.
    pub fn charge(&mut self, payer: AccountId, amount: Balance, beneficiary: AccountId) -> (r:
        Result<(), Error>)
        requires
            old(self).wf(),
        ensures
            final(self).wf(),
            *final(self) == (LogionLoc { balances: final(self).balances, ..*old(self) }),
            r is Ok <==> amount <= old(self).spec_balance(payer),
            r is Err ==> *final(self) == *old(self) && r == Err::<(), Error>(
                Error::InsufficientFunds,
            ),
            r is Ok ==> final(self).spec_balance(payer) == if payer == beneficiary {
                old(self).spec_balance(payer)
            } else {
                old(self).spec_balance(payer) - amount
            },
            r is Ok && payer != beneficiary ==> final(self).spec_balance(beneficiary) == sat_add(
                old(self).spec_balance(beneficiary),
                amount as int,
            ),
            r is Ok ==> forall|a: AccountId|
                a != payer && a != beneficiary ==> final(self).spec_balance(a) == old(
                    self,
                ).spec_balance(a),
    {
        let available = self.balance_of(payer);
        if available < amount {
            return Err(Error::InsufficientFunds);
        }
        self.debit(payer, amount);
        self.credit(beneficiary, amount);
        Ok(())
    }

    /// The account the LOC's storage fees are charged to: its requester where
    /// that is a network account, the consumed sponsorship's sponsor where the
    /// requester lives on another chain, and the owner otherwise.
    pub open spec fn spec_fee_payer(self, loc: LegalOfficerCase) -> AccountId {
        match loc.requester {
            Requester::Account(a) => a,
            Requester::OtherAccount(_) => match loc.sponsorship_id {
                Some(sid) => if self.sponsorships@.dom().contains(sid) {
                    self.sponsorships@[sid].sponsor
                } else {
                    loc.owner
                },
                None => loc.owner,
            },
            _ => loc.owner,
        }
    }

    pub fn fee_payer(&self, loc: &LegalOfficerCase) -> (r: AccountId)
        requires
            self.wf(),
        ensures
            r == self.spec_fee_payer(*loc),
    {
        match loc.requester {
            Requester::Account(a) => a,
            Requester::OtherAccount(_) => match loc.sponsorship_id {
                Some(sid) => match self.sponsorships.get(&sid) {
                    Some(s) => s.sponsor,
                    None => loc.owner,
                },
                None => loc.owner,
            },
            _ => loc.owner,
        }
    }
}

/// Re-establishes the state invariant when only stores outside the case store
/// and the two selection indexes changed.
pub proof fn lemma_wf_stores_untouched(a: LogionLoc, b: LogionLoc)
    requires
        a.wf(),
        b.balances.wf(),
        b.account_locs.wf(),
        b.other_account_locs.wf(),
        b.identity_loc_locs.wf(),
        b.sponsorships.wf(),
        b.verified_issuers.wf(),
        b.locs == a.locs,
        b.collection_items == a.collection_items,
        b.tokens_records == a.tokens_records,
        b.verified_issuers_by_loc == a.verified_issuers_by_loc,
        b.locs_by_verified_issuer == a.locs_by_verified_issuer,
    ensures
        b.wf(),
{
}

/// Re-establishes the state invariant when the case store gained or replaced
/// one record without changing its owner.
pub proof fn lemma_wf_loc_update(a: LogionLoc, b: LogionLoc, id: LocId, v: LegalOfficerCase)
    requires
        a.wf(),
        b.locs.wf(),
        b.balances.wf(),
        b.account_locs.wf(),
        b.other_account_locs.wf(),
        b.identity_loc_locs.wf(),
        b.sponsorships.wf(),
        b.verified_issuers.wf(),
        b.locs@ == a.locs@.insert(id, v),
        a.locs@.dom().contains(id) ==> v.owner == a.locs@[id].owner,
        loc_items_wf(v),
        b.collection_items == a.collection_items,
        b.tokens_records == a.tokens_records,
        b.verified_issuers_by_loc == a.verified_issuers_by_loc,
        b.locs_by_verified_issuer == a.locs_by_verified_issuer,
    ensures
        b.wf(),
{
    assert forall|k: SelectionKey| b.verified_issuers_by_loc@.dom().contains(k) implies b.locs@.dom()
        .contains(k.loc_id) && b.locs_by_verified_issuer@.dom().contains(
        (IssuerLocKey {
            issuer: k.issuer,
            legal_officer: b.locs@[k.loc_id].owner,
            loc_id: k.loc_id,
        }),
    ) by {
        assert(a.verified_issuers_by_loc@.dom().contains(k));
        assert(a.locs@.dom().contains(k.loc_id));
        assert(b.locs@[k.loc_id].owner == a.locs@[k.loc_id].owner);
    }
    assert forall|k: IssuerLocKey| b.locs_by_verified_issuer@.dom().contains(k) implies b.locs@.dom()
        .contains(k.loc_id) && b.locs@[k.loc_id].owner == k.legal_officer
        && b.verified_issuers_by_loc@.dom().contains(
        (SelectionKey { loc_id: k.loc_id, issuer: k.issuer }),
    ) by {
        assert(a.locs_by_verified_issuer@.dom().contains(k));
        assert(a.locs@.dom().contains(k.loc_id));
        assert(b.locs@[k.loc_id].owner == a.locs@[k.loc_id].owner);
    }
    assert forall|x: LocId| b.locs@.dom().contains(x) implies loc_items_wf(#[trigger] b.locs@[x]) by {
        if x != id {
            assert(a.locs@.dom().contains(x));
            assert(b.locs@[x] == a.locs@[x]);
        }
    }
}

/// Re-establishes the state invariant when only the collection-item and
/// tokens-record stores changed beside the plain stores.
pub proof fn lemma_wf_collections_update(a: LogionLoc, b: LogionLoc)
    requires
        a.wf(),
        b.balances.wf(),
        b.account_locs.wf(),
        b.other_account_locs.wf(),
        b.identity_loc_locs.wf(),
        b.sponsorships.wf(),
        b.verified_issuers.wf(),
        b.collection_items.wf(),
        b.tokens_records.wf(),
        b.locs == a.locs,
        b.verified_issuers_by_loc == a.verified_issuers_by_loc,
        b.locs_by_verified_issuer == a.locs_by_verified_issuer,
        forall|id: LocId| b.collection_items@.dom().contains(id) ==> b.collection_items@[id].wf(),
        forall|id: LocId| b.tokens_records@.dom().contains(id) ==> b.tokens_records@[id].wf(),
    ensures
        b.wf(),
{
}

/// A balances snapshot: what the fee payer, the legal officer and the
/// treasury held before an operation.
#[derive(Clone, Copy, Debug, PartialEq, Eq, Structural)]
pub struct BalancesSnapshot {
    pub payer_account: AccountId,
    pub legal_officer_account: AccountId,
    pub payer_balance: Balance,
    pub legal_officer_balance: Balance,
    pub treasury_balance: Balance,
}

impl BalancesSnapshot {
    pub fn take(state: &LogionLoc, payer_account: AccountId, legal_officer_account: AccountId) -> (r:
        BalancesSnapshot)
        requires
            state.wf(),
        ensures
            r.payer_account == payer_account,
            r.legal_officer_account == legal_officer_account,
            r.payer_balance == state.spec_balance(payer_account),
            r.legal_officer_balance == state.spec_balance(legal_officer_account),
            r.treasury_balance == state.spec_balance(state.treasury),
    {
        BalancesSnapshot {
            payer_account,
            legal_officer_account,
            payer_balance: state.balance_of(payer_account),
            legal_officer_balance: state.balance_of(legal_officer_account),
            treasury_balance: state.balance_of(state.treasury),
        }
    }
}

/// Whether no fee moved since the snapshot was taken: the payer, the legal
/// officer and the treasury all hold what they held.
pub fn check_no_fees(state: &LogionLoc, previous_balances: &BalancesSnapshot) -> (r: bool)
    requires
        state.wf(),
    ensures
        r == (state.spec_balance(previous_balances.payer_account)
            == previous_balances.payer_balance as int && state.spec_balance(
            previous_balances.legal_officer_account,
        ) == previous_balances.legal_officer_balance as int && state.spec_balance(state.treasury)
            == previous_balances.treasury_balance as int),
{
    let payer_now = state.balance_of(previous_balances.payer_account);
    let officer_now = state.balance_of(previous_balances.legal_officer_account);
    let treasury_now = state.balance_of(state.treasury);
    payer_now == previous_balances.payer_balance && officer_now
        == previous_balances.legal_officer_balance && treasury_now
        == previous_balances.treasury_balance
}

} // verus!
