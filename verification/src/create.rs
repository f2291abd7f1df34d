//! Creation: every variant opens a LOC in the open state with empty item
//! lists, registers it in the relevant secondary index, and charges the
//! variant's legal fee.

use vstd::prelude::*;
use crate::data::{
    AccountId, BlockNumber, Error, LegalOfficerCase, LocId, LocType, OtherAccountId, Requester,
    Sponsorship, SponsorshipId, SupportedAccountId,
};
use crate::fees::{IDENTITY_LOC_LEGAL_FEE, OTHER_LOC_LEGAL_FEE};
use crate::state::{LogionLoc, lemma_wf_loc_update, lemma_wf_stores_untouched};

verus! {

/// A record as every creation variant leaves it: open, with empty item
/// lists, and the variant's own identity fields.
pub open spec fn is_fresh_loc(
    loc: LegalOfficerCase,
    owner: AccountId,
    requester: Requester,
    loc_type: LocType,
    collection_last_block_submission: Option<BlockNumber>,
    collection_max_size: Option<u32>,
    collection_can_upload: bool,
    sponsorship_id: Option<SponsorshipId>,
) -> bool {
    &&& loc.owner == owner
    &&& loc.requester == requester
    &&& loc.metadata@ == Seq::<crate::data::MetadataItem>::empty()
    &&& loc.files@ == Seq::<crate::data::File>::empty()
    &&& loc.links@ == Seq::<crate::data::LocLink>::empty()
    &&& loc.closed == false
    &&& loc.loc_type == loc_type
    &&& loc.void_info is None
    &&& loc.replacer_of is None
    &&& loc.collection_last_block_submission == collection_last_block_submission
    &&& loc.collection_max_size == collection_max_size
    &&& loc.collection_can_upload == collection_can_upload
    &&& loc.seal is None
    &&& loc.sponsorship_id == sponsorship_id
}

/// Builds the record every creation variant starts from.
fn fresh_loc(
    owner: AccountId,
    requester: Requester,
    loc_type: LocType,
    collection_last_block_submission: Option<BlockNumber>,
    collection_max_size: Option<u32>,
    collection_can_upload: bool,
    sponsorship_id: Option<SponsorshipId>,
) -> (r: LegalOfficerCase)
    ensures
        is_fresh_loc(
            r,
            owner,
            requester,
            loc_type,
            collection_last_block_submission,
            collection_max_size,
            collection_can_upload,
            sponsorship_id,
        ),
{
    let loc = LegalOfficerCase {
        owner,
        requester,
        metadata: Vec::new(),
        files: Vec::new(),
        closed: false,
        loc_type,
        links: Vec::new(),
        void_info: None,
        replacer_of: None,
        collection_last_block_submission,
        collection_max_size,
        collection_can_upload,
        seal: None,
        sponsorship_id,
    };
    proof {
        assert(loc.metadata@ =~= Seq::<crate::data::MetadataItem>::empty());
        assert(loc.files@ =~= Seq::<crate::data::File>::empty());
        assert(loc.links@ =~= Seq::<crate::data::LocLink>::empty());
    }
    loc
}

impl LogionLoc {
    /// Appends the LOC to the requester account's index, keeping insertion
    /// order.
    fn push_account_loc(&mut self, account: AccountId, loc_id: LocId)
        requires
            old(self).wf(),
        ensures
            final(self).wf(),
            *final(self) == (LogionLoc { account_locs: final(self).account_locs, ..*old(self) }),
            final(self).spec_account_locs(account) == old(self).spec_account_locs(account).push(
                loc_id,
            ),
            forall|a: AccountId|
                a != account ==> final(self).spec_account_locs(a) == old(self).spec_account_locs(a),
    {
        let mut list = match self.account_locs.remove_take(&account) {
            Some(l) => l,
            None => Vec::new(),
        };
        list.push(loc_id);
        self.account_locs.insert(account, list);
        proof {
            lemma_wf_stores_untouched(*old(self), *self);
        }
    }

    /// Appends the LOC to the external account's index, keeping insertion
    /// order.
    fn push_other_account_loc(&mut self, account: OtherAccountId, loc_id: LocId)
        requires
            old(self).wf(),
        ensures
            final(self).wf(),
            *final(self) == (LogionLoc {
                other_account_locs: final(self).other_account_locs,
                ..*old(self)
            }),
            final(self).spec_other_account_locs(account) == old(self).spec_other_account_locs(
                account,
            ).push(loc_id),
            forall|a: OtherAccountId|
                a != account ==> final(self).spec_other_account_locs(a) == old(
                    self,
                ).spec_other_account_locs(a),
    {
        let mut list = match self.other_account_locs.remove_take(&account) {
            Some(l) => l,
            None => Vec::new(),
        };
        list.push(loc_id);
        self.other_account_locs.insert(account, list);
        proof {
            lemma_wf_stores_untouched(*old(self), *self);
        }
    }

    /// Appends the LOC to its parent identity LOC's index, keeping insertion
    /// order.
    fn push_identity_loc_loc(&mut self, identity_loc_id: LocId, loc_id: LocId)
        requires
            old(self).wf(),
        ensures
            final(self).wf(),
            *final(self) == (LogionLoc {
                identity_loc_locs: final(self).identity_loc_locs,
                ..*old(self)
            }),
            final(self).spec_identity_loc_locs(identity_loc_id) == old(
                self,
            ).spec_identity_loc_locs(identity_loc_id).push(loc_id),
            forall|a: LocId|
                a != identity_loc_id ==> final(self).spec_identity_loc_locs(a) == old(
                    self,
                ).spec_identity_loc_locs(a),
    {
        let mut list = match self.identity_loc_locs.remove_take(&identity_loc_id) {
            Some(l) => l,
            None => Vec::new(),
        };
        list.push(loc_id);
        self.identity_loc_locs.insert(identity_loc_id, list);
        proof {
            lemma_wf_stores_untouched(*old(self), *self);
        }
    }

    /// Outcome of creating a network-account LOC: the named legal officer
    /// must be one, the id must be fresh, and the requester must cover the
    /// legal fee.
    pub open spec fn create_polkadot_loc_outcome(
        self,
        requester_account: AccountId,
        loc_id: LocId,
        legal_officer: AccountId,
        legal_fee: int,
    ) -> Result<(), Error> {
        if !self.spec_is_legal_officer(legal_officer) {
            Err(Error::Unauthorized)
        } else if self.has_loc(loc_id) {
            Err(Error::AlreadyExists)
        } else if self.spec_balance(requester_account) < legal_fee {
            Err(Error::InsufficientFunds)
        } else {
            Ok(())
        }
    }

    /// Creates a network-account LOC of the given type: shared path of the
    /// identity, transaction and collection variants.
    fn do_create_polkadot_loc(
        &mut self,
        requester_account: AccountId,
        loc_id: LocId,
        legal_officer: AccountId,
        loc_type: LocType,
        collection_last_block_submission: Option<BlockNumber>,
        collection_max_size: Option<u32>,
        collection_can_upload: bool,
        legal_fee: u128,
        fee_to_officer: bool,
    ) -> (r: Result<(), Error>)
        requires
            old(self).wf(),
        ensures
            final(self).wf(),
            r == old(self).create_polkadot_loc_outcome(
                requester_account,
                loc_id,
                legal_officer,
                legal_fee as int,
            ),
            r is Err ==> *final(self) == *old(self),
            r is Ok ==> ({
                &&& *final(self) == (LogionLoc {
                    locs: final(self).locs,
                    account_locs: final(self).account_locs,
                    balances: final(self).balances,
                    ..*old(self)
                })
                &&& is_fresh_loc(
                    final(self).spec_loc(loc_id),
                    legal_officer,
                    Requester::Account(requester_account),
                    loc_type,
                    collection_last_block_submission,
                    collection_max_size,
                    collection_can_upload,
                    None,
                )
                &&& final(self).locs@ == old(self).locs@.insert(loc_id, final(self).spec_loc(loc_id))
                &&& final(self).spec_account_locs(requester_account) == old(
                    self,
                ).spec_account_locs(requester_account).push(loc_id)
                &&& forall|a: AccountId|
                    a != requester_account ==> final(self).spec_account_locs(a) == old(
                        self,
                    ).spec_account_locs(a)
                &&& ({
                    let beneficiary = if fee_to_officer {
                        legal_officer
                    } else {
                        old(self).treasury
                    };
                    &&& final(self).spec_balance(requester_account) == if requester_account
                        == beneficiary {
                        old(self).spec_balance(requester_account)
                    } else {
                        old(self).spec_balance(requester_account) - legal_fee
                    }
                    &&& requester_account != beneficiary ==> final(self).spec_balance(beneficiary)
                        == crate::fees::sat_add(old(self).spec_balance(beneficiary), legal_fee as int)
                    &&& forall|a: AccountId|
                        a != requester_account && a != beneficiary ==> final(self).spec_balance(a)
                            == old(self).spec_balance(a)
                })
            }),
    {
        if !self.is_legal_officer(legal_officer) {
            return Err(Error::Unauthorized);
        }
        if self.locs.contains_key(&loc_id) {
            return Err(Error::AlreadyExists);
        }
        let beneficiary = if fee_to_officer {
            legal_officer
        } else {
            self.treasury
        };
        match self.charge(requester_account, legal_fee, beneficiary) {
            Err(e) => {
                return Err(e);
            },
            Ok(()) => {},
        }
        let loc = fresh_loc(
            legal_officer,
            Requester::Account(requester_account),
            loc_type,
            collection_last_block_submission,
            collection_max_size,
            collection_can_upload,
            None,
        );
        let ghost created = loc;
        let ghost before_insert = *self;
        self.locs.insert(loc_id, loc);
        proof {
            lemma_wf_loc_update(before_insert, *self, loc_id, created);
        }
        self.push_account_loc(requester_account, loc_id);
        Ok(())
    }

    /// Creates an Identity LOC for a network account; the legal fee goes to
    /// the treasury.
    pub fn create_polkadot_identity_loc(
        &mut self,
        requester_account: AccountId,
        loc_id: LocId,
        legal_officer: AccountId,
    ) -> (r: Result<(), Error>)
        requires
            old(self).wf(),
        ensures
            final(self).wf(),
            r == old(self).create_polkadot_loc_outcome(
                requester_account,
                loc_id,
                legal_officer,
                IDENTITY_LOC_LEGAL_FEE as int,
            ),
            r is Err ==> *final(self) == *old(self),
            r is Ok ==> ({
                &&& *final(self) == (LogionLoc {
                    locs: final(self).locs,
                    account_locs: final(self).account_locs,
                    balances: final(self).balances,
                    ..*old(self)
                })
                &&& is_fresh_loc(
                    final(self).spec_loc(loc_id),
                    legal_officer,
                    Requester::Account(requester_account),
                    LocType::Identity,
                    None,
                    None,
                    false,
                    None,
                )
                &&& final(self).locs@ == old(self).locs@.insert(loc_id, final(self).spec_loc(loc_id))
                &&& final(self).spec_account_locs(requester_account) == old(
                    self,
                ).spec_account_locs(requester_account).push(loc_id)
                &&& forall|a: AccountId|
                    a != requester_account ==> final(self).spec_account_locs(a) == old(
                        self,
                    ).spec_account_locs(a)
                &&& final(self).spec_balance(requester_account) == if requester_account == old(
                    self,
                ).treasury {
                    old(self).spec_balance(requester_account)
                } else {
                    old(self).spec_balance(requester_account) - IDENTITY_LOC_LEGAL_FEE
                }
                &&& requester_account != old(self).treasury ==> final(self).spec_balance(
                    old(self).treasury,
                ) == crate::fees::sat_add(
                    old(self).spec_balance(old(self).treasury),
                    IDENTITY_LOC_LEGAL_FEE as int,
                )
                &&& forall|a: AccountId|
                    a != requester_account && a != old(self).treasury ==> final(self).spec_balance(
                        a,
                    ) == old(self).spec_balance(a)
            }),
    {
        self.do_create_polkadot_loc(
            requester_account,
            loc_id,
            legal_officer,
            LocType::Identity,
            None,
            None,
            false,
            IDENTITY_LOC_LEGAL_FEE,
            false,
        )
    }

    /// Creates a Transaction LOC for a network account; the legal fee goes to
    /// the legal officer.
    pub fn create_polkadot_transaction_loc(
        &mut self,
        requester_account: AccountId,
        loc_id: LocId,
        legal_officer: AccountId,
    ) -> (r: Result<(), Error>)
        requires
            old(self).wf(),
        ensures
            final(self).wf(),
            r == old(self).create_polkadot_loc_outcome(
                requester_account,
                loc_id,
                legal_officer,
                OTHER_LOC_LEGAL_FEE as int,
            ),
            r is Err ==> *final(self) == *old(self),
            r is Ok ==> ({
                &&& *final(self) == (LogionLoc {
                    locs: final(self).locs,
                    account_locs: final(self).account_locs,
                    balances: final(self).balances,
                    ..*old(self)
                })
                &&& is_fresh_loc(
                    final(self).spec_loc(loc_id),
                    legal_officer,
                    Requester::Account(requester_account),
                    LocType::Transaction,
                    None,
                    None,
                    false,
                    None,
                )
                &&& final(self).locs@ == old(self).locs@.insert(loc_id, final(self).spec_loc(loc_id))
                &&& final(self).spec_account_locs(requester_account) == old(
                    self,
                ).spec_account_locs(requester_account).push(loc_id)
                &&& forall|a: AccountId|
                    a != requester_account ==> final(self).spec_account_locs(a) == old(
                        self,
                    ).spec_account_locs(a)
                &&& final(self).spec_balance(requester_account) == if requester_account
                    == legal_officer {
                    old(self).spec_balance(requester_account)
                } else {
                    old(self).spec_balance(requester_account) - OTHER_LOC_LEGAL_FEE
                }
                &&& requester_account != legal_officer ==> final(self).spec_balance(legal_officer)
                    == crate::fees::sat_add(
                    old(self).spec_balance(legal_officer),
                    OTHER_LOC_LEGAL_FEE as int,
                )
                &&& forall|a: AccountId|
                    a != requester_account && a != legal_officer ==> final(self).spec_balance(a)
                        == old(self).spec_balance(a)
            }),
    {
        self.do_create_polkadot_loc(
            requester_account,
            loc_id,
            legal_officer,
            LocType::Transaction,
            None,
            None,
            false,
            OTHER_LOC_LEGAL_FEE,
            true,
        )
    }

    /// Outcome of creating a Collection LOC: as for any network-account LOC,
    /// and at least one of the two collection limits must be set.
    pub open spec fn create_collection_loc_outcome(
        self,
        requester_account: AccountId,
        loc_id: LocId,
        legal_officer: AccountId,
        collection_last_block_submission: Option<BlockNumber>,
        collection_max_size: Option<u32>,
    ) -> Result<(), Error> {
        if !self.spec_is_legal_officer(legal_officer) {
            Err(Error::Unauthorized)
        } else if collection_last_block_submission is None && collection_max_size is None {
            Err(Error::CollectionHasNoLimit)
        } else if self.has_loc(loc_id) {
            Err(Error::AlreadyExists)
        } else if self.spec_balance(requester_account) < OTHER_LOC_LEGAL_FEE {
            Err(Error::InsufficientFunds)
        } else {
            Ok(())
        }
    }

    /// Creates a Collection LOC; it needs a size or block limit, and its
    /// legal fee goes to the legal officer.
    pub fn create_collection_loc(
        &mut self,
        requester_account: AccountId,
        loc_id: LocId,
        legal_officer: AccountId,
        collection_last_block_submission: Option<BlockNumber>,
        collection_max_size: Option<u32>,
        collection_can_upload: bool,
    ) -> (r: Result<(), Error>)
        requires
            old(self).wf(),
        ensures
            final(self).wf(),
            r == old(self).create_collection_loc_outcome(
                requester_account,
                loc_id,
                legal_officer,
                collection_last_block_submission,
                collection_max_size,
            ),
            r is Err ==> *final(self) == *old(self),
            r is Ok ==> ({
                &&& *final(self) == (LogionLoc {
                    locs: final(self).locs,
                    account_locs: final(self).account_locs,
                    balances: final(self).balances,
                    ..*old(self)
                })
                &&& is_fresh_loc(
                    final(self).spec_loc(loc_id),
                    legal_officer,
                    Requester::Account(requester_account),
                    LocType::Collection,
                    collection_last_block_submission,
                    collection_max_size,
                    collection_can_upload,
                    None,
                )
                &&& final(self).locs@ == old(self).locs@.insert(loc_id, final(self).spec_loc(loc_id))
                &&& final(self).spec_account_locs(requester_account) == old(
                    self,
                ).spec_account_locs(requester_account).push(loc_id)
                &&& forall|a: AccountId|
                    a != requester_account ==> final(self).spec_account_locs(a) == old(
                        self,
                    ).spec_account_locs(a)
                &&& final(self).spec_balance(requester_account) == if requester_account
                    == legal_officer {
                    old(self).spec_balance(requester_account)
                } else {
                    old(self).spec_balance(requester_account) - OTHER_LOC_LEGAL_FEE
                }
                &&& requester_account != legal_officer ==> final(self).spec_balance(legal_officer)
                    == crate::fees::sat_add(
                    old(self).spec_balance(legal_officer),
                    OTHER_LOC_LEGAL_FEE as int,
                )
                &&& forall|a: AccountId|
                    a != requester_account && a != legal_officer ==> final(self).spec_balance(a)
                        == old(self).spec_balance(a)
            }),
    {
        if !self.is_legal_officer(legal_officer) {
            return Err(Error::Unauthorized);
        }
        if collection_last_block_submission.is_none() && collection_max_size.is_none() {
            return Err(Error::CollectionHasNoLimit);
        }
        self.do_create_polkadot_loc(
            requester_account,
            loc_id,
            legal_officer,
            LocType::Collection,
            collection_last_block_submission,
            collection_max_size,
            collection_can_upload,
            OTHER_LOC_LEGAL_FEE,
            true,
        )
    }

    /// Outcome of a legal officer opening an Identity LOC with no requester.
    pub open spec fn create_logion_identity_loc_outcome(
        self,
        caller: AccountId,
        loc_id: LocId,
    ) -> Result<(), Error> {
        if !self.spec_is_legal_officer(caller) {
            Err(Error::BadOrigin)
        } else if self.has_loc(loc_id) {
            Err(Error::AlreadyExists)
        } else {
            Ok(())
        }
    }

    /// A legal officer opens an Identity LOC with no requester; no fee is
    /// charged.
    pub fn create_logion_identity_loc(&mut self, caller: AccountId, loc_id: LocId) -> (r: Result<
        (),
        Error,
    >)
        requires
            old(self).wf(),
        ensures
            final(self).wf(),
            r == old(self).create_logion_identity_loc_outcome(caller, loc_id),
            r is Err ==> *final(self) == *old(self),
            r is Ok ==> ({
                &&& *final(self) == (LogionLoc { locs: final(self).locs, ..*old(self) })
                &&& is_fresh_loc(
                    final(self).spec_loc(loc_id),
                    caller,
                    Requester::NoRequester,
                    LocType::Identity,
                    None,
                    None,
                    false,
                    None,
                )
                &&& final(self).locs@ == old(self).locs@.insert(loc_id, final(self).spec_loc(loc_id))
            }),
    {
        if !self.is_legal_officer(caller) {
            return Err(Error::BadOrigin);
        }
        if self.locs.contains_key(&loc_id) {
            return Err(Error::AlreadyExists);
        }
        let loc = fresh_loc(caller, Requester::NoRequester, LocType::Identity, None, None, false, None);
        let ghost created = loc;
        self.locs.insert(loc_id, loc);
        proof {
            lemma_wf_loc_update(*old(self), *self, loc_id, created);
        }
        Ok(())
    }

    /// The identity LOC a logion Transaction LOC may name as its requester:
    /// a closed, non-void, requester-less Identity LOC of the same officer.
    pub open spec fn spec_valid_logion_identity(self, caller: AccountId, id: LocId) -> bool {
        &&& self.has_loc(id)
        &&& self.spec_loc(id).loc_type == LocType::Identity
        &&& self.spec_loc(id).requester == Requester::NoRequester
        &&& self.spec_loc(id).closed
        &&& self.spec_loc(id).void_info is None
        &&& self.spec_loc(id).owner == caller
    }

    /// Outcome of a legal officer opening a Transaction LOC on behalf of a
    /// logion identity LOC.
    pub open spec fn create_logion_transaction_loc_outcome(
        self,
        caller: AccountId,
        loc_id: LocId,
        requester_loc_id: LocId,
    ) -> Result<(), Error> {
        if !self.spec_is_legal_officer(caller) {
            Err(Error::BadOrigin)
        } else if self.has_loc(loc_id) {
            Err(Error::AlreadyExists)
        } else if !self.spec_valid_logion_identity(caller, requester_loc_id) {
            Err(Error::UnexpectedRequester)
        } else {
            Ok(())
        }
    }

    /// A legal officer opens a Transaction LOC whose requester is one of the
    /// officer's closed logion identity LOCs; no fee is charged.
    pub fn create_logion_transaction_loc(
        &mut self,
        caller: AccountId,
        loc_id: LocId,
        requester_loc_id: LocId,
    ) -> (r: Result<(), Error>)
        requires
            old(self).wf(),
        ensures
            final(self).wf(),
            r == old(self).create_logion_transaction_loc_outcome(caller, loc_id, requester_loc_id),
            r is Err ==> *final(self) == *old(self),
            r is Ok ==> ({
                &&& *final(self) == (LogionLoc {
                    locs: final(self).locs,
                    identity_loc_locs: final(self).identity_loc_locs,
                    ..*old(self)
                })
                &&& is_fresh_loc(
                    final(self).spec_loc(loc_id),
                    caller,
                    Requester::Loc(requester_loc_id),
                    LocType::Transaction,
                    None,
                    None,
                    false,
                    None,
                )
                &&& final(self).locs@ == old(self).locs@.insert(loc_id, final(self).spec_loc(loc_id))
                &&& final(self).spec_identity_loc_locs(requester_loc_id) == old(
                    self,
                ).spec_identity_loc_locs(requester_loc_id).push(loc_id)
                &&& forall|a: LocId|
                    a != requester_loc_id ==> final(self).spec_identity_loc_locs(a) == old(
                        self,
                    ).spec_identity_loc_locs(a)
            }),
    {
        if !self.is_legal_officer(caller) {
            return Err(Error::BadOrigin);
        }
        if self.locs.contains_key(&loc_id) {
            return Err(Error::AlreadyExists);
        }
        let valid = match self.locs.get(&requester_loc_id) {
            None => false,
            Some(identity_loc) => matches!(identity_loc.loc_type, LocType::Identity) && matches!(
                identity_loc.requester,
                Requester::NoRequester,
            ) && identity_loc.closed && identity_loc.void_info.is_none() && identity_loc.owner
                == caller,
        };
        if !valid {
            return Err(Error::UnexpectedRequester);
        }
        let loc = fresh_loc(
            caller,
            Requester::Loc(requester_loc_id),
            LocType::Transaction,
            None,
            None,
            false,
            None,
        );
        let ghost created = loc;
        self.locs.insert(loc_id, loc);
        proof {
            lemma_wf_loc_update(*old(self), *self, loc_id, created);
        }
        self.push_identity_loc_loc(requester_loc_id, loc_id);
        Ok(())
    }

    /// Outcome of creating an Identity LOC for an externally-owned account:
    /// the sponsorship must exist, name exactly this account and officer, and
    /// be unconsumed; the sponsor covers the legal fee.
    pub open spec fn create_other_identity_loc_outcome(
        self,
        caller: AccountId,
        loc_id: LocId,
        requester_account_id: OtherAccountId,
        sponsorship_id: SponsorshipId,
    ) -> Result<(), Error> {
        if !self.spec_is_legal_officer(caller) {
            Err(Error::BadOrigin)
        } else if self.has_loc(loc_id) {
            Err(Error::AlreadyExists)
        } else if self.spec_sponsorship(sponsorship_id) is None {
            Err(Error::NotFound)
        } else if ({
            let s = self.spec_sponsorship(sponsorship_id).unwrap();
            s.sponsored_account != SupportedAccountId::Other(requester_account_id)
                || s.legal_officer != caller || s.loc_id is Some
        }) {
            Err(Error::CannotLinkToSponsorship)
        } else if self.spec_balance(self.spec_sponsorship(sponsorship_id).unwrap().sponsor)
            < IDENTITY_LOC_LEGAL_FEE {
            Err(Error::InsufficientFunds)
        } else {
            Ok(())
        }
    }

    /// A legal officer opens an Identity LOC for an externally-owned account,
    /// consuming the named sponsorship atomically; the sponsor pays the legal
    /// fee, which goes to the treasury.
    pub fn create_other_identity_loc(
        &mut self,
        caller: AccountId,
        loc_id: LocId,
        requester_account_id: OtherAccountId,
        sponsorship_id: SponsorshipId,
    ) -> (r: Result<(), Error>)
        requires
            old(self).wf(),
        ensures
            final(self).wf(),
            r == old(self).create_other_identity_loc_outcome(
                caller,
                loc_id,
                requester_account_id,
                sponsorship_id,
            ),
            r is Err ==> *final(self) == *old(self),
            r is Ok ==> ({
                let sponsor = old(self).spec_sponsorship(sponsorship_id).unwrap().sponsor;
                &&& *final(self) == (LogionLoc {
                    locs: final(self).locs,
                    other_account_locs: final(self).other_account_locs,
                    sponsorships: final(self).sponsorships,
                    balances: final(self).balances,
                    ..*old(self)
                })
                &&& is_fresh_loc(
                    final(self).spec_loc(loc_id),
                    caller,
                    Requester::OtherAccount(requester_account_id),
                    LocType::Identity,
                    None,
                    None,
                    false,
                    Some(sponsorship_id),
                )
                &&& final(self).locs@ == old(self).locs@.insert(loc_id, final(self).spec_loc(loc_id))
                &&& final(self).spec_other_account_locs(requester_account_id) == old(
                    self,
                ).spec_other_account_locs(requester_account_id).push(loc_id)
                &&& forall|a: OtherAccountId|
                    a != requester_account_id ==> final(self).spec_other_account_locs(a) == old(
                        self,
                    ).spec_other_account_locs(a)
                &&& final(self).sponsorships@ == old(self).sponsorships@.insert(
                    sponsorship_id,
                    (Sponsorship {
                        loc_id: Some(loc_id),
                        ..old(self).spec_sponsorship(sponsorship_id).unwrap()
                    }),
                )
                &&& final(self).spec_balance(sponsor) == if sponsor == old(self).treasury {
                    old(self).spec_balance(sponsor)
                } else {
                    old(self).spec_balance(sponsor) - IDENTITY_LOC_LEGAL_FEE
                }
                &&& sponsor != old(self).treasury ==> final(self).spec_balance(old(self).treasury)
                    == crate::fees::sat_add(
                    old(self).spec_balance(old(self).treasury),
                    IDENTITY_LOC_LEGAL_FEE as int,
                )
                &&& forall|a: AccountId|
                    a != sponsor && a != old(self).treasury ==> final(self).spec_balance(a) == old(
                        self,
                    ).spec_balance(a)
            }),
    {
        if !self.is_legal_officer(caller) {
            return Err(Error::BadOrigin);
        }
        if self.locs.contains_key(&loc_id) {
            return Err(Error::AlreadyExists);
        }
        let sponsor = match self.sponsorships.get(&sponsorship_id) {
            None => {
                return Err(Error::NotFound);
            },
            Some(s) => {
                let matches_account = match (s.sponsored_account, requester_account_id) {
                    (
                        SupportedAccountId::Other(OtherAccountId::Ethereum(a)),
                        OtherAccountId::Ethereum(b),
                    ) => a == b,
                    _ => false,
                };
                if !matches_account || s.legal_officer != caller || s.loc_id.is_some() {
                    return Err(Error::CannotLinkToSponsorship);
                }
                s.sponsor
            },
        };
        let treasury = self.treasury;
        match self.charge(sponsor, IDENTITY_LOC_LEGAL_FEE, treasury) {
            Err(e) => {
                return Err(e);
            },
            Ok(()) => {},
        }
        let loc = fresh_loc(
            caller,
            Requester::OtherAccount(requester_account_id),
            LocType::Identity,
            None,
            None,
            false,
            Some(sponsorship_id),
        );
        let ghost created = loc;
        let ghost before_insert = *self;
        self.locs.insert(loc_id, loc);
        proof {
            lemma_wf_loc_update(before_insert, *self, loc_id, created);
        }
        let ghost before_push = *self;
        self.push_other_account_loc(requester_account_id, loc_id);
        proof {
            assert(before_push.other_account_locs == old(self).other_account_locs);
            assert forall|a: OtherAccountId| a != requester_account_id implies self
                .spec_other_account_locs(a) == old(self).spec_other_account_locs(a) by {
                assert(self.spec_other_account_locs(a) == before_push.spec_other_account_locs(a));
            }
        }
        let ghost after_push = *self;
        let mut sponsorship = self.sponsorships.remove_take(&sponsorship_id).unwrap();
        sponsorship.loc_id = Some(loc_id);
        let ghost consumed = sponsorship;
        let ghost before_sponsorship = *self;
        self.sponsorships.insert(sponsorship_id, sponsorship);
        proof {
            assert(final(self).sponsorships@ =~= before_sponsorship.sponsorships@.insert(
                sponsorship_id,
                consumed,
            ));
            lemma_wf_stores_untouched(before_sponsorship, *self);
            assert(final(self).sponsorships@ =~= old(self).sponsorships@.insert(
                sponsorship_id,
                consumed,
            ));
            assert(self.other_account_locs == after_push.other_account_locs);
            assert forall|a: OtherAccountId| a != requester_account_id implies self
                .spec_other_account_locs(a) == old(self).spec_other_account_locs(a) by {
                assert(after_push.spec_other_account_locs(a) == old(self).spec_other_account_locs(
                    a,
                ));
            }
        }
        Ok(())
    }
}

} // verus!
