//! Collection semantics: items and tokens records of a closed Collection
//! LOC, with capacity limits, shape checks, terms-and-conditions
//! cross-references and storage fees.

use vstd::prelude::*;
use crate::data::{
    AccountId, CollectionItem, CollectionItemFile, CollectionItemToken, Error, H256, LocId,
    LocType, Requester, TermsAndConditionsElement, TokensRecord, TokensRecordFile,
};
use crate::fees::{
    FILE_STORAGE_BYTE_FEE, checked_add_u128, checked_mul_u128, spec_certificate_fee,
    spec_storage_fee, certificate_fee,
};
use crate::state::{LogionLoc, lemma_wf_collections_update};
use crate::store::AssocMap;

verus! {

/// The most files one tokens record may carry.
pub const MAX_TOKENS_RECORD_FILES: usize = 255;

/// Two collection-item files share a hash.
pub open spec fn has_duplicate_item_file(files: Seq<CollectionItemFile>) -> bool {
    exists|i: int, j: int| 0 <= i < j < files.len() && files[i].hash == files[j].hash
}

/// Two tokens-record files share a hash.
pub open spec fn has_duplicate_record_file(files: Seq<TokensRecordFile>) -> bool {
    exists|i: int, j: int| 0 <= i < j < files.len() && files[i].hash == files[j].hash
}

/// The declared sizes of the files, summed.
pub open spec fn spec_item_files_size(files: Seq<CollectionItemFile>) -> int
    decreases files.len(),
{
    if files.len() == 0 {
        0
    } else {
        spec_item_files_size(files.drop_last()) + files.last().size
    }
}

/// The declared sizes of the files, summed.
pub open spec fn spec_record_files_size(files: Seq<TokensRecordFile>) -> int
    decreases files.len(),
{
    if files.len() == 0 {
        0
    } else {
        spec_record_files_size(files.drop_last()) + files.last().size
    }
}

/// Whether no two of the files share a hash.
fn item_files_distinct(files: &Vec<CollectionItemFile>) -> (r: bool)
    ensures
        r == !has_duplicate_item_file(files@),
{
    let n = files.len();
    for i in 0..n
        invariant
            n == files@.len(),
            forall|a: int, b: int| 0 <= a < b < i ==> files@[a].hash != files@[b].hash,
    {
        for j in 0..i
            invariant
                n == files@.len(),
                i < n,
                forall|a: int, b: int| 0 <= a < b < i ==> files@[a].hash != files@[b].hash,
                forall|a: int| 0 <= a < j ==> files@[a].hash != files@[i as int].hash,
        {
            if files[j].hash == files[i].hash {
                return false;
            }
        }
    }
    true
}

/// Whether no two of the files share a hash.
fn record_files_distinct(files: &Vec<TokensRecordFile>) -> (r: bool)
    ensures
        r == !has_duplicate_record_file(files@),
{
    let n = files.len();
    for i in 0..n
        invariant
            n == files@.len(),
            forall|a: int, b: int| 0 <= a < b < i ==> files@[a].hash != files@[b].hash,
    {
        for j in 0..i
            invariant
                n == files@.len(),
                i < n,
                forall|a: int, b: int| 0 <= a < b < i ==> files@[a].hash != files@[b].hash,
                forall|a: int| 0 <= a < j ==> files@[a].hash != files@[i as int].hash,
        {
            if files[j].hash == files[i].hash {
                return false;
            }
        }
    }
    true
}

/// Sums the declared sizes; the result stays far under the ledger's range.
fn item_files_total_size(files: &Vec<CollectionItemFile>) -> (r: u128)
    ensures
        r == spec_item_files_size(files@),
{
    let n = files.len();
    let mut tot: u128 = 0;
    for i in 0..n
        invariant
            n == files@.len(),
            tot == spec_item_files_size(files@.take(i as int)),
            tot <= i * (u32::MAX as int),
    {
        proof {
            assert(files@.take(i + 1).drop_last() =~= files@.take(i as int));
            assert(files@.take(i + 1).last() == files@[i as int]);
        }
        tot = tot + (files[i].size as u128);
    }
    proof {
        assert(files@.take(n as int) =~= files@);
    }
    tot
}

/// Sums the declared sizes; the result stays far under the ledger's range.
fn record_files_total_size(files: &Vec<TokensRecordFile>) -> (r: u128)
    ensures
        r == spec_record_files_size(files@),
{
    let n = files.len();
    let mut tot: u128 = 0;
    for i in 0..n
        invariant
            n == files@.len(),
            tot == spec_record_files_size(files@.take(i as int)),
            tot <= i * (u32::MAX as int),
    {
        proof {
            assert(files@.take(i + 1).drop_last() =~= files@.take(i as int));
            assert(files@.take(i + 1).last() == files@[i as int]);
        }
        tot = tot + (files[i].size as u128);
    }
    proof {
        assert(files@.take(n as int) =~= files@);
    }
    tot
}

/// The storage fee of a batch whose entry count and total size are already
/// known to be modest, reported as out of range when it is not.
fn batch_storage_fee(entries: usize, tot_size: u128) -> (r: Option<u128>)
    ensures
        match r {
            Some(v) => v == spec_storage_fee(entries as int, tot_size as int),
            None => spec_storage_fee(entries as int, tot_size as int) > u128::MAX,
        },
{
    let base = (entries as u128) * crate::fees::FILE_STORAGE_ENTRY_FEE;
    match checked_mul_u128(tot_size, FILE_STORAGE_BYTE_FEE) {
        None => None,
        Some(bytes) => checked_add_u128(base, bytes),
    }
}

impl LogionLoc {
    /// Items may only be added to an existing, closed, non-void Collection
    /// LOC, and only by its network-account requester.
    pub open spec fn spec_can_add_collection_item(self, caller: AccountId, loc_id: LocId) -> bool {
        &&& self.has_loc(loc_id)
        &&& self.spec_loc(loc_id).loc_type == LocType::Collection
        &&& self.spec_loc(loc_id).closed
        &&& self.spec_loc(loc_id).void_info is None
        &&& self.spec_loc(loc_id).requester == Requester::Account(caller)
    }

    /// A collection limit is hit: the size limit would be exceeded, or the
    /// block limit has passed.
    pub open spec fn spec_collection_limits_reached(self, loc_id: LocId) -> bool {
        ||| (self.spec_loc(loc_id).collection_max_size is Some && self.spec_collection_size(loc_id)
            + 1 > self.spec_loc(loc_id).collection_max_size.unwrap())
        ||| (self.spec_loc(loc_id).collection_last_block_submission is Some && self.block_number
            > self.spec_loc(loc_id).collection_last_block_submission.unwrap())
    }

    /// One terms-and-conditions reference must name an existing, closed,
    /// non-void LOC.
    pub open spec fn spec_term_check(self, t: TermsAndConditionsElement) -> Result<(), Error> {
        if !self.has_loc(t.tc_loc) {
            Err(Error::TermsAndConditionsLocNotFound)
        } else if self.spec_loc(t.tc_loc).void_info is Some {
            Err(Error::TermsAndConditionsLocVoid)
        } else if !self.spec_loc(t.tc_loc).closed {
            Err(Error::TermsAndConditionsLocNotClosed)
        } else {
            Ok(())
        }
    }

    /// The first failing terms-and-conditions reference from `i` on, if any.
    pub open spec fn spec_terms_check_from(
        self,
        terms: Seq<TermsAndConditionsElement>,
        i: int,
    ) -> Result<(), Error>
        decreases terms.len() - i,
    {
        if i < 0 || i >= terms.len() {
            Ok(())
        } else if self.spec_term_check(terms[i]) is Err {
            self.spec_term_check(terms[i])
        } else {
            self.spec_terms_check_from(terms, i + 1)
        }
    }

    fn check_term(&self, t: &TermsAndConditionsElement) -> (r: Result<(), Error>)
        requires
            self.wf(),
        ensures
            r == self.spec_term_check(*t),
    {
        match self.locs.get(&t.tc_loc) {
            None => Err(Error::TermsAndConditionsLocNotFound),
            Some(l) => {
                if l.void_info.is_some() {
                    Err(Error::TermsAndConditionsLocVoid)
                } else if !l.closed {
                    Err(Error::TermsAndConditionsLocNotClosed)
                } else {
                    Ok(())
                }
            },
        }
    }

    /// The storage fee owed for the item's files plus the certificate fee
    /// owed for its token, if any.
    pub open spec fn spec_item_fee(
        item_files: Seq<CollectionItemFile>,
        item_token: Option<CollectionItemToken>,
    ) -> int {
        spec_storage_fee(item_files.len() as int, spec_item_files_size(item_files)) + (
        match item_token {
            Some(t) => spec_certificate_fee(t.token_issuance as int),
            None => 0,
        })
    }

    /// Which outcome adding a collection item must take, checking the
    /// collection's shape, its limits, the item's shape, the
    /// terms-and-conditions references and the requester's funds, in order.
    pub open spec fn add_collection_item_outcome(
        self,
        caller: AccountId,
        collection_loc_id: LocId,
        item_id: H256,
        item_files: Seq<CollectionItemFile>,
        item_token: Option<CollectionItemToken>,
        restricted_delivery: bool,
        terms_and_conditions: Seq<TermsAndConditionsElement>,
    ) -> Result<(), Error> {
        if !self.spec_can_add_collection_item(caller, collection_loc_id) {
            Err(Error::WrongCollectionLoc)
        } else if self.spec_collection_limits_reached(collection_loc_id) {
            Err(Error::CollectionLimitsReached)
        } else if self.spec_collection_item(collection_loc_id, item_id) is Some {
            Err(Error::CollectionItemAlreadyExists)
        } else if item_files.len() > 0 && !self.spec_loc(collection_loc_id).collection_can_upload {
            Err(Error::CannotUpload)
        } else if item_token is Some && item_files.len() == 0 {
            Err(Error::MissingFiles)
        } else if item_token is Some && item_token.unwrap().token_issuance == 0 {
            Err(Error::BadTokenIssuance)
        } else if restricted_delivery && item_token is None {
            Err(Error::MissingToken)
        } else if has_duplicate_item_file(item_files) {
            Err(Error::DuplicateFile)
        } else if Self::spec_terms_check_from(self, terms_and_conditions, 0) is Err {
            Self::spec_terms_check_from(self, terms_and_conditions, 0)
        } else if self.spec_balance(caller) < Self::spec_item_fee(item_files, item_token) {
            Err(Error::InsufficientFunds)
        } else {
            Ok(())
        }
    }

    /// Adds an item to a closed Collection LOC; storage fees for its files
    /// and the certificate fee for its token are charged to the requester.
    #[verifier::loop_isolation(false)]
    pub fn add_collection_item(
        &mut self,
        caller: AccountId,
        collection_loc_id: LocId,
        item_id: H256,
        item_description: H256,
        item_files: Vec<CollectionItemFile>,
        item_token: Option<CollectionItemToken>,
        restricted_delivery: bool,
        terms_and_conditions: Vec<TermsAndConditionsElement>,
    ) -> (r: Result<(), Error>)
        requires
            old(self).wf(),
        ensures
            final(self).wf(),
            r == old(self).add_collection_item_outcome(
                caller,
                collection_loc_id,
                item_id,
                item_files@,
                item_token,
                restricted_delivery,
                terms_and_conditions@,
            ),
            r is Err ==> *final(self) == *old(self),
            r is Ok ==> ({
                let fee = Self::spec_item_fee(item_files@, item_token);
                &&& *final(self) == (LogionLoc {
                    collection_items: final(self).collection_items,
                    balances: final(self).balances,
                    ..*old(self)
                })
                &&& final(self).spec_collection_item(collection_loc_id, item_id) is Some
                &&& ({
                    let it = final(self).spec_collection_item(collection_loc_id, item_id).unwrap();
                    &&& it.description == item_description
                    &&& it.files == item_files
                    &&& it.token == item_token
                    &&& it.restricted_delivery == restricted_delivery
                    &&& it.terms_and_conditions == terms_and_conditions
                })
                &&& final(self).spec_collection_size(collection_loc_id) == old(
                    self,
                ).spec_collection_size(collection_loc_id) + 1
                &&& forall|h: H256|
                    h != item_id ==> final(self).spec_collection_item(collection_loc_id, h) == old(
                        self,
                    ).spec_collection_item(collection_loc_id, h)
                &&& forall|l: LocId|
                    l != collection_loc_id ==> final(self).spec_collection_size(l) == old(
                        self,
                    ).spec_collection_size(l)
                &&& forall|l: LocId, h: H256|
                    l != collection_loc_id ==> final(self).spec_collection_item(l, h) == old(
                        self,
                    ).spec_collection_item(l, h)
                &&& final(self).spec_balance(caller) == if caller == old(self).treasury {
                    old(self).spec_balance(caller)
                } else {
                    old(self).spec_balance(caller) - fee
                }
                &&& caller != old(self).treasury ==> final(self).spec_balance(old(self).treasury)
                    == crate::fees::sat_add(old(self).spec_balance(old(self).treasury), fee)
                &&& forall|a: AccountId|
                    a != caller && a != old(self).treasury ==> final(self).spec_balance(a) == old(
                        self,
                    ).spec_balance(a)
            }),
    {
        let can_add = match self.locs.get(&collection_loc_id) {
            None => false,
            Some(loc) => matches!(loc.loc_type, LocType::Collection) && loc.closed
                && loc.void_info.is_none() && match loc.requester {
                Requester::Account(a) => a == caller,
                _ => false,
            },
        };
        if !can_add {
            return Err(Error::WrongCollectionLoc);
        }
        let size = self.collection_size_or_zero(collection_loc_id);
        let limits_reached = {
            let entry = self.locs.get(&collection_loc_id).unwrap();
            (match entry.collection_max_size {
                Some(max) => size >= max as usize,
                None => false,
            }) || (match entry.collection_last_block_submission {
                Some(last) => self.block_number > last,
                None => false,
            })
        };
        if limits_reached {
            return Err(Error::CollectionLimitsReached);
        }
        if self.collection_item_exists(collection_loc_id, &item_id) {
            return Err(Error::CollectionItemAlreadyExists);
        }
        let can_upload = self.locs.get(&collection_loc_id).unwrap().collection_can_upload;
        if item_files.len() > 0 && !can_upload {
            return Err(Error::CannotUpload);
        }
        match &item_token {
            Some(t) => {
                if item_files.len() == 0 {
                    return Err(Error::MissingFiles);
                }
                if t.token_issuance == 0 {
                    return Err(Error::BadTokenIssuance);
                }
            },
            None => {
                if restricted_delivery {
                    return Err(Error::MissingToken);
                }
            },
        }
        if !item_files_distinct(&item_files) {
            return Err(Error::DuplicateFile);
        }
        let n_terms = terms_and_conditions.len();
        for i in 0..n_terms
            invariant
                self.wf(),
                *self == *old(self),
                n_terms == terms_and_conditions@.len(),
                Self::spec_terms_check_from(*self, terms_and_conditions@, 0)
                    == Self::spec_terms_check_from(*self, terms_and_conditions@, i as int),
        {
            match self.check_term(&terms_and_conditions[i]) {
                Err(e) => {
                    proof {
                        assert(Self::spec_terms_check_from(*self, terms_and_conditions@, i as int)
                            == Err::<(), Error>(e));
                        assert(Self::spec_terms_check_from(*self, terms_and_conditions@, 0)
                            == Err::<(), Error>(e));
                    }
                    return Err(e);
                },
                Ok(()) => {
                    proof {
                        assert(Self::spec_terms_check_from(*self, terms_and_conditions@, i as int)
                            == Self::spec_terms_check_from(*self, terms_and_conditions@, i + 1));
                    }
                },
            }
        }
        let tot_size = item_files_total_size(&item_files);
        let cert = match &item_token {
            Some(t) => certificate_fee(t.token_issuance),
            None => 0,
        };
        let fee = match batch_storage_fee(item_files.len(), tot_size) {
            None => {
                return Err(Error::InsufficientFunds);
            },
            Some(storage) => match checked_add_u128(storage, cert) {
                None => {
                    return Err(Error::InsufficientFunds);
                },
                Some(f) => f,
            },
        };
        let treasury = self.treasury;
        match self.charge(caller, fee, treasury) {
            Err(e) => {
                return Err(e);
            },
            Ok(()) => {},
        }
        let ghost after_charge = *self;
        let mut inner = match self.collection_items.remove_take(&collection_loc_id) {
            Some(m) => m,
            None => AssocMap::new(),
        };
        let ghost inner0 = inner;
        inner.insert(
            item_id,
            CollectionItem {
                description: item_description,
                files: item_files,
                token: item_token,
                restricted_delivery,
                terms_and_conditions,
            },
        );
        let ghost inner1 = inner;
        self.collection_items.insert(collection_loc_id, inner);
        proof {
            assert(final(self).collection_items@ =~= old(self).collection_items@.insert(
                collection_loc_id,
                inner1,
            ));
            assert forall|id: LocId| self.collection_items@.dom().contains(id) implies self
                .collection_items@[id].wf() by {
                if id != collection_loc_id {
                    assert(old(self).collection_items@.dom().contains(id));
                    assert(self.collection_items@[id] == old(self).collection_items@[id]);
                }
            }
            lemma_wf_collections_update(after_charge, *self);
            assert(inner1@.dom() =~= inner0@.dom().insert(item_id));
            if old(self).collection_items@.dom().contains(collection_loc_id) {
                assert(old(self).collection_items@[collection_loc_id].wf());
                crate::store::lemma_map_card(inner0.entries());
            } else {
                assert(inner0@.dom() =~= Set::<H256>::empty());
            }
        }
        Ok(())
    }

    /// Alias kept for callers that name the full operation: identical to
    /// `add_collection_item`.
    pub fn add_collection_item_with_terms_and_conditions(
        &mut self,
        caller: AccountId,
        collection_loc_id: LocId,
        item_id: H256,
        item_description: H256,
        item_files: Vec<CollectionItemFile>,
        item_token: Option<CollectionItemToken>,
        restricted_delivery: bool,
        terms_and_conditions: Vec<TermsAndConditionsElement>,
    ) -> (r: Result<(), Error>)
        requires
            old(self).wf(),
        ensures
            final(self).wf(),
            r == old(self).add_collection_item_outcome(
                caller,
                collection_loc_id,
                item_id,
                item_files@,
                item_token,
                restricted_delivery,
                terms_and_conditions@,
            ),
            r is Err ==> *final(self) == *old(self),
            r is Ok ==> ({
                &&& *final(self) == (LogionLoc {
                    collection_items: final(self).collection_items,
                    balances: final(self).balances,
                    ..*old(self)
                })
                &&& final(self).spec_collection_item(collection_loc_id, item_id) is Some
                &&& ({
                    let it = final(self).spec_collection_item(collection_loc_id, item_id).unwrap();
                    &&& it.description == item_description
                    &&& it.files == item_files
                    &&& it.token == item_token
                    &&& it.restricted_delivery == restricted_delivery
                    &&& it.terms_and_conditions == terms_and_conditions
                })
                &&& final(self).spec_collection_size(collection_loc_id) == old(
                    self,
                ).spec_collection_size(collection_loc_id) + 1
                &&& ({
                    let fee = Self::spec_item_fee(item_files@, item_token);
                    &&& final(self).spec_balance(caller) == if caller == old(self).treasury {
                        old(self).spec_balance(caller)
                    } else {
                        old(self).spec_balance(caller) - fee
                    }
                    &&& caller != old(self).treasury ==> final(self).spec_balance(
                        old(self).treasury,
                    ) == crate::fees::sat_add(old(self).spec_balance(old(self).treasury), fee)
                    &&& forall|a: AccountId|
                        a != caller && a != old(self).treasury ==> final(self).spec_balance(a)
                            == old(self).spec_balance(a)
                })
            }),
    {
        self.add_collection_item(
            caller,
            collection_loc_id,
            item_id,
            item_description,
            item_files,
            item_token,
            restricted_delivery,
            terms_and_conditions,
        )
    }

    /// How many items the collection holds, zero when it has none yet.
    fn collection_size_or_zero(&self, loc_id: LocId) -> (r: usize)
        requires
            self.wf(),
        ensures
            r == self.spec_collection_size(loc_id),
    {
        match self.collection_items.get(&loc_id) {
            Some(m) => m.len(),
            None => 0,
        }
    }

    fn collection_item_exists(&self, loc_id: LocId, item_id: &H256) -> (r: bool)
        requires
            self.wf(),
        ensures
            r == (self.spec_collection_item(loc_id, *item_id) is Some),
    {
        match self.collection_items.get(&loc_id) {
            Some(m) => m.contains_key(item_id),
            None => false,
        }
    }

    /// The item stored under `(loc_id, item_id)`, if any.
    pub fn collection_items(&self, loc_id: LocId, item_id: H256) -> (r: Option<&CollectionItem>)
        requires
            self.wf(),
        ensures
            match r {
                Some(it) => self.spec_collection_item(loc_id, item_id) == Some(*it),
                None => self.spec_collection_item(loc_id, item_id) is None,
            },
    {
        match self.collection_items.get(&loc_id) {
            Some(m) => m.get(&item_id),
            None => None,
        }
    }

    /// How many items the collection holds; `None` while it has none.
    pub fn collection_size(&self, loc_id: LocId) -> (r: Option<usize>)
        requires
            self.wf(),
        ensures
            r == if self.collection_items@.dom().contains(loc_id) {
                Some(self.spec_collection_size(loc_id) as usize)
            } else {
                None::<usize>
            },
    {
        match self.collection_items.get(&loc_id) {
            Some(m) => Some(m.len()),
            None => None,
        }
    }

    /// Records may only be added to an existing, closed, non-void Collection
    /// LOC, by its owner, its network-account requester or a selected issuer.
    pub open spec fn spec_can_add_tokens_record(self, caller: AccountId, loc_id: LocId) -> bool {
        &&& self.has_loc(loc_id)
        &&& self.spec_loc(loc_id).loc_type == LocType::Collection
        &&& self.spec_loc(loc_id).closed
        &&& self.spec_loc(loc_id).void_info is None
        &&& (caller == self.spec_loc(loc_id).owner || self.spec_loc(loc_id).requester
            == Requester::Account(caller) || self.spec_selected(loc_id, caller))
    }

    /// The storage fee owed for a record's files.
    pub open spec fn spec_record_fee(files: Seq<TokensRecordFile>) -> int {
        spec_storage_fee(files.len() as int, spec_record_files_size(files))
    }

    /// Which outcome adding a tokens record must take.
    pub open spec fn add_tokens_record_outcome(
        self,
        caller: AccountId,
        collection_loc_id: LocId,
        record_id: H256,
        files: Seq<TokensRecordFile>,
    ) -> Result<(), Error> {
        if !self.spec_can_add_tokens_record(caller, collection_loc_id) {
            Err(Error::CannotAddRecord)
        } else if self.spec_tokens_record(collection_loc_id, record_id) is Some {
            Err(Error::TokensRecordAlreadyExists)
        } else if files.len() == 0 {
            Err(Error::MustUpload)
        } else if files.len() > MAX_TOKENS_RECORD_FILES {
            Err(Error::TokensRecordTooMuchData)
        } else if has_duplicate_record_file(files) {
            Err(Error::DuplicateFile)
        } else if self.spec_balance(self.spec_fee_payer(self.spec_loc(collection_loc_id)))
            < Self::spec_record_fee(files) {
            Err(Error::InsufficientFunds)
        } else {
            Ok(())
        }
    }

    /// Adds a tokens record to a closed Collection LOC, exactly once per
    /// key; storage fees go to the treasury, charged to the requester.
    pub fn add_tokens_record(
        &mut self,
        caller: AccountId,
        collection_loc_id: LocId,
        record_id: H256,
        description: H256,
        files: Vec<TokensRecordFile>,
    ) -> (r: Result<(), Error>)
        requires
            old(self).wf(),
        ensures
            final(self).wf(),
            r == old(self).add_tokens_record_outcome(caller, collection_loc_id, record_id, files@),
            r is Err ==> *final(self) == *old(self),
            r is Ok ==> ({
                let fee = Self::spec_record_fee(files@);
                let payer = old(self).spec_fee_payer(old(self).spec_loc(collection_loc_id));
                &&& *final(self) == (LogionLoc {
                    tokens_records: final(self).tokens_records,
                    balances: final(self).balances,
                    ..*old(self)
                })
                &&& final(self).spec_tokens_record(collection_loc_id, record_id) is Some
                &&& ({
                    let rec = final(self).spec_tokens_record(collection_loc_id, record_id).unwrap();
                    &&& rec.description == description
                    &&& rec.submitter == caller
                    &&& rec.files == files
                })
                &&& forall|h: H256|
                    h != record_id ==> final(self).spec_tokens_record(collection_loc_id, h) == old(
                        self,
                    ).spec_tokens_record(collection_loc_id, h)
                &&& forall|l: LocId, h: H256|
                    l != collection_loc_id ==> final(self).spec_tokens_record(l, h) == old(
                        self,
                    ).spec_tokens_record(l, h)
                &&& final(self).spec_balance(payer) == if payer == old(self).treasury {
                    old(self).spec_balance(payer)
                } else {
                    old(self).spec_balance(payer) - fee
                }
                &&& payer != old(self).treasury ==> final(self).spec_balance(old(self).treasury)
                    == crate::fees::sat_add(old(self).spec_balance(old(self).treasury), fee)
                &&& forall|a: AccountId|
                    a != payer && a != old(self).treasury ==> final(self).spec_balance(a) == old(
                        self,
                    ).spec_balance(a)
            }),
    {
        let can_add = match self.locs.get(&collection_loc_id) {
            None => false,
            Some(loc) => matches!(loc.loc_type, LocType::Collection) && loc.closed
                && loc.void_info.is_none() && (caller == loc.owner || match loc.requester {
                Requester::Account(a) => a == caller,
                _ => false,
            } || self.verified_issuers_by_loc.contains_key(
                &(crate::state::SelectionKey { loc_id: collection_loc_id, issuer: caller }),
            )),
        };
        if !can_add {
            return Err(Error::CannotAddRecord);
        }
        let record_exists = match self.tokens_records.get(&collection_loc_id) {
            Some(m) => m.contains_key(&record_id),
            None => false,
        };
        if record_exists {
            return Err(Error::TokensRecordAlreadyExists);
        }
        if files.len() == 0 {
            return Err(Error::MustUpload);
        }
        if files.len() > MAX_TOKENS_RECORD_FILES {
            return Err(Error::TokensRecordTooMuchData);
        }
        if !record_files_distinct(&files) {
            return Err(Error::DuplicateFile);
        }
        let payer = {
            let loc = self.locs.get(&collection_loc_id).unwrap();
            self.fee_payer(loc)
        };
        let tot_size = record_files_total_size(&files);
        let fee = match batch_storage_fee(files.len(), tot_size) {
            None => {
                return Err(Error::InsufficientFunds);
            },
            Some(f) => f,
        };
        let treasury = self.treasury;
        match self.charge(payer, fee, treasury) {
            Err(e) => {
                return Err(e);
            },
            Ok(()) => {},
        }
        let ghost after_charge = *self;
        let mut inner = match self.tokens_records.remove_take(&collection_loc_id) {
            Some(m) => m,
            None => AssocMap::new(),
        };
        inner.insert(record_id, TokensRecord { description, submitter: caller, files });
        let ghost inner1 = inner;
        self.tokens_records.insert(collection_loc_id, inner);
        proof {
            assert(final(self).tokens_records@ =~= old(self).tokens_records@.insert(
                collection_loc_id,
                inner1,
            ));
            assert forall|id: LocId| self.tokens_records@.dom().contains(id) implies self
                .tokens_records@[id].wf() by {
                if id != collection_loc_id {
                    assert(old(self).tokens_records@.dom().contains(id));
                    assert(self.tokens_records@[id] == old(self).tokens_records@[id]);
                }
            }
            lemma_wf_collections_update(after_charge, *self);
        }
        Ok(())
    }

    /// The record stored under `(loc_id, record_id)`, if any.
    pub fn tokens_records(&self, loc_id: LocId, record_id: H256) -> (r: Option<&TokensRecord>)
        requires
            self.wf(),
        ensures
            match r {
                Some(rec) => self.spec_tokens_record(loc_id, record_id) == Some(*rec),
                None => self.spec_tokens_record(loc_id, record_id) is None,
            },
    {
        match self.tokens_records.get(&loc_id) {
            Some(m) => m.get(&record_id),
            None => None,
        }
    }
}

} // verus!
