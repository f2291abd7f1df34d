//! Item submission and acknowledgement: metadata, files and links, under the
//! shared authorization shape of owner, requester and selected issuers.

use vstd::prelude::*;
use crate::data::{
    AccountId, Error, File, FileParams, H256, LegalOfficerCase, LocId, LocLink, MetadataItem,
    MetadataItemParams, Requester, SupportedAccountId,
};
use crate::fees::{spec_storage_fee, storage_fees};
use crate::state::{
    LogionLoc, SelectionKey, files_has_hash, lemma_wf_loc_update, links_has_target, loc_items_wf,
    metadata_has_name,
};

verus! {

/// Whether some metadata item of the LOC bears this name.
pub fn metadata_contains_name(loc: &LegalOfficerCase, name: &H256) -> (r: bool)
    ensures
        r == metadata_has_name(*loc, *name),
{
    let n = loc.metadata.len();
    for i in 0..n
        invariant
            n == loc.metadata@.len(),
            forall|j: int| 0 <= j < i ==> loc.metadata@[j].name != *name,
    {
        if loc.metadata[i].name == *name {
            return true;
        }
    }
    false
}

/// Whether some file of the LOC bears this hash.
pub fn files_contains_hash(loc: &LegalOfficerCase, hash: &H256) -> (r: bool)
    ensures
        r == files_has_hash(*loc, *hash),
{
    let n = loc.files.len();
    for i in 0..n
        invariant
            n == loc.files@.len(),
            forall|j: int| 0 <= j < i ==> loc.files@[j].hash != *hash,
    {
        if loc.files[i].hash == *hash {
            return true;
        }
    }
    false
}

/// Whether some link of the LOC points at this target.
pub fn links_contains_target(loc: &LegalOfficerCase, target: LocId) -> (r: bool)
    ensures
        r == links_has_target(*loc, target),
{
    let n = loc.links.len();
    for i in 0..n
        invariant
            n == loc.links@.len(),
            forall|j: int| 0 <= j < i ==> loc.links@[j].id != target,
    {
        if loc.links[i].id == target {
            return true;
        }
    }
    false
}

/// The position of the first metadata item bearing this name, if any.
fn find_metadata_index(loc: &LegalOfficerCase, name: &H256) -> (r: Option<usize>)
    ensures
        match r {
            Some(i) => i < loc.metadata@.len() && loc.metadata@[i as int].name == *name && forall|
                j: int,
            | 0 <= j < i ==> loc.metadata@[j].name != *name,
            None => !metadata_has_name(*loc, *name),
        },
{
    let n = loc.metadata.len();
    for i in 0..n
        invariant
            n == loc.metadata@.len(),
            forall|j: int| 0 <= j < i ==> loc.metadata@[j].name != *name,
    {
        if loc.metadata[i].name == *name {
            return Some(i);
        }
    }
    None
}

/// The position of the first file bearing this hash, if any.
fn find_file_index(loc: &LegalOfficerCase, hash: &H256) -> (r: Option<usize>)
    ensures
        match r {
            Some(i) => i < loc.files@.len() && loc.files@[i as int].hash == *hash && forall|j: int|
                0 <= j < i ==> loc.files@[j].hash != *hash,
            None => !files_has_hash(*loc, *hash),
        },
{
    let n = loc.files.len();
    for i in 0..n
        invariant
            n == loc.files@.len(),
            forall|j: int| 0 <= j < i ==> loc.files@[j].hash != *hash,
    {
        if loc.files[i].hash == *hash {
            return Some(i);
        }
    }
    None
}

impl LogionLoc {
    /// Whether an item is born acknowledged: exactly when its declared
    /// submitter is the LOC's owner or a currently selected issuer. An item
    /// submitted by the requester is born unacknowledged and needs the
    /// officer's explicit acknowledgement before the LOC can close.
    pub open spec fn spec_born_acknowledged(
        self,
        loc_id: LocId,
        submitter: SupportedAccountId,
    ) -> bool {
        ||| submitter == SupportedAccountId::Polkadot(self.spec_loc(loc_id).owner)
    ||| (match submitter {
            SupportedAccountId::Polkadot(a) => self.spec_selected(loc_id, a),
            _ => false,
        })
    }

    fn born_acknowledged(
        &self,
        loc_id: LocId,
        loc: &LegalOfficerCase,
        submitter: &SupportedAccountId,
    ) -> (r: bool)
        requires
            self.wf(),
            self.has_loc(loc_id),
            *loc == self.spec_loc(loc_id),
        ensures
            r == self.spec_born_acknowledged(loc_id, *submitter),
    {
        if *submitter == SupportedAccountId::Polkadot(loc.owner) {
            return true;
        }
        match submitter {
            SupportedAccountId::Polkadot(a) => self.verified_issuers_by_loc.contains_key(
                &(SelectionKey { loc_id, issuer: *a }),
            ),
            _ => false,
        }
    }

    /// Who may stand as an item's submitter on this LOC: its owner, its
    /// requester, or a currently selected issuer.
    pub open spec fn spec_valid_submitter(self, loc_id: LocId, submitter: SupportedAccountId) -> bool {
        let loc = self.spec_loc(loc_id);
        ||| submitter == SupportedAccountId::Polkadot(loc.owner)
    ||| (match loc.requester {
            Requester::Account(a) => submitter == SupportedAccountId::Polkadot(a),
            Requester::OtherAccount(o) => submitter == SupportedAccountId::Other(o),
            _ => false,
        })
    ||| (match submitter {
            SupportedAccountId::Polkadot(a) => self.spec_selected(loc_id, a),
            _ => false,
        })
    }

    fn valid_submitter(&self, loc_id: LocId, loc: &LegalOfficerCase, submitter: &SupportedAccountId) -> (r: bool)
        requires
            self.wf(),
            self.has_loc(loc_id),
            *loc == self.spec_loc(loc_id),
        ensures
            r == self.spec_valid_submitter(loc_id, *submitter),
    {
        if *submitter == SupportedAccountId::Polkadot(loc.owner) {
            return true;
        }
        let is_requester = match (&loc.requester, submitter) {
            (Requester::Account(a), SupportedAccountId::Polkadot(s)) => *a == *s,
            (Requester::OtherAccount(o), SupportedAccountId::Other(so)) => *o == *so,
            _ => false,
        };
        if is_requester {
            return true;
        }
        match submitter {
            SupportedAccountId::Polkadot(a) => self.verified_issuers_by_loc.contains_key(
                &(SelectionKey { loc_id, issuer: *a }),
            ),
            _ => false,
        }
    }

    /// The authorization every item addition shares: the owner may add on
    /// behalf of any valid submitter; any other caller must be the declared
    /// submitter and a valid one.
    pub open spec fn add_item_auth(
        self,
        loc_id: LocId,
        caller: AccountId,
        submitter: SupportedAccountId,
    ) -> Result<(), Error> {
        if caller == self.spec_loc(loc_id).owner {
            if !self.spec_valid_submitter(loc_id, submitter) {
                Err(Error::CannotSubmit)
            } else {
                Ok(())
            }
        } else if submitter == SupportedAccountId::Polkadot(caller) && self.spec_valid_submitter(
            loc_id,
            submitter,
        ) {
            Ok(())
        } else {
            Err(Error::Unauthorized)
        }
    }

    /// Which outcome adding a metadata item must take.
    pub open spec fn add_metadata_outcome(
        self,
        caller: AccountId,
        loc_id: LocId,
        item: MetadataItemParams,
    ) -> Result<(), Error> {
        if !self.has_loc(loc_id) {
            Err(Error::NotFound)
        } else if self.add_item_auth(loc_id, caller, item.submitter) is Err {
            self.add_item_auth(loc_id, caller, item.submitter)
        } else if self.spec_loc(loc_id).void_info is Some {
            Err(Error::CannotMutateVoid)
        } else if self.spec_loc(loc_id).closed {
            Err(Error::CannotMutate)
        } else if metadata_has_name(self.spec_loc(loc_id), item.name) {
            Err(Error::DuplicateLocMetadata)
        } else {
            Ok(())
        }
    }

    /// Adds a metadata item; it is born acknowledged exactly when its
    /// declared submitter is the owner or a selected issuer.
    pub fn add_metadata(&mut self, caller: AccountId, loc_id: LocId, item: MetadataItemParams) -> (r:
        Result<(), Error>)
        requires
            old(self).wf(),
        ensures
            final(self).wf(),
            r == old(self).add_metadata_outcome(caller, loc_id, item),
            r is Err ==> *final(self) == *old(self),
            r is Ok ==> ({
                let added = MetadataItem {
                    name: item.name,
                    value: item.value,
                    submitter: item.submitter,
                    acknowledged: old(self).spec_born_acknowledged(loc_id, item.submitter),
                };
                &&& *final(self) == (LogionLoc { locs: final(self).locs, ..*old(self) })
                &&& final(self).spec_loc(loc_id).metadata@ == old(self).spec_loc(
                    loc_id,
                ).metadata@.push(added)
                &&& final(self).spec_loc(loc_id) == (LegalOfficerCase {
                    metadata: final(self).spec_loc(loc_id).metadata,
                    ..old(self).spec_loc(loc_id)
                })
                &&& final(self).locs@ == old(self).locs@.insert(loc_id, final(self).spec_loc(loc_id))
            }),
    {
        let idx = match self.locs.index_of(&loc_id) {
            None => {
                return Err(Error::NotFound);
            },
            Some(i) => i,
        };
        let entry = self.locs.entry_at(idx);
        let caller_is_owner = entry.1.owner == caller;
        if caller_is_owner {
            if !self.valid_submitter(loc_id, &entry.1, &item.submitter) {
                return Err(Error::CannotSubmit);
            }
        } else {
            let caller_is_submitter = item.submitter == SupportedAccountId::Polkadot(caller);
            if !(caller_is_submitter && self.valid_submitter(loc_id, &entry.1, &item.submitter)) {
                return Err(Error::Unauthorized);
            }
        }
        if entry.1.void_info.is_some() {
            return Err(Error::CannotMutateVoid);
        }
        if entry.1.closed {
            return Err(Error::CannotMutate);
        }
        if metadata_contains_name(&entry.1, &item.name) {
            return Err(Error::DuplicateLocMetadata);
        }
        let acknowledged = self.born_acknowledged(loc_id, &entry.1, &item.submitter);
        let mut loc = self.locs.remove_take(&loc_id).unwrap();
        loc.metadata.push(MetadataItem {
            name: item.name,
            value: item.value,
            submitter: item.submitter,
            acknowledged,
        });
        let ghost updated = loc;
        proof {
            assert(loc_items_wf(updated)) by {
                assert(loc_items_wf(old(self).spec_loc(loc_id)));
                assert(forall|i: int|
                    0 <= i < old(self).spec_loc(loc_id).metadata@.len() ==> old(self).spec_loc(
                        loc_id,
                    ).metadata@[i].name != item.name);
            }
        }
        self.locs.insert(loc_id, loc);
        proof {
            assert(final(self).locs@ =~= old(self).locs@.insert(loc_id, updated));
            lemma_wf_loc_update(*old(self), *self, loc_id, updated);
        }
        Ok(())
    }

    /// Which outcome adding a file must take: beyond the shared shape, the
    /// hash must be new and the storage fee covered.
    pub open spec fn add_file_outcome(
        self,
        caller: AccountId,
        loc_id: LocId,
        file: FileParams,
    ) -> Result<(), Error> {
        if !self.has_loc(loc_id) {
            Err(Error::NotFound)
        } else if self.add_item_auth(loc_id, caller, file.submitter) is Err {
            self.add_item_auth(loc_id, caller, file.submitter)
        } else if self.spec_loc(loc_id).void_info is Some {
            Err(Error::CannotMutateVoid)
        } else if self.spec_loc(loc_id).closed {
            Err(Error::CannotMutate)
        } else if files_has_hash(self.spec_loc(loc_id), file.hash) {
            Err(Error::DuplicateLocFile)
        } else if self.spec_balance(self.spec_fee_payer(self.spec_loc(loc_id))) < spec_storage_fee(
            1,
            file.size as int,
        ) {
            Err(Error::InsufficientFunds)
        } else {
            Ok(())
        }
    }

    /// Adds a file; its storage fee is charged to the LOC's fee payer and
    /// goes to the treasury. The file is born acknowledged exactly when its
    /// declared submitter is the owner or a selected issuer.
    pub fn add_file(&mut self, caller: AccountId, loc_id: LocId, file: FileParams) -> (r: Result<
        (),
        Error,
    >)
        requires
            old(self).wf(),
        ensures
            final(self).wf(),
            r == old(self).add_file_outcome(caller, loc_id, file),
            r is Err ==> *final(self) == *old(self),
            r is Ok ==> ({
                let added = File {
                    hash: file.hash,
                    nature: file.nature,
                    submitter: file.submitter,
                    size: file.size,
                    acknowledged: old(self).spec_born_acknowledged(loc_id, file.submitter),
                };
                let payer = old(self).spec_fee_payer(old(self).spec_loc(loc_id));
                let fee = spec_storage_fee(1, file.size as int);
                &&& *final(self) == (LogionLoc {
                    locs: final(self).locs,
                    balances: final(self).balances,
                    ..*old(self)
                })
                &&& final(self).spec_loc(loc_id).files@ == old(self).spec_loc(loc_id).files@.push(
                    added,
                )
                &&& final(self).spec_loc(loc_id) == (LegalOfficerCase {
                    files: final(self).spec_loc(loc_id).files,
                    ..old(self).spec_loc(loc_id)
                })
                &&& final(self).locs@ == old(self).locs@.insert(loc_id, final(self).spec_loc(loc_id))
                &&& final(self).spec_balance(payer) == if payer == old(self).treasury {
                    old(self).spec_balance(payer)
                } else {
                    old(self).spec_balance(payer) - fee
                }
                &&& payer != old(self).treasury ==> final(self).spec_balance(old(self).treasury)
                    == crate::fees::sat_add(old(self).spec_balance(old(self).treasury), fee)
                &&& forall|a: AccountId|
                    a != payer && a != old(self).treasury ==> final(self).spec_balance(a) == old(
                        self,
                    ).spec_balance(a)
            }),
    {
        let idx = match self.locs.index_of(&loc_id) {
            None => {
                return Err(Error::NotFound);
            },
            Some(i) => i,
        };
        let entry = self.locs.entry_at(idx);
        let caller_is_owner = entry.1.owner == caller;
        if caller_is_owner {
            if !self.valid_submitter(loc_id, &entry.1, &file.submitter) {
                return Err(Error::CannotSubmit);
            }
        } else {
            let caller_is_submitter = file.submitter == SupportedAccountId::Polkadot(caller);
            if !(caller_is_submitter && self.valid_submitter(loc_id, &entry.1, &file.submitter)) {
                return Err(Error::Unauthorized);
            }
        }
        if entry.1.void_info.is_some() {
            return Err(Error::CannotMutateVoid);
        }
        if entry.1.closed {
            return Err(Error::CannotMutate);
        }
        if files_contains_hash(&entry.1, &file.hash) {
            return Err(Error::DuplicateLocFile);
        }
        let acknowledged = self.born_acknowledged(loc_id, &entry.1, &file.submitter);
        let payer = self.fee_payer(&entry.1);
        let treasury = self.treasury;
        let fee = storage_fees(1, file.size as u64);
        match self.charge(payer, fee, treasury) {
            Err(e) => {
                return Err(e);
            },
            Ok(()) => {},
        }
        let ghost after_charge = *self;
        let mut loc = self.locs.remove_take(&loc_id).unwrap();
        loc.files.push(File {
            hash: file.hash,
            nature: file.nature,
            submitter: file.submitter,
            size: file.size,
            acknowledged,
        });
        let ghost updated = loc;
        proof {
            assert(loc_items_wf(updated)) by {
                assert(loc_items_wf(old(self).spec_loc(loc_id)));
                assert(forall|i: int|
                    0 <= i < old(self).spec_loc(loc_id).files@.len() ==> old(self).spec_loc(
                        loc_id,
                    ).files@[i].hash != file.hash);
            }
        }
        self.locs.insert(loc_id, loc);
        proof {
            assert(final(self).locs@ =~= old(self).locs@.insert(loc_id, updated));
            lemma_wf_loc_update(after_charge, *self, loc_id, updated);
        }
        Ok(())
    }

    /// Which outcome adding a link must take: links are owner-only and the
    /// target must exist.
    pub open spec fn add_link_outcome(
        self,
        caller: AccountId,
        loc_id: LocId,
        link: LocLink,
    ) -> Result<(), Error> {
        if !self.has_loc(loc_id) {
            Err(Error::NotFound)
        } else if self.spec_loc(loc_id).owner != caller {
            Err(Error::Unauthorized)
        } else if self.spec_loc(loc_id).void_info is Some {
            Err(Error::CannotMutateVoid)
        } else if self.spec_loc(loc_id).closed {
            Err(Error::CannotMutate)
        } else if !self.has_loc(link.id) {
            Err(Error::LinkedLocNotFound)
        } else if links_has_target(self.spec_loc(loc_id), link.id) {
            Err(Error::DuplicateLocLink)
        } else {
            Ok(())
        }
    }

    /// Adds a link to another LOC; owner-only.
    pub fn add_link(&mut self, caller: AccountId, loc_id: LocId, link: LocLink) -> (r: Result<
        (),
        Error,
    >)
        requires
            old(self).wf(),
        ensures
            final(self).wf(),
            r == old(self).add_link_outcome(caller, loc_id, link),
            r is Err ==> *final(self) == *old(self),
            r is Ok ==> ({
                &&& *final(self) == (LogionLoc { locs: final(self).locs, ..*old(self) })
                &&& final(self).spec_loc(loc_id).links@ == old(self).spec_loc(loc_id).links@.push(
                    link,
                )
                &&& final(self).spec_loc(loc_id) == (LegalOfficerCase {
                    links: final(self).spec_loc(loc_id).links,
                    ..old(self).spec_loc(loc_id)
                })
                &&& final(self).locs@ == old(self).locs@.insert(loc_id, final(self).spec_loc(loc_id))
            }),
    {
        let idx = match self.locs.index_of(&loc_id) {
            None => {
                return Err(Error::NotFound);
            },
            Some(i) => i,
        };
        let entry = self.locs.entry_at(idx);
        if entry.1.owner != caller {
            return Err(Error::Unauthorized);
        }
        if entry.1.void_info.is_some() {
            return Err(Error::CannotMutateVoid);
        }
        if entry.1.closed {
            return Err(Error::CannotMutate);
        }
        if !self.locs.contains_key(&link.id) {
            return Err(Error::LinkedLocNotFound);
        }
        let entry = self.locs.entry_at(idx);
        if links_contains_target(&entry.1, link.id) {
            return Err(Error::DuplicateLocLink);
        }
        let mut loc = self.locs.remove_take(&loc_id).unwrap();
        loc.links.push(link);
        let ghost updated = loc;
        proof {
            assert(loc_items_wf(updated)) by {
                assert(loc_items_wf(old(self).spec_loc(loc_id)));
                assert(forall|i: int|
                    0 <= i < old(self).spec_loc(loc_id).links@.len() ==> old(self).spec_loc(
                        loc_id,
                    ).links@[i].id != link.id);
            }
        }
        self.locs.insert(loc_id, loc);
        proof {
            assert(final(self).locs@ =~= old(self).locs@.insert(loc_id, updated));
            lemma_wf_loc_update(*old(self), *self, loc_id, updated);
        }
        Ok(())
    }

    /// Some metadata item of the LOC bears this name and is acknowledged.
    pub open spec fn spec_metadata_acknowledged(loc: LegalOfficerCase, name: H256) -> bool {
        exists|i: int|
            0 <= i < loc.metadata@.len() && loc.metadata@[i].name == name
                && loc.metadata@[i].acknowledged
    }

    /// Some file of the LOC bears this hash and is acknowledged.
    pub open spec fn spec_file_acknowledged(loc: LegalOfficerCase, hash: H256) -> bool {
        exists|i: int|
            0 <= i < loc.files@.len() && loc.files@[i].hash == hash && loc.files@[i].acknowledged
    }

    /// Which outcome acknowledging a metadata item must take: an officer-only
    /// operation on the owner's own LOC, failing on a void LOC, an unknown
    /// name, or an item already acknowledged.
    pub open spec fn acknowledge_metadata_outcome(
        self,
        caller: AccountId,
        loc_id: LocId,
        name: H256,
    ) -> Result<(), Error> {
        if !self.spec_is_legal_officer(caller) {
            Err(Error::BadOrigin)
        } else if !self.has_loc(loc_id) {
            Err(Error::NotFound)
        } else if self.spec_loc(loc_id).owner != caller {
            Err(Error::Unauthorized)
        } else if self.spec_loc(loc_id).void_info is Some {
            Err(Error::CannotMutateVoid)
        } else if !metadata_has_name(self.spec_loc(loc_id), name) {
            Err(Error::ItemNotFound)
        } else if Self::spec_metadata_acknowledged(self.spec_loc(loc_id), name) {
            Err(Error::ItemAlreadyAcknowledged)
        } else {
            Ok(())
        }
    }

    /// Acknowledges a requester-submitted metadata item.
    pub fn acknowledge_metadata(&mut self, caller: AccountId, loc_id: LocId, name: H256) -> (r:
        Result<(), Error>)
        requires
            old(self).wf(),
        ensures
            final(self).wf(),
            r == old(self).acknowledge_metadata_outcome(caller, loc_id, name),
            r is Err ==> *final(self) == *old(self),
            r is Ok ==> ({
                &&& *final(self) == (LogionLoc { locs: final(self).locs, ..*old(self) })
                &&& exists|i: int|
                    0 <= i < old(self).spec_loc(loc_id).metadata@.len() && old(self).spec_loc(
                        loc_id,
                    ).metadata@[i].name == name && final(self).spec_loc(loc_id).metadata@ == old(
                        self,
                    ).spec_loc(loc_id).metadata@.update(
                        i,
                        (MetadataItem { acknowledged: true, ..old(self).spec_loc(loc_id).metadata@[i] }),
                    )
                &&& final(self).spec_loc(loc_id) == (LegalOfficerCase {
                    metadata: final(self).spec_loc(loc_id).metadata,
                    ..old(self).spec_loc(loc_id)
                })
                &&& final(self).locs@ == old(self).locs@.insert(loc_id, final(self).spec_loc(loc_id))
            }),
    {
        if !self.is_legal_officer(caller) {
            return Err(Error::BadOrigin);
        }
        let idx = match self.locs.index_of(&loc_id) {
            None => {
                return Err(Error::NotFound);
            },
            Some(i) => i,
        };
        let entry = self.locs.entry_at(idx);
        if entry.1.owner != caller {
            return Err(Error::Unauthorized);
        }
        if entry.1.void_info.is_some() {
            return Err(Error::CannotMutateVoid);
        }
        let j = match find_metadata_index(&entry.1, &name) {
            None => {
                return Err(Error::ItemNotFound);
            },
            Some(j) => j,
        };
        proof {
            assert(loc_items_wf(old(self).spec_loc(loc_id)));
            assert forall|i: int|
                0 <= i < old(self).spec_loc(loc_id).metadata@.len() && old(self).spec_loc(
                    loc_id,
                ).metadata@[i].name == name implies i == j as int by {
                if i < j as int {
                    assert(old(self).spec_loc(loc_id).metadata@[i].name != name);
                }
            }
        }
        if entry.1.metadata[j].acknowledged {
            return Err(Error::ItemAlreadyAcknowledged);
        }
        let mut loc = self.locs.remove_take(&loc_id).unwrap();
        let mut item = loc.metadata.remove(j);
        item.acknowledged = true;
        loc.metadata.insert(j, item);
        let ghost updated = loc;
        proof {
            assert(updated.metadata@ =~= old(self).spec_loc(loc_id).metadata@.update(
                j as int,
                (MetadataItem { acknowledged: true, ..old(self).spec_loc(loc_id).metadata@[j as int] }),
            ));
            assert(loc_items_wf(updated)) by {
                assert(loc_items_wf(old(self).spec_loc(loc_id)));
                assert(forall|i: int|
                    0 <= i < updated.metadata@.len() ==> updated.metadata@[i].name == old(
                        self,
                    ).spec_loc(loc_id).metadata@[i].name);
            }
        }
        self.locs.insert(loc_id, loc);
        proof {
            assert(final(self).locs@ =~= old(self).locs@.insert(loc_id, updated));
            lemma_wf_loc_update(*old(self), *self, loc_id, updated);
        }
        Ok(())
    }

    /// Which outcome acknowledging a file must take, as for metadata.
    pub open spec fn acknowledge_file_outcome(
        self,
        caller: AccountId,
        loc_id: LocId,
        hash: H256,
    ) -> Result<(), Error> {
        if !self.spec_is_legal_officer(caller) {
            Err(Error::BadOrigin)
        } else if !self.has_loc(loc_id) {
            Err(Error::NotFound)
        } else if self.spec_loc(loc_id).owner != caller {
            Err(Error::Unauthorized)
        } else if self.spec_loc(loc_id).void_info is Some {
            Err(Error::CannotMutateVoid)
        } else if !files_has_hash(self.spec_loc(loc_id), hash) {
            Err(Error::ItemNotFound)
        } else if Self::spec_file_acknowledged(self.spec_loc(loc_id), hash) {
            Err(Error::ItemAlreadyAcknowledged)
        } else {
            Ok(())
        }
    }

    /// Acknowledges a requester-submitted file.
    pub fn acknowledge_file(&mut self, caller: AccountId, loc_id: LocId, hash: H256) -> (r: Result<
        (),
        Error,
    >)
        requires
            old(self).wf(),
        ensures
            final(self).wf(),
            r == old(self).acknowledge_file_outcome(caller, loc_id, hash),
            r is Err ==> *final(self) == *old(self),
            r is Ok ==> ({
                &&& *final(self) == (LogionLoc { locs: final(self).locs, ..*old(self) })
                &&& exists|i: int|
                    0 <= i < old(self).spec_loc(loc_id).files@.len() && old(self).spec_loc(
                        loc_id,
                    ).files@[i].hash == hash && final(self).spec_loc(loc_id).files@ == old(
                        self,
                    ).spec_loc(loc_id).files@.update(
                        i,
                        (File { acknowledged: true, ..old(self).spec_loc(loc_id).files@[i] }),
                    )
                &&& final(self).spec_loc(loc_id) == (LegalOfficerCase {
                    files: final(self).spec_loc(loc_id).files,
                    ..old(self).spec_loc(loc_id)
                })
                &&& final(self).locs@ == old(self).locs@.insert(loc_id, final(self).spec_loc(loc_id))
            }),
    {
        if !self.is_legal_officer(caller) {
            return Err(Error::BadOrigin);
        }
        let idx = match self.locs.index_of(&loc_id) {
            None => {
                return Err(Error::NotFound);
            },
            Some(i) => i,
        };
        let entry = self.locs.entry_at(idx);
        if entry.1.owner != caller {
            return Err(Error::Unauthorized);
        }
        if entry.1.void_info.is_some() {
            return Err(Error::CannotMutateVoid);
        }
        let j = match find_file_index(&entry.1, &hash) {
            None => {
                return Err(Error::ItemNotFound);
            },
            Some(j) => j,
        };
        proof {
            assert(loc_items_wf(old(self).spec_loc(loc_id)));
            assert forall|i: int|
                0 <= i < old(self).spec_loc(loc_id).files@.len() && old(self).spec_loc(
                    loc_id,
                ).files@[i].hash == hash implies i == j as int by {
                if i < j as int {
                    assert(old(self).spec_loc(loc_id).files@[i].hash != hash);
                }
            }
        }
        if entry.1.files[j].acknowledged {
            return Err(Error::ItemAlreadyAcknowledged);
        }
        let mut loc = self.locs.remove_take(&loc_id).unwrap();
        let mut item = loc.files.remove(j);
        item.acknowledged = true;
        loc.files.insert(j, item);
        let ghost updated = loc;
        proof {
            assert(updated.files@ =~= old(self).spec_loc(loc_id).files@.update(
                j as int,
                (File { acknowledged: true, ..old(self).spec_loc(loc_id).files@[j as int] }),
            ));
            assert(loc_items_wf(updated)) by {
                assert(loc_items_wf(old(self).spec_loc(loc_id)));
                assert(forall|i: int|
                    0 <= i < updated.files@.len() ==> updated.files@[i].hash == old(self).spec_loc(
                        loc_id,
                    ).files@[i].hash);
            }
        }
        self.locs.insert(loc_id, loc);
        proof {
            assert(final(self).locs@ =~= old(self).locs@.insert(loc_id, updated));
            lemma_wf_loc_update(*old(self), *self, loc_id, updated);
        }
        Ok(())
    }
}

} // verus!
