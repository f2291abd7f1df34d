//! Closing and voiding: the terminal transitions of a LOC's lifecycle.

use vstd::prelude::*;
use crate::data::{Error, H256, LegalOfficerCase, LocId, AccountId, LocVoidInfo};
use crate::state::{LogionLoc, all_items_acknowledged, lemma_wf_loc_update, loc_items_wf};

verus! {

/// Whether every metadata item and file of the LOC is acknowledged.
pub fn loc_all_acknowledged(loc: &LegalOfficerCase) -> (r: bool)
    ensures
        r == all_items_acknowledged(*loc),
{
    let n = loc.metadata.len();
    for i in 0..n
        invariant
            n == loc.metadata@.len(),
            forall|j: int| 0 <= j < i ==> loc.metadata@[j].acknowledged,
    {
        if !loc.metadata[i].acknowledged {
            return false;
        }
    }
    let m = loc.files.len();
    for i in 0..m
        invariant
            m == loc.files@.len(),
            forall|j: int| 0 <= j < loc.metadata@.len() ==> loc.metadata@[j].acknowledged,
            forall|j: int| 0 <= j < i ==> loc.files@[j].acknowledged,
    {
        if !loc.files[i].acknowledged {
            return false;
        }
    }
    true
}

impl LogionLoc {
    /// Which outcome closing must take: only the LOC's owner may close, a
    /// void LOC cannot be touched, a closed LOC cannot close again, and
    /// closing is owed exactly when every item is acknowledged.
    pub open spec fn close_outcome(self, caller: AccountId, loc_id: LocId) -> Result<(), Error> {
        if !self.has_loc(loc_id) {
            Err(Error::NotFound)
        } else if self.spec_loc(loc_id).owner != caller {
            Err(Error::Unauthorized)
        } else if self.spec_loc(loc_id).void_info.is_some() {
            Err(Error::CannotMutateVoid)
        } else if self.spec_loc(loc_id).closed {
            Err(Error::AlreadyClosed)
        } else if !all_items_acknowledged(self.spec_loc(loc_id)) {
            Err(Error::CannotCloseUnacknowledged)
        } else {
            Ok(())
        }
    }

    fn do_close(&mut self, caller: AccountId, loc_id: LocId, seal: Option<H256>) -> (r: Result<
        (),
        Error,
    >)
        requires
            old(self).wf(),
        ensures
            final(self).wf(),
            r == old(self).close_outcome(caller, loc_id),
            r is Err ==> *final(self) == *old(self),
            r is Ok ==> *final(self) == (LogionLoc { locs: final(self).locs, ..*old(self) }),
            r is Ok ==> final(self).locs@ == old(self).locs@.insert(
                loc_id,
                (LegalOfficerCase { closed: true, seal, ..old(self).spec_loc(loc_id) }),
            ),
    {
        let idx = match self.locs.index_of(&loc_id) {
            None => {
                return Err(Error::NotFound);
            },
            Some(i) => i,
        };
        let entry = self.locs.entry_at(idx);
        if entry.1.owner != caller {
            return Err(Error::Unauthorized);
        }
        if entry.1.void_info.is_some() {
            return Err(Error::CannotMutateVoid);
        }
        if entry.1.closed {
            return Err(Error::AlreadyClosed);
        }
        if !loc_all_acknowledged(&entry.1) {
            return Err(Error::CannotCloseUnacknowledged);
        }
        let mut loc = self.locs.remove_take(&loc_id).unwrap();
        loc.closed = true;
        loc.seal = seal;
        let ghost updated = loc;
        self.locs.insert(loc_id, loc);
        proof {
            assert(final(self).locs@ =~= old(self).locs@.insert(loc_id, updated));
            lemma_wf_loc_update(*old(self), *self, loc_id, updated);
        }
        Ok(())
    }

    /// Closes an open, fully acknowledged LOC; owner-only.
    pub fn close(&mut self, caller: AccountId, loc_id: LocId) -> (r: Result<(), Error>)
        requires
            old(self).wf(),
        ensures
            final(self).wf(),
            r == old(self).close_outcome(caller, loc_id),
            r is Err ==> *final(self) == *old(self),
            r is Ok ==> *final(self) == (LogionLoc { locs: final(self).locs, ..*old(self) }),
            r is Ok ==> final(self).locs@ == old(self).locs@.insert(
                loc_id,
                (LegalOfficerCase {
                    closed: true,
                    seal: None,
                    ..old(self).spec_loc(loc_id)
                }),
            ),
    {
        self.do_close(caller, loc_id, None)
    }

    /// Closes an open, fully acknowledged LOC and stores the commitment
    /// hash; the seal can be set at no other time.
    pub fn close_and_seal(&mut self, caller: AccountId, loc_id: LocId, seal: H256) -> (r: Result<
        (),
        Error,
    >)
        requires
            old(self).wf(),
        ensures
            final(self).wf(),
            r == old(self).close_outcome(caller, loc_id),
            r is Err ==> *final(self) == *old(self),
            r is Ok ==> *final(self) == (LogionLoc { locs: final(self).locs, ..*old(self) }),
            r is Ok ==> final(self).locs@ == old(self).locs@.insert(
                loc_id,
                (LegalOfficerCase {
                    closed: true,
                    seal: Some(seal),
                    ..old(self).spec_loc(loc_id)
                }),
            ),
    {
        self.do_close(caller, loc_id, Some(seal))
    }

    /// Which outcome voiding must take: owner-only, and never twice.
    pub open spec fn make_void_outcome(self, caller: AccountId, loc_id: LocId) -> Result<
        (),
        Error,
    > {
        if !self.has_loc(loc_id) {
            Err(Error::NotFound)
        } else if self.spec_loc(loc_id).owner != caller {
            Err(Error::Unauthorized)
        } else if self.spec_loc(loc_id).void_info.is_some() {
            Err(Error::AlreadyVoid)
        } else {
            Ok(())
        }
    }

    /// Which outcome voiding-with-replacement must take: beyond voiding's own
    /// conditions, the replacer must exist, must not be void, must not
    /// already replace another LOC, and must be of the same type.
    pub open spec fn make_void_and_replace_outcome(
        self,
        caller: AccountId,
        loc_id: LocId,
        replacer_loc_id: LocId,
    ) -> Result<(), Error> {
        let base = self.make_void_outcome(caller, loc_id);
        if base is Err {
            base
        } else if !self.has_loc(replacer_loc_id) {
            Err(Error::ReplacerLocNotFound)
        } else if self.spec_loc(replacer_loc_id).void_info.is_some() {
            Err(Error::ReplacerLocAlreadyVoid)
        } else if self.spec_loc(replacer_loc_id).replacer_of.is_some() {
            Err(Error::ReplacerLocAlreadyReplacing)
        } else if self.spec_loc(replacer_loc_id).loc_type != self.spec_loc(loc_id).loc_type {
            Err(Error::ReplacerLocWrongType)
        } else {
            Ok(())
        }
    }

    /// Marks the LOC void; the record stays, only the flag is set.
    pub fn make_void(&mut self, caller: AccountId, loc_id: LocId) -> (r: Result<(), Error>)
        requires
            old(self).wf(),
        ensures
            final(self).wf(),
            r == old(self).make_void_outcome(caller, loc_id),
            r is Err ==> *final(self) == *old(self),
            r is Ok ==> *final(self) == (LogionLoc { locs: final(self).locs, ..*old(self) }),
            r is Ok ==> final(self).locs@ == old(self).locs@.insert(
                loc_id,
                (LegalOfficerCase {
                    void_info: Some(LocVoidInfo { replacer: None }),
                    ..old(self).spec_loc(loc_id)
                }),
            ),
    {
        let idx = match self.locs.index_of(&loc_id) {
            None => {
                return Err(Error::NotFound);
            },
            Some(i) => i,
        };
        let entry = self.locs.entry_at(idx);
        if entry.1.owner != caller {
            return Err(Error::Unauthorized);
        }
        if entry.1.void_info.is_some() {
            return Err(Error::AlreadyVoid);
        }
        let mut loc = self.locs.remove_take(&loc_id).unwrap();
        loc.void_info = Some(LocVoidInfo { replacer: None });
        let ghost updated = loc;
        self.locs.insert(loc_id, loc);
        proof {
            assert(final(self).locs@ =~= old(self).locs@.insert(loc_id, updated));
            lemma_wf_loc_update(*old(self), *self, loc_id, updated);
        }
        Ok(())
    }

    /// Marks the LOC void and designates a replacer; the relation is recorded
    /// on both records.
    pub fn make_void_and_replace(
        &mut self,
        caller: AccountId,
        loc_id: LocId,
        replacer_loc_id: LocId,
    ) -> (r: Result<(), Error>)
        requires
            old(self).wf(),
        ensures
            final(self).wf(),
            r == old(self).make_void_and_replace_outcome(caller, loc_id, replacer_loc_id),
            r is Err ==> *final(self) == *old(self),
            r is Ok ==> *final(self) == (LogionLoc { locs: final(self).locs, ..*old(self) }),
            r is Ok ==> ({
                let voided = LegalOfficerCase {
                    void_info: Some(LocVoidInfo { replacer: Some(replacer_loc_id) }),
                    ..old(self).spec_loc(loc_id)
                };
                let mid = old(self).locs@.insert(loc_id, voided);
                final(self).locs@ == mid.insert(
                    replacer_loc_id,
                    (LegalOfficerCase { replacer_of: Some(loc_id), ..mid[replacer_loc_id] }),
                )
            }),
    {
        let idx = match self.locs.index_of(&loc_id) {
            None => {
                return Err(Error::NotFound);
            },
            Some(i) => i,
        };
        let entry = self.locs.entry_at(idx);
        if entry.1.owner != caller {
            return Err(Error::Unauthorized);
        }
        if entry.1.void_info.is_some() {
            return Err(Error::AlreadyVoid);
        }
        let ridx = match self.locs.index_of(&replacer_loc_id) {
            None => {
                return Err(Error::ReplacerLocNotFound);
            },
            Some(i) => i,
        };
        let rentry = self.locs.entry_at(ridx);
        if rentry.1.void_info.is_some() {
            return Err(Error::ReplacerLocAlreadyVoid);
        }
        if rentry.1.replacer_of.is_some() {
            return Err(Error::ReplacerLocAlreadyReplacing);
        }
        let same_type = {
            let entry_again = self.locs.entry_at(idx);
            let rentry_again = self.locs.entry_at(ridx);
            rentry_again.1.loc_type == entry_again.1.loc_type
        };
        if !same_type {
            return Err(Error::ReplacerLocWrongType);
        }
        let mut loc = self.locs.remove_take(&loc_id).unwrap();
        loc.void_info = Some(LocVoidInfo { replacer: Some(replacer_loc_id) });
        let ghost voided = loc;
        self.locs.insert(loc_id, loc);
        proof {
            assert(self.locs@ =~= old(self).locs@.insert(loc_id, voided));
            lemma_wf_loc_update(*old(self), *self, loc_id, voided);
        }
        let ghost mid_state = *self;
        let mut replacer = self.locs.remove_take(&replacer_loc_id).unwrap();
        replacer.replacer_of = Some(loc_id);
        let ghost replacing = replacer;
        self.locs.insert(replacer_loc_id, replacer);
        proof {
            assert(final(self).locs@ =~= mid_state.locs@.insert(replacer_loc_id, replacing));
            lemma_wf_loc_update(mid_state, *self, replacer_loc_id, replacing);
        }
        Ok(())
    }
}

} // verus!
