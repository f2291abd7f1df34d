//! The sponsorship registry: grants that fund an external account's identity
//! LOC, consumed at most once and withdrawable only while unconsumed.

use vstd::prelude::*;
use crate::data::{AccountId, Error, Sponsorship, SponsorshipId, SupportedAccountId};
use crate::state::{LogionLoc, lemma_wf_stores_untouched};

verus! {

impl LogionLoc {
    /// Which outcome sponsoring must take: the caller-chosen id must be
    /// unused.
    pub open spec fn sponsor_outcome(self, sponsorship_id: SponsorshipId) -> Result<(), Error> {
        if self.spec_sponsorship(sponsorship_id) is Some {
            Err(Error::AlreadyExists)
        } else {
            Ok(())
        }
    }

    /// Records a sponsorship grant of the caller for the given account and
    /// legal officer.
    pub fn sponsor(
        &mut self,
        caller: AccountId,
        sponsorship_id: SponsorshipId,
        sponsored_account: SupportedAccountId,
        legal_officer: AccountId,
    ) -> (r: Result<(), Error>)
        requires
            old(self).wf(),
        ensures
            final(self).wf(),
            r == old(self).sponsor_outcome(sponsorship_id),
            r is Err ==> *final(self) == *old(self),
            r is Ok ==> ({
                &&& *final(self) == (LogionLoc { sponsorships: final(self).sponsorships, ..*old(self) })
                &&& final(self).sponsorships@ == old(self).sponsorships@.insert(
                    sponsorship_id,
                    (Sponsorship { sponsor: caller, sponsored_account, legal_officer, loc_id: None }),
                )
            }),
    {
        if self.sponsorships.contains_key(&sponsorship_id) {
            return Err(Error::AlreadyExists);
        }
        self.sponsorships.insert(
            sponsorship_id,
            Sponsorship { sponsor: caller, sponsored_account, legal_officer, loc_id: None },
        );
        proof {
            lemma_wf_stores_untouched(*old(self), *self);
        }
        Ok(())
    }

    /// Which outcome withdrawing must take: sponsor-only, and only while the
    /// grant is unconsumed.
    pub open spec fn withdraw_sponsorship_outcome(
        self,
        caller: AccountId,
        sponsorship_id: SponsorshipId,
    ) -> Result<(), Error> {
        if self.spec_sponsorship(sponsorship_id) is None {
            Err(Error::NotFound)
        } else if self.spec_sponsorship(sponsorship_id).unwrap().sponsor != caller {
            Err(Error::Unauthorized)
        } else if self.spec_sponsorship(sponsorship_id).unwrap().loc_id is Some {
            Err(Error::AlreadyUsed)
        } else {
            Ok(())
        }
    }

    /// Withdraws an unconsumed sponsorship; the record is dropped.
    pub fn withdraw_sponsorship(&mut self, caller: AccountId, sponsorship_id: SponsorshipId) -> (r:
        Result<(), Error>)
        requires
            old(self).wf(),
        ensures
            final(self).wf(),
            r == old(self).withdraw_sponsorship_outcome(caller, sponsorship_id),
            r is Err ==> *final(self) == *old(self),
            r is Ok ==> ({
                &&& *final(self) == (LogionLoc { sponsorships: final(self).sponsorships, ..*old(self) })
                &&& final(self).sponsorships@ == old(self).sponsorships@.remove(sponsorship_id)
            }),
    {
        match self.sponsorships.get(&sponsorship_id) {
            None => {
                return Err(Error::NotFound);
            },
            Some(s) => {
                if s.sponsor != caller {
                    return Err(Error::Unauthorized);
                }
                if s.loc_id.is_some() {
                    return Err(Error::AlreadyUsed);
                }
            },
        }
        self.sponsorships.remove_key(&sponsorship_id);
        proof {
            lemma_wf_stores_untouched(*old(self), *self);
        }
        Ok(())
    }

    /// The sponsorship under this id, if any.
    pub fn sponsorship(&self, sponsorship_id: SponsorshipId) -> (r: Option<&Sponsorship>)
        requires
            self.wf(),
        ensures
            match r {
                Some(s) => self.spec_sponsorship(sponsorship_id) == Some(*s),
                None => self.spec_sponsorship(sponsorship_id) is None,
            },
    {
        self.sponsorships.get(&sponsorship_id)
    }
}

} // verus!
