//! Read-side queries: fetching records and the validity predicates other
//! components rely on.

use vstd::prelude::*;
use crate::data::{AccountId, LegalOfficerCase, LocId, LocType, OtherAccountId};
use crate::state::LogionLoc;

verus! {

impl LogionLoc {
    /// The LOC stored under this id, if any.
    pub fn loc(&self, loc_id: LocId) -> (r: Option<&LegalOfficerCase>)
        requires
            self.wf(),
        ensures
            match r {
                Some(l) => self.has_loc(loc_id) && *l == self.spec_loc(loc_id),
                None => !self.has_loc(loc_id),
            },
    {
        self.locs.get(&loc_id)
    }

    /// The LOC ids requested by this network account, in creation order.
    pub fn account_locs(&self, account: AccountId) -> (r: Option<&Vec<LocId>>)
        requires
            self.wf(),
        ensures
            match r {
                Some(l) => self.account_locs@.dom().contains(account) && l@
                    == self.spec_account_locs(account),
                None => !self.account_locs@.dom().contains(account),
            },
    {
        self.account_locs.get(&account)
    }

    /// The LOC ids requested by this external account, in creation order.
    pub fn other_account_locs(&self, account: OtherAccountId) -> (r: Option<&Vec<LocId>>)
        requires
            self.wf(),
        ensures
            match r {
                Some(l) => self.other_account_locs@.dom().contains(account) && l@
                    == self.spec_other_account_locs(account),
                None => !self.other_account_locs@.dom().contains(account),
            },
    {
        self.other_account_locs.get(&account)
    }

    /// The LOC ids opened on behalf of this identity LOC, in creation order.
    pub fn identity_loc_locs(&self, identity_loc_id: LocId) -> (r: Option<&Vec<LocId>>)
        requires
            self.wf(),
        ensures
            match r {
                Some(l) => self.identity_loc_locs@.dom().contains(identity_loc_id) && l@
                    == self.spec_identity_loc_locs(identity_loc_id),
                None => !self.identity_loc_locs@.dom().contains(identity_loc_id),
            },
    {
        self.identity_loc_locs.get(&identity_loc_id)
    }

    /// A LOC is valid with this owner when it exists, is closed, is not void
    /// and the owner matches.
    pub open spec fn spec_loc_valid_with_owner(self, loc_id: LocId, legal_officer: AccountId) -> bool {
        &&& self.has_loc(loc_id)
        &&& self.spec_loc(loc_id).closed
        &&& self.spec_loc(loc_id).void_info is None
        &&& self.spec_loc(loc_id).owner == legal_officer
    }

    /// Whether the LOC exists, is closed, is not void, and is owned by the
    /// given legal officer.
    pub fn loc_valid_with_owner(&self, loc_id: &LocId, legal_officer: &AccountId) -> (r: bool)
        requires
            self.wf(),
        ensures
            r == self.spec_loc_valid_with_owner(*loc_id, *legal_officer),
    {
        match self.locs.get(loc_id) {
            None => false,
            Some(l) => l.closed && l.void_info.is_none() && l.owner == *legal_officer,
        }
    }

    /// The account requested some Identity LOC of this officer that is now
    /// closed.
    pub open spec fn spec_has_closed_identity_loc(
        self,
        account: AccountId,
        legal_officer: AccountId,
    ) -> bool {
        exists|j: int|
            0 <= j < self.spec_account_locs(account).len() && {
                let id = #[trigger] self.spec_account_locs(account)[j];
                &&& self.has_loc(id)
                &&& self.spec_loc(id).owner == legal_officer
                &&& self.spec_loc(id).loc_type == LocType::Identity
                &&& self.spec_loc(id).closed
            }
    }

    fn has_closed_identity_loc(&self, account: AccountId, legal_officer: AccountId) -> (r: bool)
        requires
            self.wf(),
        ensures
            r == self.spec_has_closed_identity_loc(account, legal_officer),
    {
        let ids = match self.account_locs.get(&account) {
            None => {
                return false;
            },
            Some(l) => l,
        };
        let n = ids.len();
        for j in 0..n
            invariant
                self.wf(),
                n == ids@.len(),
                ids@ == self.spec_account_locs(account),
                forall|k: int|
                    0 <= k < j ==> !{
                        let id = #[trigger] self.spec_account_locs(account)[k];
                        &&& self.has_loc(id)
                        &&& self.spec_loc(id).owner == legal_officer
                        &&& self.spec_loc(id).loc_type == LocType::Identity
                        &&& self.spec_loc(id).closed
                    },
        {
            let id = ids[j];
            match self.locs.get(&id) {
                Some(l) => {
                    if l.owner == legal_officer && matches!(l.loc_type, LocType::Identity)
                        && l.closed {
                        return true;
                    }
                },
                None => {},
            }
        }
        false
    }

    /// Whether the account holds, for every listed legal officer, a closed
    /// Identity LOC of that officer.
    pub fn has_closed_identity_locs(
        &self,
        account: &AccountId,
        legal_officers: &Vec<AccountId>,
    ) -> (r: bool)
        requires
            self.wf(),
        ensures
            r == forall|i: int|
                0 <= i < legal_officers@.len() ==> self.spec_has_closed_identity_loc(
                    *account,
                    #[trigger] legal_officers@[i],
                ),
    {
        let n = legal_officers.len();
        for i in 0..n
            invariant
                self.wf(),
                n == legal_officers@.len(),
                forall|k: int|
                    0 <= k < i ==> self.spec_has_closed_identity_loc(
                        *account,
                        #[trigger] legal_officers@[k],
                    ),
        {
            if !self.has_closed_identity_loc(*account, legal_officers[i]) {
                return false;
            }
        }
        true
    }

}

} // verus!
