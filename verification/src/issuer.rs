//! The issuer registry: nominations per legal officer, per-LOC selections
//! kept in two mirrored indexes, and the cascading dismissal that clears
//! every selection of the dismissed issuer.

use vstd::prelude::*;
use crate::data::{AccountId, Error, LocId, LocType, Requester, VerifiedIssuer};
use crate::state::{
    IssuerLocKey, LogionLoc, NominationKey, SelectionKey, lemma_wf_stores_untouched,
};
use crate::store::{lemma_map_domain, lemma_map_get};

verus! {

impl LogionLoc {
    /// Which outcome nominating must take: an officer-only operation, and the
    /// named identity LOC must be a closed, non-void Identity LOC of this
    /// officer whose requester is the nominee.
    pub open spec fn nominate_issuer_outcome(
        self,
        caller: AccountId,
        issuer: AccountId,
        identity_loc_id: LocId,
    ) -> Result<(), Error> {
        if !self.spec_is_legal_officer(caller) {
            Err(Error::BadOrigin)
        } else if !self.has_loc(identity_loc_id) {
            Err(Error::NotFound)
        } else if !(self.spec_loc(identity_loc_id).closed && self.spec_loc(
            identity_loc_id,
        ).void_info is None && self.spec_loc(identity_loc_id).loc_type == LocType::Identity
            && self.spec_loc(identity_loc_id).owner == caller && self.spec_loc(
            identity_loc_id,
        ).requester == Requester::Account(issuer)) {
            Err(Error::Unauthorized)
        } else {
            Ok(())
        }
    }

    /// Nominates an account as a verified issuer of the calling officer.
    pub fn nominate_issuer(
        &mut self,
        caller: AccountId,
        issuer: AccountId,
        identity_loc_id: LocId,
    ) -> (r: Result<(), Error>)
        requires
            old(self).wf(),
        ensures
            final(self).wf(),
            r == old(self).nominate_issuer_outcome(caller, issuer, identity_loc_id),
            r is Err ==> *final(self) == *old(self),
            r is Ok ==> ({
                &&& *final(self) == (LogionLoc {
                    verified_issuers: final(self).verified_issuers,
                    ..*old(self)
                })
                &&& final(self).verified_issuers@ == old(self).verified_issuers@.insert(
                    (NominationKey { legal_officer: caller, issuer }),
                    (VerifiedIssuer { identity_loc: identity_loc_id }),
                )
            }),
    {
        if !self.is_legal_officer(caller) {
            return Err(Error::BadOrigin);
        }
        let valid = match self.locs.get(&identity_loc_id) {
            None => {
                return Err(Error::NotFound);
            },
            Some(identity_loc) => identity_loc.closed && identity_loc.void_info.is_none()
                && matches!(identity_loc.loc_type, LocType::Identity) && identity_loc.owner
                == caller && match identity_loc.requester {
                Requester::Account(a) => a == issuer,
                _ => false,
            },
        };
        if !valid {
            return Err(Error::Unauthorized);
        }
        self.verified_issuers.insert(
            NominationKey { legal_officer: caller, issuer },
            VerifiedIssuer { identity_loc: identity_loc_id },
        );
        proof {
            lemma_wf_stores_untouched(*old(self), *self);
        }
        Ok(())
    }

    /// Which outcome selecting or unselecting must take: owner-only, only
    /// for an issuer the owner has nominated, and never on a void LOC.
    pub open spec fn set_issuer_selection_outcome(
        self,
        caller: AccountId,
        loc_id: LocId,
        issuer: AccountId,
    ) -> Result<(), Error> {
        if !self.has_loc(loc_id) {
            Err(Error::NotFound)
        } else if self.spec_loc(loc_id).owner != caller {
            Err(Error::Unauthorized)
        } else if !self.spec_nominated(caller, issuer) {
            Err(Error::NotNominated)
        } else if self.spec_loc(loc_id).void_info is Some {
            Err(Error::CannotMutateVoid)
        } else {
            Ok(())
        }
    }

    /// Enables or disables a nominated issuer on one LOC, writing both
    /// mirrored indexes in one step.
    pub fn set_issuer_selection(
        &mut self,
        caller: AccountId,
        loc_id: LocId,
        issuer: AccountId,
        selected: bool,
    ) -> (r: Result<(), Error>)
        requires
            old(self).wf(),
        ensures
            final(self).wf(),
            r == old(self).set_issuer_selection_outcome(caller, loc_id, issuer),
            r is Err ==> *final(self) == *old(self),
            r is Ok ==> ({
                &&& *final(self) == (LogionLoc {
                    verified_issuers_by_loc: final(self).verified_issuers_by_loc,
                    locs_by_verified_issuer: final(self).locs_by_verified_issuer,
                    ..*old(self)
                })
                &&& final(self).verified_issuers_by_loc@ == if selected {
                    old(self).verified_issuers_by_loc@.insert((SelectionKey { loc_id, issuer }), ())
                } else {
                    old(self).verified_issuers_by_loc@.remove((SelectionKey { loc_id, issuer }))
                }
                &&& final(self).locs_by_verified_issuer@ == if selected {
                    old(self).locs_by_verified_issuer@.insert(
                        (IssuerLocKey { issuer, legal_officer: caller, loc_id }),
                        (),
                    )
                } else {
                    old(self).locs_by_verified_issuer@.remove(
                        (IssuerLocKey { issuer, legal_officer: caller, loc_id }),
                    )
                }
            }),
    {
        let idx = match self.locs.index_of(&loc_id) {
            None => {
                return Err(Error::NotFound);
            },
            Some(i) => i,
        };
        let entry = self.locs.entry_at(idx);
        if entry.1.owner != caller {
            return Err(Error::Unauthorized);
        }
        if !self.verified_issuers.contains_key(&(NominationKey { legal_officer: caller, issuer })) {
            return Err(Error::NotNominated);
        }
        let entry = self.locs.entry_at(idx);
        if entry.1.void_info.is_some() {
            return Err(Error::CannotMutateVoid);
        }
        if selected {
            self.verified_issuers_by_loc.insert(SelectionKey { loc_id, issuer }, ());
            self.locs_by_verified_issuer.insert(
                IssuerLocKey { issuer, legal_officer: caller, loc_id },
                (),
            );
        } else {
            self.verified_issuers_by_loc.remove_key(&(SelectionKey { loc_id, issuer }));
            self.locs_by_verified_issuer.remove_key(
                &(IssuerLocKey { issuer, legal_officer: caller, loc_id }),
            );
        }
        proof {
            let a = *old(self);
            let b = *self;
            assert(b.selections_mirrored()) by {
                assert forall|k: SelectionKey| b.verified_issuers_by_loc@.dom().contains(
                    k,
                ) implies b.locs@.dom().contains(k.loc_id) && b.locs_by_verified_issuer@.dom()
                    .contains(
                    (IssuerLocKey {
                        issuer: k.issuer,
                        legal_officer: b.locs@[k.loc_id].owner,
                        loc_id: k.loc_id,
                    }),
                ) by {
                    if k == (SelectionKey { loc_id, issuer }) {
                        assert(b.locs@[k.loc_id].owner == caller);
                    } else {
                        assert(a.verified_issuers_by_loc@.dom().contains(k));
                        if !selected {
                            assert((IssuerLocKey {
                                issuer: k.issuer,
                                legal_officer: a.locs@[k.loc_id].owner,
                                loc_id: k.loc_id,
                            }) != (IssuerLocKey { issuer, legal_officer: caller, loc_id }));
                        }
                    }
                }
                assert forall|k: IssuerLocKey| b.locs_by_verified_issuer@.dom().contains(
                    k,
                ) implies b.locs@.dom().contains(k.loc_id) && b.locs@[k.loc_id].owner
                    == k.legal_officer && b.verified_issuers_by_loc@.dom().contains(
                    (SelectionKey { loc_id: k.loc_id, issuer: k.issuer }),
                ) by {
                    if k == (IssuerLocKey { issuer, legal_officer: caller, loc_id }) {
                    } else {
                        assert(a.locs_by_verified_issuer@.dom().contains(k));
                        if !selected {
                            assert(a.locs@[k.loc_id].owner == k.legal_officer);
                            assert((SelectionKey { loc_id: k.loc_id, issuer: k.issuer })
                                != (SelectionKey { loc_id, issuer }));
                        }
                    }
                }
            }
        }
        Ok(())
    }

    /// Which outcome dismissing must take: an officer-only operation on an
    /// existing nomination of that officer.
    pub open spec fn dismiss_issuer_outcome(self, caller: AccountId, issuer: AccountId) -> Result<
        (),
        Error,
    > {
        if !self.spec_is_legal_officer(caller) {
            Err(Error::BadOrigin)
        } else if !self.spec_nominated(caller, issuer) {
            Err(Error::NotFound)
        } else {
            Ok(())
        }
    }

    /// Dismisses an issuer: the nomination goes, and every selection of the
    /// issuer on this officer's LOCs is removed from both mirrored indexes.
    pub fn dismiss_issuer(&mut self, caller: AccountId, issuer: AccountId) -> (r: Result<
        (),
        Error,
    >)
        requires
            old(self).wf(),
        ensures
            final(self).wf(),
            r == old(self).dismiss_issuer_outcome(caller, issuer),
            r is Err ==> *final(self) == *old(self),
            r is Ok ==> ({
                &&& *final(self) == (LogionLoc {
                    verified_issuers: final(self).verified_issuers,
                    verified_issuers_by_loc: final(self).verified_issuers_by_loc,
                    locs_by_verified_issuer: final(self).locs_by_verified_issuer,
                    ..*old(self)
                })
                &&& final(self).verified_issuers@ == old(self).verified_issuers@.remove(
                    (NominationKey { legal_officer: caller, issuer }),
                )
                &&& forall|k: IssuerLocKey|
                    final(self).locs_by_verified_issuer@.dom().contains(k) <==> (old(
                        self,
                    ).locs_by_verified_issuer@.dom().contains(k) && !(k.issuer == issuer
                        && k.legal_officer == caller))
                &&& forall|k: SelectionKey|
                    final(self).verified_issuers_by_loc@.dom().contains(k) <==> (old(
                        self,
                    ).verified_issuers_by_loc@.dom().contains(k) && !(k.issuer == issuer && old(
                        self,
                    ).spec_loc(k.loc_id).owner == caller))
            }),
    {
        if !self.is_legal_officer(caller) {
            return Err(Error::BadOrigin);
        }
        if !self.verified_issuers.contains_key(&(NominationKey { legal_officer: caller, issuer })) {
            return Err(Error::NotFound);
        }

        // Collect every selection key of this issuer under this officer.
        let mut keys: Vec<IssuerLocKey> = Vec::new();
        let n = self.locs_by_verified_issuer.len();
        for i in 0..n
            invariant
                n == self.locs_by_verified_issuer.entries().len(),
                self.wf(),
                forall|k: IssuerLocKey|
                    keys@.contains(k) ==> k.issuer == issuer && k.legal_officer == caller
                        && self.locs_by_verified_issuer@.dom().contains(k),
                forall|j: int|
                    0 <= j < i && self.locs_by_verified_issuer.entries()[j].0.issuer == issuer
                        && self.locs_by_verified_issuer.entries()[j].0.legal_officer == caller
                        ==> keys@.contains(self.locs_by_verified_issuer.entries()[j].0),
        {
            let k0 = self.locs_by_verified_issuer.entry_at(i).0;
            if k0.issuer == issuer && k0.legal_officer == caller {
                proof {
                    lemma_map_get(self.locs_by_verified_issuer.entries(), i as int);
                }
                let ghost keys0 = keys@;
                keys.push(k0);
                proof {
                    assert forall|k: IssuerLocKey| keys@.contains(k) implies k.issuer == issuer
                        && k.legal_officer == caller && self.locs_by_verified_issuer@.dom()
                        .contains(k) by {
                        let j = choose|j: int| 0 <= j < keys@.len() && keys@[j] == k;
                        if j < keys0.len() {
                            assert(keys0[j] == k);
                            assert(keys0.contains(k));
                        }
                    }
                    assert forall|j: int|
                        0 <= j < i + 1 && self.locs_by_verified_issuer.entries()[j].0.issuer
                            == issuer && self.locs_by_verified_issuer.entries()[j].0.legal_officer
                            == caller implies keys@.contains(
                        self.locs_by_verified_issuer.entries()[j].0,
                    ) by {
                        let e = self.locs_by_verified_issuer.entries()[j].0;
                        if j < i as int {
                            assert(keys0.contains(e));
                            let idx = choose|idx: int| 0 <= idx < keys0.len() && keys0[idx] == e;
                            assert(keys@[idx] == e);
                        } else {
                            assert(keys@[keys@.len() - 1] == e);
                        }
                    }
                }
            }
        }
        proof {
            lemma_map_domain(self.locs_by_verified_issuer.entries());
            assert forall|k: IssuerLocKey|
                (self.locs_by_verified_issuer@.dom().contains(k) && k.issuer == issuer
                    && k.legal_officer == caller) implies keys@.contains(k) by {
                let j = choose|j: int|
                    0 <= j < self.locs_by_verified_issuer.entries().len()
                        && self.locs_by_verified_issuer.entries()[j].0 == k;
                assert(keys@.contains(self.locs_by_verified_issuer.entries()[j].0));
            }
        }

        // The nomination goes first.
        self.verified_issuers.remove_key(&(NominationKey { legal_officer: caller, issuer }));
        let ghost base = *self;

        // Then every collected selection, from both indexes.
        let m = keys.len();
        for i in 0..m
            invariant
                m == keys@.len(),
                *self == (LogionLoc {
                    verified_issuers_by_loc: self.verified_issuers_by_loc,
                    locs_by_verified_issuer: self.locs_by_verified_issuer,
                    ..base
                }),
                self.verified_issuers_by_loc.wf(),
                self.locs_by_verified_issuer.wf(),
                forall|k: IssuerLocKey|
                    self.locs_by_verified_issuer@.dom().contains(k) <==> (old(
                        self,
                    ).locs_by_verified_issuer@.dom().contains(k) && !(exists|j: int|
                        0 <= j < i && keys@[j] == k)),
                forall|k: SelectionKey|
                    self.verified_issuers_by_loc@.dom().contains(k) <==> (old(
                        self,
                    ).verified_issuers_by_loc@.dom().contains(k) && !(exists|j: int|
                        0 <= j < i && keys@[j].loc_id == k.loc_id && keys@[j].issuer == k.issuer)),
        {
            let key = keys[i];
            self.locs_by_verified_issuer.remove_key(&key);
            self.verified_issuers_by_loc.remove_key(
                &(SelectionKey { loc_id: key.loc_id, issuer: key.issuer }),
            );
        }
        proof {
            let a = *old(self);
            let b = *self;
            assert forall|k: IssuerLocKey|
                b.locs_by_verified_issuer@.dom().contains(k) <==> (a.locs_by_verified_issuer@.dom()
                    .contains(k) && !(k.issuer == issuer && k.legal_officer == caller)) by {
                if a.locs_by_verified_issuer@.dom().contains(k) && k.issuer == issuer
                    && k.legal_officer == caller {
                    assert(keys@.contains(k));
                }
                if keys@.contains(k) {
                    assert(k.issuer == issuer && k.legal_officer == caller);
                }
            }
            assert forall|k: SelectionKey|
                b.verified_issuers_by_loc@.dom().contains(k) <==> (a.verified_issuers_by_loc@.dom()
                    .contains(k) && !(k.issuer == issuer && a.spec_loc(k.loc_id).owner
                    == caller)) by {
                if a.verified_issuers_by_loc@.dom().contains(k) {
                    if k.issuer == issuer && a.spec_loc(k.loc_id).owner == caller {
                        // The mirrored key is collected, so this one is removed.
                        let ik = IssuerLocKey {
                            issuer: k.issuer,
                            legal_officer: a.locs@[k.loc_id].owner,
                            loc_id: k.loc_id,
                        };
                        assert(a.locs_by_verified_issuer@.dom().contains(ik));
                        assert(keys@.contains(ik));
                        let j = choose|j: int| 0 <= j < keys@.len() && keys@[j] == ik;
                        assert(keys@[j].loc_id == k.loc_id && keys@[j].issuer == k.issuer);
                    } else {
                        if exists|j: int|
                            0 <= j < keys@.len() && keys@[j].loc_id == k.loc_id && keys@[j].issuer
                                == k.issuer {
                            let j = choose|j: int|
                                0 <= j < keys@.len() && keys@[j].loc_id == k.loc_id
                                    && keys@[j].issuer == k.issuer;
                            assert(keys@.contains(keys@[j]));
                            assert(a.locs_by_verified_issuer@.dom().contains(keys@[j]));
                            assert(a.locs@[keys@[j].loc_id].owner == keys@[j].legal_officer);
                            assert(false);
                        }
                    }
                }
            }
            // The invariant is restored: the indexes still mirror each other.
            assert(b.selections_mirrored()) by {
                assert forall|k: SelectionKey| b.verified_issuers_by_loc@.dom().contains(
                    k,
                ) implies b.locs@.dom().contains(k.loc_id) && b.locs_by_verified_issuer@.dom()
                    .contains(
                    (IssuerLocKey {
                        issuer: k.issuer,
                        legal_officer: b.locs@[k.loc_id].owner,
                        loc_id: k.loc_id,
                    }),
                ) by {
                    assert(a.verified_issuers_by_loc@.dom().contains(k));
                    let ik = IssuerLocKey {
                        issuer: k.issuer,
                        legal_officer: a.locs@[k.loc_id].owner,
                        loc_id: k.loc_id,
                    };
                    assert(a.locs_by_verified_issuer@.dom().contains(ik));
                    assert(!(k.issuer == issuer && a.spec_loc(k.loc_id).owner == caller));
                    assert(!(ik.issuer == issuer && ik.legal_officer == caller));
                }
                assert forall|k: IssuerLocKey| b.locs_by_verified_issuer@.dom().contains(
                    k,
                ) implies b.locs@.dom().contains(k.loc_id) && b.locs@[k.loc_id].owner
                    == k.legal_officer && b.verified_issuers_by_loc@.dom().contains(
                    (SelectionKey { loc_id: k.loc_id, issuer: k.issuer }),
                ) by {
                    assert(a.locs_by_verified_issuer@.dom().contains(k));
                    assert(a.locs@[k.loc_id].owner == k.legal_officer);
                    assert(!(k.issuer == issuer && k.legal_officer == caller));
                    assert(!(k.issuer == issuer && a.spec_loc(k.loc_id).owner == caller));
                }
            }
        }
        Ok(())
    }

    /// The nomination of `issuer` by `legal_officer`, if any.
    pub fn verified_issuers(&self, legal_officer: AccountId, issuer: AccountId) -> (r: Option<
        &VerifiedIssuer,
    >)
        requires
            self.wf(),
        ensures
            match r {
                Some(v) => self.spec_nominated(legal_officer, issuer) && *v
                    == self.verified_issuers@[(NominationKey { legal_officer, issuer })],
                None => !self.spec_nominated(legal_officer, issuer),
            },
    {
        self.verified_issuers.get(&(NominationKey { legal_officer, issuer }))
    }

    /// Whether `issuer` holds a selection on this LOC.
    pub fn verified_issuers_by_loc(&self, loc_id: LocId, issuer: AccountId) -> (r: Option<()>)
        requires
            self.wf(),
        ensures
            r == if self.spec_selected(loc_id, issuer) {
                Some(())
            } else {
                None::<()>
            },
    {
        if self.verified_issuers_by_loc.contains_key(&(SelectionKey { loc_id, issuer })) {
            Some(())
        } else {
            None
        }
    }

    /// Whether the selection triple is present in the issuer-side index.
    pub fn locs_by_verified_issuer(&self, key: (AccountId, AccountId, LocId)) -> (r: Option<()>)
        requires
            self.wf(),
        ensures
            r == if self.locs_by_verified_issuer@.dom().contains(
                (IssuerLocKey { issuer: key.0, legal_officer: key.1, loc_id: key.2 }),
            ) {
                Some(())
            } else {
                None::<()>
            },
    {
        if self.locs_by_verified_issuer.contains_key(
            &(IssuerLocKey { issuer: key.0, legal_officer: key.1, loc_id: key.2 }),
        ) {
            Some(())
        } else {
            None
        }
    }
}

} // verus!
