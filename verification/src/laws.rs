//! The general laws of the lifecycle, stated over the operations' outcome
//! functions and proved once and for all.

use vstd::prelude::*;
use crate::data::{
    AccountId, CollectionItemFile, CollectionItemToken, Error, FileParams, H256, LocId,
    MetadataItemParams, OtherAccountId, SponsorshipId, SupportedAccountId,
    TermsAndConditionsElement,
};
use crate::state::{IssuerLocKey, LogionLoc, all_items_acknowledged, files_has_hash};

verus! {

/// Closing an open, non-void LOC by its owner succeeds exactly when every
/// metadata item and file is acknowledged; otherwise it fails with the
/// unacknowledged-close error.
pub proof fn lemma_close_requires_full_acknowledgement(
    s: LogionLoc,
    caller: AccountId,
    loc_id: LocId,
)
    requires
        s.has_loc(loc_id),
        s.spec_loc(loc_id).owner == caller,
        s.spec_loc(loc_id).void_info is None,
        !s.spec_loc(loc_id).closed,
    ensures
        s.close_outcome(caller, loc_id) is Ok <==> all_items_acknowledged(s.spec_loc(loc_id)),
        !all_items_acknowledged(s.spec_loc(loc_id)) ==> s.close_outcome(caller, loc_id) == Err::<
            (),
            Error,
        >(Error::CannotCloseUnacknowledged),
{
}

/// Once a LOC is void, every mutating operation on it fails: item and link
/// additions, acknowledgements, closing and issuer selection report the
/// void-mutation conflict, a second voiding reports it void, and the
/// collection operations refuse the LOC.
pub proof fn lemma_void_loc_rejects_mutation(
    s: LogionLoc,
    caller: AccountId,
    loc_id: LocId,
    metadata: MetadataItemParams,
    file: FileParams,
    link: crate::data::LocLink,
    name: H256,
    hash: H256,
    issuer: AccountId,
    item_id: H256,
    item_files: Seq<CollectionItemFile>,
    item_token: Option<CollectionItemToken>,
    restricted_delivery: bool,
    terms: Seq<TermsAndConditionsElement>,
    record_id: H256,
    record_files: Seq<crate::data::TokensRecordFile>,
)
    requires
        s.has_loc(loc_id),
        s.loc_void(loc_id),
    ensures
        s.add_item_auth(loc_id, caller, metadata.submitter) is Ok ==> s.add_metadata_outcome(
            caller,
            loc_id,
            metadata,
        ) == Err::<(), Error>(Error::CannotMutateVoid),
        s.add_item_auth(loc_id, caller, file.submitter) is Ok ==> s.add_file_outcome(
            caller,
            loc_id,
            file,
        ) == Err::<(), Error>(Error::CannotMutateVoid),
        s.spec_loc(loc_id).owner == caller ==> s.add_link_outcome(caller, loc_id, link) == Err::<
            (),
            Error,
        >(Error::CannotMutateVoid),
        s.spec_is_legal_officer(caller) && s.spec_loc(loc_id).owner == caller
            ==> s.acknowledge_metadata_outcome(caller, loc_id, name) == Err::<(), Error>(
            Error::CannotMutateVoid,
        ),
        s.spec_is_legal_officer(caller) && s.spec_loc(loc_id).owner == caller
            ==> s.acknowledge_file_outcome(caller, loc_id, hash) == Err::<(), Error>(
            Error::CannotMutateVoid,
        ),
        s.spec_loc(loc_id).owner == caller ==> s.close_outcome(caller, loc_id) == Err::<(), Error>(
            Error::CannotMutateVoid,
        ),
        s.spec_loc(loc_id).owner == caller && s.spec_nominated(caller, issuer)
            ==> s.set_issuer_selection_outcome(caller, loc_id, issuer) == Err::<(), Error>(
            Error::CannotMutateVoid,
        ),
        s.spec_loc(loc_id).owner == caller ==> s.make_void_outcome(caller, loc_id) == Err::<
            (),
            Error,
        >(Error::AlreadyVoid),
        s.add_collection_item_outcome(
            caller,
            loc_id,
            item_id,
            item_files,
            item_token,
            restricted_delivery,
            terms,
        ) == Err::<(), Error>(Error::WrongCollectionLoc),
        s.add_tokens_record_outcome(caller, loc_id, record_id, record_files) == Err::<(), Error>(
            Error::CannotAddRecord,
        ),
{
}

/// A Collection LOC with a size limit takes items up to the limit and not
/// beyond: at the limit any further addition fails with the capacity error,
/// below it an addition of a plain item by the requester succeeds.
pub proof fn lemma_collection_capacity(
    s: LogionLoc,
    caller: AccountId,
    loc_id: LocId,
    item_id: H256,
    max_size: u32,
)
    requires
        s.spec_can_add_collection_item(caller, loc_id),
        s.spec_loc(loc_id).collection_max_size == Some(max_size),
        s.spec_loc(loc_id).collection_last_block_submission is None,
    ensures
        s.spec_collection_size(loc_id) >= max_size ==> forall|
            files: Seq<CollectionItemFile>,
            token: Option<CollectionItemToken>,
            rd: bool,
            terms: Seq<TermsAndConditionsElement>,
        |
            s.add_collection_item_outcome(caller, loc_id, item_id, files, token, rd, terms)
                == Err::<(), Error>(Error::CollectionLimitsReached),
        (s.spec_collection_size(loc_id) < max_size && s.spec_collection_item(loc_id, item_id) is None)
            ==> s.add_collection_item_outcome(
            caller,
            loc_id,
            item_id,
            Seq::empty(),
            None,
            false,
            Seq::empty(),
        ) is Ok,
{
    assert(s.spec_balance(caller) >= 0);
    assert(crate::collection::spec_item_files_size(Seq::<CollectionItemFile>::empty()) == 0);
    assert(LogionLoc::spec_item_fee(Seq::empty(), None) == 0);
    assert(LogionLoc::spec_terms_check_from(s, Seq::<TermsAndConditionsElement>::empty(), 0)
        is Ok);
}

/// Two files with the same content hash never coexist on one LOC: the second
/// addition fails with the duplicate error, while a new hash is accepted
/// whenever the fee is covered.
pub proof fn lemma_duplicate_loc_file_rejected(
    s: LogionLoc,
    caller: AccountId,
    loc_id: LocId,
    file: FileParams,
)
    requires
        s.has_loc(loc_id),
        s.add_item_auth(loc_id, caller, file.submitter) is Ok,
        s.spec_loc(loc_id).void_info is None,
        !s.spec_loc(loc_id).closed,
    ensures
        files_has_hash(s.spec_loc(loc_id), file.hash) ==> s.add_file_outcome(caller, loc_id, file)
            == Err::<(), Error>(Error::DuplicateLocFile),
        (!files_has_hash(s.spec_loc(loc_id), file.hash) && s.spec_balance(
            s.spec_fee_payer(s.spec_loc(loc_id)),
        ) >= crate::fees::spec_storage_fee(1, file.size as int)) ==> s.add_file_outcome(
            caller,
            loc_id,
            file,
        ) is Ok,
{
}

/// Two collection-item files with the same content hash never coexist within
/// one item: such an item is rejected with the duplicate-file error.
pub proof fn lemma_duplicate_item_file_rejected(
    s: LogionLoc,
    caller: AccountId,
    loc_id: LocId,
    item_id: H256,
    item_files: Seq<CollectionItemFile>,
    item_token: Option<CollectionItemToken>,
    restricted_delivery: bool,
    terms: Seq<TermsAndConditionsElement>,
)
    requires
        s.spec_can_add_collection_item(caller, loc_id),
        !s.spec_collection_limits_reached(loc_id),
        s.spec_collection_item(loc_id, item_id) is None,
        s.spec_loc(loc_id).collection_can_upload,
        item_token is Some,
        item_files.len() > 0,
        item_token.unwrap().token_issuance > 0,
        crate::collection::has_duplicate_item_file(item_files),
    ensures
        s.add_collection_item_outcome(
            caller,
            loc_id,
            item_id,
            item_files,
            item_token,
            restricted_delivery,
            terms,
        ) == Err::<(), Error>(Error::DuplicateFile),
{
}

/// A sponsorship is consumed by at most one identity-LOC creation: once its
/// LOC id is set, linking any further LOC fails, and so does withdrawal.
pub proof fn lemma_sponsorship_single_use(
    s: LogionLoc,
    caller: AccountId,
    loc_id: LocId,
    requester_account_id: OtherAccountId,
    sponsorship_id: SponsorshipId,
)
    requires
        s.spec_sponsorship(sponsorship_id) is Some,
        s.spec_sponsorship(sponsorship_id).unwrap().loc_id is Some,
    ensures
        (s.spec_is_legal_officer(caller) && !s.has_loc(loc_id))
            ==> s.create_other_identity_loc_outcome(
            caller,
            loc_id,
            requester_account_id,
            sponsorship_id,
        ) == Err::<(), Error>(Error::CannotLinkToSponsorship),
        s.withdraw_sponsorship_outcome(
            s.spec_sponsorship(sponsorship_id).unwrap().sponsor,
            sponsorship_id,
        ) == Err::<(), Error>(Error::AlreadyUsed),
{
}

/// In every well-formed state the two selection indexes mirror each other:
/// an issuer is selected on a LOC exactly when the issuer-side index holds
/// the triple with the LOC's owner.
pub proof fn lemma_selection_indexes_mirror(s: LogionLoc)
    requires
        s.wf(),
    ensures
        forall|loc_id: LocId, issuer: AccountId|
            #[trigger] s.spec_selected(loc_id, issuer) <==> (s.has_loc(loc_id)
                && s.locs_by_verified_issuer@.dom().contains(
                (IssuerLocKey {
                    issuer,
                    legal_officer: s.spec_loc(loc_id).owner,
                    loc_id,
                }),
            )),
{
    assert forall|loc_id: LocId, issuer: AccountId|
        #[trigger] s.spec_selected(loc_id, issuer) <==> (s.has_loc(loc_id)
            && s.locs_by_verified_issuer@.dom().contains(
            (IssuerLocKey { issuer, legal_officer: s.spec_loc(loc_id).owner, loc_id }),
        )) by {
        let sk = crate::state::SelectionKey { loc_id, issuer };
        let ik = IssuerLocKey { issuer, legal_officer: s.spec_loc(loc_id).owner, loc_id };
        if s.spec_selected(loc_id, issuer) {
            assert(s.verified_issuers_by_loc@.dom().contains(sk));
        }
        if s.has_loc(loc_id) && s.locs_by_verified_issuer@.dom().contains(ik) {
            assert(s.verified_issuers_by_loc@.dom().contains(
                (crate::state::SelectionKey { loc_id: ik.loc_id, issuer: ik.issuer }),
            ));
        }
    }
}

/// The acknowledgement flag at creation follows the declared submitter, not
/// the caller: an item submitted by the owner or a currently selected issuer
/// is born acknowledged, and one submitted by the requester is born
/// unacknowledged and awaits the officer's explicit acknowledgement. Adding
/// a fresh item to an open, non-void LOC by a valid submitter succeeds.
pub proof fn lemma_acknowledgement_follows_submitter(
    s: LogionLoc,
    caller: AccountId,
    loc_id: LocId,
    metadata: MetadataItemParams,
)
    requires
        s.has_loc(loc_id),
    ensures
        metadata.submitter == SupportedAccountId::Polkadot(s.spec_loc(loc_id).owner)
            ==> s.spec_born_acknowledged(loc_id, metadata.submitter),
        (match metadata.submitter {
            SupportedAccountId::Polkadot(a) => s.spec_selected(loc_id, a),
            _ => false,
        }) ==> s.spec_born_acknowledged(loc_id, metadata.submitter),
        ((match s.spec_loc(loc_id).requester {
            crate::data::Requester::Account(a) => metadata.submitter
                == SupportedAccountId::Polkadot(a),
            crate::data::Requester::OtherAccount(o) => metadata.submitter
                == SupportedAccountId::Other(o),
            _ => false,
        }) && metadata.submitter != SupportedAccountId::Polkadot(s.spec_loc(loc_id).owner) && !(
        match metadata.submitter {
            SupportedAccountId::Polkadot(a) => s.spec_selected(loc_id, a),
            _ => false,
        })) ==> !s.spec_born_acknowledged(loc_id, metadata.submitter),
        (caller != s.spec_loc(loc_id).owner && metadata.submitter
            == SupportedAccountId::Polkadot(caller) && s.spec_valid_submitter(
            loc_id,
            metadata.submitter,
        ) && s.spec_loc(loc_id).void_info is None && !s.spec_loc(loc_id).closed
            && !crate::state::metadata_has_name(s.spec_loc(loc_id), metadata.name))
            ==> s.add_metadata_outcome(caller, loc_id, metadata) is Ok,
{
}

} // verus!
