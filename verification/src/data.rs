//! Data model: accounts, hashes, the LOC record and its item types,
//! registries' record types, and the error kinds of every operation.

use vstd::prelude::*;

verus! {

/// Network account identifier.
pub type AccountId = u64;

/// Identifier of a LOC, unique process-wide.
pub type LocId = u32;

/// Ledger amounts.
pub type Balance = u128;

/// Block height, as handed in by the host.
pub type BlockNumber = u64;

/// Identifier of a sponsorship grant.
pub type SponsorshipId = u64;

/// A 256-bit content hash, held as two 128-bit halves.
#[derive(Clone, Copy, Debug, PartialEq, Eq, Structural)]
pub struct H256 {
    pub hi: u128,
    pub lo: u128,
}

/// A 160-bit external-chain address, held as a 32-bit and a 128-bit half.
#[derive(Clone, Copy, Debug, PartialEq, Eq, Structural)]
pub struct EthereumAddress {
    pub hi: u32,
    pub lo: u128,
}

/// An account that lives on another chain.
#[derive(Clone, Copy, Debug, PartialEq, Eq, Structural)]
pub enum OtherAccountId {
    Ethereum(EthereumAddress),
}

/// Any account that may stand as the submitter of an item.
#[derive(Clone, Copy, Debug, PartialEq, Eq, Structural)]
pub enum SupportedAccountId {
    Polkadot(AccountId),
    Other(OtherAccountId),
}

/// On whose behalf a LOC was opened.
#[derive(Clone, Copy, Debug, PartialEq, Eq, Structural)]
pub enum Requester {
    Account(AccountId),
    Loc(LocId),
    OtherAccount(OtherAccountId),
    NoRequester,
}

/// The three kinds of LOC.
#[derive(Clone, Copy, Debug, PartialEq, Eq, Structural)]
pub enum LocType {
    Identity,
    Transaction,
    Collection,
}

/// Set when a LOC is voided; an optional successor may be designated.
#[derive(Clone, Copy, Debug, PartialEq, Eq)]
pub struct LocVoidInfo {
    pub replacer: Option<LocId>,
}

/// A named piece of evidence; unique per LOC by `name`.
#[derive(Clone, Copy, Debug, PartialEq, Eq)]
pub struct MetadataItem {
    pub name: H256,
    pub value: H256,
    pub submitter: SupportedAccountId,
    pub acknowledged: bool,
}

/// What a caller hands in to add a metadata item.
#[derive(Clone, Copy, Debug, PartialEq, Eq)]
pub struct MetadataItemParams {
    pub name: H256,
    pub value: H256,
    pub submitter: SupportedAccountId,
}

/// A file attached to a LOC; unique per LOC by `hash`.
#[derive(Clone, Copy, Debug, PartialEq, Eq)]
pub struct File {
    pub hash: H256,
    pub nature: H256,
    pub submitter: SupportedAccountId,
    pub size: u32,
    pub acknowledged: bool,
}

/// What a caller hands in to add a file.
#[derive(Clone, Copy, Debug, PartialEq, Eq)]
pub struct FileParams {
    pub hash: H256,
    pub nature: H256,
    pub submitter: SupportedAccountId,
    pub size: u32,
}

/// A link to another LOC; unique per LOC by target `id`.
#[derive(Clone, Copy, Debug, PartialEq, Eq)]
pub struct LocLink {
    pub id: LocId,
    pub nature: H256,
}

/// A file of a collection item.
#[derive(Clone, Copy, Debug, PartialEq, Eq)]
pub struct CollectionItemFile {
    pub name: H256,
    pub content_type: H256,
    pub hash: H256,
    pub size: u32,
}

/// The token a collection item may carry; its issuance must be positive.
#[derive(Clone, Copy, Debug, PartialEq, Eq)]
pub struct CollectionItemToken {
    pub token_type: H256,
    pub token_id: H256,
    pub token_issuance: u64,
}

/// A terms-and-conditions reference of a collection item; `tc_loc` must point
/// to a closed, non-void LOC at creation time.
#[derive(Clone, Copy, Debug, PartialEq, Eq)]
pub struct TermsAndConditionsElement {
    pub tc_type: H256,
    pub tc_loc: LocId,
    pub details: H256,
}

/// An item of a closed Collection LOC; immutable once created.
#[derive(Clone, Debug, PartialEq, Eq)]
pub struct CollectionItem {
    pub description: H256,
    pub files: Vec<CollectionItemFile>,
    pub token: Option<CollectionItemToken>,
    pub restricted_delivery: bool,
    pub terms_and_conditions: Vec<TermsAndConditionsElement>,
}

/// A file of a tokens record.
#[derive(Clone, Copy, Debug, PartialEq, Eq)]
pub struct TokensRecordFile {
    pub name: H256,
    pub content_type: H256,
    pub size: u32,
    pub hash: H256,
}

/// A token-provenance record of a closed Collection LOC; created exactly once
/// per key, immutable thereafter.
#[derive(Clone, Debug, PartialEq, Eq)]
pub struct TokensRecord {
    pub description: H256,
    pub submitter: AccountId,
    pub files: Vec<TokensRecordFile>,
}

/// A verified-issuer nomination, keyed by (legal officer, issuer account).
#[derive(Clone, Copy, Debug, PartialEq, Eq)]
pub struct VerifiedIssuer {
    pub identity_loc: LocId,
}

/// A sponsorship grant; `loc_id` moves from `None` to `Some` exactly once,
/// when an identity-LOC creation consumes the grant.
#[derive(Clone, Copy, Debug, PartialEq, Eq)]
pub struct Sponsorship {
    pub sponsor: AccountId,
    pub sponsored_account: SupportedAccountId,
    pub legal_officer: AccountId,
    pub loc_id: Option<LocId>,
}

/// The central record: a Legal Officer Case.
#[derive(Clone, Debug, PartialEq, Eq)]
pub struct LegalOfficerCase {
    pub owner: AccountId,
    pub requester: Requester,
    pub metadata: Vec<MetadataItem>,
    pub files: Vec<File>,
    pub closed: bool,
    pub loc_type: LocType,
    pub links: Vec<LocLink>,
    pub void_info: Option<LocVoidInfo>,
    pub replacer_of: Option<LocId>,
    pub collection_last_block_submission: Option<BlockNumber>,
    pub collection_max_size: Option<u32>,
    pub collection_can_upload: bool,
    pub seal: Option<H256>,
    pub sponsorship_id: Option<SponsorshipId>,
}

/// Every way an operation can fail; each failure leaves the state untouched.
#[derive(Clone, Copy, Debug, PartialEq, Eq, Structural)]
pub enum Error {
    BadOrigin,
    Unauthorized,
    CannotSubmit,
    NotFound,
    ItemNotFound,
    ReplacerLocNotFound,
    TermsAndConditionsLocNotFound,
    AlreadyClosed,
    AlreadyVoid,
    CannotMutate,
    CannotMutateVoid,
    CannotCloseUnacknowledged,
    ItemAlreadyAcknowledged,
    DuplicateLocFile,
    DuplicateLocMetadata,
    DuplicateLocLink,
    DuplicateFile,
    CollectionItemAlreadyExists,
    TokensRecordAlreadyExists,
    AlreadyExists,
    CollectionLimitsReached,
    CollectionHasNoLimit,
    MissingToken,
    MissingFiles,
    BadTokenIssuance,
    MustUpload,
    TokensRecordTooMuchData,
    LinkedLocNotFound,
    ReplacerLocAlreadyVoid,
    ReplacerLocAlreadyReplacing,
    ReplacerLocWrongType,
    TermsAndConditionsLocNotClosed,
    TermsAndConditionsLocVoid,
    WrongCollectionLoc,
    UnexpectedRequester,
    NotNominated,
    CannotLinkToSponsorship,
    AlreadyUsed,
    CannotAddRecord,
    CannotUpload,
    InsufficientFunds,
}

/// Who receives a legal fee.
#[derive(Clone, Copy, Debug, PartialEq, Eq, Structural)]
pub enum Beneficiary {
    Treasury,
    LegalOfficer(AccountId),
}

/// The metadata item that adding `metadata` must produce: the fields are
/// carried over and the acknowledgement flag is as given.
pub fn expected_metadata(metadata: MetadataItemParams, acknowledged: bool) -> (r: MetadataItem)
    ensures
        r == (MetadataItem {
            name: metadata.name,
            value: metadata.value,
            submitter: metadata.submitter,
            acknowledged,
        }),
{
    MetadataItem { name: metadata.name, value: metadata.value, submitter: metadata.submitter, acknowledged }
}

/// The file record that adding `file` must produce: the fields are carried
/// over and the acknowledgement flag is as given.
pub fn expected_file(file: &FileParams, acknowledged: bool) -> (r: File)
    ensures
        r == (File {
            hash: file.hash,
            nature: file.nature,
            submitter: file.submitter,
            size: file.size,
            acknowledged,
        }),
{
    File { hash: file.hash, nature: file.nature, submitter: file.submitter, size: file.size, acknowledged }
}

} // verus!
