//! Item submission and acknowledgement: metadata, files, the shared
//! authorization shape and the acknowledgement workflow.

use logion_loc::data::{
    Beneficiary, Error, FileParams, H256, MetadataItemParams, SupportedAccountId,
    expected_file, expected_metadata,
};
use logion_loc::fees::{Fees, ONE_LGNT, storage_fees};
use logion_loc::state::{BalancesSnapshot, LogionLoc, check_no_fees};
use sha2::{Digest, Sha256};
use blake2::Blake2s256;

const LOC_ID: u32 = 0;
const ISSUER1_IDENTITY_LOC_ID: u32 = 4;
const FILE_SIZE: u32 = 90;

const LOC_OWNER1: u64 = 1;
const LOC_OWNER2: u64 = 2;
const LOC_REQUESTER_ID: u64 = 3;
const ISSUER_ID1: u64 = 4;
const ISSUER_ID2: u64 = 5;
const SPONSOR_ID: u64 = 6;
const UNAUTHORIZED_CALLER: u64 = 9;
const TREASURY_ACCOUNT_ID: u64 = 100;

const INITIAL_BALANCE: u128 = (3 * 2000 * ONE_LGNT) + ONE_LGNT;
const INSUFFICIENT_BALANCE: u128 = 99;
const ACKNOWLEDGED: bool = true;
const NOT_ACKNOWLEDGED: bool = !ACKNOWLEDGED;

fn new_test_ext() -> LogionLoc {
    LogionLoc::new(vec![LOC_OWNER1, LOC_OWNER2], TREASURY_ACCOUNT_ID)
}

fn setup_default_balances(ll: &mut LogionLoc) {
    ll.setup_default_balances(
        &vec![
            LOC_REQUESTER_ID,
            SPONSOR_ID,
            LOC_OWNER1,
            LOC_OWNER2,
            ISSUER_ID1,
            ISSUER_ID2,
            TREASURY_ACCOUNT_ID,
        ],
        INITIAL_BALANCE,
    );
}

fn to_h256(bytes: &[u8]) -> H256 {
    let mut hi = [0u8; 16];
    hi.copy_from_slice(&bytes[0..16]);
    let mut lo = [0u8; 16];
    lo.copy_from_slice(&bytes[16..32]);
    H256 { hi: u128::from_be_bytes(hi), lo: u128::from_be_bytes(lo) }
}

fn sha256(data: &Vec<u8>) -> H256 {
    to_h256(&Sha256::digest(data))
}

fn blake2_256(data: &Vec<u8>) -> H256 {
    to_h256(&Blake2s256::digest(data))
}

fn assert_ok(r: Result<(), Error>) {
    assert_eq!(r, Ok(()));
}

fn assert_err(r: Result<(), Error>, e: Error) {
    assert_eq!(r, Err(e));
}

fn assert_balances_events(ll: &LogionLoc, snapshot: &BalancesSnapshot, fees: &Fees) {
    let total = fees.storage_fees + fees.legal_fees + fees.certificate_fees;
    assert_eq!(ll.balance_of(snapshot.payer_account), snapshot.payer_balance - total);
    let officer_credit = match fees.legal_fee_beneficiary {
        Some(Beneficiary::LegalOfficer(a)) => {
            assert_eq!(a, snapshot.legal_officer_account);
            fees.legal_fees
        },
        _ => 0,
    };
    let treasury_credit = fees.storage_fees + fees.certificate_fees
        + match fees.legal_fee_beneficiary {
            Some(Beneficiary::Treasury) => fees.legal_fees,
            _ => 0,
        };
    if snapshot.legal_officer_account != snapshot.payer_account {
        assert_eq!(
            ll.balance_of(snapshot.legal_officer_account),
            snapshot.legal_officer_balance + officer_credit
        );
    }
    assert_eq!(ll.balance_of(TREASURY_ACCOUNT_ID), snapshot.treasury_balance + treasury_credit);
}

fn create_closed_loc(ll: &mut LogionLoc) {
    assert_ok(ll.create_polkadot_transaction_loc(LOC_REQUESTER_ID, LOC_ID, LOC_OWNER1));
    assert_ok(ll.close(LOC_OWNER1, LOC_ID));
}

fn only_storage(num_of_entries: u64, tot_size: u64) -> Fees {
    Fees::only_storage(num_of_entries, tot_size)
}

#[test]
fn it_adds_metadata_when_caller_and_submitter_is_owner() {
    let mut ll = new_test_ext();
    setup_default_balances(&mut ll);
    assert_ok(ll.create_polkadot_transaction_loc(LOC_REQUESTER_ID, LOC_ID, LOC_OWNER1));
    let metadata = MetadataItemParams {
        name: sha256(&vec![1, 2, 3]),
        value: sha256(&vec![4, 5, 6]),
        submitter: SupportedAccountId::Polkadot(LOC_OWNER1),
    };
    assert_ok(ll.add_metadata(LOC_OWNER1, LOC_ID, metadata));
    let loc = ll.loc(LOC_ID).unwrap();
    assert_eq!(loc.metadata[0], expected_metadata(metadata, ACKNOWLEDGED));
}

#[test]
fn it_adds_metadata_when_caller_is_owner_and_submitter_is_requester() {
    let mut ll = new_test_ext();
    setup_default_balances(&mut ll);
    assert_ok(ll.create_polkadot_transaction_loc(LOC_REQUESTER_ID, LOC_ID, LOC_OWNER1));
    let metadata = MetadataItemParams {
        name: sha256(&vec![1, 2, 3]),
        value: sha256(&vec![4, 5, 6]),
        submitter: SupportedAccountId::Polkadot(LOC_REQUESTER_ID),
    };
    assert_ok(ll.add_metadata(LOC_OWNER1, LOC_ID, metadata));
    let loc = ll.loc(LOC_ID).unwrap();
    assert_eq!(loc.metadata[0], expected_metadata(metadata, NOT_ACKNOWLEDGED));
}

#[test]
fn it_adds_metadata_when_caller_is_requester() {
    let mut ll = new_test_ext();
    setup_default_balances(&mut ll);
    assert_ok(ll.create_polkadot_transaction_loc(LOC_REQUESTER_ID, LOC_ID, LOC_OWNER1));
    let metadata = MetadataItemParams {
        name: sha256(&vec![1, 2, 3]),
        value: sha256(&vec![4, 5, 6]),
        submitter: SupportedAccountId::Polkadot(LOC_REQUESTER_ID),
    };
    assert_ok(ll.add_metadata(LOC_REQUESTER_ID, LOC_ID, metadata));
    let loc = ll.loc(LOC_ID).unwrap();
    assert_eq!(loc.metadata[0], expected_metadata(metadata, NOT_ACKNOWLEDGED));
}

fn create_loc_with_metadata_from_requester(ll: &mut LogionLoc) -> MetadataItemParams {
    setup_default_balances(ll);
    assert_ok(ll.create_polkadot_transaction_loc(LOC_REQUESTER_ID, LOC_ID, LOC_OWNER1));
    let metadata = MetadataItemParams {
        name: sha256(&vec![1, 2, 3]),
        value: sha256(&vec![4, 5, 6]),
        submitter: SupportedAccountId::Polkadot(LOC_REQUESTER_ID),
    };
    assert_ok(ll.add_metadata(LOC_REQUESTER_ID, LOC_ID, metadata));
    let loc = ll.loc(LOC_ID).unwrap();
    assert_eq!(loc.metadata[0], expected_metadata(metadata, NOT_ACKNOWLEDGED));
    metadata
}

#[test]
fn it_acknowledges_metadata() {
    let mut ll = new_test_ext();
    let metadata = create_loc_with_metadata_from_requester(&mut ll);
    assert_ok(ll.acknowledge_metadata(LOC_OWNER1, LOC_ID, metadata.name));
    let loc = ll.loc(LOC_ID).unwrap();
    assert_eq!(loc.metadata[0], expected_metadata(metadata, ACKNOWLEDGED));
}

#[test]
fn it_fails_to_acknowledge_unknown_metadata() {
    let mut ll = new_test_ext();
    create_loc_with_metadata_from_requester(&mut ll);
    let name = sha256(&"unknown_metadata".as_bytes().to_vec());
    assert_err(ll.acknowledge_metadata(LOC_OWNER1, LOC_ID, name), Error::ItemNotFound);
}

#[test]
fn it_fails_to_acknowledge_already_acknowledged_metadata() {
    let mut ll = new_test_ext();
    let metadata = create_loc_with_metadata_from_requester(&mut ll);
    assert_ok(ll.acknowledge_metadata(LOC_OWNER1, LOC_ID, metadata.name));
    assert_err(
        ll.acknowledge_metadata(LOC_OWNER1, LOC_ID, metadata.name),
        Error::ItemAlreadyAcknowledged,
    );
}

#[test]
fn it_fails_to_acknowledge_metadata_when_unauthorized_caller() {
    let mut ll = new_test_ext();
    let metadata = create_loc_with_metadata_from_requester(&mut ll);
    assert_err(
        ll.acknowledge_metadata(UNAUTHORIZED_CALLER, LOC_ID, metadata.name),
        Error::BadOrigin,
    );
}

#[test]
fn it_fails_to_close_loc_with_unacknowledged_metadata() {
    let mut ll = new_test_ext();
    create_loc_with_metadata_from_requester(&mut ll);
    assert_err(ll.close(LOC_OWNER1, LOC_ID), Error::CannotCloseUnacknowledged);
}

#[test]
fn it_fails_to_acknowledge_metadata_when_loc_voided() {
    let mut ll = new_test_ext();
    let metadata = create_loc_with_metadata_from_requester(&mut ll);
    assert_ok(ll.make_void(LOC_OWNER1, LOC_ID));
    assert_err(
        ll.acknowledge_metadata(LOC_OWNER1, LOC_ID, metadata.name),
        Error::CannotMutateVoid,
    );
}

#[test]
fn it_fails_adding_metadata_for_unauthorized_caller() {
    let mut ll = new_test_ext();
    setup_default_balances(&mut ll);
    assert_ok(ll.create_polkadot_transaction_loc(LOC_REQUESTER_ID, LOC_ID, LOC_OWNER1));
    let metadata = MetadataItemParams {
        name: sha256(&vec![1, 2, 3]),
        value: sha256(&vec![4, 5, 6]),
        submitter: SupportedAccountId::Polkadot(LOC_OWNER1),
    };
    assert_err(ll.add_metadata(UNAUTHORIZED_CALLER, LOC_ID, metadata), Error::Unauthorized);
}

#[test]
fn it_fails_adding_metadata_when_closed() {
    let mut ll = new_test_ext();
    setup_default_balances(&mut ll);
    create_closed_loc(&mut ll);
    let metadata = MetadataItemParams {
        name: sha256(&vec![1, 2, 3]),
        value: sha256(&vec![4, 5, 6]),
        submitter: SupportedAccountId::Polkadot(LOC_OWNER1),
    };
    assert_err(ll.add_metadata(LOC_OWNER1, LOC_ID, metadata), Error::CannotMutate);
}

#[test]
fn it_fails_adding_metadata_when_invalid_submitter() {
    let mut ll = new_test_ext();
    setup_default_balances(&mut ll);
    assert_ok(ll.create_polkadot_transaction_loc(LOC_REQUESTER_ID, LOC_ID, LOC_OWNER1));
    let metadata = MetadataItemParams {
        name: sha256(&vec![1, 2, 3]),
        value: sha256(&vec![4, 5, 6]),
        submitter: SupportedAccountId::Polkadot(LOC_OWNER1),
    };
    assert_err(ll.add_metadata(LOC_REQUESTER_ID, LOC_ID, metadata), Error::Unauthorized);
}

#[test]
fn it_fails_adding_metadata_with_same_name() {
    let mut ll = new_test_ext();
    setup_default_balances(&mut ll);
    assert_ok(ll.create_polkadot_transaction_loc(LOC_REQUESTER_ID, LOC_ID, LOC_OWNER1));
    let metadata1 = MetadataItemParams {
        name: sha256(&"name".as_bytes().to_vec()),
        value: sha256(&"value1".as_bytes().to_vec()),
        submitter: SupportedAccountId::Polkadot(LOC_REQUESTER_ID),
    };
    assert_ok(ll.add_metadata(LOC_OWNER1, LOC_ID, metadata1));
    let metadata2 = MetadataItemParams {
        name: sha256(&"name".as_bytes().to_vec()),
        value: sha256(&"value2".as_bytes().to_vec()),
        submitter: SupportedAccountId::Polkadot(LOC_REQUESTER_ID),
    };
    assert_err(ll.add_metadata(LOC_OWNER1, LOC_ID, metadata2), Error::DuplicateLocMetadata);
}

#[test]
fn it_adds_several_metadata() {
    let mut ll = new_test_ext();
    setup_default_balances(&mut ll);
    assert_ok(ll.create_polkadot_transaction_loc(LOC_REQUESTER_ID, LOC_ID, LOC_OWNER1));
    let metadata1 = MetadataItemParams {
        name: sha256(&vec![1, 2, 3]),
        value: sha256(&vec![4, 5, 6]),
        submitter: SupportedAccountId::Polkadot(LOC_OWNER1),
    };
    assert_ok(ll.add_metadata(LOC_OWNER1, LOC_ID, metadata1));
    let metadata2 = MetadataItemParams {
        name: sha256(&vec![1, 2, 4]),
        value: sha256(&vec![4, 5, 6]),
        submitter: SupportedAccountId::Polkadot(LOC_OWNER1),
    };
    assert_ok(ll.add_metadata(LOC_OWNER1, LOC_ID, metadata2));
    let loc = ll.loc(LOC_ID).unwrap();
    assert_eq!(loc.metadata[0], expected_metadata(metadata1, ACKNOWLEDGED));
    assert_eq!(loc.metadata[1], expected_metadata(metadata2, ACKNOWLEDGED));
}

#[test]
fn it_adds_file_when_caller_owner_and_submitter_is_owner() {
    let mut ll = new_test_ext();
    setup_default_balances(&mut ll);
    assert_ok(ll.create_polkadot_transaction_loc(LOC_REQUESTER_ID, LOC_ID, LOC_OWNER1));
    let file = FileParams {
        hash: sha256(&"test".as_bytes().to_vec()),
        nature: sha256(&"test-file-nature".as_bytes().to_vec()),
        submitter: SupportedAccountId::Polkadot(LOC_OWNER1),
        size: FILE_SIZE,
    };
    let snapshot = BalancesSnapshot::take(&ll, LOC_REQUESTER_ID, LOC_OWNER1);
    assert_ok(ll.add_file(LOC_OWNER1, LOC_ID, file));
    let loc = ll.loc(LOC_ID).unwrap();
    assert_eq!(loc.files[0], expected_file(&file, ACKNOWLEDGED));

    let fees = only_storage(1, file.size as u64);
    assert_balances_events(&ll, &snapshot, &fees);
}

#[test]
fn it_adds_file_when_caller_is_owner_and_submitter_is_requester() {
    let mut ll = new_test_ext();
    setup_default_balances(&mut ll);
    assert_ok(ll.create_polkadot_transaction_loc(LOC_REQUESTER_ID, LOC_ID, LOC_OWNER1));
    let file = FileParams {
        hash: sha256(&"test".as_bytes().to_vec()),
        nature: sha256(&"test-file-nature".as_bytes().to_vec()),
        submitter: SupportedAccountId::Polkadot(LOC_REQUESTER_ID),
        size: FILE_SIZE,
    };
    let snapshot = BalancesSnapshot::take(&ll, LOC_REQUESTER_ID, LOC_OWNER1);
    assert_ok(ll.add_file(LOC_OWNER1, LOC_ID, file));
    let loc = ll.loc(LOC_ID).unwrap();
    assert_eq!(loc.files[0], expected_file(&file, NOT_ACKNOWLEDGED));
    let fees = only_storage(1, file.size as u64);
    assert_balances_events(&ll, &snapshot, &fees);
}

#[test]
fn it_adds_file_when_caller_is_requester() {
    let mut ll = new_test_ext();
    setup_default_balances(&mut ll);
    assert_ok(ll.create_polkadot_transaction_loc(LOC_REQUESTER_ID, LOC_ID, LOC_OWNER1));
    let file = FileParams {
        hash: sha256(&"test".as_bytes().to_vec()),
        nature: sha256(&"test-file-nature".as_bytes().to_vec()),
        submitter: SupportedAccountId::Polkadot(LOC_REQUESTER_ID),
        size: FILE_SIZE,
    };
    let snapshot = BalancesSnapshot::take(&ll, LOC_REQUESTER_ID, LOC_OWNER1);
    assert_ok(ll.add_file(LOC_REQUESTER_ID, LOC_ID, file));
    let loc = ll.loc(LOC_ID).unwrap();
    assert_eq!(loc.files[0], expected_file(&file, NOT_ACKNOWLEDGED));
    let fees = only_storage(1, file.size as u64);
    assert_balances_events(&ll, &snapshot, &fees);
}

fn create_loc_with_file_from_requester(ll: &mut LogionLoc) -> FileParams {
    setup_default_balances(ll);
    assert_ok(ll.create_polkadot_transaction_loc(LOC_REQUESTER_ID, LOC_ID, LOC_OWNER1));
    let file = FileParams {
        hash: sha256(&"test".as_bytes().to_vec()),
        nature: sha256(&"test-file-nature".as_bytes().to_vec()),
        submitter: SupportedAccountId::Polkadot(LOC_REQUESTER_ID),
        size: FILE_SIZE,
    };
    assert_ok(ll.add_file(LOC_REQUESTER_ID, LOC_ID, file));
    let loc = ll.loc(LOC_ID).unwrap();
    assert_eq!(loc.files[0], expected_file(&file, NOT_ACKNOWLEDGED));
    file
}

#[test]
fn it_acknowledges_file() {
    let mut ll = new_test_ext();
    let file = create_loc_with_file_from_requester(&mut ll);
    assert_ok(ll.acknowledge_file(LOC_OWNER1, LOC_ID, file.hash));
    let loc = ll.loc(LOC_ID).unwrap();
    assert_eq!(loc.files[0], expected_file(&file, ACKNOWLEDGED));
}

#[test]
fn it_fails_to_acknowledge_unknown_file() {
    let mut ll = new_test_ext();
    create_loc_with_file_from_requester(&mut ll);
    let hash = blake2_256(&"unknown_hash".as_bytes().to_vec());
    assert_err(ll.acknowledge_file(LOC_OWNER1, LOC_ID, hash), Error::ItemNotFound);
}

#[test]
fn it_fails_to_acknowledge_already_acknowledged_file() {
    let mut ll = new_test_ext();
    let file = create_loc_with_file_from_requester(&mut ll);
    assert_ok(ll.acknowledge_file(LOC_OWNER1, LOC_ID, file.hash));
    assert_err(ll.acknowledge_file(LOC_OWNER1, LOC_ID, file.hash), Error::ItemAlreadyAcknowledged);
}

#[test]
fn it_fails_to_acknowledge_file_when_unauthorized_caller() {
    let mut ll = new_test_ext();
    let file = create_loc_with_file_from_requester(&mut ll);
    assert_err(ll.acknowledge_file(UNAUTHORIZED_CALLER, LOC_ID, file.hash), Error::BadOrigin);
}

#[test]
fn it_fails_to_close_loc_with_unacknowledged_file() {
    let mut ll = new_test_ext();
    create_loc_with_file_from_requester(&mut ll);
    assert_err(ll.close(LOC_OWNER1, LOC_ID), Error::CannotCloseUnacknowledged);
}

#[test]
fn it_fails_to_acknowledge_file_when_loc_voided() {
    let mut ll = new_test_ext();
    let file = create_loc_with_file_from_requester(&mut ll);
    assert_ok(ll.make_void(LOC_OWNER1, LOC_ID));
    assert_err(ll.acknowledge_file(LOC_OWNER1, LOC_ID, file.hash), Error::CannotMutateVoid);
}

#[test]
fn it_fails_adding_file_for_unauthorized_caller() {
    let mut ll = new_test_ext();
    setup_default_balances(&mut ll);
    assert_ok(ll.create_polkadot_transaction_loc(LOC_REQUESTER_ID, LOC_ID, LOC_OWNER1));
    let file = FileParams {
        hash: sha256(&"test".as_bytes().to_vec()),
        nature: sha256(&"test-file-nature".as_bytes().to_vec()),
        submitter: SupportedAccountId::Polkadot(LOC_OWNER1),
        size: FILE_SIZE,
    };
    assert_err(ll.add_file(UNAUTHORIZED_CALLER, LOC_ID, file), Error::Unauthorized);
}

#[test]
fn it_fails_adding_file_when_insufficient_funds() {
    let mut ll = new_test_ext();
    setup_default_balances(&mut ll);
    assert_ok(ll.create_polkadot_transaction_loc(LOC_REQUESTER_ID, LOC_ID, LOC_OWNER1));
    ll.set_balance(LOC_REQUESTER_ID, INSUFFICIENT_BALANCE);
    let file = FileParams {
        hash: sha256(&"test".as_bytes().to_vec()),
        nature: sha256(&"test-file-nature".as_bytes().to_vec()),
        submitter: SupportedAccountId::Polkadot(LOC_REQUESTER_ID),
        size: FILE_SIZE,
    };
    let snapshot = BalancesSnapshot::take(&ll, LOC_REQUESTER_ID, LOC_OWNER1);
    assert_err(ll.add_file(LOC_OWNER1, LOC_ID, file), Error::InsufficientFunds);
    assert!(check_no_fees(&ll, &snapshot));
}

#[test]
fn it_fails_adding_file_when_closed() {
    let mut ll = new_test_ext();
    setup_default_balances(&mut ll);
    create_closed_loc(&mut ll);
    let file = FileParams {
        hash: sha256(&"test".as_bytes().to_vec()),
        nature: sha256(&"test-file-nature".as_bytes().to_vec()),
        submitter: SupportedAccountId::Polkadot(LOC_OWNER1),
        size: FILE_SIZE,
    };
    assert_err(ll.add_file(LOC_OWNER1, LOC_ID, file), Error::CannotMutate);
}

#[test]
fn it_fails_adding_file_with_same_hash() {
    let mut ll = new_test_ext();
    setup_default_balances(&mut ll);
    assert_ok(ll.create_polkadot_transaction_loc(LOC_REQUESTER_ID, LOC_ID, LOC_OWNER1));
    let file1 = FileParams {
        hash: sha256(&"test".as_bytes().to_vec()),
        nature: sha256(&"test-file-nature".as_bytes().to_vec()),
        submitter: SupportedAccountId::Polkadot(LOC_REQUESTER_ID),
        size: FILE_SIZE,
    };
    let snapshot = BalancesSnapshot::take(&ll, LOC_REQUESTER_ID, LOC_OWNER1);
    assert_ok(ll.add_file(LOC_OWNER1, LOC_ID, file1));
    let file2 = FileParams {
        hash: sha256(&"test".as_bytes().to_vec()),
        nature: sha256(&"test-file2-nature".as_bytes().to_vec()),
        submitter: SupportedAccountId::Polkadot(LOC_REQUESTER_ID),
        size: FILE_SIZE,
    };
    assert_err(ll.add_file(LOC_OWNER1, LOC_ID, file2), Error::DuplicateLocFile);
    let fees = only_storage(1, FILE_SIZE as u64);
    assert_balances_events(&ll, &snapshot, &fees);
}

fn nominate_issuer(ll: &mut LogionLoc, issuer: u64, identity_loc: u32) {
    assert_ok(ll.create_polkadot_identity_loc(issuer, identity_loc, LOC_OWNER1));
    assert_ok(ll.close(LOC_OWNER1, identity_loc));
    assert_ok(ll.nominate_issuer(LOC_OWNER1, issuer, identity_loc));
}

fn nominated_and_select_issuer(ll: &mut LogionLoc, loc_id: u32) {
    nominate_issuer(ll, ISSUER_ID1, ISSUER1_IDENTITY_LOC_ID);
    assert_ok(ll.set_issuer_selection(LOC_OWNER1, loc_id, ISSUER_ID1, true));
}

#[test]
fn it_adds_file_on_logion_identity_loc_when_caller_is_owner_and_submitter_is_issuer() {
    let mut ll = new_test_ext();
    setup_default_balances(&mut ll);
    assert_ok(ll.create_logion_identity_loc(LOC_OWNER1, LOC_ID));
    nominated_and_select_issuer(&mut ll, LOC_ID);
    let file = FileParams {
        hash: sha256(&"test".as_bytes().to_vec()),
        nature: sha256(&"test-file-nature".as_bytes().to_vec()),
        submitter: SupportedAccountId::Polkadot(ISSUER_ID1),
        size: FILE_SIZE,
    };
    let snapshot = BalancesSnapshot::take(&ll, LOC_OWNER1, LOC_OWNER1);
    assert_ok(ll.add_file(LOC_OWNER1, LOC_ID, file));
    let loc = ll.loc(LOC_ID).unwrap();
    assert_eq!(loc.files[0], expected_file(&file, ACKNOWLEDGED));

    let fees = only_storage(1, FILE_SIZE as u64);
    assert_balances_events(&ll, &snapshot, &fees);
}

#[test]
fn it_adds_file_on_logion_identity_loc_when_caller_and_submitter_is_issuer() {
    let mut ll = new_test_ext();
    setup_default_balances(&mut ll);
    assert_ok(ll.create_logion_identity_loc(LOC_OWNER1, LOC_ID));
    nominated_and_select_issuer(&mut ll, LOC_ID);
    let file = FileParams {
        hash: sha256(&"test".as_bytes().to_vec()),
        nature: sha256(&"test-file-nature".as_bytes().to_vec()),
        submitter: SupportedAccountId::Polkadot(ISSUER_ID1),
        size: FILE_SIZE,
    };
    let snapshot = BalancesSnapshot::take(&ll, LOC_OWNER1, LOC_OWNER1);
    assert_ok(ll.add_file(ISSUER_ID1, LOC_ID, file));
    let loc = ll.loc(LOC_ID).unwrap();
    assert_eq!(loc.files[0], expected_file(&file, ACKNOWLEDGED));

    let fees = only_storage(1, FILE_SIZE as u64);
    assert_balances_events(&ll, &snapshot, &fees);
}

#[test]
fn it_adds_file_on_polkadot_transaction_loc_when_caller_is_owner_and_submitter_is_issuer() {
    let mut ll = new_test_ext();
    setup_default_balances(&mut ll);
    assert_ok(ll.create_polkadot_transaction_loc(LOC_REQUESTER_ID, LOC_ID, LOC_OWNER1));
    nominated_and_select_issuer(&mut ll, LOC_ID);
    let file = FileParams {
        hash: sha256(&"test".as_bytes().to_vec()),
        nature: sha256(&"test-file-nature".as_bytes().to_vec()),
        submitter: SupportedAccountId::Polkadot(ISSUER_ID1),
        size: FILE_SIZE,
    };
    let snapshot = BalancesSnapshot::take(&ll, LOC_REQUESTER_ID, LOC_OWNER1);
    assert_ok(ll.add_file(LOC_OWNER1, LOC_ID, file));
    let loc = ll.loc(LOC_ID).unwrap();
    assert_eq!(loc.files[0], expected_file(&file, ACKNOWLEDGED));

    let fees = only_storage(1, FILE_SIZE as u64);
    assert_balances_events(&ll, &snapshot, &fees);
}

#[test]
fn it_adds_file_on_polkadot_transaction_loc_when_caller_is_submitter_and_issuer() {
    let mut ll = new_test_ext();
    setup_default_balances(&mut ll);
    assert_ok(ll.create_polkadot_transaction_loc(LOC_REQUESTER_ID, LOC_ID, LOC_OWNER1));
    nominated_and_select_issuer(&mut ll, LOC_ID);
    let file = FileParams {
        hash: sha256(&"test".as_bytes().to_vec()),
        nature: sha256(&"test-file-nature".as_bytes().to_vec()),
        submitter: SupportedAccountId::Polkadot(ISSUER_ID1),
        size: FILE_SIZE,
    };
    let snapshot = BalancesSnapshot::take(&ll, LOC_REQUESTER_ID, LOC_OWNER1);
    assert_ok(ll.add_file(ISSUER_ID1, LOC_ID, file));
    let loc = ll.loc(LOC_ID).unwrap();
    assert_eq!(loc.files[0], expected_file(&file, ACKNOWLEDGED));

    let fees = only_storage(1, FILE_SIZE as u64);
    assert_balances_events(&ll, &snapshot, &fees);
}

#[test]
fn it_fails_adding_file_on_polkadot_transaction_loc_cannot_submit() {
    let mut ll = new_test_ext();
    setup_default_balances(&mut ll);
    assert_ok(ll.create_polkadot_transaction_loc(LOC_REQUESTER_ID, LOC_ID, LOC_OWNER1));
    let file = FileParams {
        hash: sha256(&"test".as_bytes().to_vec()),
        nature: sha256(&"test-file-nature".as_bytes().to_vec()),
        submitter: SupportedAccountId::Polkadot(LOC_OWNER2),
        size: FILE_SIZE,
    };
    assert_err(ll.add_file(LOC_OWNER1, LOC_ID, file), Error::CannotSubmit);
}

#[test]
fn it_adds_metadata_on_logion_identity_loc_for_when_submitter_is_issuer() {
    let mut ll = new_test_ext();
    setup_default_balances(&mut ll);
    assert_ok(ll.create_logion_identity_loc(LOC_OWNER1, LOC_ID));
    nominated_and_select_issuer(&mut ll, LOC_ID);
    let metadata = MetadataItemParams {
        name: sha256(&vec![1, 2, 3]),
        value: sha256(&vec![4, 5, 6]),
        submitter: SupportedAccountId::Polkadot(ISSUER_ID1),
    };
    assert_ok(ll.add_metadata(LOC_OWNER1, LOC_ID, metadata));
}

#[test]
fn it_fails_adding_metadata_on_logion_identity_loc_cannot_submit() {
    let mut ll = new_test_ext();
    setup_default_balances(&mut ll);
    assert_ok(ll.create_logion_identity_loc(LOC_OWNER1, LOC_ID));
    let metadata = MetadataItemParams {
        name: sha256(&vec![1, 2, 3]),
        value: sha256(&vec![4, 5, 6]),
        submitter: SupportedAccountId::Polkadot(LOC_OWNER2),
    };
    assert_err(ll.add_metadata(LOC_OWNER1, LOC_ID, metadata), Error::CannotSubmit);
}

#[test]
fn it_adds_metadata_on_polkadot_transaction_loc_when_submitter_is_issuer() {
    let mut ll = new_test_ext();
    setup_default_balances(&mut ll);
    assert_ok(ll.create_polkadot_transaction_loc(LOC_REQUESTER_ID, LOC_ID, LOC_OWNER1));
    nominated_and_select_issuer(&mut ll, LOC_ID);
    let metadata = MetadataItemParams {
        name: sha256(&vec![1, 2, 3]),
        value: sha256(&vec![4, 5, 6]),
        submitter: SupportedAccountId::Polkadot(ISSUER_ID1),
    };
    assert_ok(ll.add_metadata(LOC_OWNER1, LOC_ID, metadata));
}

#[test]
fn it_fails_adding_metadata_on_polkadot_transaction_loc_cannot_submit() {
    let mut ll = new_test_ext();
    setup_default_balances(&mut ll);
    assert_ok(ll.create_polkadot_transaction_loc(LOC_REQUESTER_ID, LOC_ID, LOC_OWNER1));
    let metadata = MetadataItemParams {
        name: sha256(&vec![1, 2, 3]),
        value: sha256(&vec![4, 5, 6]),
        submitter: SupportedAccountId::Polkadot(LOC_OWNER2),
    };
    assert_err(ll.add_metadata(LOC_OWNER1, LOC_ID, metadata), Error::CannotSubmit);
}

#[test]
fn it_acknowledges_file_then_closes() {
    let mut ll = new_test_ext();
    setup_default_balances(&mut ll);
    assert_ok(ll.create_polkadot_transaction_loc(LOC_REQUESTER_ID, LOC_ID, LOC_OWNER1));
    let file = FileParams {
        hash: sha256(&"test".as_bytes().to_vec()),
        nature: sha256(&"test-file-nature".as_bytes().to_vec()),
        submitter: SupportedAccountId::Polkadot(LOC_REQUESTER_ID),
        size: 90,
    };
    assert_ok(ll.add_file(LOC_REQUESTER_ID, LOC_ID, file));
    assert_eq!(ll.loc(LOC_ID).unwrap().files[0].acknowledged, false);

    assert_err(ll.close(LOC_OWNER1, LOC_ID), Error::CannotCloseUnacknowledged);
    assert_ok(ll.acknowledge_file(LOC_OWNER1, LOC_ID, file.hash));
    assert_eq!(ll.loc(LOC_ID).unwrap().files[0].acknowledged, true);
    assert_ok(ll.close(LOC_OWNER1, LOC_ID));
    assert!(ll.loc(LOC_ID).unwrap().closed);
}

#[test]
fn it_fails_adding_metadata_when_void() {
    let mut ll = new_test_ext();
    setup_default_balances(&mut ll);
    assert_ok(ll.create_polkadot_transaction_loc(LOC_REQUESTER_ID, LOC_ID, LOC_OWNER1));
    assert_ok(ll.make_void(LOC_OWNER1, LOC_ID));
    let metadata = MetadataItemParams {
        name: sha256(&vec![1, 2, 3]),
        value: sha256(&vec![4, 5, 6]),
        submitter: SupportedAccountId::Polkadot(LOC_OWNER1),
    };
    assert_err(ll.add_metadata(LOC_OWNER1, LOC_ID, metadata), Error::CannotMutateVoid);
}

#[test]
fn it_fails_adding_file_when_void() {
    let mut ll = new_test_ext();
    setup_default_balances(&mut ll);
    assert_ok(ll.create_polkadot_transaction_loc(LOC_REQUESTER_ID, LOC_ID, LOC_OWNER1));
    assert_ok(ll.make_void(LOC_OWNER1, LOC_ID));
    let file = FileParams {
        hash: sha256(&"test".as_bytes().to_vec()),
        nature: sha256(&"test-file-nature".as_bytes().to_vec()),
        submitter: SupportedAccountId::Polkadot(LOC_OWNER1),
        size: FILE_SIZE,
    };
    assert_err(ll.add_file(LOC_OWNER1, LOC_ID, file), Error::CannotMutateVoid);
}

#[test]
fn it_computes_storage_fees_from_count_and_size() {
    assert_eq!(storage_fees(1, 90), ONE_LGNT);
    assert_eq!(storage_fees(2, 0), 200_000_000_000_000_000);
    assert_eq!(storage_fees(0, 0), 0);
}
