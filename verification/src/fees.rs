//! Fee computation: storage, legal and certificate fees as pure functions of
//! the operation's parameters, plus checked arithmetic helpers.

use vstd::prelude::*;
use crate::data::Beneficiary;

verus! {

/// One unit of the ledger's currency.
pub const ONE_LGNT: u128 = 1_000_000_000_000_000_000;

/// Legal fee of an Identity LOC creation, paid to the treasury.
pub const IDENTITY_LOC_LEGAL_FEE: u128 = 160 * ONE_LGNT;

/// Legal fee of a Transaction or Collection LOC creation, paid to the legal
/// officer.
pub const OTHER_LOC_LEGAL_FEE: u128 = 2000 * ONE_LGNT;

/// Storage fee charged per stored file.
pub const FILE_STORAGE_ENTRY_FEE: u128 = 100_000_000_000_000_000;

/// Storage fee charged per declared byte.
pub const FILE_STORAGE_BYTE_FEE: u128 = 10_000_000_000_000_000;

/// Certificate fee charged per declared token issuance unit.
pub const CERTIFICATE_FEE_PER_TOKEN: u128 = 4_000_000_000_000_000;

/// Storage fee owed for `entries` files of `tot_size` declared bytes in all.
pub open spec fn spec_storage_fee(entries: int, tot_size: int) -> int {
    entries * FILE_STORAGE_ENTRY_FEE + tot_size * FILE_STORAGE_BYTE_FEE
}

/// Certificate fee owed for a token of the given issuance.
pub open spec fn spec_certificate_fee(issuance: int) -> int {
    issuance * CERTIFICATE_FEE_PER_TOKEN
}

/// Storage fee for a batch of files.
pub fn storage_fees(num_of_entries: u64, tot_size: u64) -> (r: u128)
    ensures
        r == spec_storage_fee(num_of_entries as int, tot_size as int),
{
    (num_of_entries as u128) * FILE_STORAGE_ENTRY_FEE + (tot_size as u128) * FILE_STORAGE_BYTE_FEE
}

/// Certificate fee for a token of the given issuance.
pub fn certificate_fee(issuance: u64) -> (r: u128)
    ensures
        r == spec_certificate_fee(issuance as int),
{
    (issuance as u128) * CERTIFICATE_FEE_PER_TOKEN
}

/// Sum that reports when the mathematical result exceeds the ledger's range.
pub fn checked_add_u128(a: u128, b: u128) -> (r: Option<u128>)
    ensures
        match r {
            Some(v) => v == a + b,
            None => a + b > u128::MAX,
        },
{
    if a <= u128::MAX - b {
        Some(a + b)
    } else {
        None
    }
}

/// Product that reports when the mathematical result exceeds the ledger's
/// range.
pub fn checked_mul_u128(a: u128, b: u128) -> (r: Option<u128>)
    ensures
        match r {
            Some(v) => v == a * b,
            None => a * b > u128::MAX,
        },
{
    if b == 0 {
        Some(0)
    } else {
        let q = u128::MAX / b;
        if a <= q {
            proof {
                assert(a * b <= u128::MAX) by (nonlinear_arith)
                    requires
                        0 < b <= u128::MAX,
                        0 <= a <= u128::MAX as int / b as int,
                ;
            }
            Some(a * b)
        } else {
            proof {
                assert(a * b > u128::MAX) by (nonlinear_arith)
                    requires
                        0 < b <= u128::MAX,
                        a > u128::MAX as int / b as int,
                ;
            }
            None
        }
    }
}

/// Addition clamped to the ledger's range.
pub open spec fn sat_add(a: int, b: int) -> int {
    if a + b > u128::MAX {
        u128::MAX as int
    } else {
        a + b
    }
}

/// Addition clamped to the ledger's range.
pub fn saturating_add_u128(a: u128, b: u128) -> (r: u128)
    ensures
        r == sat_add(a as int, b as int),
{
    if a <= u128::MAX - b {
        a + b
    } else {
        u128::MAX
    }
}

/// The fees one operation owes, with the legal fee's beneficiary.
#[derive(Clone, Copy, Debug, PartialEq, Eq, Structural)]
pub struct Fees {
    pub storage_fees: u128,
    pub legal_fees: u128,
    pub legal_fee_beneficiary: Option<Beneficiary>,
    pub certificate_fees: u128,
}

impl Fees {
    /// Fees of an operation that owes only a legal fee.
    pub fn only_legal(amount: u128, beneficiary: Beneficiary) -> (r: Fees)
        ensures
            r == (Fees {
                storage_fees: 0,
                legal_fees: amount,
                legal_fee_beneficiary: Some(beneficiary),
                certificate_fees: 0,
            }),
    {
        Fees {
            storage_fees: 0,
            legal_fees: amount,
            legal_fee_beneficiary: Some(beneficiary),
            certificate_fees: 0,
        }
    }

    /// Fees of an operation that owes only storage fees.
    pub fn only_storage(num_of_entries: u64, tot_size: u64) -> (r: Fees)
        ensures
            r.storage_fees == spec_storage_fee(num_of_entries as int, tot_size as int),
            r.legal_fees == 0,
            r.legal_fee_beneficiary is None,
            r.certificate_fees == 0,
    {
        Fees {
            storage_fees: storage_fees(num_of_entries, tot_size),
            legal_fees: 0,
            legal_fee_beneficiary: None,
            certificate_fees: 0,
        }
    }
}

} // verus!
