//! End-to-end tests of the escrow state machine.

use kazi_escrow::ErrorKind;
use kazi_escrow::EscrowError;
use kazi_escrow::KaziEscrow;
use kazi_escrow::RecordingGateway;
use kazi_escrow::SignerSet;
use kazi_escrow::Transfer;
use kazi_escrow::RETENTION_WINDOW;

const CUSTODIAN: u64 = 900;
const J1: u64 = 1;
const J2: u64 = 2;
const EMPLOYER: u64 = 10;
const BENEFICIARY: u64 = 20;
const OUTSIDER: u64 = 30;
const ASSET: u64 = 77;

fn granting(identities: &[u64]) -> SignerSet {
    let mut signers = SignerSet::new();
    for &identity in identities {
        signers.grant(identity);
    }
    signers
}

fn rejection(kind: ErrorKind, escrow_id: u64) -> Result<(), EscrowError> {
    Err(EscrowError { kind, escrow_id })
}

#[test]
fn uncreated_job_reads_empty() {
    let ledger = KaziEscrow::new(CUSTODIAN);
    assert_eq!(ledger.balance(J1), 0);
    assert_eq!(
        ledger.get_escrow(J1),
        Err(EscrowError { kind: ErrorKind::NotFound, escrow_id: J1 })
    );
}

#[test]
fn create_writes_fresh_slot() {
    let signers = granting(&[EMPLOYER]);
    let mut ledger = KaziEscrow::new(CUSTODIAN);
    assert_eq!(ledger.create(&signers, J1, EMPLOYER, ASSET), Ok(()));
    assert_eq!(ledger.balance(J1), 0);
    let record = ledger.get_escrow(J1).unwrap();
    assert_eq!(record.employer, EMPLOYER);
    assert_eq!(record.beneficiary, None);
    assert_eq!(record.asset, ASSET);
}

#[test]
fn create_without_authorization_fails() {
    let signers = granting(&[]);
    let mut ledger = KaziEscrow::new(CUSTODIAN);
    assert_eq!(
        ledger.create(&signers, J1, EMPLOYER, ASSET),
        rejection(ErrorKind::Unauthorized, J1)
    );
    assert_eq!(
        ledger.get_escrow(J1),
        Err(EscrowError { kind: ErrorKind::NotFound, escrow_id: J1 })
    );
}

#[test]
fn deposits_accumulate() {
    let signers = granting(&[EMPLOYER]);
    let mut gateway = RecordingGateway::new(true);
    let mut ledger = KaziEscrow::new(CUSTODIAN);
    ledger.create(&signers, J1, EMPLOYER, ASSET).unwrap();
    assert_eq!(ledger.deposit(&signers, &mut gateway, J1, EMPLOYER, 10), Ok(()));
    assert_eq!(ledger.deposit(&signers, &mut gateway, J1, EMPLOYER, 20), Ok(()));
    assert_eq!(ledger.deposit(&signers, &mut gateway, J1, EMPLOYER, 30), Ok(()));
    assert_eq!(ledger.balance(J1), 60);
    assert_eq!(gateway.count(), 3);
}

#[test]
fn non_positive_deposit_fails() {
    let signers = granting(&[EMPLOYER]);
    let mut gateway = RecordingGateway::new(true);
    let mut ledger = KaziEscrow::new(CUSTODIAN);
    ledger.create(&signers, J1, EMPLOYER, ASSET).unwrap();
    ledger.deposit(&signers, &mut gateway, J1, EMPLOYER, 40).unwrap();
    assert_eq!(
        ledger.deposit(&signers, &mut gateway, J1, EMPLOYER, 0),
        rejection(ErrorKind::InvalidAmount, J1)
    );
    assert_eq!(
        ledger.deposit(&signers, &mut gateway, J1, EMPLOYER, -5),
        rejection(ErrorKind::InvalidAmount, J1)
    );
    assert_eq!(ledger.balance(J1), 40);
    assert_eq!(gateway.count(), 1);
}

#[test]
fn foreign_identity_is_unauthorized() {
    let signers = granting(&[EMPLOYER, OUTSIDER]);
    let mut gateway = RecordingGateway::new(true);
    let mut ledger = KaziEscrow::new(CUSTODIAN);
    ledger.create(&signers, J1, EMPLOYER, ASSET).unwrap();
    ledger.deposit(&signers, &mut gateway, J1, EMPLOYER, 100).unwrap();
    // A consenting identity that is not the stored employer may not deposit.
    assert_eq!(
        ledger.deposit(&signers, &mut gateway, J1, OUTSIDER, 50),
        rejection(ErrorKind::Unauthorized, J1)
    );
    assert_eq!(ledger.balance(J1), 100);
    // Assignment and release check the *stored* employer's consent.
    let unconsenting = granting(&[OUTSIDER]);
    assert_eq!(
        ledger.set_beneficiary(&unconsenting, J1, BENEFICIARY),
        rejection(ErrorKind::Unauthorized, J1)
    );
    assert_eq!(ledger.get_escrow(J1).unwrap().beneficiary, None);
    assert_eq!(
        ledger.release(&unconsenting, &mut gateway, J1),
        rejection(ErrorKind::Unauthorized, J1)
    );
    assert_eq!(ledger.balance(J1), 100);
    assert_eq!(gateway.count(), 1);
}

#[test]
fn release_before_assignment_fails() {
    let signers = granting(&[EMPLOYER]);
    let mut gateway = RecordingGateway::new(true);
    let mut ledger = KaziEscrow::new(CUSTODIAN);
    ledger.create(&signers, J1, EMPLOYER, ASSET).unwrap();
    ledger.deposit(&signers, &mut gateway, J1, EMPLOYER, 100).unwrap();
    assert_eq!(
        ledger.release(&signers, &mut gateway, J1),
        rejection(ErrorKind::BeneficiaryUnset, J1)
    );
    assert_eq!(ledger.balance(J1), 100);
    assert_eq!(gateway.count(), 1);
}

#[test]
fn release_at_zero_balance_fails() {
    let signers = granting(&[EMPLOYER]);
    let mut gateway = RecordingGateway::new(true);
    let mut ledger = KaziEscrow::new(CUSTODIAN);
    ledger.create(&signers, J1, EMPLOYER, ASSET).unwrap();
    ledger.set_beneficiary(&signers, J1, BENEFICIARY).unwrap();
    assert_eq!(
        ledger.release(&signers, &mut gateway, J1),
        rejection(ErrorKind::NothingToRelease, J1)
    );
    assert_eq!(gateway.count(), 0);
}

#[test]
fn full_lifecycle_pays_the_beneficiary_once() {
    let signers = granting(&[EMPLOYER]);
    let mut gateway = RecordingGateway::new(true);
    let mut ledger = KaziEscrow::new(CUSTODIAN);
    assert_eq!(ledger.create(&signers, J1, EMPLOYER, ASSET), Ok(()));
    assert_eq!(ledger.balance(J1), 0);
    assert_eq!(ledger.deposit(&signers, &mut gateway, J1, EMPLOYER, 100), Ok(()));
    assert_eq!(ledger.balance(J1), 100);
    assert_eq!(ledger.set_beneficiary(&signers, J1, BENEFICIARY), Ok(()));
    assert_eq!(ledger.get_escrow(J1).unwrap().beneficiary, Some(BENEFICIARY));
    assert_eq!(ledger.release(&signers, &mut gateway, J1), Ok(()));
    assert_eq!(ledger.balance(J1), 0);
    assert_eq!(gateway.count(), 2);
    assert_eq!(
        gateway.recorded(0),
        Transfer { asset: ASSET, from: EMPLOYER, to: CUSTODIAN, amount: 100 }
    );
    assert_eq!(
        gateway.recorded(1),
        Transfer { asset: ASSET, from: CUSTODIAN, to: BENEFICIARY, amount: 100 }
    );
}

#[test]
fn second_release_observes_empty_balance() {
    let signers = granting(&[EMPLOYER]);
    let mut gateway = RecordingGateway::new(true);
    let mut ledger = KaziEscrow::new(CUSTODIAN);
    ledger.create(&signers, J1, EMPLOYER, ASSET).unwrap();
    ledger.deposit(&signers, &mut gateway, J1, EMPLOYER, 250).unwrap();
    ledger.set_beneficiary(&signers, J1, BENEFICIARY).unwrap();
    assert_eq!(ledger.release(&signers, &mut gateway, J1), Ok(()));
    // Immediately released again: the balance was zeroed before the
    // transfer, so the second call pays nothing.
    assert_eq!(
        ledger.release(&signers, &mut gateway, J1),
        rejection(ErrorKind::NothingToRelease, J1)
    );
    assert_eq!(ledger.balance(J1), 0);
    assert_eq!(gateway.count(), 2);
}

#[test]
fn missing_record_is_not_found() {
    let signers = granting(&[EMPLOYER]);
    let mut gateway = RecordingGateway::new(true);
    let mut ledger = KaziEscrow::new(CUSTODIAN);
    assert_eq!(
        ledger.deposit(&signers, &mut gateway, J2, EMPLOYER, 10),
        rejection(ErrorKind::NotFound, J2)
    );
    assert_eq!(
        ledger.set_beneficiary(&signers, J2, BENEFICIARY),
        rejection(ErrorKind::NotFound, J2)
    );
    assert_eq!(
        ledger.release(&signers, &mut gateway, J2),
        rejection(ErrorKind::NotFound, J2)
    );
    assert_eq!(gateway.count(), 0);
}

#[test]
fn refused_deposit_transfer_changes_nothing() {
    let signers = granting(&[EMPLOYER]);
    let mut refusing = RecordingGateway::new(false);
    let mut ledger = KaziEscrow::new(CUSTODIAN);
    ledger.create(&signers, J1, EMPLOYER, ASSET).unwrap();
    assert_eq!(
        ledger.deposit(&signers, &mut refusing, J1, EMPLOYER, 100),
        rejection(ErrorKind::TransferFailed, J1)
    );
    assert_eq!(ledger.balance(J1), 0);
    assert_eq!(refusing.count(), 0);
}

#[test]
fn refused_release_transfer_leaves_balance_zeroed() {
    let signers = granting(&[EMPLOYER]);
    let mut accepting = RecordingGateway::new(true);
    let mut refusing = RecordingGateway::new(false);
    let mut ledger = KaziEscrow::new(CUSTODIAN);
    ledger.create(&signers, J1, EMPLOYER, ASSET).unwrap();
    ledger.deposit(&signers, &mut accepting, J1, EMPLOYER, 100).unwrap();
    ledger.set_beneficiary(&signers, J1, BENEFICIARY).unwrap();
    assert_eq!(
        ledger.release(&signers, &mut refusing, J1),
        rejection(ErrorKind::TransferFailed, J1)
    );
    // The documented reconciliation gap: the balance was zeroed before the
    // transfer was refused, and no movement was performed.
    assert_eq!(ledger.balance(J1), 0);
    assert_eq!(refusing.count(), 0);
}

#[test]
fn create_overwrites_an_existing_slot() {
    let signers = granting(&[EMPLOYER, OUTSIDER]);
    let mut gateway = RecordingGateway::new(true);
    let mut ledger = KaziEscrow::new(CUSTODIAN);
    ledger.create(&signers, J1, EMPLOYER, ASSET).unwrap();
    ledger.deposit(&signers, &mut gateway, J1, EMPLOYER, 60).unwrap();
    ledger.set_beneficiary(&signers, J1, BENEFICIARY).unwrap();
    // A second create for the same job rewrites the record and resets the
    // balance to zero.
    assert_eq!(ledger.create(&signers, J1, OUTSIDER, 78), Ok(()));
    let record = ledger.get_escrow(J1).unwrap();
    assert_eq!(record.employer, OUTSIDER);
    assert_eq!(record.beneficiary, None);
    assert_eq!(record.asset, 78);
    assert_eq!(ledger.balance(J1), 0);
}

#[test]
fn beneficiary_may_be_reassigned() {
    let signers = granting(&[EMPLOYER]);
    let mut ledger = KaziEscrow::new(CUSTODIAN);
    ledger.create(&signers, J1, EMPLOYER, ASSET).unwrap();
    ledger.set_beneficiary(&signers, J1, BENEFICIARY).unwrap();
    ledger.set_beneficiary(&signers, J1, OUTSIDER).unwrap();
    assert_eq!(ledger.get_escrow(J1).unwrap().beneficiary, Some(OUTSIDER));
}

#[test]
fn mutating_calls_refresh_the_retention_window() {
    let signers = granting(&[EMPLOYER]);
    let mut gateway = RecordingGateway::new(true);
    let mut ledger = KaziEscrow::new(CUSTODIAN);
    assert_eq!(ledger.retention_of(J1), 0);
    ledger.create(&signers, J1, EMPLOYER, ASSET).unwrap();
    assert_eq!(ledger.retention_of(J1), RETENTION_WINDOW);
    ledger.deposit(&signers, &mut gateway, J1, EMPLOYER, 10).unwrap();
    assert_eq!(ledger.retention_of(J1), RETENTION_WINDOW);
    // A rejected call writes nothing, the retention window included.
    assert_eq!(
        ledger.deposit(&signers, &mut gateway, J2, EMPLOYER, 10),
        rejection(ErrorKind::NotFound, J2)
    );
    assert_eq!(ledger.retention_of(J2), 0);
}

#[test]
fn operations_on_one_job_leave_others_alone() {
    let signers = granting(&[EMPLOYER, OUTSIDER]);
    let mut gateway = RecordingGateway::new(true);
    let mut ledger = KaziEscrow::new(CUSTODIAN);
    ledger.create(&signers, J1, EMPLOYER, ASSET).unwrap();
    ledger.create(&signers, J2, OUTSIDER, 78).unwrap();
    ledger.deposit(&signers, &mut gateway, J1, EMPLOYER, 100).unwrap();
    assert_eq!(ledger.balance(J2), 0);
    ledger.deposit(&signers, &mut gateway, J2, OUTSIDER, 7).unwrap();
    assert_eq!(ledger.balance(J1), 100);
    assert_eq!(ledger.balance(J2), 7);
    assert_eq!(ledger.get_escrow(J2).unwrap().employer, OUTSIDER);
}
