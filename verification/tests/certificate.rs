use carbon_bridge::account::AccountId;
use carbon_bridge::certificate::{
    initialize, CarbonCertificateError, CertificateRegistry, CertificateStatus, InitializeParams,
    IssueCertificateParams, SendVerificationParams,
};
use carbon_bridge::message::LzReceiveParams;

fn acct(tag: u8) -> AccountId {
    AccountId::from_bytes(vec![tag; 32])
}

fn issue_params(id: &str, total_emissions: u64, valid_until: i64) -> IssueCertificateParams {
    IssueCertificateParams {
        certificate_id: id.as_bytes().to_vec(),
        total_emissions,
        data_hash: vec![0xAB; 64],
        valid_until,
    }
}

#[test]
fn initialize_records_admin_and_endpoint() {
    let config = initialize(acct(1), InitializeParams { endpoint_program: acct(2) });
    assert_eq!(config.admin.bytes, vec![1u8; 32]);
    assert_eq!(config.endpoint_program.bytes, vec![2u8; 32]);
}

#[test]
fn scenario_issue_verify_revoke() {
    let now: i64 = 1_700_000_000;
    let mut registry = CertificateRegistry::new();
    let issuer = acct(1);
    let r = registry.issue_certificate(issuer, issue_params("CERT-001", 1000, now + 3600), now);
    assert!(r.is_ok());

    let v = registry.verify_certificate(&b"CERT-001".to_vec(), now);
    assert!(v.exists);
    assert!(v.is_valid);
    assert_eq!(v.total_emissions, 1000);
    assert_eq!(v.issue_timestamp, now);
    assert_eq!(v.valid_until, now + 3600);

    let r = registry.revoke_certificate(&acct(1), &b"CERT-001".to_vec());
    assert!(r.is_ok());

    let v = registry.verify_certificate(&b"CERT-001".to_vec(), now);
    assert!(v.exists);
    assert!(!v.is_valid);
    assert_eq!(v.total_emissions, 1000);
}

#[test]
fn issuing_a_taken_id_fails_and_first_record_stands() {
    let now: i64 = 100;
    let mut registry = CertificateRegistry::new();
    let r = registry.issue_certificate(acct(1), issue_params("CERT-001", 1000, 4000), now);
    assert!(r.is_ok());
    let r = registry.issue_certificate(acct(2), issue_params("CERT-001", 999, 9999), now + 1);
    assert_eq!(r, Err(CarbonCertificateError::InvalidCertificateData));
    assert_eq!(registry.certificates.len(), 1);
    let v = registry.verify_certificate(&b"CERT-001".to_vec(), now);
    assert!(v.is_valid);
    assert_eq!(v.total_emissions, 1000);
}

#[test]
fn revocation_is_issuer_gated() {
    let mut registry = CertificateRegistry::new();
    let r = registry.issue_certificate(acct(1), issue_params("CERT-001", 10, 4000), 100);
    assert!(r.is_ok());
    let r = registry.revoke_certificate(&acct(2), &b"CERT-001".to_vec());
    assert_eq!(r, Err(CarbonCertificateError::UnauthorizedSender));
    let v = registry.verify_certificate(&b"CERT-001".to_vec(), 200);
    assert!(v.is_valid);
}

#[test]
fn revocation_invalidates_before_expiry() {
    let mut registry = CertificateRegistry::new();
    registry.issue_certificate(acct(1), issue_params("CERT-001", 10, 4000), 100).unwrap();
    registry.revoke_certificate(&acct(1), &b"CERT-001".to_vec()).unwrap();
    // well before valid_until, yet invalid
    let v = registry.verify_certificate(&b"CERT-001".to_vec(), 200);
    assert!(v.exists);
    assert!(!v.is_valid);
    assert_eq!(registry.certificates[0].status, CertificateStatus::Revoked);
}

#[test]
fn revoking_a_missing_certificate_fails() {
    let mut registry = CertificateRegistry::new();
    let r = registry.revoke_certificate(&acct(1), &b"NOPE".to_vec());
    assert_eq!(r, Err(CarbonCertificateError::InvalidCertificateData));
}

#[test]
fn expiry_is_evaluated_against_the_clock() {
    let valid_until: i64 = 4000;
    let mut registry = CertificateRegistry::new();
    registry.issue_certificate(acct(1), issue_params("CERT-001", 10, valid_until), 100).unwrap();
    assert!(registry.verify_certificate(&b"CERT-001".to_vec(), valid_until).is_valid);
    assert!(!registry.verify_certificate(&b"CERT-001".to_vec(), valid_until + 1).is_valid);
    // asking again at the earlier instant still answers valid: nothing was written
    assert!(registry.verify_certificate(&b"CERT-001".to_vec(), valid_until).is_valid);
}

#[test]
fn verifying_a_missing_certificate_reports_absence() {
    let registry = CertificateRegistry::new();
    let v = registry.verify_certificate(&b"CERT-404".to_vec(), 100);
    assert!(!v.exists);
    assert!(!v.is_valid);
    assert_eq!(v.total_emissions, 0);
}

fn send_params() -> SendVerificationParams {
    SendVerificationParams { destination_chain_id: 30101, receiver_address: vec![9; 20] }
}

#[test]
fn send_stages_exactly_one_message() {
    let mut registry = CertificateRegistry::new();
    registry.issue_certificate(acct(1), issue_params("CERT-001", 10, 4000), 100).unwrap();
    let r = registry.send_certificate_verification(
        &acct(5),
        &b"CERT-001".to_vec(),
        &send_params(),
        200,
    );
    assert!(r.is_ok());
    assert_eq!(registry.outbound.len(), 1);
    let staged = &registry.outbound[0];
    assert_eq!(staged.dst_eid, 30101);
    assert_eq!(staged.receiver, vec![9; 20]);
    assert_eq!(staged.sender.bytes, vec![5u8; 32]);
    assert_eq!(staged.nonce, 200);
}

#[test]
fn send_rejects_a_colliding_key() {
    let mut registry = CertificateRegistry::new();
    registry.issue_certificate(acct(1), issue_params("CERT-001", 10, 4000), 100).unwrap();
    registry.issue_certificate(acct(1), issue_params("CERT-002", 20, 4000), 100).unwrap();
    let r = registry.send_certificate_verification(
        &acct(5),
        &b"CERT-001".to_vec(),
        &send_params(),
        200,
    );
    assert!(r.is_ok());
    // same sender, same clock reading: the key collides
    let r = registry.send_certificate_verification(
        &acct(5),
        &b"CERT-002".to_vec(),
        &send_params(),
        200,
    );
    assert_eq!(r, Err(CarbonCertificateError::DuplicateMessage));
    assert_eq!(registry.outbound.len(), 1);
    // another sender in the same instant does not collide
    let r = registry.send_certificate_verification(
        &acct(6),
        &b"CERT-002".to_vec(),
        &send_params(),
        200,
    );
    assert!(r.is_ok());
}

#[test]
fn send_rejects_inactive_and_expired_certificates() {
    let mut registry = CertificateRegistry::new();
    registry.issue_certificate(acct(1), issue_params("CERT-001", 10, 4000), 100).unwrap();
    // expired at send time
    let r = registry.send_certificate_verification(
        &acct(5),
        &b"CERT-001".to_vec(),
        &send_params(),
        4001,
    );
    assert_eq!(r, Err(CarbonCertificateError::CertificateExpired));
    // revoked: inactive wins
    registry.revoke_certificate(&acct(1), &b"CERT-001".to_vec()).unwrap();
    let r = registry.send_certificate_verification(
        &acct(5),
        &b"CERT-001".to_vec(),
        &send_params(),
        200,
    );
    assert_eq!(r, Err(CarbonCertificateError::CertificateInactive));
    assert_eq!(registry.outbound.len(), 0);
    // missing certificate
    let r = registry.send_certificate_verification(
        &acct(5),
        &b"CERT-404".to_vec(),
        &send_params(),
        200,
    );
    assert_eq!(r, Err(CarbonCertificateError::InvalidCertificateData));
}

fn delivery(src_eid: u32, nonce: u64, message: Vec<u8>) -> LzReceiveParams {
    LzReceiveParams {
        src_eid,
        src_address: vec![3; 20],
        nonce,
        guid: vec![4; 32],
        message,
        executor: acct(9),
    }
}

#[test]
fn relayed_attestation_creates_a_mirror_record() {
    let now: i64 = 1000;
    let mut origin = CertificateRegistry::new();
    origin.issue_certificate(acct(1), issue_params("CERT-001", 77, 4000), now).unwrap();
    origin
        .send_certificate_verification(&acct(5), &b"CERT-001".to_vec(), &send_params(), now + 1)
        .unwrap();
    let message = origin.outbound[0].message.clone();

    let mut remote = CertificateRegistry::new();
    let r = remote.lz_receive(delivery(40161, 7, message), 2000);
    assert!(r.is_ok());
    assert_eq!(remote.verifications.len(), 1);
    let mirror = &remote.verifications[0];
    assert_eq!(mirror.certificate_id, b"CERT-001".to_vec());
    assert_eq!(mirror.source_chain, 40161);
    assert_eq!(mirror.issuer.bytes, vec![1u8; 32]);
    assert_eq!(mirror.total_emissions, 77);
    assert_eq!(mirror.data_hash, vec![0xAB; 64]);
    assert_eq!(mirror.verified_at, 2000);
}

#[test]
fn duplicate_attestation_delivery_is_rejected() {
    let mut origin = CertificateRegistry::new();
    origin.issue_certificate(acct(1), issue_params("CERT-001", 77, 4000), 1000).unwrap();
    origin
        .send_certificate_verification(&acct(5), &b"CERT-001".to_vec(), &send_params(), 1001)
        .unwrap();
    let message = origin.outbound[0].message.clone();

    let mut remote = CertificateRegistry::new();
    assert!(remote.lz_receive(delivery(40161, 7, message.clone()), 2000).is_ok());
    let r = remote.lz_receive(delivery(40161, 7, message), 2001);
    assert_eq!(r, Err(CarbonCertificateError::DuplicateMessage));
    assert_eq!(remote.verifications.len(), 1);
    assert_eq!(remote.accepted.len(), 1);
}

#[test]
fn malformed_attestation_payload_is_rejected_whole() {
    let mut remote = CertificateRegistry::new();
    let r = remote.lz_receive(delivery(40161, 7, vec![0xFF, 0x01, 0x02]), 2000);
    assert_eq!(r, Err(CarbonCertificateError::InvalidCertificateData));
    assert_eq!(remote.verifications.len(), 0);
    assert_eq!(remote.accepted.len(), 0);
}

#[test]
fn empty_certificate_id_round_trips() {
    let mut origin = CertificateRegistry::new();
    origin.issue_certificate(acct(1), issue_params("", 1, 4000), 100).unwrap();
    origin
        .send_certificate_verification(&acct(5), &Vec::new(), &send_params(), 101)
        .unwrap();
    let message = origin.outbound[0].message.clone();
    let mut remote = CertificateRegistry::new();
    assert!(remote.lz_receive(delivery(1, 1, message), 102).is_ok());
    assert_eq!(remote.verifications[0].certificate_id, Vec::<u8>::new());
}

#[test]
fn longest_certificate_id_is_accepted() {
    let id = vec![b'x'; 64];
    let mut registry = CertificateRegistry::new();
    let params = IssueCertificateParams {
        certificate_id: id.clone(),
        total_emissions: 1,
        data_hash: Vec::new(),
        valid_until: 4000,
    };
    assert!(registry.issue_certificate(acct(1), params, 100).is_ok());
    assert!(registry.verify_certificate(&id, 100).is_valid);
}
