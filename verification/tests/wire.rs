use carbon_bridge::account::AccountId;
use carbon_bridge::wire::{
    decode_certificate_data, decode_credit_transfer, encode_certificate_data,
    encode_credit_transfer, CertificateVerificationData, CreditTransferData,
};

fn acct(tag: u8) -> AccountId {
    AccountId::from_bytes(vec![tag; 32])
}

fn sample_certificate_data() -> CertificateVerificationData {
    CertificateVerificationData {
        certificate_id: b"CERT-001".to_vec(),
        issuer: acct(1),
        total_emissions: 1000,
        data_hash: vec![0xAB; 64],
        issue_timestamp: 1_700_000_000,
        valid_until: 1_700_003_600,
    }
}

#[test]
fn certificate_payload_round_trips() {
    let original = sample_certificate_data();
    let bytes = encode_certificate_data(&original);
    let decoded = decode_certificate_data(&bytes).expect("decodes");
    assert_eq!(decoded.certificate_id, original.certificate_id);
    assert_eq!(decoded.issuer.bytes, original.issuer.bytes);
    assert_eq!(decoded.total_emissions, original.total_emissions);
    assert_eq!(decoded.data_hash, original.data_hash);
    assert_eq!(decoded.issue_timestamp, original.issue_timestamp);
    assert_eq!(decoded.valid_until, original.valid_until);
}

#[test]
fn certificate_payload_round_trips_with_negative_timestamps() {
    let original = CertificateVerificationData {
        certificate_id: Vec::new(),
        issuer: acct(0),
        total_emissions: 0,
        data_hash: Vec::new(),
        issue_timestamp: -5,
        valid_until: i64::MIN,
    };
    let bytes = encode_certificate_data(&original);
    let decoded = decode_certificate_data(&bytes).expect("decodes");
    assert_eq!(decoded.certificate_id, Vec::<u8>::new());
    assert_eq!(decoded.issue_timestamp, -5);
    assert_eq!(decoded.valid_until, i64::MIN);
}

#[test]
fn certificate_payload_exact_bytes() {
    let data = CertificateVerificationData {
        certificate_id: b"A".to_vec(),
        issuer: acct(1),
        total_emissions: 2,
        data_hash: Vec::new(),
        issue_timestamp: 3,
        valid_until: 4,
    };
    let bytes = encode_certificate_data(&data);
    let mut expected: Vec<u8> = Vec::new();
    expected.push(1); // schema tag
    expected.extend_from_slice(&[1, 0, 0, 0, b'A']); // id, length-prefixed
    expected.extend_from_slice(&[1; 32]); // issuer
    expected.extend_from_slice(&[2, 0, 0, 0, 0, 0, 0, 0]); // emissions
    expected.extend_from_slice(&[0, 0, 0, 0]); // empty hash
    expected.extend_from_slice(&[3, 0, 0, 0, 0, 0, 0, 0]); // issue timestamp
    expected.extend_from_slice(&[4, 0, 0, 0, 0, 0, 0, 0]); // valid until
    assert_eq!(bytes, expected);
}

#[test]
fn certificate_decoder_rejects_wrong_tag_and_damage() {
    let bytes = encode_certificate_data(&sample_certificate_data());
    assert!(decode_certificate_data(&Vec::new()).is_none());
    // a credit tag is not a certificate payload
    let mut wrong_tag = bytes.clone();
    wrong_tag[0] = 2;
    assert!(decode_certificate_data(&wrong_tag).is_none());
    // truncation is rejected
    let mut truncated = bytes.clone();
    truncated.pop();
    assert!(decode_certificate_data(&truncated).is_none());
    // trailing garbage is rejected: the payload must be exactly consumed
    let mut padded = bytes.clone();
    padded.push(0);
    assert!(decode_certificate_data(&padded).is_none());
    // an overlong id length is rejected
    let mut oversized = bytes;
    oversized[1] = 65;
    assert!(decode_certificate_data(&oversized).is_none());
}

fn sample_credit_transfer() -> CreditTransferData {
    CreditTransferData {
        recipient: acct(7),
        amount: 5,
        project_id: b"P".to_vec(),
        vintage: 2021,
    }
}

#[test]
fn credit_payload_round_trips() {
    let original = sample_credit_transfer();
    let bytes = encode_credit_transfer(&original);
    let decoded = decode_credit_transfer(&bytes).expect("decodes");
    assert_eq!(decoded.recipient.bytes, original.recipient.bytes);
    assert_eq!(decoded.amount, original.amount);
    assert_eq!(decoded.project_id, original.project_id);
    assert_eq!(decoded.vintage, original.vintage);
}

#[test]
fn credit_payload_exact_bytes() {
    let bytes = encode_credit_transfer(&sample_credit_transfer());
    let mut expected: Vec<u8> = Vec::new();
    expected.push(2); // schema tag
    expected.extend_from_slice(&[7; 32]); // recipient
    expected.extend_from_slice(&[5, 0, 0, 0, 0, 0, 0, 0]); // amount
    expected.extend_from_slice(&[1, 0, 0, 0, b'P']); // project id, length-prefixed
    expected.extend_from_slice(&[0xE5, 0x07]); // vintage 2021
    assert_eq!(bytes, expected);
}

#[test]
fn credit_decoder_rejects_wrong_tag_and_damage() {
    let bytes = encode_credit_transfer(&sample_credit_transfer());
    assert!(decode_credit_transfer(&Vec::new()).is_none());
    let mut wrong_tag = bytes.clone();
    wrong_tag[0] = 1;
    assert!(decode_credit_transfer(&wrong_tag).is_none());
    let mut truncated = bytes.clone();
    truncated.pop();
    assert!(decode_credit_transfer(&truncated).is_none());
    let mut padded = bytes;
    padded.push(0);
    assert!(decode_credit_transfer(&padded).is_none());
}

#[test]
fn largest_fields_fit_the_message_bound() {
    let data = CertificateVerificationData {
        certificate_id: vec![b'x'; 64],
        issuer: acct(1),
        total_emissions: u64::MAX,
        data_hash: vec![0xFF; 64],
        issue_timestamp: i64::MAX,
        valid_until: i64::MAX,
    };
    let bytes = encode_certificate_data(&data);
    assert_eq!(bytes.len(), 193);
    assert!(bytes.len() <= 512);
    let decoded = decode_certificate_data(&bytes).expect("decodes");
    assert_eq!(decoded.certificate_id, vec![b'x'; 64]);
    assert_eq!(decoded.data_hash, vec![0xFF; 64]);
}
