use carbon_bridge::account::AccountId;
use carbon_bridge::credit::{
    get_credit_info, initialize, CarbonCreditError, CreditLedger, CreditStatus, InitializeParams,
    SendCreditsParams,
};
use carbon_bridge::message::LzReceiveParams;

fn acct(tag: u8) -> AccountId {
    AccountId::from_bytes(vec![tag; 32])
}

fn send_params(amount: u64, recipient: u8) -> SendCreditsParams {
    SendCreditsParams {
        destination_chain_id: 30101,
        receiver_address: vec![9; 20],
        recipient: acct(recipient),
        amount,
        project_id: b"P".to_vec(),
        vintage: 2021,
    }
}

fn delivery(src_eid: u32, nonce: u64, message: Vec<u8>) -> LzReceiveParams {
    LzReceiveParams {
        src_eid,
        src_address: vec![3; 20],
        nonce,
        guid: vec![4; 32],
        message,
        executor: acct(9),
    }
}

#[test]
fn initialize_records_the_configuration() {
    let config = initialize(
        acct(1),
        acct(2),
        InitializeParams { endpoint_program: acct(3), decimals: 6 },
    );
    assert_eq!(config.admin.bytes, vec![1u8; 32]);
    assert_eq!(config.mint.bytes, vec![2u8; 32]);
    assert_eq!(config.endpoint_program.bytes, vec![3u8; 32]);
    assert_eq!(config.decimals, 6);
}

#[test]
fn minting_commits_balance_and_record_together() {
    let mut ledger = CreditLedger::new(acct(1));
    let r = ledger.mint_credits(&acct(1), 500, b"PROJ-7".to_vec(), 2021, &acct(4), 900);
    assert!(r.is_ok());
    assert_eq!(ledger.balance_of(&acct(4)), 500);
    assert_eq!(ledger.credit_records.len(), 1);
    let record = &ledger.credit_records[0];
    assert_eq!(record.project_id, b"PROJ-7".to_vec());
    assert_eq!(record.vintage, 2021);
    assert_eq!(record.amount, 500);
    assert_eq!(record.owner.bytes, vec![4u8; 32]);
    assert_eq!(record.minted_at, 900);
    assert_eq!(record.status, CreditStatus::Active);
    assert_eq!(record.source_chain, None);
}

#[test]
fn minting_is_authority_gated() {
    let mut ledger = CreditLedger::new(acct(1));
    let r = ledger.mint_credits(&acct(2), 500, b"P".to_vec(), 2021, &acct(4), 900);
    assert_eq!(r, Err(CarbonCreditError::UnauthorizedSender));
    assert_eq!(ledger.balance_of(&acct(4)), 0);
    assert_eq!(ledger.credit_records.len(), 0);
}

#[test]
fn minting_cannot_overflow_a_balance() {
    let mut ledger = CreditLedger::new(acct(1));
    assert!(ledger.mint_credits(&acct(1), u64::MAX, b"P".to_vec(), 2021, &acct(4), 900).is_ok());
    let r = ledger.mint_credits(&acct(1), 1, b"P".to_vec(), 2021, &acct(4), 901);
    assert_eq!(r, Err(CarbonCreditError::InvalidCreditData));
    assert_eq!(ledger.balance_of(&acct(4)), u64::MAX);
    assert_eq!(ledger.credit_records.len(), 1);
}

#[test]
fn failed_burn_stages_no_message() {
    let mut ledger = CreditLedger::new(acct(1));
    ledger.mint_credits(&acct(1), 99, b"P".to_vec(), 2021, &acct(4), 900).unwrap();
    let r = ledger.send_credits(&acct(4), &send_params(100, 7), 901);
    assert_eq!(r, Err(CarbonCreditError::InsufficientCredits));
    assert_eq!(ledger.outbound.len(), 0);
    assert_eq!(ledger.balance_of(&acct(4)), 99);
}

#[test]
fn successful_send_burns_and_stages_exactly_one_message() {
    let mut ledger = CreditLedger::new(acct(1));
    ledger.mint_credits(&acct(1), 100, b"P".to_vec(), 2021, &acct(4), 900).unwrap();
    let r = ledger.send_credits(&acct(4), &send_params(60, 7), 901);
    assert!(r.is_ok());
    assert_eq!(ledger.balance_of(&acct(4)), 40);
    assert_eq!(ledger.outbound.len(), 1);
    let staged = &ledger.outbound[0];
    assert_eq!(staged.dst_eid, 30101);
    assert_eq!(staged.sender.bytes, vec![4u8; 32]);
    assert_eq!(staged.nonce, 901);
}

#[test]
fn send_rejects_a_colliding_credit_key() {
    let mut ledger = CreditLedger::new(acct(1));
    ledger.mint_credits(&acct(1), 100, b"P".to_vec(), 2021, &acct(4), 900).unwrap();
    assert!(ledger.send_credits(&acct(4), &send_params(10, 7), 901).is_ok());
    let r = ledger.send_credits(&acct(4), &send_params(10, 7), 901);
    assert_eq!(r, Err(CarbonCreditError::DuplicateMessage));
    // nothing was burned by the rejected send
    assert_eq!(ledger.balance_of(&acct(4)), 90);
    assert_eq!(ledger.outbound.len(), 1);
}

#[test]
fn credits_bridge_round_trip() {
    // burn X on the sending chain, mint exactly X on the receiving chain
    let mut sending = CreditLedger::new(acct(1));
    sending.mint_credits(&acct(1), 1000, b"P".to_vec(), 2021, &acct(4), 900).unwrap();
    sending.send_credits(&acct(4), &send_params(250, 7), 901).unwrap();
    assert_eq!(sending.balance_of(&acct(4)), 750);
    let message = sending.outbound[0].message.clone();

    let mut receiving = CreditLedger::new(acct(2));
    let r = receiving.lz_receive(delivery(40161, 901, message), 950);
    assert!(r.is_ok());
    assert_eq!(receiving.balance_of(&acct(7)), 250);
    assert_eq!(receiving.credit_records.len(), 1);
    let record = &receiving.credit_records[0];
    assert_eq!(record.amount, 250);
    assert_eq!(record.project_id, b"P".to_vec());
    assert_eq!(record.vintage, 2021);
    assert_eq!(record.owner.bytes, vec![7u8; 32]);
    assert_eq!(record.minted_at, 950);
    assert_eq!(record.source_chain, Some(40161));
}

#[test]
fn duplicate_credit_delivery_mints_nothing() {
    let mut sending = CreditLedger::new(acct(1));
    sending.mint_credits(&acct(1), 1000, b"P".to_vec(), 2021, &acct(4), 900).unwrap();
    sending.send_credits(&acct(4), &send_params(250, 7), 901).unwrap();
    let message = sending.outbound[0].message.clone();

    let mut receiving = CreditLedger::new(acct(2));
    assert!(receiving.lz_receive(delivery(40161, 901, message.clone()), 950).is_ok());
    let r = receiving.lz_receive(delivery(40161, 901, message), 951);
    assert_eq!(r, Err(CarbonCreditError::DuplicateMessage));
    // the second delivery left every part of the state unchanged
    assert_eq!(receiving.balance_of(&acct(7)), 250);
    assert_eq!(receiving.credit_records.len(), 1);
    assert_eq!(receiving.accepted.len(), 1);
}

#[test]
fn malformed_credit_payload_is_rejected_whole() {
    let mut receiving = CreditLedger::new(acct(2));
    let r = receiving.lz_receive(delivery(40161, 901, vec![0x02, 0x01]), 950);
    assert_eq!(r, Err(CarbonCreditError::InvalidCreditData));
    assert_eq!(receiving.credit_records.len(), 0);
    assert_eq!(receiving.accepted.len(), 0);
}

#[test]
fn retirement_burns_and_records() {
    let mut ledger = CreditLedger::new(acct(1));
    ledger.mint_credits(&acct(1), 100, b"P".to_vec(), 2021, &acct(4), 900).unwrap();
    assert!(!ledger.owner_has_retirement(&acct(4)));
    let r = ledger.retire_credits(&acct(4), 30, b"voluntary offset".to_vec(), 910);
    assert!(r.is_ok());
    assert_eq!(ledger.balance_of(&acct(4)), 70);
    assert_eq!(ledger.retirement_records.len(), 1);
    let record = &ledger.retirement_records[0];
    assert_eq!(record.owner.bytes, vec![4u8; 32]);
    assert_eq!(record.amount, 30);
    assert_eq!(record.reason, b"voluntary offset".to_vec());
    assert_eq!(record.retired_at, 910);
    // the stored credit record keeps its minted status; the reconciled view
    // derives retirement from the trail
    assert_eq!(ledger.credit_records[0].status, CreditStatus::Active);
    assert!(ledger.owner_has_retirement(&acct(4)));
}

#[test]
fn retirement_fails_on_a_short_balance() {
    let mut ledger = CreditLedger::new(acct(1));
    ledger.mint_credits(&acct(1), 10, b"P".to_vec(), 2021, &acct(4), 900).unwrap();
    let r = ledger.retire_credits(&acct(4), 11, b"too much".to_vec(), 910);
    assert_eq!(r, Err(CarbonCreditError::InsufficientCredits));
    assert_eq!(ledger.balance_of(&acct(4)), 10);
    assert_eq!(ledger.retirement_records.len(), 0);
}

#[test]
fn get_credit_info_snapshots_the_record() {
    let mut ledger = CreditLedger::new(acct(1));
    ledger.mint_credits(&acct(1), 500, b"PROJ-7".to_vec(), 2021, &acct(4), 900).unwrap();
    let info = get_credit_info(&ledger.credit_records[0]);
    assert_eq!(info.project_id, b"PROJ-7".to_vec());
    assert_eq!(info.vintage, 2021);
    assert_eq!(info.amount, 500);
    assert_eq!(info.owner.bytes, vec![4u8; 32]);
    assert_eq!(info.minted_at, 900);
    assert_eq!(info.status, CreditStatus::Active);
    assert_eq!(info.source_chain, None);
}

#[test]
fn balances_are_kept_per_account() {
    let mut ledger = CreditLedger::new(acct(1));
    ledger.mint_credits(&acct(1), 5, b"P".to_vec(), 2021, &acct(4), 900).unwrap();
    ledger.mint_credits(&acct(1), 7, b"P".to_vec(), 2021, &acct(5), 901).unwrap();
    ledger.mint_credits(&acct(1), 11, b"P".to_vec(), 2021, &acct(4), 902).unwrap();
    assert_eq!(ledger.balance_of(&acct(4)), 16);
    assert_eq!(ledger.balance_of(&acct(5)), 7);
    assert_eq!(ledger.balance_of(&acct(6)), 0);
}
