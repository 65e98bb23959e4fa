//! The credit ledger: minting, burning, bridging and retiring fungible
//! carbon credits.
//!
//! One ledger instance models one chain's view: the token balances the
//! ledger is the sole writer of, the credit records committed at mint or
//! inbound-transfer time, the append-only retirement trail, the staged
//! outbound messages and the consumed delivery keys. A cross-chain transfer
//! follows the burn-then-bridge pattern: the send burns locally and stages a
//! message atomically, and the accepted delivery mints the same amount on
//! the destination ledger. Every operation either commits fully or returns
//! an error and leaves the state exactly as it was.

use vstd::prelude::*;
use vstd::pervasive::VecAdditionalExecFns;
use crate::account::{AccountId, ACCOUNT_ID_LEN, copy_bytes};
use crate::message::{
    AcceptedKey, LzReceiveParams, LzReceiveParamsView, OutboundMessage, OutboundMessageView,
    MAX_RECEIVER_LEN, accepted_contains, outbound_has_key, spec_accepted_contains,
    spec_outbound_has_key,
};
use crate::wire::{
    CreditTransferData, CreditTransferDataView, MAX_FIELD_LEN, decode_credit_transfer,
    encode_credit_transfer, spec_decode_credit_transfer, spec_encode_credit_transfer,
};

verus! {

/// Largest free-text retirement reason, in bytes.
pub const MAX_REASON_LEN: usize = 128;

/// Stored lifecycle state of a credit record. Retirement burns tokens and
/// appends a retirement record without rewriting the originating credit
/// record, so the stored status stays as minted; the reconciled view derives
/// retirement from the retirement trail instead.
#[derive(Clone, Copy, PartialEq, Eq, Structural, Debug)]
pub enum CreditStatus {
    Active,
    Retired,
    Transferred,
}

/// Typed failure reasons of the credit ledger.
#[derive(Clone, Copy, PartialEq, Eq, Structural, Debug)]
pub enum CarbonCreditError {
    /// The caller is not the recorded mint authority.
    UnauthorizedSender,
    /// The balance to burn from is smaller than the amount.
    InsufficientCredits,
    /// A malformed inbound payload, or a mint that would overflow a balance.
    InvalidCreditData,
    /// Credits were already retired.
    CreditsAlreadyRetired,
    /// A colliding outbound key, or a re-delivered inbound message.
    DuplicateMessage,
}

/// Ledger-level configuration, written once at initialization.
pub struct OftConfig {
    pub admin: AccountId,
    pub mint: AccountId,
    pub endpoint_program: AccountId,
    pub decimals: u8,
}

/// Parameters of `initialize`.
pub struct InitializeParams {
    pub endpoint_program: AccountId,
    pub decimals: u8,
}

/// Creates the ledger configuration, recording the admin, the token mint
/// and the endpoint.
pub fn initialize(admin: AccountId, mint: AccountId, params: InitializeParams) -> (c: OftConfig)
    ensures
        c.admin@ == admin@,
        c.mint@ == mint@,
        c.endpoint_program@ == params.endpoint_program@,
        c.decimals == params.decimals,
{
    OftConfig { admin, mint, endpoint_program: params.endpoint_program, decimals: params.decimals }
}

/// A quantity of fungible credits tied to a project and vintage; a ledger
/// entry committed in the same unit of work as the token mint it records,
/// and never mutated afterward.
pub struct CreditRecord {
    /// Project identifier, at most 64 bytes.
    pub project_id: Vec<u8>,
    /// Year of the emission-reduction activity.
    pub vintage: u16,
    /// Quantity minted in the same unit of work.
    pub amount: u64,
    pub owner: AccountId,
    /// Ledger clock reading at commit, epoch seconds.
    pub minted_at: i64,
    pub status: CreditStatus,
    /// Present exactly when the record originated from an inbound transfer.
    pub source_chain: Option<u32>,
}

/// Ghost image of a credit record.
#[verifier::ext_equal]
pub ghost struct CreditRecordView {
    pub project_id: Seq<u8>,
    pub vintage: u16,
    pub amount: u64,
    pub owner: Seq<u8>,
    pub minted_at: i64,
    pub status: CreditStatus,
    pub source_chain: Option<u32>,
}

impl View for CreditRecord {
    type V = CreditRecordView;

    open spec fn view(&self) -> CreditRecordView {
        CreditRecordView {
            project_id: self.project_id@,
            vintage: self.vintage,
            amount: self.amount,
            owner: self.owner@,
            minted_at: self.minted_at,
            status: self.status,
            source_chain: self.source_chain,
        }
    }
}

impl DeepView for CreditRecord {
    type V = CreditRecordView;

    open spec fn deep_view(&self) -> CreditRecordView {
        self@
    }
}

impl CreditRecordView {
    /// Field bounds every stored credit record satisfies.
    pub open spec fn well_formed(self) -> bool {
        &&& self.project_id.len() <= MAX_FIELD_LEN
        &&& self.owner.len() == ACCOUNT_ID_LEN
    }
}

/// Permanent record of credits removed from circulation. Append-only.
pub struct RetirementRecord {
    pub owner: AccountId,
    pub amount: u64,
    /// Free-text reason, at most 128 bytes.
    pub reason: Vec<u8>,
    /// Ledger clock reading at retirement, epoch seconds.
    pub retired_at: i64,
}

/// Ghost image of a retirement record.
#[verifier::ext_equal]
pub ghost struct RetirementRecordView {
    pub owner: Seq<u8>,
    pub amount: u64,
    pub reason: Seq<u8>,
    pub retired_at: i64,
}

impl View for RetirementRecord {
    type V = RetirementRecordView;

    open spec fn view(&self) -> RetirementRecordView {
        RetirementRecordView {
            owner: self.owner@,
            amount: self.amount,
            reason: self.reason@,
            retired_at: self.retired_at,
        }
    }
}

impl DeepView for RetirementRecord {
    type V = RetirementRecordView;

    open spec fn deep_view(&self) -> RetirementRecordView {
        self@
    }
}

impl RetirementRecordView {
    /// Field bounds every stored retirement record satisfies.
    pub open spec fn well_formed(self) -> bool {
        &&& self.owner.len() == ACCOUNT_ID_LEN
        &&& self.reason.len() <= MAX_REASON_LEN
    }
}

/// Full snapshot of a credit record, as `get_credit_info` answers it.
pub struct CreditInfo {
    pub project_id: Vec<u8>,
    pub vintage: u16,
    pub amount: u64,
    pub owner: AccountId,
    pub minted_at: i64,
    pub status: CreditStatus,
    pub source_chain: Option<u32>,
}

/// Parameters of `send_credits`.
pub struct SendCreditsParams {
    pub destination_chain_id: u32,
    pub receiver_address: Vec<u8>,
    /// Recipient identity on the destination chain.
    pub recipient: AccountId,
    pub amount: u64,
    pub project_id: Vec<u8>,
    pub vintage: u16,
}

/// Ghost image of the send parameters.
#[verifier::ext_equal]
pub ghost struct SendCreditsParamsView {
    pub destination_chain_id: u32,
    pub receiver_address: Seq<u8>,
    pub recipient: Seq<u8>,
    pub amount: u64,
    pub project_id: Seq<u8>,
    pub vintage: u16,
}

impl View for SendCreditsParams {
    type V = SendCreditsParamsView;

    open spec fn view(&self) -> SendCreditsParamsView {
        SendCreditsParamsView {
            destination_chain_id: self.destination_chain_id,
            receiver_address: self.receiver_address@,
            recipient: self.recipient@,
            amount: self.amount,
            project_id: self.project_id@,
            vintage: self.vintage,
        }
    }
}

impl SendCreditsParamsView {
    /// Field bounds a send request must satisfy.
    pub open spec fn well_formed(self) -> bool {
        &&& self.receiver_address.len() <= MAX_RECEIVER_LEN
        &&& self.recipient.len() == ACCOUNT_ID_LEN
        &&& self.project_id.len() <= MAX_FIELD_LEN
    }
}

/// One account's token balance on the local chain.
pub struct BalanceEntry {
    pub account: AccountId,
    pub amount: u64,
}

/// Ghost image of a balance entry.
#[verifier::ext_equal]
pub ghost struct BalanceEntryView {
    pub account: Seq<u8>,
    pub amount: u64,
}

impl View for BalanceEntry {
    type V = BalanceEntryView;

    open spec fn view(&self) -> BalanceEntryView {
        BalanceEntryView { account: self.account@, amount: self.amount }
    }
}

impl DeepView for BalanceEntry {
    type V = BalanceEntryView;

    open spec fn deep_view(&self) -> BalanceEntryView {
        self@
    }
}

/// True when some balance entry belongs to the given account.
pub open spec fn spec_has_balance(bals: Seq<BalanceEntryView>, account: Seq<u8>) -> bool {
    exists|i: int| 0 <= i < bals.len() && bals[i].account == account
}

/// The index of the balance entry of the given account.
pub open spec fn spec_balance_index(bals: Seq<BalanceEntryView>, account: Seq<u8>) -> int {
    choose|i: int| 0 <= i < bals.len() && bals[i].account == account
}

/// The balance of the given account; an absent account holds zero.
pub open spec fn spec_balance_of(bals: Seq<BalanceEntryView>, account: Seq<u8>) -> u64 {
    if spec_has_balance(bals, account) {
        bals[spec_balance_index(bals, account)].amount
    } else {
        0
    }
}

/// Balance accounts are pairwise distinct and well formed.
pub open spec fn spec_balances_wf(bals: Seq<BalanceEntryView>) -> bool {
    &&& forall|i: int, j: int| 0 <= i < j < bals.len() ==> bals[i].account != bals[j].account
    &&& forall|i: int|
        0 <= i < bals.len() ==> (#[trigger] bals[i].account).len() == ACCOUNT_ID_LEN
}

/// With pairwise distinct accounts, any index holding the account is the index.
pub proof fn lemma_balance_index_is(bals: Seq<BalanceEntryView>, account: Seq<u8>, i: int)
    requires
        spec_balances_wf(bals),
        0 <= i < bals.len(),
        bals[i].account == account,
    ensures
        spec_has_balance(bals, account),
        spec_balance_index(bals, account) == i,
        spec_balance_of(bals, account) == bals[i].amount,
{
    assert(spec_has_balance(bals, account));
    let k = spec_balance_index(bals, account);
    if k != i {
        assert(bals[k].account != bals[i].account);
    }
}

/// The aggregate token supply: the sum of all balances.
pub open spec fn spec_total_supply(bals: Seq<BalanceEntryView>) -> int
    decreases bals.len(),
{
    if bals.len() == 0 {
        0
    } else {
        spec_total_supply(bals.drop_last()) + bals.last().amount
    }
}

/// Appending an entry adds its amount to the supply.
pub proof fn lemma_total_supply_push(bals: Seq<BalanceEntryView>, e: BalanceEntryView)
    ensures
        spec_total_supply(bals.push(e)) == spec_total_supply(bals) + e.amount,
{
    assert(bals.push(e).drop_last() =~= bals);
    assert(bals.push(e).last() == e);
}

/// Replacing an entry moves the supply by the difference of the amounts.
pub proof fn lemma_total_supply_update(bals: Seq<BalanceEntryView>, i: int, e: BalanceEntryView)
    requires
        0 <= i < bals.len(),
    ensures
        spec_total_supply(bals.update(i, e)) == spec_total_supply(bals) - bals[i].amount
            + e.amount,
    decreases bals.len(),
{
    let updated = bals.update(i, e);
    if i == bals.len() - 1 {
        assert(updated.drop_last() =~= bals.drop_last());
        assert(updated.last() == e);
    } else {
        assert(updated.drop_last() =~= bals.drop_last().update(i, e));
        lemma_total_supply_update(bals.drop_last(), i, e);
        assert(updated.last() == bals.last());
        assert(bals.drop_last()[i] == bals[i]);
    }
}

/// The balances after minting `amount` to `account`: its entry grows, or a
/// fresh entry appears.
pub open spec fn spec_mint_to(
    bals: Seq<BalanceEntryView>,
    account: Seq<u8>,
    amount: u64,
) -> Seq<BalanceEntryView> {
    if spec_has_balance(bals, account) {
        let i = spec_balance_index(bals, account);
        bals.update(i, BalanceEntryView { account, amount: (bals[i].amount + amount) as u64 })
    } else {
        bals.push(BalanceEntryView { account, amount })
    }
}

/// The balances after burning `amount` from `account`; meaningful only when
/// the balance covers the amount (a zero burn from an absent account changes
/// nothing).
pub open spec fn spec_burn_from(
    bals: Seq<BalanceEntryView>,
    account: Seq<u8>,
    amount: u64,
) -> Seq<BalanceEntryView> {
    if spec_has_balance(bals, account) {
        let i = spec_balance_index(bals, account);
        bals.update(i, BalanceEntryView { account, amount: (bals[i].amount - amount) as u64 })
    } else {
        bals
    }
}

/// One chain's credit ledger instance.
pub struct CreditLedger {
    /// The only identity allowed to mint locally; inbound transfers mint
    /// under the protocol's own authority instead.
    pub mint_authority: AccountId,
    /// Token balances; this ledger is their sole writer.
    pub balances: Vec<BalanceEntry>,
    /// Credit records, append-only.
    pub credit_records: Vec<CreditRecord>,
    /// Retirement trail, append-only.
    pub retirement_records: Vec<RetirementRecord>,
    /// Staged outbound messages, (sender, nonce) keys pairwise distinct.
    pub outbound: Vec<OutboundMessage>,
    /// Delivery keys already consumed by `lz_receive`.
    pub accepted: Vec<AcceptedKey>,
}

/// Ghost image of a ledger instance.
#[verifier::ext_equal]
pub ghost struct LedgerView {
    pub mint_authority: Seq<u8>,
    pub balances: Seq<BalanceEntryView>,
    pub credit_records: Seq<CreditRecordView>,
    pub retirement_records: Seq<RetirementRecordView>,
    pub outbound: Seq<OutboundMessageView>,
    pub accepted: Seq<AcceptedKey>,
}

impl View for CreditLedger {
    type V = LedgerView;

    open spec fn view(&self) -> LedgerView {
        LedgerView {
            mint_authority: self.mint_authority@,
            balances: self.balances.deep_view(),
            credit_records: self.credit_records.deep_view(),
            retirement_records: self.retirement_records.deep_view(),
            outbound: self.outbound.deep_view(),
            accepted: self.accepted@,
        }
    }
}

impl LedgerView {
    /// The ledger invariant: balances keyed uniquely, all records within
    /// bounds, and staged outbound keys pairwise distinct.
    pub open spec fn well_formed(self) -> bool {
        &&& self.mint_authority.len() == ACCOUNT_ID_LEN
        &&& spec_balances_wf(self.balances)
        &&& forall|i: int|
            0 <= i < self.credit_records.len() ==> (#[trigger] self.credit_records[i]).well_formed()
        &&& forall|i: int|
            0 <= i < self.retirement_records.len() ==> (
            #[trigger] self.retirement_records[i]).well_formed()
        &&& forall|i: int|
            0 <= i < self.outbound.len() ==> (#[trigger] self.outbound[i]).well_formed()
        &&& forall|i: int, j: int|
            0 <= i < j < self.outbound.len() ==> !(self.outbound[i].sender == self.outbound[j].sender
                && self.outbound[i].nonce == self.outbound[j].nonce)
    }
}

/// The credit record a local mint commits.
pub open spec fn spec_minted_record(
    project_id: Seq<u8>,
    vintage: u16,
    amount: u64,
    owner: Seq<u8>,
    now: i64,
) -> CreditRecordView {
    CreditRecordView {
        project_id,
        vintage,
        amount,
        owner,
        minted_at: now,
        status: CreditStatus::Active,
        source_chain: None,
    }
}

/// Local mint: only the mint authority may mint, a balance may not overflow,
/// and the token mint and the record commit are one atomic unit.
pub open spec fn spec_mint_credits(
    s: LedgerView,
    caller: Seq<u8>,
    amount: u64,
    project_id: Seq<u8>,
    vintage: u16,
    recipient: Seq<u8>,
    now: i64,
) -> (LedgerView, Result<(), CarbonCreditError>) {
    if caller != s.mint_authority {
        (s, Err(CarbonCreditError::UnauthorizedSender))
    } else if spec_balance_of(s.balances, recipient) + amount > u64::MAX {
        (s, Err(CarbonCreditError::InvalidCreditData))
    } else {
        (
            LedgerView {
                balances: spec_mint_to(s.balances, recipient, amount),
                credit_records: s.credit_records.push(
                    spec_minted_record(project_id, vintage, amount, recipient, now),
                ),
                ..s
            },
            Ok(()),
        )
    }
}

/// Burn-then-bridge: the burn and the staging of the outbound message are
/// one atomic unit; if the burn fails no message is staged, and if staging
/// would collide nothing is burned.
pub open spec fn spec_send_credits(
    s: LedgerView,
    sender: Seq<u8>,
    p: SendCreditsParamsView,
    now: i64,
) -> (LedgerView, Result<(), CarbonCreditError>) {
    if spec_balance_of(s.balances, sender) < p.amount {
        (s, Err(CarbonCreditError::InsufficientCredits))
    } else if spec_outbound_has_key(s.outbound, sender, now as u64) {
        (s, Err(CarbonCreditError::DuplicateMessage))
    } else {
        (
            LedgerView {
                balances: spec_burn_from(s.balances, sender, p.amount),
                outbound: s.outbound.push(
                    OutboundMessageView {
                        dst_eid: p.destination_chain_id,
                        receiver: p.receiver_address,
                        message: spec_encode_credit_transfer(
                            CreditTransferDataView {
                                recipient: p.recipient,
                                amount: p.amount,
                                project_id: p.project_id,
                                vintage: p.vintage,
                            },
                        ),
                        sender,
                        nonce: now as u64,
                    },
                ),
                ..s
            },
            Ok(()),
        )
    }
}

/// The credit record an accepted inbound transfer commits, tagged with its
/// origin chain.
pub open spec fn spec_received_record(
    d: CreditTransferDataView,
    src_eid: u32,
    now: i64,
) -> CreditRecordView {
    CreditRecordView {
        project_id: d.project_id,
        vintage: d.vintage,
        amount: d.amount,
        owner: d.recipient,
        minted_at: now,
        status: CreditStatus::Active,
        source_chain: Some(src_eid),
    }
}

/// Inbound application: rejects a consumed delivery key, rejects a malformed
/// payload, rejects a mint that would overflow the recipient's balance, else
/// mints under the protocol's own authority, commits the mirrored credit
/// record and consumes the key, atomically.
pub open spec fn spec_receive_credits(
    s: LedgerView,
    p: LzReceiveParamsView,
    now: i64,
) -> (LedgerView, Result<(), CarbonCreditError>) {
    if spec_accepted_contains(s.accepted, p.src_eid, p.nonce) {
        (s, Err(CarbonCreditError::DuplicateMessage))
    } else {
        match spec_decode_credit_transfer(p.message) {
            None => (s, Err(CarbonCreditError::InvalidCreditData)),
            Some(d) => if spec_balance_of(s.balances, d.recipient) + d.amount > u64::MAX {
                (s, Err(CarbonCreditError::InvalidCreditData))
            } else {
                (
                    LedgerView {
                        balances: spec_mint_to(s.balances, d.recipient, d.amount),
                        credit_records: s.credit_records.push(
                            spec_received_record(d, p.src_eid, now),
                        ),
                        accepted: s.accepted.push(
                            AcceptedKey { src_eid: p.src_eid, nonce: p.nonce },
                        ),
                        ..s
                    },
                    Ok(()),
                )
            },
        }
    }
}

/// Retirement: burns the owner's tokens and appends a retirement record as
/// one atomic unit; the originating credit records are left as they were.
pub open spec fn spec_retire_credits(
    s: LedgerView,
    owner: Seq<u8>,
    amount: u64,
    reason: Seq<u8>,
    now: i64,
) -> (LedgerView, Result<(), CarbonCreditError>) {
    if spec_balance_of(s.balances, owner) < amount {
        (s, Err(CarbonCreditError::InsufficientCredits))
    } else {
        (
            LedgerView {
                balances: spec_burn_from(s.balances, owner, amount),
                retirement_records: s.retirement_records.push(
                    RetirementRecordView { owner, amount, reason, retired_at: now },
                ),
                ..s
            },
            Ok(()),
        )
    }
}

/// True when the retirement trail holds a record for the given owner.
pub open spec fn spec_owner_has_retirement(
    records: Seq<RetirementRecordView>,
    owner: Seq<u8>,
) -> bool {
    exists|i: int| 0 <= i < records.len() && records[i].owner == owner
}

/// Minting moves one balance and the supply up by the amount, and keeps the
/// balances well formed.
pub proof fn lemma_mint_to_properties(bals: Seq<BalanceEntryView>, account: Seq<u8>, amount: u64)
    requires
        spec_balances_wf(bals),
        account.len() == ACCOUNT_ID_LEN,
        spec_balance_of(bals, account) + amount <= u64::MAX,
    ensures
        spec_balances_wf(spec_mint_to(bals, account, amount)),
        spec_balance_of(spec_mint_to(bals, account, amount), account) == spec_balance_of(
            bals,
            account,
        ) + amount,
        spec_total_supply(spec_mint_to(bals, account, amount)) == spec_total_supply(bals)
            + amount,
{
    let after = spec_mint_to(bals, account, amount);
    if spec_has_balance(bals, account) {
        let i = spec_balance_index(bals, account);
        let e = BalanceEntryView { account, amount: (bals[i].amount + amount) as u64 };
        lemma_total_supply_update(bals, i, e);
        assert(spec_balances_wf(after)) by {
            assert(forall|j: int| 0 <= j < after.len() ==> after[j].account == bals[j].account);
        }
        lemma_balance_index_is(after, account, i);
    } else {
        let e = BalanceEntryView { account, amount };
        lemma_total_supply_push(bals, e);
        assert(spec_balances_wf(after)) by {
            assert forall|x: int, y: int|
                0 <= x < y < after.len() implies after[x].account != after[y].account by {
                if y == after.len() - 1 {
                    assert(bals[x].account != account);
                } else {
                    assert(bals[x].account != bals[y].account);
                }
            }
        }
        lemma_balance_index_is(after, account, after.len() - 1);
    }
}

/// Burning moves one balance and the supply down by the amount, and keeps
/// the balances well formed.
pub proof fn lemma_burn_from_properties(bals: Seq<BalanceEntryView>, account: Seq<u8>, amount: u64)
    requires
        spec_balances_wf(bals),
        spec_balance_of(bals, account) >= amount,
    ensures
        spec_balances_wf(spec_burn_from(bals, account, amount)),
        spec_balance_of(spec_burn_from(bals, account, amount), account) == spec_balance_of(
            bals,
            account,
        ) - amount,
        spec_total_supply(spec_burn_from(bals, account, amount)) == spec_total_supply(bals)
            - amount,
{
    let after = spec_burn_from(bals, account, amount);
    if spec_has_balance(bals, account) {
        let i = spec_balance_index(bals, account);
        let e = BalanceEntryView { account, amount: (bals[i].amount - amount) as u64 };
        lemma_total_supply_update(bals, i, e);
        assert(spec_balances_wf(after)) by {
            assert(forall|j: int| 0 <= j < after.len() ==> after[j].account == bals[j].account);
        }
        lemma_balance_index_is(after, account, i);
    }
}

/// Burn-then-bridge atomicity: a send whose burn would fail (the balance is
/// short) stages no outbound message and changes nothing; a send that
/// succeeds burns exactly the amount and stages exactly one message keyed by
/// (sender, send time).
pub proof fn lemma_burn_then_bridge_atomicity(
    s: LedgerView,
    sender: Seq<u8>,
    p: SendCreditsParamsView,
    now: i64,
)
    requires
        s.well_formed(),
    ensures
        spec_balance_of(s.balances, sender) < p.amount ==> spec_send_credits(s, sender, p, now)
            == (s, Err::<(), CarbonCreditError>(CarbonCreditError::InsufficientCredits)),
        spec_send_credits(s, sender, p, now).1 is Ok ==> ({
            let (s1, _) = spec_send_credits(s, sender, p, now);
            &&& crate::message::spec_count_key(s1.outbound, sender, now as u64) == 1
            &&& spec_balance_of(s1.balances, sender) == spec_balance_of(s.balances, sender)
                - p.amount
            &&& spec_total_supply(s1.balances) == spec_total_supply(s.balances) - p.amount
        }),
{
    if spec_send_credits(s, sender, p, now).1 is Ok {
        let (s1, _) = spec_send_credits(s, sender, p, now);
        crate::message::lemma_count_key_absent(s.outbound, sender, now as u64);
        crate::message::lemma_count_key_push(
            s.outbound,
            s1.outbound.last(),
            sender,
            now as u64,
        );
        lemma_burn_from_properties(s.balances, sender, p.amount);
    }
}

/// Mint-mirror symmetry: the supply burned by a successful send, once its
/// staged message is delivered and accepted on the destination ledger, is
/// minted there in full — the recipient's balance and the destination supply
/// grow by exactly the sent amount, and the committed credit record carries
/// the declared origin chain.
pub proof fn lemma_mint_mirror_symmetry(
    a: LedgerView,
    sender: Seq<u8>,
    p: SendCreditsParamsView,
    now_send: i64,
    b: LedgerView,
    src_eid: u32,
    src_address: Seq<u8>,
    nonce: u64,
    guid: Seq<u8>,
    executor: Seq<u8>,
    now_recv: i64,
)
    requires
        a.well_formed(),
        b.well_formed(),
        p.well_formed(),
        spec_send_credits(a, sender, p, now_send).1 is Ok,
        !spec_accepted_contains(b.accepted, src_eid, nonce),
        spec_balance_of(b.balances, p.recipient) + p.amount <= u64::MAX,
    ensures
        ({
            let (a2, _) = spec_send_credits(a, sender, p, now_send);
            let delivery = LzReceiveParamsView {
                src_eid,
                src_address,
                nonce,
                guid,
                message: a2.outbound.last().message,
                executor,
            };
            let (b2, r2) = spec_receive_credits(b, delivery, now_recv);
            &&& spec_total_supply(a2.balances) == spec_total_supply(a.balances) - p.amount
            &&& r2 is Ok
            &&& spec_balance_of(b2.balances, p.recipient) == spec_balance_of(
                b.balances,
                p.recipient,
            ) + p.amount
            &&& spec_total_supply(b2.balances) == spec_total_supply(b.balances) + p.amount
            &&& b2.credit_records.len() == b.credit_records.len() + 1
            &&& b2.credit_records.last() == spec_received_record(
                CreditTransferDataView {
                    recipient: p.recipient,
                    amount: p.amount,
                    project_id: p.project_id,
                    vintage: p.vintage,
                },
                src_eid,
                now_recv,
            )
        }),
{
    let d = CreditTransferDataView {
        recipient: p.recipient,
        amount: p.amount,
        project_id: p.project_id,
        vintage: p.vintage,
    };
    let (a2, _) = spec_send_credits(a, sender, p, now_send);
    assert(a2.outbound.last().message == spec_encode_credit_transfer(d));
    crate::wire::lemma_credit_transfer_round_trip(d);
    lemma_burn_from_properties(a.balances, sender, p.amount);
    lemma_mint_to_properties(b.balances, p.recipient, p.amount);
}

/// Duplicate delivery is rejected: after a delivery key is consumed, a
/// second delivery under the same (source chain, nonce) fails with
/// `DuplicateMessage` and leaves the ledger exactly as it was — no second
/// mint, no second record — whatever payload it carries.
pub proof fn lemma_duplicate_delivery_rejected_for_credits(
    s: LedgerView,
    p1: LzReceiveParamsView,
    now1: i64,
    p2: LzReceiveParamsView,
    now2: i64,
)
    requires
        spec_receive_credits(s, p1, now1).1 is Ok,
        p2.src_eid == p1.src_eid,
        p2.nonce == p1.nonce,
    ensures
        ({
            let (s1, _) = spec_receive_credits(s, p1, now1);
            spec_receive_credits(s1, p2, now2) == (
                s1,
                Err::<(), CarbonCreditError>(CarbonCreditError::DuplicateMessage),
            )
        }),
{
    let (s1, _) = spec_receive_credits(s, p1, now1);
    assert(s1.accepted.last().src_eid == p1.src_eid && s1.accepted.last().nonce == p1.nonce);
    assert(spec_accepted_contains(s1.accepted, p2.src_eid, p2.nonce));
}

/// Linear scan for the balance entry of the given account.
fn find_balance(balances: &Vec<BalanceEntry>, account: &AccountId) -> (r: Option<usize>)
    requires
        spec_balances_wf(balances.deep_view()),
    ensures
        match r {
            Some(i) => i < balances.deep_view().len() && balances.deep_view()[i as int].account
                == account@ && spec_has_balance(balances.deep_view(), account@)
                && spec_balance_index(balances.deep_view(), account@) == i,
            None => !spec_has_balance(balances.deep_view(), account@),
        },
{
    let mut i: usize = 0;
    while i < balances.len()
        invariant
            i <= balances@.len(),
            balances.deep_view().len() == balances@.len(),
            forall|j: int|
                0 <= j < balances@.len() ==> balances.deep_view()[j] == balances@[j]@,
            forall|j: int| 0 <= j < i ==> balances.deep_view()[j].account != account@,
            spec_balances_wf(balances.deep_view()),
        decreases balances@.len() - i,
    {
        if balances[i].account.matches(account) {
            proof {
                lemma_balance_index_is(balances.deep_view(), account@, i as int);
            }
            return Some(i);
        }
        i = i + 1;
    }
    None
}

/// Adds `amount` to the account's balance, or reports that it would
/// overflow and changes nothing.
fn mint_to(balances: &mut Vec<BalanceEntry>, recipient: &AccountId, amount: u64) -> (ok: bool)
    requires
        spec_balances_wf(old(balances).deep_view()),
        recipient.well_formed(),
    ensures
        spec_balances_wf(final(balances).deep_view()),
        ok <==> spec_balance_of(old(balances).deep_view(), recipient@) + amount <= u64::MAX,
        ok ==> final(balances).deep_view() =~= spec_mint_to(
            old(balances).deep_view(),
            recipient@,
            amount,
        ),
        !ok ==> final(balances).deep_view() =~= old(balances).deep_view(),
{
    match find_balance(balances, recipient) {
        Some(i) => {
            let held = balances[i].amount;
            if amount > u64::MAX - held {
                return false;
            }
            let entry = BalanceEntry { account: recipient.clone(), amount: held + amount };
            balances.set(i, entry);
            proof {
                assert(final(balances).deep_view() =~= spec_mint_to(
                    old(balances).deep_view(),
                    recipient@,
                    amount,
                ));
                assert forall|a: int, b: int|
                    0 <= a < b < balances.deep_view().len() implies balances.deep_view()[a].account
                    != balances.deep_view()[b].account by {
                    assert(old(balances).deep_view()[a].account != old(
                        balances,
                    ).deep_view()[b].account);
                }
            }
            true
        },
        None => {
            let entry = BalanceEntry { account: recipient.clone(), amount };
            balances.push(entry);
            proof {
                assert(final(balances).deep_view() =~= spec_mint_to(
                    old(balances).deep_view(),
                    recipient@,
                    amount,
                ));
                assert forall|a: int, b: int|
                    0 <= a < b < balances.deep_view().len() implies balances.deep_view()[a].account
                    != balances.deep_view()[b].account by {
                    if b == balances.deep_view().len() - 1 {
                        assert(!spec_has_balance(old(balances).deep_view(), recipient@));
                        assert(old(balances).deep_view()[a].account != recipient@);
                    } else {
                        assert(old(balances).deep_view()[a].account != old(
                            balances,
                        ).deep_view()[b].account);
                    }
                }
            }
            true
        },
    }
}

/// Subtracts `amount` from the account's balance, or reports that the
/// balance is short and changes nothing.
fn burn_from(balances: &mut Vec<BalanceEntry>, owner: &AccountId, amount: u64) -> (ok: bool)
    requires
        spec_balances_wf(old(balances).deep_view()),
    ensures
        spec_balances_wf(final(balances).deep_view()),
        ok <==> spec_balance_of(old(balances).deep_view(), owner@) >= amount,
        ok ==> final(balances).deep_view() =~= spec_burn_from(
            old(balances).deep_view(),
            owner@,
            amount,
        ),
        !ok ==> final(balances).deep_view() =~= old(balances).deep_view(),
{
    match find_balance(balances, owner) {
        Some(i) => {
            let held = balances[i].amount;
            if held < amount {
                return false;
            }
            let entry = BalanceEntry { account: owner.clone(), amount: held - amount };
            balances.set(i, entry);
            proof {
                assert(final(balances).deep_view() =~= spec_burn_from(
                    old(balances).deep_view(),
                    owner@,
                    amount,
                ));
                assert(balances.deep_view()[i as int].account == old(
                    balances,
                ).deep_view()[i as int].account);
                assert forall|a: int, b: int|
                    0 <= a < b < balances.deep_view().len() implies balances.deep_view()[a].account
                    != balances.deep_view()[b].account by {
                    assert(old(balances).deep_view()[a].account != old(
                        balances,
                    ).deep_view()[b].account);
                }
            }
            true
        },
        None => {
            if amount > 0 {
                return false;
            }
            proof {
                assert(spec_balance_of(balances.deep_view(), owner@) == 0);
                assert(final(balances).deep_view() =~= spec_burn_from(
                    old(balances).deep_view(),
                    owner@,
                    amount,
                ));
            }
            true
        },
    }
}

impl CreditLedger {
    /// An empty ledger whose sole local mint authority is the given identity.
    pub fn new(mint_authority: AccountId) -> (r: CreditLedger)
        requires
            mint_authority.well_formed(),
        ensures
            r@.mint_authority == mint_authority@,
            r@.balances.len() == 0,
            r@.credit_records.len() == 0,
            r@.retirement_records.len() == 0,
            r@.outbound.len() == 0,
            r@.accepted.len() == 0,
            r@.well_formed(),
    {
        CreditLedger {
            mint_authority,
            balances: Vec::new(),
            credit_records: Vec::new(),
            retirement_records: Vec::new(),
            outbound: Vec::new(),
            accepted: Vec::new(),
        }
    }

    /// The token balance of the given account.
    pub fn balance_of(&self, account: &AccountId) -> (r: u64)
        requires
            self@.well_formed(),
        ensures
            r == spec_balance_of(self@.balances, account@),
    {
        match find_balance(&self.balances, account) {
            Some(i) => self.balances[i].amount,
            None => 0,
        }
    }

    /// Mints credits to the recipient and commits the matching credit
    /// record as one atomic unit. Fails with `UnauthorizedSender` unless the
    /// caller is the recorded mint authority, and with `InvalidCreditData`
    /// when the recipient's balance would overflow; either failure leaves
    /// the ledger exactly as it was.
    pub fn mint_credits(
        &mut self,
        caller: &AccountId,
        amount: u64,
        project_id: Vec<u8>,
        vintage: u16,
        recipient: &AccountId,
        now: i64,
    ) -> (r: Result<(), CarbonCreditError>)
        requires
            old(self)@.well_formed(),
            recipient.well_formed(),
            project_id@.len() <= MAX_FIELD_LEN,
        ensures
            final(self)@.well_formed(),
            (final(self)@, r) == spec_mint_credits(
                old(self)@,
                caller@,
                amount,
                project_id@,
                vintage,
                recipient@,
                now,
            ),
            r is Err ==> final(self)@ == old(self)@,
            r is Ok ==> spec_balance_of(final(self)@.balances, recipient@) == spec_balance_of(
                old(self)@.balances,
                recipient@,
            ) + amount,
    {
        if !caller.matches(&self.mint_authority) {
            return Err(CarbonCreditError::UnauthorizedSender);
        }
        let minted = mint_to(&mut self.balances, recipient, amount);
        if !minted {
            proof {
                assert(self@ =~= old(self)@);
            }
            return Err(CarbonCreditError::InvalidCreditData);
        }
        let record = CreditRecord {
            project_id,
            vintage,
            amount,
            owner: recipient.clone(),
            minted_at: now,
            status: CreditStatus::Active,
            source_chain: None,
        };
        self.credit_records.push(record);
        proof {
            let (s2, _) = spec_mint_credits(
                old(self)@,
                caller@,
                amount,
                project_id@,
                vintage,
                recipient@,
                now,
            );
            assert(self@.credit_records =~= s2.credit_records);
            assert(self@ =~= s2);
            let bals = old(self)@.balances;
            if spec_has_balance(bals, recipient@) {
                lemma_balance_index_is(
                    self@.balances,
                    recipient@,
                    spec_balance_index(bals, recipient@),
                );
            } else {
                lemma_balance_index_is(self@.balances, recipient@, self@.balances.len() - 1);
            }
        }
        Ok(())
    }

    /// Sends credits to another chain: burns the amount from the sender's
    /// local balance and stages the transfer message as one atomic unit. If
    /// the balance is short the send fails with `InsufficientCredits` and no
    /// message is staged; if the (sender, now) key would collide the send
    /// fails with `DuplicateMessage` and nothing is burned.
    pub fn send_credits(&mut self, sender: &AccountId, params: &SendCreditsParams, now: i64) -> (r:
        Result<(), CarbonCreditError>)
        requires
            old(self)@.well_formed(),
            sender.well_formed(),
            params@.well_formed(),
        ensures
            final(self)@.well_formed(),
            (final(self)@, r) == spec_send_credits(old(self)@, sender@, params@, now),
            r is Err ==> final(self)@ == old(self)@,
    {
        let nonce = now as u64;
        let held = self.balance_of(sender);
        if held < params.amount {
            return Err(CarbonCreditError::InsufficientCredits);
        }
        if outbound_has_key(&self.outbound, sender, nonce) {
            return Err(CarbonCreditError::DuplicateMessage);
        }
        let burned = burn_from(&mut self.balances, sender, params.amount);
        assert(burned);
        let payload = CreditTransferData {
            recipient: params.recipient.clone(),
            amount: params.amount,
            project_id: copy_bytes(&params.project_id),
            vintage: params.vintage,
        };
        let message = encode_credit_transfer(&payload);
        let staged = OutboundMessage {
            dst_eid: params.destination_chain_id,
            receiver: copy_bytes(&params.receiver_address),
            message,
            sender: sender.clone(),
            nonce,
        };
        self.outbound.push(staged);
        proof {
            let (s2, _) = spec_send_credits(old(self)@, sender@, params@, now);
            assert(self@.outbound =~= s2.outbound);
            assert(self@.balances =~= s2.balances);
            assert(self@ =~= s2);
        }
        Ok(())
    }

    /// Applies an inbound credit transfer. A delivery whose (source chain,
    /// nonce) key was already consumed fails with `DuplicateMessage` and
    /// changes nothing; a payload that does not decode, or a mint that would
    /// overflow, fails with `InvalidCreditData` and is never partially
    /// applied. On success the amount is minted to the declared recipient
    /// under the protocol's own authority, the mirrored credit record is
    /// committed tagged with its origin chain, and the key is consumed.
    pub fn lz_receive(&mut self, params: LzReceiveParams, now: i64) -> (r: Result<
        (),
        CarbonCreditError,
    >)
        requires
            old(self)@.well_formed(),
        ensures
            final(self)@.well_formed(),
            (final(self)@, r) == spec_receive_credits(old(self)@, params@, now),
            r is Err ==> final(self)@ == old(self)@,
    {
        if accepted_contains(&self.accepted, params.src_eid, params.nonce) {
            return Err(CarbonCreditError::DuplicateMessage);
        }
        let data = match decode_credit_transfer(&params.message) {
            None => {
                return Err(CarbonCreditError::InvalidCreditData);
            },
            Some(d) => d,
        };
        let minted = mint_to(&mut self.balances, &data.recipient, data.amount);
        if !minted {
            proof {
                assert(self@ =~= old(self)@);
            }
            return Err(CarbonCreditError::InvalidCreditData);
        }
        let record = CreditRecord {
            project_id: data.project_id,
            vintage: data.vintage,
            amount: data.amount,
            owner: data.recipient,
            minted_at: now,
            status: CreditStatus::Active,
            source_chain: Some(params.src_eid),
        };
        self.credit_records.push(record);
        self.accepted.push(AcceptedKey { src_eid: params.src_eid, nonce: params.nonce });
        proof {
            let (s2, _) = spec_receive_credits(old(self)@, params@, now);
            assert(self@.credit_records =~= s2.credit_records);
            assert(self@.accepted =~= s2.accepted);
            assert(self@ =~= s2);
        }
        Ok(())
    }

    /// Retires credits: burns the amount from the owner's balance and
    /// appends a permanent retirement record as one atomic unit. Fails with
    /// `InsufficientCredits`, changing nothing, when the balance is short.
    /// The originating credit records keep their stored status; the
    /// retirement trail is the reconciled source of truth.
    pub fn retire_credits(
        &mut self,
        owner: &AccountId,
        amount: u64,
        retirement_reason: Vec<u8>,
        now: i64,
    ) -> (r: Result<(), CarbonCreditError>)
        requires
            old(self)@.well_formed(),
            owner.well_formed(),
            retirement_reason@.len() <= MAX_REASON_LEN,
        ensures
            final(self)@.well_formed(),
            (final(self)@, r) == spec_retire_credits(
                old(self)@,
                owner@,
                amount,
                retirement_reason@,
                now,
            ),
            r is Err ==> final(self)@ == old(self)@,
    {
        let burned = burn_from(&mut self.balances, owner, amount);
        if !burned {
            proof {
                assert(self@ =~= old(self)@);
            }
            return Err(CarbonCreditError::InsufficientCredits);
        }
        let record = RetirementRecord {
            owner: owner.clone(),
            amount,
            reason: retirement_reason,
            retired_at: now,
        };
        self.retirement_records.push(record);
        proof {
            let (s2, _) = spec_retire_credits(
                old(self)@,
                owner@,
                amount,
                retirement_reason@,
                now,
            );
            assert(self@.retirement_records =~= s2.retirement_records);
            assert(self@.balances =~= s2.balances);
            assert(self@ =~= s2);
        }
        Ok(())
    }

    /// True when the retirement trail holds a record for the given owner:
    /// the reconciled, presence-derived view of retirement, since stored
    /// credit records are never rewritten.
    pub fn owner_has_retirement(&self, owner: &AccountId) -> (r: bool)
        ensures
            r == spec_owner_has_retirement(self@.retirement_records, owner@),
    {
        let mut i: usize = 0;
        while i < self.retirement_records.len()
            invariant
                i <= self.retirement_records@.len(),
                self@.retirement_records.len() == self.retirement_records@.len(),
                forall|j: int|
                    0 <= j < self.retirement_records@.len() ==> self@.retirement_records[j]
                        == self.retirement_records@[j]@,
                forall|j: int| 0 <= j < i ==> self@.retirement_records[j].owner != owner@,
            decreases self.retirement_records@.len() - i,
        {
            if self.retirement_records[i].owner.matches(owner) {
                assert(self@.retirement_records[i as int] == self.retirement_records@[i as int]@);
                return true;
            }
            i = i + 1;
        }
        false
    }
}

/// Full snapshot of a credit record, as the query surface answers it.
pub fn get_credit_info(record: &CreditRecord) -> (info: CreditInfo)
    ensures
        info.project_id@ == record@.project_id,
        info.vintage == record@.vintage,
        info.amount == record@.amount,
        info.owner@ == record@.owner,
        info.minted_at == record@.minted_at,
        info.status == record@.status,
        info.source_chain == record@.source_chain,
{
    CreditInfo {
        project_id: copy_bytes(&record.project_id),
        vintage: record.vintage,
        amount: record.amount,
        owner: record.owner.clone(),
        minted_at: record.minted_at,
        status: record.status,
        source_chain: record.source_chain,
    }
}

} // verus!
