//! The certificate registry: issuing, revoking, attesting and relaying
//! carbon certificates.
//!
//! One registry instance models one chain's view: the certificates it issued,
//! the mirror records it accepted from other chains, the outbound messages it
//! staged, and the (source chain, nonce) delivery keys it has already
//! consumed. Every operation is an isolated unit of work: it either commits
//! fully or returns an error and leaves the state exactly as it was.

use vstd::prelude::*;
use vstd::pervasive::VecAdditionalExecFns;
use crate::account::{AccountId, ACCOUNT_ID_LEN, copy_bytes};
use crate::message::{
    AcceptedKey, LzReceiveParams, LzReceiveParamsView, OutboundMessage, OutboundMessageView,
    MAX_RECEIVER_LEN, accepted_contains, outbound_has_key, spec_accepted_contains,
    spec_outbound_has_key,
};
use crate::wire::{
    CertificateVerificationData, CertificateVerificationDataView, MAX_FIELD_LEN,
    decode_certificate_data, encode_certificate_data, spec_decode_certificate_data,
    spec_encode_certificate_data,
};

verus! {

/// Stored lifecycle state of a certificate. Expiry is a read-time condition,
/// never a stored transition; the `Expired` variant exists for wire and
/// display fidelity but the registry never writes it.
#[derive(Clone, Copy, PartialEq, Eq, Structural, Debug)]
pub enum CertificateStatus {
    Active,
    Revoked,
    Expired,
}

/// Typed failure reasons of the certificate registry.
#[derive(Clone, Copy, PartialEq, Eq, Structural, Debug)]
pub enum CarbonCertificateError {
    /// The certificate is not in the `Active` state.
    CertificateInactive,
    /// The clock has passed the certificate's `valid_until`.
    CertificateExpired,
    /// The caller is not the recorded issuer.
    UnauthorizedSender,
    /// A duplicate id at issuance, or a malformed inbound payload.
    InvalidCertificateData,
    /// A colliding outbound key, or a re-delivered inbound message.
    DuplicateMessage,
}

/// Registry-level configuration, written once at initialization.
pub struct OAppConfig {
    pub admin: AccountId,
    pub endpoint_program: AccountId,
}

/// Parameters of `initialize`.
pub struct InitializeParams {
    pub endpoint_program: AccountId,
}

/// Creates the registry configuration, recording the admin and the endpoint.
pub fn initialize(admin: AccountId, params: InitializeParams) -> (c: OAppConfig)
    ensures
        c.admin@ == admin@,
        c.endpoint_program@ == params.endpoint_program@,
{
    OAppConfig { admin, endpoint_program: params.endpoint_program }
}

/// A unique attestation of a quantity of emissions.
pub struct CarbonCertificate {
    /// Globally unique id within the issuer namespace, at most 64 bytes.
    pub id: Vec<u8>,
    /// The identity that issued the certificate; only it may revoke.
    pub issuer: AccountId,
    /// Attested emissions, in kg CO2e.
    pub total_emissions: u64,
    /// Opaque content fingerprint, at most 64 bytes.
    pub data_hash: Vec<u8>,
    /// Ledger clock reading at issuance, epoch seconds.
    pub issue_timestamp: i64,
    /// Last instant the certificate is valid, epoch seconds.
    pub valid_until: i64,
    pub status: CertificateStatus,
}

/// Ghost image of a certificate.
#[verifier::ext_equal]
pub ghost struct CarbonCertificateView {
    pub id: Seq<u8>,
    pub issuer: Seq<u8>,
    pub total_emissions: u64,
    pub data_hash: Seq<u8>,
    pub issue_timestamp: i64,
    pub valid_until: i64,
    pub status: CertificateStatus,
}

impl View for CarbonCertificate {
    type V = CarbonCertificateView;

    open spec fn view(&self) -> CarbonCertificateView {
        CarbonCertificateView {
            id: self.id@,
            issuer: self.issuer@,
            total_emissions: self.total_emissions,
            data_hash: self.data_hash@,
            issue_timestamp: self.issue_timestamp,
            valid_until: self.valid_until,
            status: self.status,
        }
    }
}

impl DeepView for CarbonCertificate {
    type V = CarbonCertificateView;

    open spec fn deep_view(&self) -> CarbonCertificateView {
        self@
    }
}

impl CarbonCertificateView {
    /// Field bounds every stored certificate satisfies.
    pub open spec fn well_formed(self) -> bool {
        &&& self.id.len() <= MAX_FIELD_LEN
        &&& self.issuer.len() == ACCOUNT_ID_LEN
        &&& self.data_hash.len() <= MAX_FIELD_LEN
    }
}

/// A mirror record: a point-in-time snapshot of a certificate attested on
/// another chain, created once per accepted inbound message and never
/// mutated afterward.
pub struct CertificateVerification {
    pub certificate_id: Vec<u8>,
    /// Chain the attestation originated from.
    pub source_chain: u32,
    pub issuer: AccountId,
    pub total_emissions: u64,
    pub data_hash: Vec<u8>,
    /// Local receipt clock reading, epoch seconds.
    pub verified_at: i64,
}

/// Ghost image of a mirror record.
#[verifier::ext_equal]
pub ghost struct CertificateVerificationView {
    pub certificate_id: Seq<u8>,
    pub source_chain: u32,
    pub issuer: Seq<u8>,
    pub total_emissions: u64,
    pub data_hash: Seq<u8>,
    pub verified_at: i64,
}

impl View for CertificateVerification {
    type V = CertificateVerificationView;

    open spec fn view(&self) -> CertificateVerificationView {
        CertificateVerificationView {
            certificate_id: self.certificate_id@,
            source_chain: self.source_chain,
            issuer: self.issuer@,
            total_emissions: self.total_emissions,
            data_hash: self.data_hash@,
            verified_at: self.verified_at,
        }
    }
}

impl DeepView for CertificateVerification {
    type V = CertificateVerificationView;

    open spec fn deep_view(&self) -> CertificateVerificationView {
        self@
    }
}

impl CertificateVerificationView {
    /// Field bounds every stored mirror record satisfies.
    pub open spec fn well_formed(self) -> bool {
        &&& self.certificate_id.len() <= MAX_FIELD_LEN
        &&& self.issuer.len() == ACCOUNT_ID_LEN
        &&& self.data_hash.len() <= MAX_FIELD_LEN
    }
}

/// What `verify_certificate` answers: existence, point-in-time validity and
/// the attested quantity and timestamps.
#[derive(Clone, Copy, PartialEq, Eq, Structural, Debug)]
pub struct CertificateVerificationResult {
    pub exists: bool,
    pub is_valid: bool,
    pub total_emissions: u64,
    pub issue_timestamp: i64,
    pub valid_until: i64,
}

/// Parameters of `issue_certificate`.
pub struct IssueCertificateParams {
    pub certificate_id: Vec<u8>,
    pub total_emissions: u64,
    pub data_hash: Vec<u8>,
    pub valid_until: i64,
}

/// Ghost image of the issuance parameters.
#[verifier::ext_equal]
pub ghost struct IssueCertificateParamsView {
    pub certificate_id: Seq<u8>,
    pub total_emissions: u64,
    pub data_hash: Seq<u8>,
    pub valid_until: i64,
}

impl View for IssueCertificateParams {
    type V = IssueCertificateParamsView;

    open spec fn view(&self) -> IssueCertificateParamsView {
        IssueCertificateParamsView {
            certificate_id: self.certificate_id@,
            total_emissions: self.total_emissions,
            data_hash: self.data_hash@,
            valid_until: self.valid_until,
        }
    }
}

impl IssueCertificateParamsView {
    /// Field bounds the storage layer imposes on an issuance request.
    pub open spec fn well_formed(self) -> bool {
        &&& self.certificate_id.len() <= MAX_FIELD_LEN
        &&& self.data_hash.len() <= MAX_FIELD_LEN
    }
}

/// Parameters of `send_certificate_verification`.
pub struct SendVerificationParams {
    pub destination_chain_id: u32,
    pub receiver_address: Vec<u8>,
}

/// One chain's certificate registry instance.
pub struct CertificateRegistry {
    /// Certificates issued locally, ids pairwise distinct.
    pub certificates: Vec<CarbonCertificate>,
    /// Mirror records accepted from other chains, append-only.
    pub verifications: Vec<CertificateVerification>,
    /// Staged outbound messages, (sender, nonce) keys pairwise distinct.
    pub outbound: Vec<OutboundMessage>,
    /// Delivery keys already consumed by `lz_receive`.
    pub accepted: Vec<AcceptedKey>,
}

/// Ghost image of a registry instance.
#[verifier::ext_equal]
pub ghost struct RegistryView {
    pub certificates: Seq<CarbonCertificateView>,
    pub verifications: Seq<CertificateVerificationView>,
    pub outbound: Seq<OutboundMessageView>,
    pub accepted: Seq<AcceptedKey>,
}

impl View for CertificateRegistry {
    type V = RegistryView;

    open spec fn view(&self) -> RegistryView {
        RegistryView {
            certificates: self.certificates.deep_view(),
            verifications: self.verifications.deep_view(),
            outbound: self.outbound.deep_view(),
            accepted: self.accepted@,
        }
    }
}

/// True when some certificate carries the given id.
pub open spec fn spec_has_certificate(certs: Seq<CarbonCertificateView>, id: Seq<u8>) -> bool {
    exists|i: int| 0 <= i < certs.len() && certs[i].id == id
}

/// The index of the certificate with the given id.
pub open spec fn spec_certificate_index(certs: Seq<CarbonCertificateView>, id: Seq<u8>) -> int {
    choose|i: int| 0 <= i < certs.len() && certs[i].id == id
}

/// The certificate with the given id.
pub open spec fn spec_certificate(certs: Seq<CarbonCertificateView>, id: Seq<u8>) -> CarbonCertificateView {
    certs[spec_certificate_index(certs, id)]
}

/// Ids are pairwise distinct.
pub open spec fn spec_unique_ids(certs: Seq<CarbonCertificateView>) -> bool {
    forall|i: int, j: int| 0 <= i < j < certs.len() ==> certs[i].id != certs[j].id
}

/// With pairwise distinct ids, any index holding the id is the index.
pub proof fn lemma_certificate_index_is(certs: Seq<CarbonCertificateView>, id: Seq<u8>, i: int)
    requires
        spec_unique_ids(certs),
        0 <= i < certs.len(),
        certs[i].id == id,
    ensures
        spec_has_certificate(certs, id),
        spec_certificate_index(certs, id) == i,
        spec_certificate(certs, id) == certs[i],
{
    assert(spec_has_certificate(certs, id));
    let k = spec_certificate_index(certs, id);
    if k != i {
        assert(certs[k].id != certs[i].id);
    }
}

impl RegistryView {
    /// The registry invariant: all records within bounds, certificate ids
    /// pairwise distinct, and staged outbound keys pairwise distinct.
    pub open spec fn well_formed(self) -> bool {
        &&& spec_unique_ids(self.certificates)
        &&& forall|i: int|
            0 <= i < self.certificates.len() ==> (#[trigger] self.certificates[i]).well_formed()
        &&& forall|i: int|
            0 <= i < self.verifications.len() ==> (#[trigger] self.verifications[i]).well_formed()
        &&& forall|i: int|
            0 <= i < self.outbound.len() ==> (#[trigger] self.outbound[i]).well_formed()
        &&& forall|i: int, j: int|
            0 <= i < j < self.outbound.len() ==> !(self.outbound[i].sender == self.outbound[j].sender
                && self.outbound[i].nonce == self.outbound[j].nonce)
    }
}

/// The certificate a successful issuance commits.
pub open spec fn spec_new_certificate(
    issuer: Seq<u8>,
    p: IssueCertificateParamsView,
    now: i64,
) -> CarbonCertificateView {
    CarbonCertificateView {
        id: p.certificate_id,
        issuer,
        total_emissions: p.total_emissions,
        data_hash: p.data_hash,
        issue_timestamp: now,
        valid_until: p.valid_until,
        status: CertificateStatus::Active,
    }
}

/// Issuance: fails on a duplicate id, else commits a fresh active certificate.
pub open spec fn spec_issue_certificate(
    s: RegistryView,
    issuer: Seq<u8>,
    p: IssueCertificateParamsView,
    now: i64,
) -> (RegistryView, Result<(), CarbonCertificateError>) {
    if spec_has_certificate(s.certificates, p.certificate_id) {
        (s, Err(CarbonCertificateError::InvalidCertificateData))
    } else {
        (
            RegistryView {
                certificates: s.certificates.push(spec_new_certificate(issuer, p, now)),
                ..s
            },
            Ok(()),
        )
    }
}

/// Revocation: only the recorded issuer may flip an existing certificate to
/// `Revoked`; the transition is irreversible.
pub open spec fn spec_revoke_certificate(
    s: RegistryView,
    caller: Seq<u8>,
    id: Seq<u8>,
) -> (RegistryView, Result<(), CarbonCertificateError>) {
    if !spec_has_certificate(s.certificates, id) {
        (s, Err(CarbonCertificateError::InvalidCertificateData))
    } else {
        let i = spec_certificate_index(s.certificates, id);
        let c = s.certificates[i];
        if c.issuer != caller {
            (s, Err(CarbonCertificateError::UnauthorizedSender))
        } else {
            (
                RegistryView {
                    certificates: s.certificates.update(
                        i,
                        CarbonCertificateView { status: CertificateStatus::Revoked, ..c },
                    ),
                    ..s
                },
                Ok(()),
            )
        }
    }
}

/// The payload a send stages: the full attested snapshot of the certificate.
pub open spec fn spec_certificate_payload(c: CarbonCertificateView) -> CertificateVerificationDataView {
    CertificateVerificationDataView {
        certificate_id: c.id,
        issuer: c.issuer,
        total_emissions: c.total_emissions,
        data_hash: c.data_hash,
        issue_timestamp: c.issue_timestamp,
        valid_until: c.valid_until,
    }
}

/// Sending: re-checks that the certificate is active and unexpired at send
/// time, then stages exactly one outbound message keyed by (sender, now).
pub open spec fn spec_send_certificate_verification(
    s: RegistryView,
    sender: Seq<u8>,
    id: Seq<u8>,
    destination_chain_id: u32,
    receiver_address: Seq<u8>,
    now: i64,
) -> (RegistryView, Result<(), CarbonCertificateError>) {
    if !spec_has_certificate(s.certificates, id) {
        (s, Err(CarbonCertificateError::InvalidCertificateData))
    } else {
        let c = spec_certificate(s.certificates, id);
        if !(c.status is Active) {
            (s, Err(CarbonCertificateError::CertificateInactive))
        } else if now > c.valid_until {
            (s, Err(CarbonCertificateError::CertificateExpired))
        } else if spec_outbound_has_key(s.outbound, sender, now as u64) {
            (s, Err(CarbonCertificateError::DuplicateMessage))
        } else {
            (
                RegistryView {
                    outbound: s.outbound.push(
                        OutboundMessageView {
                            dst_eid: destination_chain_id,
                            receiver: receiver_address,
                            message: spec_encode_certificate_data(spec_certificate_payload(c)),
                            sender,
                            nonce: now as u64,
                        },
                    ),
                    ..s
                },
                Ok(()),
            )
        }
    }
}

/// The mirror record an accepted inbound message commits.
pub open spec fn spec_mirror_record(
    d: CertificateVerificationDataView,
    src_eid: u32,
    now: i64,
) -> CertificateVerificationView {
    CertificateVerificationView {
        certificate_id: d.certificate_id,
        source_chain: src_eid,
        issuer: d.issuer,
        total_emissions: d.total_emissions,
        data_hash: d.data_hash,
        verified_at: now,
    }
}

/// Inbound application: rejects a consumed delivery key, rejects a malformed
/// payload, else commits a fresh mirror record and consumes the key.
pub open spec fn spec_lz_receive(
    s: RegistryView,
    p: LzReceiveParamsView,
    now: i64,
) -> (RegistryView, Result<(), CarbonCertificateError>) {
    if spec_accepted_contains(s.accepted, p.src_eid, p.nonce) {
        (s, Err(CarbonCertificateError::DuplicateMessage))
    } else {
        match spec_decode_certificate_data(p.message) {
            None => (s, Err(CarbonCertificateError::InvalidCertificateData)),
            Some(d) => (
                RegistryView {
                    verifications: s.verifications.push(spec_mirror_record(d, p.src_eid, now)),
                    accepted: s.accepted.push(AcceptedKey { src_eid: p.src_eid, nonce: p.nonce }),
                    ..s
                },
                Ok(()),
            ),
        }
    }
}

/// The point-in-time validity answer: a certificate is valid exactly when it
/// exists, is active, and the clock has not passed `valid_until`.
pub open spec fn spec_verify_certificate(
    s: RegistryView,
    id: Seq<u8>,
    now: i64,
) -> CertificateVerificationResult {
    if !spec_has_certificate(s.certificates, id) {
        CertificateVerificationResult {
            exists: false,
            is_valid: false,
            total_emissions: 0,
            issue_timestamp: 0,
            valid_until: 0,
        }
    } else {
        let c = spec_certificate(s.certificates, id);
        CertificateVerificationResult {
            exists: true,
            is_valid: c.status is Active && now <= c.valid_until,
            total_emissions: c.total_emissions,
            issue_timestamp: c.issue_timestamp,
            valid_until: c.valid_until,
        }
    }
}

/// Appending a certificate with a different id leaves an existing
/// certificate's lookup untouched.
pub proof fn lemma_push_preserves_certificate(
    certs: Seq<CarbonCertificateView>,
    c2: CarbonCertificateView,
    id: Seq<u8>,
)
    requires
        spec_unique_ids(certs),
        spec_has_certificate(certs, id),
        c2.id != id,
    ensures
        spec_has_certificate(certs.push(c2), id),
        spec_certificate(certs.push(c2), id) == spec_certificate(certs, id),
{
    let pushed = certs.push(c2);
    let i = spec_certificate_index(certs, id);
    assert(pushed[i] == certs[i]);
    assert(spec_has_certificate(pushed, id));
    let k = spec_certificate_index(pushed, id);
    assert(0 <= k < pushed.len() && pushed[k].id == id);
    assert(k < certs.len());
    if k != i {
        assert(certs[k].id != certs[i].id);
    }
}

/// Rewriting one certificate in place, keeping its id, leaves every other
/// certificate's lookup untouched.
pub proof fn lemma_update_preserves_certificate(
    certs: Seq<CarbonCertificateView>,
    k: int,
    c2: CarbonCertificateView,
    id: Seq<u8>,
)
    requires
        spec_unique_ids(certs),
        spec_has_certificate(certs, id),
        0 <= k < certs.len(),
        c2.id == certs[k].id,
        certs[k].id != id,
    ensures
        spec_has_certificate(certs.update(k, c2), id),
        spec_certificate(certs.update(k, c2), id) == spec_certificate(certs, id),
{
    let updated = certs.update(k, c2);
    let i = spec_certificate_index(certs, id);
    assert(i != k);
    assert(updated[i] == certs[i]);
    assert(spec_has_certificate(updated, id));
    let j = spec_certificate_index(updated, id);
    assert(0 <= j < updated.len() && updated[j].id == id);
    assert(j != k);
    assert(updated[j] == certs[j]);
    if j != i {
        assert(certs[j].id != certs[i].id);
    }
}

/// Issuing keeps the ids pairwise distinct.
pub proof fn lemma_issue_preserves_unique_ids(
    s: RegistryView,
    issuer: Seq<u8>,
    p: IssueCertificateParamsView,
    now: i64,
)
    requires
        spec_unique_ids(s.certificates),
        spec_issue_certificate(s, issuer, p, now).1 is Ok,
    ensures
        spec_unique_ids(spec_issue_certificate(s, issuer, p, now).0.certificates),
{
    let certs2 = spec_issue_certificate(s, issuer, p, now).0.certificates;
    assert forall|i: int, j: int| 0 <= i < j < certs2.len() implies certs2[i].id != certs2[j].id by {
        if j == certs2.len() - 1 {
            assert(!spec_has_certificate(s.certificates, p.certificate_id));
            assert(s.certificates[i].id != p.certificate_id);
        }
    }
}

/// Issuance uniqueness: once an id is taken, a second issuance under the
/// same id fails with `InvalidCertificateData` and changes nothing, whoever
/// attempts it and whenever; the first record stands untouched.
pub proof fn lemma_issuance_uniqueness(
    s: RegistryView,
    issuer1: Seq<u8>,
    p1: IssueCertificateParamsView,
    now1: i64,
    issuer2: Seq<u8>,
    p2: IssueCertificateParamsView,
    now2: i64,
)
    requires
        s.well_formed(),
        spec_issue_certificate(s, issuer1, p1, now1).1 is Ok,
        p2.certificate_id == p1.certificate_id,
    ensures
        ({
            let (s1, _) = spec_issue_certificate(s, issuer1, p1, now1);
            let (s2, r2) = spec_issue_certificate(s1, issuer2, p2, now2);
            &&& r2 == Err::<(), CarbonCertificateError>(
                CarbonCertificateError::InvalidCertificateData,
            )
            &&& s2 == s1
            &&& spec_certificate(s1.certificates, p1.certificate_id) == spec_new_certificate(
                issuer1,
                p1,
                now1,
            )
        }),
{
    let (s1, _) = spec_issue_certificate(s, issuer1, p1, now1);
    lemma_issue_preserves_unique_ids(s, issuer1, p1, now1);
    lemma_certificate_index_is(s1.certificates, p1.certificate_id, s1.certificates.len() - 1);
}

/// Revocation is issuer-gated: a caller other than the recorded issuer fails
/// with `UnauthorizedSender` and the state is untouched.
pub proof fn lemma_revoke_requires_issuer(s: RegistryView, caller: Seq<u8>, id: Seq<u8>)
    requires
        s.well_formed(),
        spec_has_certificate(s.certificates, id),
        spec_certificate(s.certificates, id).issuer != caller,
    ensures
        spec_revoke_certificate(s, caller, id) == (
            s,
            Err::<(), CarbonCertificateError>(CarbonCertificateError::UnauthorizedSender),
        ),
{
}

/// Revocation is irreversible: once revoked, the certificate reports
/// `is_valid == false` at every clock reading, even one before
/// `valid_until`, and no later operation of the registry brings it back.
pub proof fn lemma_revocation_irreversible(s: RegistryView, caller: Seq<u8>, id: Seq<u8>)
    requires
        s.well_formed(),
        spec_revoke_certificate(s, caller, id).1 is Ok,
    ensures
        ({
            let (s1, _) = spec_revoke_certificate(s, caller, id);
            &&& spec_has_certificate(s1.certificates, id)
            &&& spec_certificate(s1.certificates, id).status is Revoked
            &&& forall|now: i64| !spec_verify_certificate(s1, id, now).is_valid
            &&& forall|issuer2: Seq<u8>, p2: IssueCertificateParamsView, now2: i64|
                spec_certificate(
                    (#[trigger] spec_issue_certificate(s1, issuer2, p2, now2)).0.certificates,
                    id,
                ).status is Revoked
            &&& forall|caller2: Seq<u8>, id2: Seq<u8>|
                spec_certificate(
                    (#[trigger] spec_revoke_certificate(s1, caller2, id2)).0.certificates,
                    id,
                ).status is Revoked
            &&& forall|
                sender2: Seq<u8>,
                id2: Seq<u8>,
                dst2: u32,
                recv2: Seq<u8>,
                now2: i64,
            |
                spec_certificate(
                    (#[trigger] spec_send_certificate_verification(
                        s1,
                        sender2,
                        id2,
                        dst2,
                        recv2,
                        now2,
                    )).0.certificates,
                    id,
                ).status is Revoked
            &&& forall|p2: LzReceiveParamsView, now2: i64|
                spec_certificate(
                    (#[trigger] spec_lz_receive(s1, p2, now2)).0.certificates,
                    id,
                ).status is Revoked
        }),
{
    let (s1, _) = spec_revoke_certificate(s, caller, id);
    let i = spec_certificate_index(s.certificates, id);
    assert(s1.certificates =~= s.certificates.update(
        i,
        CarbonCertificateView { status: CertificateStatus::Revoked, ..s.certificates[i] },
    ));
    assert(spec_unique_ids(s1.certificates)) by {
        assert(forall|j: int|
            0 <= j < s1.certificates.len() ==> s1.certificates[j].id == s.certificates[j].id);
    }
    lemma_certificate_index_is(s1.certificates, id, i);
    assert(spec_certificate(s1.certificates, id).status is Revoked);
    assert forall|issuer2: Seq<u8>, p2: IssueCertificateParamsView, now2: i64|
        spec_certificate(
            (#[trigger] spec_issue_certificate(s1, issuer2, p2, now2)).0.certificates,
            id,
        ).status is Revoked by {
        let (s2, r2) = spec_issue_certificate(s1, issuer2, p2, now2);
        if r2 is Ok {
            assert(p2.certificate_id != id);
            lemma_push_preserves_certificate(
                s1.certificates,
                spec_new_certificate(issuer2, p2, now2),
                id,
            );
        }
    }
    assert forall|caller2: Seq<u8>, id2: Seq<u8>|
        spec_certificate(
            (#[trigger] spec_revoke_certificate(s1, caller2, id2)).0.certificates,
            id,
        ).status is Revoked by {
        let (s2, r2) = spec_revoke_certificate(s1, caller2, id2);
        if r2 is Ok {
            let k = spec_certificate_index(s1.certificates, id2);
            let c2 = CarbonCertificateView {
                status: CertificateStatus::Revoked,
                ..s1.certificates[k]
            };
            if s1.certificates[k].id == id {
                assert(k == i);
                lemma_certificate_index_is(s2.certificates, id, i);
            } else {
                lemma_update_preserves_certificate(s1.certificates, k, c2, id);
            }
        }
    }
}

/// Expiry is time-relative, not stored: the same registry state answers
/// `is_valid == true` at a clock reading on or before `valid_until` and
/// `is_valid == false` after it; the query mutates nothing, so no write
/// accompanies the boundary.
pub proof fn lemma_expiry_is_time_relative(
    s: RegistryView,
    id: Seq<u8>,
    t_before: i64,
    t_after: i64,
)
    requires
        s.well_formed(),
        spec_has_certificate(s.certificates, id),
        spec_certificate(s.certificates, id).status is Active,
        t_before <= spec_certificate(s.certificates, id).valid_until,
        t_after > spec_certificate(s.certificates, id).valid_until,
    ensures
        spec_verify_certificate(s, id, t_before).is_valid,
        !spec_verify_certificate(s, id, t_after).is_valid,
        spec_verify_certificate(s, id, t_before).total_emissions == spec_certificate(
            s.certificates,
            id,
        ).total_emissions,
{
}

/// A successful send stages exactly one outbound message under its
/// (sender, send time) key; a send that fails stages nothing.
pub proof fn lemma_send_stages_unique_key(
    s: RegistryView,
    sender: Seq<u8>,
    id: Seq<u8>,
    dst: u32,
    receiver: Seq<u8>,
    now: i64,
)
    requires
        s.well_formed(),
    ensures
        ({
            let (s1, r1) = spec_send_certificate_verification(s, sender, id, dst, receiver, now);
            &&& r1 is Ok ==> crate::message::spec_count_key(s1.outbound, sender, now as u64) == 1
            &&& r1 is Err ==> s1 == s
        }),
{
    let (s1, r1) = spec_send_certificate_verification(s, sender, id, dst, receiver, now);
    if r1 is Ok {
        crate::message::lemma_count_key_absent(s.outbound, sender, now as u64);
        crate::message::lemma_count_key_push(s.outbound, s1.outbound.last(), sender, now as u64);
    }
}

/// Duplicate delivery is rejected: after a delivery key is consumed, a
/// second delivery under the same (source chain, nonce) fails with
/// `DuplicateMessage` and leaves the registry exactly as it was, whatever
/// payload it carries.
pub proof fn lemma_duplicate_delivery_rejected(
    s: RegistryView,
    p1: LzReceiveParamsView,
    now1: i64,
    p2: LzReceiveParamsView,
    now2: i64,
)
    requires
        spec_lz_receive(s, p1, now1).1 is Ok,
        p2.src_eid == p1.src_eid,
        p2.nonce == p1.nonce,
    ensures
        ({
            let (s1, _) = spec_lz_receive(s, p1, now1);
            spec_lz_receive(s1, p2, now2) == (
                s1,
                Err::<(), CarbonCertificateError>(CarbonCertificateError::DuplicateMessage),
            )
        }),
{
    let (s1, _) = spec_lz_receive(s, p1, now1);
    assert(s1.accepted.last().src_eid == p1.src_eid && s1.accepted.last().nonce == p1.nonce);
    assert(spec_accepted_contains(s1.accepted, p2.src_eid, p2.nonce));
}

impl CertificateRegistry {
    /// An empty registry.
    pub fn new() -> (r: CertificateRegistry)
        ensures
            r@.certificates.len() == 0,
            r@.verifications.len() == 0,
            r@.outbound.len() == 0,
            r@.accepted.len() == 0,
            r@.well_formed(),
    {
        CertificateRegistry {
            certificates: Vec::new(),
            verifications: Vec::new(),
            outbound: Vec::new(),
            accepted: Vec::new(),
        }
    }

    /// Linear scan for the certificate with the given id.
    fn find_certificate(&self, id: &Vec<u8>) -> (r: Option<usize>)
        requires
            self@.well_formed(),
        ensures
            match r {
                Some(i) => i < self@.certificates.len() && self@.certificates[i as int].id == id@
                    && spec_has_certificate(self@.certificates, id@)
                    && spec_certificate_index(self@.certificates, id@) == i,
                None => !spec_has_certificate(self@.certificates, id@),
            },
    {
        let mut i: usize = 0;
        while i < self.certificates.len()
            invariant
                i <= self.certificates@.len(),
                self@.certificates.len() == self.certificates@.len(),
                forall|j: int|
                    0 <= j < self@.certificates.len() ==> self@.certificates[j]
                        == self.certificates@[j]@,
                forall|j: int| 0 <= j < i ==> self@.certificates[j].id != id@,
                self@.well_formed(),
            decreases self.certificates@.len() - i,
        {
            if crate::account::bytes_eq(&self.certificates[i].id, id) {
                proof {
                    lemma_certificate_index_is(self@.certificates, id@, i as int);
                }
                return Some(i);
            }
            i = i + 1;
        }
        None
    }

    /// Issues a new certificate: fails with `InvalidCertificateData` when the
    /// id is already taken (the first record is unaffected), else commits an
    /// `Active` certificate with the caller as issuer and the ledger clock as
    /// issue time.
    pub fn issue_certificate(
        &mut self,
        issuer: AccountId,
        params: IssueCertificateParams,
        now: i64,
    ) -> (r: Result<(), CarbonCertificateError>)
        requires
            old(self)@.well_formed(),
            issuer.well_formed(),
            params@.well_formed(),
        ensures
            final(self)@.well_formed(),
            (final(self)@, r) == spec_issue_certificate(old(self)@, issuer@, params@, now),
            r is Ok <==> !spec_has_certificate(old(self)@.certificates, params@.certificate_id),
            r is Err ==> final(self)@ == old(self)@,
    {
        match self.find_certificate(&params.certificate_id) {
            Some(_) => Err(CarbonCertificateError::InvalidCertificateData),
            None => {
                let cert = CarbonCertificate {
                    id: params.certificate_id,
                    issuer,
                    total_emissions: params.total_emissions,
                    data_hash: params.data_hash,
                    issue_timestamp: now,
                    valid_until: params.valid_until,
                    status: CertificateStatus::Active,
                };
                self.certificates.push(cert);
                proof {
                    let (s2, _) = spec_issue_certificate(old(self)@, issuer@, params@, now);
                    assert(self@.certificates =~= s2.certificates);
                    assert(self@ =~= s2);
                    assert forall|i: int, j: int|
                        0 <= i < j < self@.certificates.len() implies self@.certificates[i].id
                        != self@.certificates[j].id by {
                        if j == self@.certificates.len() - 1 {
                            assert(!spec_has_certificate(old(self)@.certificates, params@.certificate_id));
                            assert(old(self)@.certificates[i].id != params@.certificate_id);
                        }
                    }
                }
                Ok(())
            },
        }
    }

    /// Revokes a certificate: fails with `UnauthorizedSender` unless the
    /// caller is the recorded issuer; on success flips the status to
    /// `Revoked`, irreversibly, and changes nothing else.
    pub fn revoke_certificate(
        &mut self,
        caller: &AccountId,
        certificate_id: &Vec<u8>,
    ) -> (r: Result<(), CarbonCertificateError>)
        requires
            old(self)@.well_formed(),
        ensures
            final(self)@.well_formed(),
            (final(self)@, r) == spec_revoke_certificate(old(self)@, caller@, certificate_id@),
            r is Err ==> final(self)@ == old(self)@,
            r is Ok ==> spec_certificate(final(self)@.certificates, certificate_id@).status
                is Revoked,
    {
        let idx = match self.find_certificate(certificate_id) {
            None => {
                return Err(CarbonCertificateError::InvalidCertificateData);
            },
            Some(i) => i,
        };
        let cert = &self.certificates[idx];
        if !cert.issuer.matches(caller) {
            return Err(CarbonCertificateError::UnauthorizedSender);
        }
        let updated = CarbonCertificate {
            id: copy_bytes(&cert.id),
            issuer: cert.issuer.clone(),
            total_emissions: cert.total_emissions,
            data_hash: copy_bytes(&cert.data_hash),
            issue_timestamp: cert.issue_timestamp,
            valid_until: cert.valid_until,
            status: CertificateStatus::Revoked,
        };
        self.certificates.set(idx, updated);
        proof {
            let (s2, _) = spec_revoke_certificate(old(self)@, caller@, certificate_id@);
            assert(self@.certificates =~= s2.certificates);
            assert(self@ =~= s2);
            lemma_certificate_index_is(self@.certificates, certificate_id@, idx as int);
        }
        Ok(())
    }

    /// Answers a point-in-time validity query. Pure read: the registry is
    /// never written, so no state change accompanies an expiry observation.
    pub fn verify_certificate(&self, certificate_id: &Vec<u8>, now: i64) -> (r:
        CertificateVerificationResult)
        requires
            self@.well_formed(),
        ensures
            r == spec_verify_certificate(self@, certificate_id@, now),
    {
        match self.find_certificate(certificate_id) {
            None => CertificateVerificationResult {
                exists: false,
                is_valid: false,
                total_emissions: 0,
                issue_timestamp: 0,
                valid_until: 0,
            },
            Some(i) => {
                let cert = &self.certificates[i];
                CertificateVerificationResult {
                    exists: true,
                    is_valid: cert.status == CertificateStatus::Active && now <= cert.valid_until,
                    total_emissions: cert.total_emissions,
                    issue_timestamp: cert.issue_timestamp,
                    valid_until: cert.valid_until,
                }
            },
        }
    }

    /// Stages a certificate attestation for cross-chain relay. Both
    /// preconditions are re-checked at send time: the certificate must be
    /// `Active` (else `CertificateInactive`) and unexpired (else
    /// `CertificateExpired`). The staged message is keyed by (sender, now);
    /// a second send by the same sender in the same instant collides and
    /// fails with `DuplicateMessage`, leaving the state unchanged.
    pub fn send_certificate_verification(
        &mut self,
        sender: &AccountId,
        certificate_id: &Vec<u8>,
        params: &SendVerificationParams,
        now: i64,
    ) -> (r: Result<(), CarbonCertificateError>)
        requires
            old(self)@.well_formed(),
            sender.well_formed(),
            params.receiver_address@.len() <= MAX_RECEIVER_LEN,
        ensures
            final(self)@.well_formed(),
            (final(self)@, r) == spec_send_certificate_verification(
                old(self)@,
                sender@,
                certificate_id@,
                params.destination_chain_id,
                params.receiver_address@,
                now,
            ),
            r is Err ==> final(self)@ == old(self)@,
    {
        let idx = match self.find_certificate(certificate_id) {
            None => {
                return Err(CarbonCertificateError::InvalidCertificateData);
            },
            Some(i) => i,
        };
        let cert = &self.certificates[idx];
        if !(cert.status == CertificateStatus::Active) {
            return Err(CarbonCertificateError::CertificateInactive);
        }
        if now > cert.valid_until {
            return Err(CarbonCertificateError::CertificateExpired);
        }
        let nonce = now as u64;
        if outbound_has_key(&self.outbound, sender, nonce) {
            return Err(CarbonCertificateError::DuplicateMessage);
        }
        let payload = CertificateVerificationData {
            certificate_id: copy_bytes(&cert.id),
            issuer: cert.issuer.clone(),
            total_emissions: cert.total_emissions,
            data_hash: copy_bytes(&cert.data_hash),
            issue_timestamp: cert.issue_timestamp,
            valid_until: cert.valid_until,
        };
        assert(payload@ == spec_certificate_payload(spec_certificate(
            self@.certificates,
            certificate_id@,
        )));
        let message = encode_certificate_data(&payload);
        let staged = OutboundMessage {
            dst_eid: params.destination_chain_id,
            receiver: copy_bytes(&params.receiver_address),
            message,
            sender: sender.clone(),
            nonce,
        };
        self.outbound.push(staged);
        proof {
            let (s2, _) = spec_send_certificate_verification(
                old(self)@,
                sender@,
                certificate_id@,
                params.destination_chain_id,
                params.receiver_address@,
                now,
            );
            assert(self@.outbound =~= s2.outbound);
            assert(self@ =~= s2);
        }
        Ok(())
    }

    /// Applies an inbound certificate attestation. A delivery whose (source
    /// chain, nonce) key was already consumed fails with `DuplicateMessage`
    /// and changes nothing; a payload that does not decode fails with
    /// `InvalidCertificateData` and is never partially applied. On success a
    /// brand-new mirror record is committed and the key is consumed.
    pub fn lz_receive(&mut self, params: LzReceiveParams, now: i64) -> (r: Result<
        (),
        CarbonCertificateError,
    >)
        requires
            old(self)@.well_formed(),
        ensures
            final(self)@.well_formed(),
            (final(self)@, r) == spec_lz_receive(old(self)@, params@, now),
            r is Err ==> final(self)@ == old(self)@,
    {
        if accepted_contains(&self.accepted, params.src_eid, params.nonce) {
            return Err(CarbonCertificateError::DuplicateMessage);
        }
        let data = match decode_certificate_data(&params.message) {
            None => {
                return Err(CarbonCertificateError::InvalidCertificateData);
            },
            Some(d) => d,
        };
        let record = CertificateVerification {
            certificate_id: data.certificate_id,
            source_chain: params.src_eid,
            issuer: data.issuer,
            total_emissions: data.total_emissions,
            data_hash: data.data_hash,
            verified_at: now,
        };
        self.verifications.push(record);
        self.accepted.push(AcceptedKey { src_eid: params.src_eid, nonce: params.nonce });
        proof {
            let (s2, _) = spec_lz_receive(old(self)@, params@, now);
            assert(self@.verifications =~= s2.verifications);
            assert(self@.accepted =~= s2.accepted);
            assert(self@ =~= s2);
        }
        Ok(())
    }
}

} // verus!
