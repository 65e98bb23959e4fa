//! Wire payload formats and their stable binary encoding.
//!
//! Both payloads must be bit-stable across chains: field order and width are
//! part of the contract. Every serialized payload starts with an explicit
//! tag byte that names its schema and version, and the decoder switches on
//! it, so a future field addition cannot be confused with the present
//! layout. After the tag, integers are little-endian fixed width, identities
//! are 32 raw bytes, and variable-length byte strings carry a 32-bit
//! little-endian length prefix.

use vstd::prelude::*;
use vstd::bytes::*;
use crate::account::{AccountId, ACCOUNT_ID_LEN};
use crate::message::MAX_MESSAGE_LEN;

verus! {

/// Tag byte of a serialized certificate verification payload.
pub const CERTIFICATE_PAYLOAD_TAG: u8 = 1;

/// Tag byte of a serialized credit transfer payload.
pub const CREDIT_PAYLOAD_TAG: u8 = 2;

/// Largest certificate id, project id or data hash, in bytes.
pub const MAX_FIELD_LEN: usize = 64;

/// Full attested snapshot of a certificate, as relayed across chains.
pub struct CertificateVerificationData {
    pub certificate_id: Vec<u8>,
    pub issuer: AccountId,
    pub total_emissions: u64,
    pub data_hash: Vec<u8>,
    pub issue_timestamp: i64,
    pub valid_until: i64,
}

/// Ghost image of a certificate verification payload.
#[verifier::ext_equal]
pub ghost struct CertificateVerificationDataView {
    pub certificate_id: Seq<u8>,
    pub issuer: Seq<u8>,
    pub total_emissions: u64,
    pub data_hash: Seq<u8>,
    pub issue_timestamp: i64,
    pub valid_until: i64,
}

impl View for CertificateVerificationData {
    type V = CertificateVerificationDataView;

    open spec fn view(&self) -> CertificateVerificationDataView {
        CertificateVerificationDataView {
            certificate_id: self.certificate_id@,
            issuer: self.issuer@,
            total_emissions: self.total_emissions,
            data_hash: self.data_hash@,
            issue_timestamp: self.issue_timestamp,
            valid_until: self.valid_until,
        }
    }
}

impl CertificateVerificationDataView {
    /// Field bounds every valid payload satisfies.
    pub open spec fn well_formed(self) -> bool {
        &&& self.certificate_id.len() <= MAX_FIELD_LEN
        &&& self.issuer.len() == ACCOUNT_ID_LEN
        &&& self.data_hash.len() <= MAX_FIELD_LEN
    }
}

/// A cross-chain credit transfer, as relayed across chains.
pub struct CreditTransferData {
    pub recipient: AccountId,
    pub amount: u64,
    pub project_id: Vec<u8>,
    pub vintage: u16,
}

/// Ghost image of a credit transfer payload.
#[verifier::ext_equal]
pub ghost struct CreditTransferDataView {
    pub recipient: Seq<u8>,
    pub amount: u64,
    pub project_id: Seq<u8>,
    pub vintage: u16,
}

impl View for CreditTransferData {
    type V = CreditTransferDataView;

    open spec fn view(&self) -> CreditTransferDataView {
        CreditTransferDataView {
            recipient: self.recipient@,
            amount: self.amount,
            project_id: self.project_id@,
            vintage: self.vintage,
        }
    }
}

impl CreditTransferDataView {
    /// Field bounds every valid payload satisfies.
    pub open spec fn well_formed(self) -> bool {
        &&& self.recipient.len() == ACCOUNT_ID_LEN
        &&& self.project_id.len() <= MAX_FIELD_LEN
    }
}

/// A signed timestamp on the wire: its two's-complement bits, little-endian.
pub open spec fn spec_i64_to_le_bytes(x: i64) -> Seq<u8> {
    spec_u64_to_le_bytes(x as u64)
}

/// Reads a signed timestamp back from its two's-complement bits.
pub open spec fn spec_i64_from_le_bytes(s: Seq<u8>) -> i64 {
    spec_u64_from_le_bytes(s) as i64
}

/// Encoding a signed timestamp and reading it back is the identity.
pub proof fn lemma_i64_le_bytes_round_trip(x: i64)
    ensures
        spec_i64_to_le_bytes(x).len() == 8,
        spec_i64_from_le_bytes(spec_i64_to_le_bytes(x)) == x,
{
    lemma_auto_spec_u64_to_from_le_bytes();
    assert(x as u64 as i64 == x) by (bit_vector);
}

/// A variable-length byte string on the wire: 32-bit length prefix, then the bytes.
pub open spec fn spec_encode_len_bytes(b: Seq<u8>) -> Seq<u8> {
    spec_u32_to_le_bytes(b.len() as u32) + b
}

/// Splits off a fixed-width field: the first `n` bytes and the rest.
pub open spec fn spec_take_bytes(m: Seq<u8>, n: int) -> Option<(Seq<u8>, Seq<u8>)> {
    if m.len() < n {
        None
    } else {
        Some((m.take(n), m.skip(n)))
    }
}

/// Splits off a length-prefixed field no longer than `max`: the bytes and the rest.
pub open spec fn spec_parse_len_bytes(m: Seq<u8>, max: int) -> Option<(Seq<u8>, Seq<u8>)> {
    if m.len() < 4 {
        None
    } else {
        let n: int = spec_u32_from_le_bytes(m.take(4)) as int;
        if n > max || m.len() - 4 < n {
            None
        } else {
            Some((m.subrange(4, 4 + n), m.skip(4 + n)))
        }
    }
}

/// Reading a fixed-width field back off its own encoding is exact.
pub proof fn lemma_take_bytes_exact(b: Seq<u8>, rest: Seq<u8>)
    ensures
        spec_take_bytes(b + rest, b.len() as int) == Some((b, rest)),
{
    let m = b + rest;
    assert(m.take(b.len() as int) =~= b);
    assert(m.skip(b.len() as int) =~= rest);
}

/// Reading a length-prefixed field back off its own encoding is exact.
pub proof fn lemma_parse_len_bytes_exact(b: Seq<u8>, rest: Seq<u8>, max: int)
    requires
        b.len() <= max,
        b.len() <= u32::MAX,
    ensures
        spec_parse_len_bytes(spec_encode_len_bytes(b) + rest, max) == Some((b, rest)),
{
    let m = spec_encode_len_bytes(b) + rest;
    lemma_auto_spec_u32_to_from_le_bytes();
    assert(m.take(4) =~= spec_u32_to_le_bytes(b.len() as u32));
    let n: int = spec_u32_from_le_bytes(m.take(4)) as int;
    assert(n == b.len());
    assert(m.subrange(4, 4 + n) =~= b);
    assert(m.skip(4 + n) =~= rest);
}

/// The serialized form of a certificate verification payload.
pub open spec fn spec_encode_certificate_data(d: CertificateVerificationDataView) -> Seq<u8> {
    seq![CERTIFICATE_PAYLOAD_TAG] + spec_encode_len_bytes(d.certificate_id) + d.issuer
        + spec_u64_to_le_bytes(d.total_emissions) + spec_encode_len_bytes(d.data_hash)
        + spec_i64_to_le_bytes(d.issue_timestamp) + spec_i64_to_le_bytes(d.valid_until)
}

/// What a byte string means as a certificate verification payload, if anything.
pub open spec fn spec_decode_certificate_data(m: Seq<u8>) -> Option<CertificateVerificationDataView> {
    if m.len() < 1 || m[0] != CERTIFICATE_PAYLOAD_TAG {
        None
    } else {
        match spec_parse_len_bytes(m.skip(1), MAX_FIELD_LEN as int) {
            None => None,
            Some((certificate_id, r1)) => match spec_take_bytes(r1, ACCOUNT_ID_LEN as int) {
                None => None,
                Some((issuer, r2)) => match spec_take_bytes(r2, 8) {
                    None => None,
                    Some((emissions, r3)) => match spec_parse_len_bytes(r3, MAX_FIELD_LEN as int) {
                        None => None,
                        Some((data_hash, r4)) => match spec_take_bytes(r4, 8) {
                            None => None,
                            Some((issued, r5)) => match spec_take_bytes(r5, 8) {
                                None => None,
                                Some((until, r6)) => if r6.len() != 0 {
                                    None
                                } else {
                                    Some(
                                        CertificateVerificationDataView {
                                            certificate_id,
                                            issuer,
                                            total_emissions: spec_u64_from_le_bytes(emissions),
                                            data_hash,
                                            issue_timestamp: spec_i64_from_le_bytes(issued),
                                            valid_until: spec_i64_from_le_bytes(until),
                                        },
                                    )
                                },
                            },
                        },
                    },
                },
            },
        }
    }
}

/// The serialized form of a credit transfer payload.
pub open spec fn spec_encode_credit_transfer(d: CreditTransferDataView) -> Seq<u8> {
    seq![CREDIT_PAYLOAD_TAG] + d.recipient + spec_u64_to_le_bytes(d.amount)
        + spec_encode_len_bytes(d.project_id) + spec_u16_to_le_bytes(d.vintage)
}

/// What a byte string means as a credit transfer payload, if anything.
pub open spec fn spec_decode_credit_transfer(m: Seq<u8>) -> Option<CreditTransferDataView> {
    if m.len() < 1 || m[0] != CREDIT_PAYLOAD_TAG {
        None
    } else {
        match spec_take_bytes(m.skip(1), ACCOUNT_ID_LEN as int) {
            None => None,
            Some((recipient, r1)) => match spec_take_bytes(r1, 8) {
                None => None,
                Some((amount, r2)) => match spec_parse_len_bytes(r2, MAX_FIELD_LEN as int) {
                    None => None,
                    Some((project_id, r3)) => match spec_take_bytes(r3, 2) {
                        None => None,
                        Some((vintage, r4)) => if r4.len() != 0 {
                            None
                        } else {
                            Some(
                                CreditTransferDataView {
                                    recipient,
                                    amount: spec_u64_from_le_bytes(amount),
                                    project_id,
                                    vintage: spec_u16_from_le_bytes(vintage),
                                },
                            )
                        },
                    },
                },
            },
        }
    }
}

/// Serializing a valid certificate payload and deserializing it reproduces it.
pub proof fn lemma_certificate_data_round_trip(d: CertificateVerificationDataView)
    requires
        d.well_formed(),
    ensures
        spec_decode_certificate_data(spec_encode_certificate_data(d)) == Some(d),
{
    let f_id = spec_encode_len_bytes(d.certificate_id);
    let f_em = spec_u64_to_le_bytes(d.total_emissions);
    let f_hash = spec_encode_len_bytes(d.data_hash);
    let f_issued = spec_i64_to_le_bytes(d.issue_timestamp);
    let f_until = spec_i64_to_le_bytes(d.valid_until);
    let m = spec_encode_certificate_data(d);
    lemma_auto_spec_u32_to_from_le_bytes();
    lemma_auto_spec_u64_to_from_le_bytes();
    let m1 = f_id + (d.issuer + (f_em + (f_hash + (f_issued + f_until))));
    assert(m.len() >= 1 && m[0] == CERTIFICATE_PAYLOAD_TAG);
    assert(m.skip(1) =~= m1);
    lemma_parse_len_bytes_exact(
        d.certificate_id,
        d.issuer + (f_em + (f_hash + (f_issued + f_until))),
        MAX_FIELD_LEN as int,
    );
    lemma_take_bytes_exact(d.issuer, f_em + (f_hash + (f_issued + f_until)));
    lemma_take_bytes_exact(f_em, f_hash + (f_issued + f_until));
    lemma_parse_len_bytes_exact(d.data_hash, f_issued + f_until, MAX_FIELD_LEN as int);
    lemma_take_bytes_exact(f_issued, f_until);
    lemma_take_bytes_exact(f_until, Seq::<u8>::empty());
    assert(f_until + Seq::<u8>::empty() =~= f_until);
    lemma_i64_le_bytes_round_trip(d.issue_timestamp);
    lemma_i64_le_bytes_round_trip(d.valid_until);
    assert(spec_decode_certificate_data(m) == Some(d));
}

/// Serializing a valid credit transfer payload and deserializing it reproduces it.
pub proof fn lemma_credit_transfer_round_trip(d: CreditTransferDataView)
    requires
        d.well_formed(),
    ensures
        spec_decode_credit_transfer(spec_encode_credit_transfer(d)) == Some(d),
{
    let f_amount = spec_u64_to_le_bytes(d.amount);
    let f_project = spec_encode_len_bytes(d.project_id);
    let f_vintage = spec_u16_to_le_bytes(d.vintage);
    let m = spec_encode_credit_transfer(d);
    lemma_auto_spec_u16_to_from_le_bytes();
    lemma_auto_spec_u32_to_from_le_bytes();
    lemma_auto_spec_u64_to_from_le_bytes();
    let m1 = d.recipient + (f_amount + (f_project + f_vintage));
    assert(m.len() >= 1 && m[0] == CREDIT_PAYLOAD_TAG);
    assert(m.skip(1) =~= m1);
    lemma_take_bytes_exact(d.recipient, f_amount + (f_project + f_vintage));
    lemma_take_bytes_exact(f_amount, f_project + f_vintage);
    lemma_parse_len_bytes_exact(d.project_id, f_vintage, MAX_FIELD_LEN as int);
    lemma_take_bytes_exact(f_vintage, Seq::<u8>::empty());
    assert(f_vintage + Seq::<u8>::empty() =~= f_vintage);
    assert(spec_decode_credit_transfer(m) == Some(d));
}

/// Appends the contents of `b` to `out`.
fn push_bytes(out: &mut Vec<u8>, b: &Vec<u8>)
    ensures
        final(out)@ == old(out)@ + b@,
{
    let mut i: usize = 0;
    while i < b.len()
        invariant
            i <= b@.len(),
            out@ == old(out)@ + b@.subrange(0, i as int),
        decreases b@.len() - i,
    {
        out.push(b[i]);
        assert(old(out)@ + b@.subrange(0, i as int) + seq![b@[i as int]] =~= old(out)@
            + b@.subrange(0, i + 1));
        i = i + 1;
    }
    assert(out@ =~= old(out)@ + b@);
}

/// Appends a 32-bit little-endian length prefix and the bytes of `b`.
fn push_len_bytes(out: &mut Vec<u8>, b: &Vec<u8>)
    requires
        b@.len() <= u32::MAX,
    ensures
        final(out)@ == old(out)@ + spec_encode_len_bytes(b@),
{
    let len_bytes = u32_to_le_bytes(b.len() as u32);
    push_bytes(out, &len_bytes);
    push_bytes(out, b);
    assert(out@ =~= old(out)@ + spec_encode_len_bytes(b@));
}

/// Serializes a certificate verification payload into its wire form.
pub fn encode_certificate_data(d: &CertificateVerificationData) -> (r: Vec<u8>)
    requires
        d@.well_formed(),
    ensures
        r@ == spec_encode_certificate_data(d@),
        r@.len() <= MAX_MESSAGE_LEN,
{
    let mut out: Vec<u8> = Vec::new();
    out.push(CERTIFICATE_PAYLOAD_TAG);
    assert(out@ =~= seq![CERTIFICATE_PAYLOAD_TAG]);
    push_len_bytes(&mut out, &d.certificate_id);
    push_bytes(&mut out, &d.issuer.bytes);
    let emissions = u64_to_le_bytes(d.total_emissions);
    push_bytes(&mut out, &emissions);
    push_len_bytes(&mut out, &d.data_hash);
    let issued = u64_to_le_bytes(d.issue_timestamp as u64);
    push_bytes(&mut out, &issued);
    let until = u64_to_le_bytes(d.valid_until as u64);
    push_bytes(&mut out, &until);
    proof {
        lemma_auto_spec_u32_to_from_le_bytes();
        lemma_auto_spec_u64_to_from_le_bytes();
    }
    assert(out@ =~= spec_encode_certificate_data(d@));
    out
}

/// Serializes a credit transfer payload into its wire form.
pub fn encode_credit_transfer(d: &CreditTransferData) -> (r: Vec<u8>)
    requires
        d@.well_formed(),
    ensures
        r@ == spec_encode_credit_transfer(d@),
        r@.len() <= MAX_MESSAGE_LEN,
{
    let mut out: Vec<u8> = Vec::new();
    out.push(CREDIT_PAYLOAD_TAG);
    assert(out@ =~= seq![CREDIT_PAYLOAD_TAG]);
    push_bytes(&mut out, &d.recipient.bytes);
    let amount = u64_to_le_bytes(d.amount);
    push_bytes(&mut out, &amount);
    push_len_bytes(&mut out, &d.project_id);
    let vintage = u16_to_le_bytes(d.vintage);
    push_bytes(&mut out, &vintage);
    proof {
        lemma_auto_spec_u16_to_from_le_bytes();
        lemma_auto_spec_u32_to_from_le_bytes();
        lemma_auto_spec_u64_to_from_le_bytes();
    }
    assert(out@ =~= spec_encode_credit_transfer(d@));
    out
}

/// Copies `v[start..start + n]` into a fresh vector.
fn read_bytes(v: &Vec<u8>, start: usize, n: usize) -> (r: Vec<u8>)
    requires
        start + n <= v@.len(),
    ensures
        r@ == v@.subrange(start as int, start + n),
{
    let vlen: usize = v.len();
    let mut out: Vec<u8> = Vec::new();
    let mut i: usize = 0;
    while i < n
        invariant
            i <= n,
            start + n <= vlen,
            vlen == v@.len(),
            out@ == v@.subrange(start as int, start + i),
        decreases n - i,
    {
        out.push(v[start + i]);
        assert(v@.subrange(start as int, start + i) + seq![v@[start + i]] =~= v@.subrange(
            start as int,
            start + i + 1,
        ));
        i = i + 1;
    }
    out
}

/// Reads the 32-bit little-endian word at `start`.
fn read_u32(v: &Vec<u8>, start: usize) -> (r: u32)
    requires
        start + 4 <= v@.len(),
    ensures
        r == spec_u32_from_le_bytes(v@.subrange(start as int, start + 4)),
{
    let vlen: usize = v.len();
    assert(start + 4 <= vlen);
    let word = vstd::slice::slice_subrange(v.as_slice(), start, start + 4);
    u32_from_le_bytes(word)
}

/// Reads the 64-bit little-endian word at `start`.
fn read_u64(v: &Vec<u8>, start: usize) -> (r: u64)
    requires
        start + 8 <= v@.len(),
    ensures
        r == spec_u64_from_le_bytes(v@.subrange(start as int, start + 8)),
{
    let vlen: usize = v.len();
    assert(start + 8 <= vlen);
    let word = vstd::slice::slice_subrange(v.as_slice(), start, start + 8);
    u64_from_le_bytes(word)
}

/// Deserializes a certificate verification payload, or reports a malformed one.
pub fn decode_certificate_data(m: &Vec<u8>) -> (r: Option<CertificateVerificationData>)
    ensures
        match r {
            Some(d) => spec_decode_certificate_data(m@) == Some(d@) && d@.well_formed(),
            None => spec_decode_certificate_data(m@) is None,
        },
{
    if m.len() < 1 || m[0] != CERTIFICATE_PAYLOAD_TAG {
        return None;
    }
    let ghost body = m@.skip(1);
    // certificate id, length-prefixed
    if m.len() - 1 < 4 {
        assert(body.len() < 4);
        return None;
    }
    assert(body.take(4) =~= m@.subrange(1, 5));
    let id_len: usize = read_u32(m, 1) as usize;
    if id_len > MAX_FIELD_LEN || m.len() - 5 < id_len {
        return None;
    }
    let certificate_id = read_bytes(m, 5, id_len);
    assert(certificate_id@ =~= body.subrange(4, 4 + id_len as int));
    let off1: usize = 5 + id_len;
    let ghost r1 = body.skip(4 + id_len as int);
    assert(r1.len() == m@.len() - off1);
    // issuer, 32 raw bytes
    if m.len() - off1 < ACCOUNT_ID_LEN {
        return None;
    }
    let issuer_bytes = read_bytes(m, off1, ACCOUNT_ID_LEN);
    assert(issuer_bytes@ =~= r1.take(ACCOUNT_ID_LEN as int));
    let off2: usize = off1 + ACCOUNT_ID_LEN;
    let ghost r2 = r1.skip(ACCOUNT_ID_LEN as int);
    assert(r2 =~= m@.skip(off2 as int));
    // total emissions, 64-bit
    if m.len() - off2 < 8 {
        return None;
    }
    let total_emissions: u64 = read_u64(m, off2);
    assert(m@.subrange(off2 as int, off2 + 8) =~= r2.take(8));
    let off3: usize = off2 + 8;
    let ghost r3 = r2.skip(8);
    assert(r3 =~= m@.skip(off3 as int));
    // data hash, length-prefixed
    if m.len() - off3 < 4 {
        return None;
    }
    assert(r3.take(4) =~= m@.subrange(off3 as int, off3 + 4));
    let hash_len: usize = read_u32(m, off3) as usize;
    if hash_len > MAX_FIELD_LEN || m.len() - off3 - 4 < hash_len {
        return None;
    }
    let data_hash = read_bytes(m, off3 + 4, hash_len);
    assert(data_hash@ =~= r3.subrange(4, 4 + hash_len as int));
    let off4: usize = off3 + 4 + hash_len;
    let ghost r4 = r3.skip(4 + hash_len as int);
    assert(r4 =~= m@.skip(off4 as int));
    // issue timestamp, 64-bit
    if m.len() - off4 < 8 {
        return None;
    }
    let issued: u64 = read_u64(m, off4);
    assert(m@.subrange(off4 as int, off4 + 8) =~= r4.take(8));
    let off5: usize = off4 + 8;
    let ghost r5 = r4.skip(8);
    assert(r5 =~= m@.skip(off5 as int));
    // valid until, 64-bit
    if m.len() - off5 < 8 {
        return None;
    }
    let until: u64 = read_u64(m, off5);
    assert(m@.subrange(off5 as int, off5 + 8) =~= r5.take(8));
    let off6: usize = off5 + 8;
    let ghost r6 = r5.skip(8);
    assert(r6 =~= m@.skip(off6 as int));
    // the payload must be exactly consumed
    if m.len() != off6 {
        assert(r6.len() != 0);
        return None;
    }
    let d = CertificateVerificationData {
        certificate_id,
        issuer: AccountId::from_bytes(issuer_bytes),
        total_emissions,
        data_hash,
        issue_timestamp: issued as i64,
        valid_until: until as i64,
    };
    Some(d)
}

/// Deserializes a credit transfer payload, or reports a malformed one.
pub fn decode_credit_transfer(m: &Vec<u8>) -> (r: Option<CreditTransferData>)
    ensures
        match r {
            Some(d) => spec_decode_credit_transfer(m@) == Some(d@) && d@.well_formed(),
            None => spec_decode_credit_transfer(m@) is None,
        },
{
    if m.len() < 1 || m[0] != CREDIT_PAYLOAD_TAG {
        return None;
    }
    let ghost body = m@.skip(1);
    // recipient, 32 raw bytes
    if m.len() - 1 < ACCOUNT_ID_LEN {
        return None;
    }
    let recipient_bytes = read_bytes(m, 1, ACCOUNT_ID_LEN);
    assert(recipient_bytes@ =~= body.take(ACCOUNT_ID_LEN as int));
    let off1: usize = 1 + ACCOUNT_ID_LEN;
    let ghost r1 = body.skip(ACCOUNT_ID_LEN as int);
    assert(r1 =~= m@.skip(off1 as int));
    // amount, 64-bit
    if m.len() - off1 < 8 {
        return None;
    }
    let amount: u64 = read_u64(m, off1);
    assert(m@.subrange(off1 as int, off1 + 8) =~= r1.take(8));
    let off2: usize = off1 + 8;
    let ghost r2 = r1.skip(8);
    assert(r2 =~= m@.skip(off2 as int));
    // project id, length-prefixed
    if m.len() - off2 < 4 {
        return None;
    }
    assert(r2.take(4) =~= m@.subrange(off2 as int, off2 + 4));
    let project_len: usize = read_u32(m, off2) as usize;
    if project_len > MAX_FIELD_LEN || m.len() - off2 - 4 < project_len {
        return None;
    }
    let project_id = read_bytes(m, off2 + 4, project_len);
    assert(project_id@ =~= r2.subrange(4, 4 + project_len as int));
    let off3: usize = off2 + 4 + project_len;
    let ghost r3 = r2.skip(4 + project_len as int);
    assert(r3 =~= m@.skip(off3 as int));
    // vintage, 16-bit
    if m.len() - off3 < 2 {
        return None;
    }
    assert(m@.subrange(off3 as int, off3 + 2) =~= r3.take(2));
    let word = vstd::slice::slice_subrange(m.as_slice(), off3, off3 + 2);
    let vintage: u16 = u16_from_le_bytes(word);
    let off4: usize = off3 + 2;
    let ghost r4 = r3.skip(2);
    assert(r4 =~= m@.skip(off4 as int));
    // the payload must be exactly consumed
    if m.len() != off4 {
        assert(r4.len() != 0);
        return None;
    }
    let d = CreditTransferData {
        recipient: AccountId::from_bytes(recipient_bytes),
        amount,
        project_id,
        vintage,
    };
    Some(d)
}

} // verus!
