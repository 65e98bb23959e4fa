//! Cross-chain message envelopes.
//!
//! An outbound message is a staged payload keyed by (sender, nonce); the
//! nonce is derived from the send-time clock reading, so two sends by the
//! same sender in the same instant collide and the second is rejected. An
//! inbound delivery carries the transport's (source chain, nonce) pair; each
//! applier records the pairs it has accepted and rejects a re-delivery.

use vstd::prelude::*;
use crate::account::AccountId;

verus! {

/// Largest receiver address an outbound message may carry, in bytes.
pub const MAX_RECEIVER_LEN: usize = 32;

/// Largest serialized payload an outbound message may carry, in bytes.
pub const MAX_MESSAGE_LEN: usize = 512;

/// A staged cross-chain payload, waiting for the transport to pick it up.
pub struct OutboundMessage {
    /// Destination chain identifier.
    pub dst_eid: u32,
    /// Receiver address on the destination chain, opaque bytes.
    pub receiver: Vec<u8>,
    /// Serialized payload body; the transport never inspects it.
    pub message: Vec<u8>,
    /// Identity that staged the message.
    pub sender: AccountId,
    /// Uniqueness hint derived from the send-time clock reading.
    pub nonce: u64,
}

/// Ghost image of an outbound message.
#[verifier::ext_equal]
pub ghost struct OutboundMessageView {
    pub dst_eid: u32,
    pub receiver: Seq<u8>,
    pub message: Seq<u8>,
    pub sender: Seq<u8>,
    pub nonce: u64,
}

impl View for OutboundMessage {
    type V = OutboundMessageView;

    open spec fn view(&self) -> OutboundMessageView {
        OutboundMessageView {
            dst_eid: self.dst_eid,
            receiver: self.receiver@,
            message: self.message@,
            sender: self.sender@,
            nonce: self.nonce,
        }
    }
}

impl OutboundMessageView {
    /// Field bounds every staged message satisfies.
    pub open spec fn well_formed(self) -> bool {
        &&& self.receiver.len() <= MAX_RECEIVER_LEN
        &&& self.message.len() <= MAX_MESSAGE_LEN
        &&& self.sender.len() == crate::account::ACCOUNT_ID_LEN
    }
}

/// What the transport hands to an inbound applier.
pub struct LzReceiveParams {
    /// Chain the message originated from.
    pub src_eid: u32,
    /// Sending application's address on the origin chain.
    pub src_address: Vec<u8>,
    /// Transport nonce for this delivery.
    pub nonce: u64,
    /// Transport's globally unique message id.
    pub guid: Vec<u8>,
    /// Serialized payload body.
    pub message: Vec<u8>,
    /// Identity of the executor relaying the delivery.
    pub executor: AccountId,
}

/// Ghost image of an inbound delivery.
#[verifier::ext_equal]
pub ghost struct LzReceiveParamsView {
    pub src_eid: u32,
    pub src_address: Seq<u8>,
    pub nonce: u64,
    pub guid: Seq<u8>,
    pub message: Seq<u8>,
    pub executor: Seq<u8>,
}

impl View for LzReceiveParams {
    type V = LzReceiveParamsView;

    open spec fn view(&self) -> LzReceiveParamsView {
        LzReceiveParamsView {
            src_eid: self.src_eid,
            src_address: self.src_address@,
            nonce: self.nonce,
            guid: self.guid@,
            message: self.message@,
            executor: self.executor@,
        }
    }
}

/// A (source chain, nonce) pair an inbound applier has already accepted.
#[derive(Clone, Copy, PartialEq, Eq, Structural, Debug)]
pub struct AcceptedKey {
    pub src_eid: u32,
    pub nonce: u64,
}

/// True when the replay set already holds the given delivery key.
pub open spec fn spec_accepted_contains(accepted: Seq<AcceptedKey>, src_eid: u32, nonce: u64) -> bool {
    exists|i: int|
        0 <= i < accepted.len() && accepted[i].src_eid == src_eid && accepted[i].nonce == nonce
}

/// Linear scan of the replay set for a delivery key.
pub fn accepted_contains(accepted: &Vec<AcceptedKey>, src_eid: u32, nonce: u64) -> (r: bool)
    ensures
        r == spec_accepted_contains(accepted@, src_eid, nonce),
{
    let mut i: usize = 0;
    while i < accepted.len()
        invariant
            i <= accepted@.len(),
            forall|j: int|
                0 <= j < i ==> !(accepted@[j].src_eid == src_eid && accepted@[j].nonce == nonce),
        decreases accepted@.len() - i,
    {
        if accepted[i].src_eid == src_eid && accepted[i].nonce == nonce {
            return true;
        }
        i = i + 1;
    }
    false
}

/// True when some staged message carries the given (sender, nonce) key.
pub open spec fn spec_outbound_has_key(msgs: Seq<OutboundMessageView>, sender: Seq<u8>, nonce: u64) -> bool {
    exists|i: int| 0 <= i < msgs.len() && msgs[i].sender == sender && msgs[i].nonce == nonce
}

/// Linear scan of the staged messages for a (sender, nonce) key.
pub fn outbound_has_key(msgs: &Vec<OutboundMessage>, sender: &AccountId, nonce: u64) -> (r: bool)
    ensures
        r == spec_outbound_has_key(msgs.deep_view(), sender@, nonce),
{
    let mut i: usize = 0;
    while i < msgs.len()
        invariant
            i <= msgs@.len(),
            msgs.deep_view().len() == msgs@.len(),
            forall|j: int| 0 <= j < msgs@.len() ==> msgs.deep_view()[j] == msgs@[j]@,
            forall|j: int|
                0 <= j < i ==> !(msgs@[j]@.sender == sender@ && msgs@[j]@.nonce == nonce),
        decreases msgs@.len() - i,
    {
        if msgs[i].nonce == nonce && msgs[i].sender.matches(sender) {
            assert(msgs.deep_view()[i as int] == msgs@[i as int]@);
            return true;
        }
        i = i + 1;
    }
    false
}

impl DeepView for OutboundMessage {
    type V = OutboundMessageView;

    open spec fn deep_view(&self) -> OutboundMessageView {
        self@
    }
}

/// The number of staged messages carrying the given (sender, nonce) key.
pub open spec fn spec_count_key(msgs: Seq<OutboundMessageView>, sender: Seq<u8>, nonce: u64) -> int
    decreases msgs.len(),
{
    if msgs.len() == 0 {
        0
    } else {
        spec_count_key(msgs.drop_last(), sender, nonce) + if msgs.last().sender == sender
            && msgs.last().nonce == nonce {
            1int
        } else {
            0int
        }
    }
}

/// A key absent from every staged message is counted zero times.
pub proof fn lemma_count_key_absent(msgs: Seq<OutboundMessageView>, sender: Seq<u8>, nonce: u64)
    requires
        !spec_outbound_has_key(msgs, sender, nonce),
    ensures
        spec_count_key(msgs, sender, nonce) == 0,
    decreases msgs.len(),
{
    if msgs.len() > 0 {
        assert(forall|i: int|
            0 <= i < msgs.len() - 1 ==> msgs.drop_last()[i] == msgs[i]);
        lemma_count_key_absent(msgs.drop_last(), sender, nonce);
        assert(msgs.last() == msgs[msgs.len() - 1]);
    }
}

/// Appending a message with the given key raises its count by one.
pub proof fn lemma_count_key_push(
    msgs: Seq<OutboundMessageView>,
    m: OutboundMessageView,
    sender: Seq<u8>,
    nonce: u64,
)
    ensures
        spec_count_key(msgs.push(m), sender, nonce) == spec_count_key(msgs, sender, nonce) + if m.sender
            == sender && m.nonce == nonce {
            1int
        } else {
            0int
        },
{
    assert(msgs.push(m).drop_last() =~= msgs);
    assert(msgs.push(m).last() == m);
}

} // verus!
