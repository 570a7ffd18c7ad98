//! Proposals received by the group, queued with the reference by which a
//! commit covers them.
//!
//! A proposal reference is `MakeHashRef` of the encoded `MLSPlaintext` that
//! carries the proposal:
//!
//! ```text
//! struct {
//!     WireFormat wire_format;
//!     opaque group_id<0..255>;
//!     uint64 epoch;
//!     Sender sender;
//!     opaque authenticated_data<0..2^32-1>;
//!     ContentType content_type;
//!     select (content_type) { ... } content;
//!     opaque signature<0..2^16-1>;
//!     optional<MAC> confirmation_tag;
//!     optional<MAC> membership_tag;
//! } MLSPlaintext;
//! ```

use vstd::prelude::*;

use crate::authentication::{sender_type_byte, wire_format_byte};
use crate::ciphersuite::Ciphersuite;
use crate::ciphertext::{content_type_byte, content_type_to_byte, tag_view};
use crate::codec::{opaque16, opaque32, opaque8, push_opaque, push_u64, u64_bytes, CodecError};
use crate::content_codec::{content_encodable, enc_content, enc_optional_tag, write_content};
use crate::crypto::{push_u32, u32_bytes, MlsCryptoError};
use crate::framing::{
    MembershipTag, MlsPlaintext, MlsPlaintextContentType, Proposal, Sender, SenderType, WireFormat,
};
use crate::hash_ref::{make_hash_ref, HashReference};

verus! {

/// The membership tag as plain values.
pub open spec fn membership_tag_view(tag: Option<MembershipTag>) -> Option<Seq<u8>> {
    match tag {
        Some(t) => Some(t.0.mac_value@),
        None => None,
    }
}

/// The encoding of an `MLSPlaintext`.
pub open spec fn plaintext_bytes(p: MlsPlaintext) -> Seq<u8> {
    seq![wire_format_byte(p.wire_format)] + opaque8(p.group_id.value@) + u64_bytes(p.epoch.0 as nat)
        + seq![sender_type_byte(p.sender.sender_type)] + u32_bytes(p.sender.sender as nat)
        + opaque32(p.authenticated_data@) + seq![content_type_byte(p.content.spec_content_type())]
        + enc_content(p.content.spec_view()) + opaque16(p.signature@) + enc_optional_tag(
        tag_view(p.confirmation_tag),
    ) + enc_optional_tag(membership_tag_view(p.membership_tag))
}

/// Whether an `MLSPlaintext` can be encoded.
pub open spec fn plaintext_encodable(p: MlsPlaintext) -> bool {
    &&& p.group_id.value@.len() <= 0xff
    &&& p.authenticated_data@.len() <= 0xffff_ffff
    &&& content_encodable(p.content.spec_view())
    &&& p.signature@.len() <= 0xffff
    &&& (tag_view(p.confirmation_tag) matches Some(m) ==> m.len() <= 0xff)
    &&& (membership_tag_view(p.membership_tag) matches Some(m) ==> m.len() <= 0xff)
}

/// Encodes an `MLSPlaintext`.
#[verifier::rlimit(80)]
pub fn serialize_plaintext(p: &MlsPlaintext) -> (res: Result<Vec<u8>, CodecError>)
    ensures
        res is Ok <==> plaintext_encodable(*p),
        res matches Ok(v) ==> v@ == plaintext_bytes(*p),
        res matches Err(e) ==> e == CodecError::EncodingError,
{
    let mut buf: Vec<u8> = Vec::new();
    buf.push(match p.wire_format {
        WireFormat::MlsPlaintext => 1u8,
        WireFormat::MlsCiphertext => 2u8,
    });
    push_opaque(&mut buf, p.group_id.value.as_slice(), 1)?;
    push_u64(&mut buf, p.epoch.0);
    buf.push(match p.sender.sender_type {
        SenderType::Member => 1u8,
        SenderType::Preconfigured => 2u8,
        SenderType::NewMember => 3u8,
    });
    push_u32(&mut buf, p.sender.sender);
    push_opaque(&mut buf, p.authenticated_data.as_slice(), 4)?;
    buf.push(content_type_to_byte(p.content.content_type()));
    match write_content(&mut buf, &p.content) {
        Ok(()) => {},
        Err(_) => return Err(CodecError::EncodingError),
    }
    let ghost head = buf@;
    assert(head =~= seq![wire_format_byte(p.wire_format)] + opaque8(p.group_id.value@) + u64_bytes(
        p.epoch.0 as nat,
    ) + seq![sender_type_byte(p.sender.sender_type)] + u32_bytes(p.sender.sender as nat) + opaque32(
        p.authenticated_data@,
    ) + seq![content_type_byte(p.content.spec_content_type())] + enc_content(p.content.spec_view()));
    push_opaque(&mut buf, p.signature.as_slice(), 2)?;
    match &p.confirmation_tag {
        None => buf.push(0u8),
        Some(t) => {
            buf.push(1u8);
            push_opaque(&mut buf, t.0.mac_value.as_slice(), 1)?;
        },
    }
    match &p.membership_tag {
        None => buf.push(0u8),
        Some(t) => {
            buf.push(1u8);
            push_opaque(&mut buf, t.0.mac_value.as_slice(), 1)?;
        },
    }
    assert(buf@ =~= plaintext_bytes(*p));
    Ok(buf)
}

/// Errors of queueing a proposal.
#[derive(Clone, Copy, Debug, PartialEq, Eq, Structural)]
pub enum QueuedProposalError {
    WrongContentType,
    CodecError,
    CryptoError(MlsCryptoError),
}

/// A proposal the group received, with its reference and its sender.
pub struct QueuedProposal {
    proposal: Proposal,
    proposal_reference: HashReference,
    sender: Sender,
}

impl QueuedProposal {
    pub closed spec fn spec_proposal(&self) -> (u16, Seq<u8>) {
        (self.proposal.proposal_type, self.proposal.body@)
    }

    pub closed spec fn spec_proposal_reference(&self) -> Seq<u8> {
        self.proposal_reference.spec_value()
    }

    pub closed spec fn spec_sender(&self) -> Sender {
        self.sender
    }

    /// Queues the proposal that a verified plaintext carries, with the
    /// reference `MakeHashRef` of the encoded plaintext under the group's
    /// ciphersuite.
    pub fn from_mls_plaintext(
        ciphersuite: &Ciphersuite,
        backend: &openmls_rust_crypto::OpenMlsRustCrypto,
        mls_plaintext: MlsPlaintext,
    ) -> (res: Result<Self, QueuedProposalError>)
        ensures
            !(mls_plaintext.content is Proposal) ==> res == Err::<Self, QueuedProposalError>(
                QueuedProposalError::WrongContentType,
            ),
            mls_plaintext.content is Proposal && !plaintext_encodable(mls_plaintext) ==> res
                == Err::<Self, QueuedProposalError>(QueuedProposalError::CodecError),
            mls_plaintext.content is Proposal && plaintext_encodable(mls_plaintext) ==> (res matches Ok(
                q,
            ) && q.spec_proposal() == (
                mls_plaintext.content->Proposal_0.proposal_type,
                mls_plaintext.content->Proposal_0.body@,
            ) && q.spec_sender() == mls_plaintext.sender && q.spec_proposal_reference()
                == make_hash_ref(plaintext_bytes(mls_plaintext), *ciphersuite)),
    {
        let encoded = match serialize_plaintext(&mls_plaintext) {
            Ok(e) => e,
            Err(_) => {
                if let MlsPlaintextContentType::Proposal(_) = &mls_plaintext.content {
                    return Err(QueuedProposalError::CodecError);
                } else {
                    return Err(QueuedProposalError::WrongContentType);
                }
            },
        };
        let sender = mls_plaintext.sender;
        let proposal = match mls_plaintext.content {
            MlsPlaintextContentType::Proposal(p) => p,
            _ => return Err(QueuedProposalError::WrongContentType),
        };
        let proposal_reference = match HashReference::new(encoded.as_slice(), ciphersuite, backend) {
            Ok(r) => r,
            Err(e) => return Err(QueuedProposalError::CryptoError(e)),
        };
        Ok(QueuedProposal { proposal, proposal_reference, sender })
    }

    /// The proposal.
    pub fn proposal(&self) -> (p: &Proposal)
        ensures
            (p.proposal_type, p.body@) == self.spec_proposal(),
    {
        &self.proposal
    }

    /// The proposal's reference.
    pub fn proposal_reference(&self) -> (r: &HashReference)
        ensures
            r.spec_value() == self.spec_proposal_reference(),
    {
        &self.proposal_reference
    }

    /// The proposal's sender.
    pub fn sender(&self) -> (s: &Sender)
        ensures
            *s == self.spec_sender(),
    {
        &self.sender
    }
}

} // verus!
