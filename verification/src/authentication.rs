//! Authentication of plaintext messages: the signed content (`MLSPlaintextTBS`),
//! the membership tag over it (`MLSPlaintextTBM`), and signature checks.
//!
//! ```text
//! struct {
//!     select (sender.sender_type) { case member: GroupContext context; }
//!     WireFormat wire_format;
//!     opaque group_id<0..255>;
//!     uint64 epoch;
//!     Sender sender;
//!     opaque authenticated_data<0..2^32-1>;
//!     ContentType content_type;
//!     select (content_type) { ... } content;
//! } MLSPlaintextTBS;
//!
//! struct {
//!     MLSPlaintextTBS tbs;
//!     opaque signature<0..2^16-1>;
//!     optional<MAC> confirmation_tag;
//! } MLSPlaintextTBM;
//! ```

use openmls_traits::crypto::OpenMlsCrypto;
use openmls_traits::OpenMlsCryptoProvider;
use vstd::prelude::*;

use crate::ciphertext::{content_type_byte, content_type_to_byte, tag_view};
use crate::codec::{opaque16, opaque32, opaque8, push_opaque, push_u64, u64_bytes, CodecError};
use crate::content_codec::{content_encodable, enc_content, enc_optional_tag, write_content};
use crate::crypto::{hkdf_extract, hkdf_extract_output, push_bytes, push_u32, u32_bytes, Secret};
use crate::framing::{
    Credential, MlsPlaintext, SenderType, VerifiableMlsPlaintext, WireFormat,
};

verus! {

/// What signature verification returns for a signature scheme, the signed
/// data, a public key and a signature.
pub uninterp spec fn signature_valid(scheme: u16, data: Seq<u8>, public_key: Seq<u8>, signature: Seq<u8>) -> bool;

/// `OpenMlsCrypto::verify_signature` of the rust-crypto backend, for the
/// scheme with the given code. Whether a signature verifies is named by
/// `signature_valid`; the backend verifies ECDSA P-256 (0x0403) and Ed25519
/// (0x0807) signatures and refuses every other scheme.
#[verifier::external_body]
pub(crate) fn verify_signature(
    backend: &openmls_rust_crypto::OpenMlsRustCrypto,
    scheme: u16,
    data: &[u8],
    public_key: &[u8],
    signature: &[u8],
) -> (valid: bool)
    ensures
        valid == signature_valid(scheme, data@, public_key@, signature@),
        scheme != 0x0403 && scheme != 0x0807 ==> !valid,
{
    match openmls_traits::types::SignatureScheme::try_from(scheme) {
        Ok(s) => backend.crypto().verify_signature(s, data, public_key, signature).is_ok(),
        Err(_) => false,
    }
}

/// A public signature key and its scheme.
pub struct SignaturePublicKey {
    pub signature_scheme: u16,
    pub value: Vec<u8>,
}

/// The byte that encodes a wire format.
pub open spec fn wire_format_byte(w: WireFormat) -> u8 {
    match w {
        WireFormat::MlsPlaintext => 1,
        WireFormat::MlsCiphertext => 2,
    }
}

/// The byte that encodes a sender type.
pub open spec fn sender_type_byte(t: SenderType) -> u8 {
    match t {
        SenderType::Member => 1,
        SenderType::Preconfigured => 2,
        SenderType::NewMember => 3,
    }
}

/// The serialized group context attached to a plaintext, if any.
pub open spec fn context_bytes(p: VerifiableMlsPlaintext) -> Seq<u8> {
    match p.serialized_context {
        Some(c) => c@,
        None => Seq::empty(),
    }
}

/// The encoding of the content that a plaintext's signature covers, with the
/// given serialized group context in front: then the framing fields and the
/// content.
pub open spec fn tbs_bytes_with(p: VerifiableMlsPlaintext, context: Seq<u8>) -> Seq<u8> {
    context + seq![wire_format_byte(p.wire_format)] + opaque8(p.group_id.value@) + u64_bytes(
        p.epoch.0 as nat,
    ) + seq![sender_type_byte(p.sender.sender_type)] + u32_bytes(p.sender.sender as nat) + opaque32(
        p.authenticated_data@,
    ) + seq![content_type_byte(p.content.spec_content_type())] + enc_content(p.content.spec_view())
}

/// The encoding of the content that a plaintext's signature covers, with its
/// attached group context.
pub open spec fn tbs_bytes(p: VerifiableMlsPlaintext) -> Seq<u8> {
    tbs_bytes_with(p, context_bytes(p))
}

/// Whether the signed content of a plaintext can be encoded.
pub open spec fn tbs_encodable(p: VerifiableMlsPlaintext) -> bool {
    &&& p.group_id.value@.len() <= 0xff
    &&& p.authenticated_data@.len() <= 0xffff_ffff
    &&& content_encodable(p.content.spec_view())
}

/// The encoding of what a membership tag covers, with the given serialized
/// group context: the signed content, the signature and the confirmation tag.
pub open spec fn tbm_bytes_with(p: VerifiableMlsPlaintext, context: Seq<u8>) -> Seq<u8> {
    tbs_bytes_with(p, context) + opaque16(p.signature@) + enc_optional_tag(
        tag_view(p.confirmation_tag),
    )
}

/// The encoding of what a membership tag covers, with the attached context.
pub open spec fn tbm_bytes(p: VerifiableMlsPlaintext) -> Seq<u8> {
    tbm_bytes_with(p, context_bytes(p))
}

/// Whether what a membership tag covers can be encoded.
pub open spec fn tbm_encodable(p: VerifiableMlsPlaintext) -> bool {
    &&& tbs_encodable(p)
    &&& p.signature@.len() <= 0xffff
    &&& (tag_view(p.confirmation_tag) matches Some(m) ==> m.len() <= 0xff)
}

/// The membership tag a member computes for a plaintext with the given
/// serialized group context: the MAC, that is HKDF-Extract with the
/// membership key as salt, of what the tag covers.
pub open spec fn membership_tag_with(p: VerifiableMlsPlaintext, context: Seq<u8>, membership_key: Secret) -> Seq<u8> {
    hkdf_extract_output(
        membership_key.ciphersuite.spec_hash_algorithm(),
        membership_key.value@,
        tbm_bytes_with(p, context),
    )
}

/// The membership tag of a plaintext with its attached context.
pub open spec fn membership_tag_of(p: VerifiableMlsPlaintext, membership_key: Secret) -> Seq<u8> {
    membership_tag_with(p, context_bytes(p), membership_key)
}

/// Encodes the content that a plaintext's signature covers.
pub fn serialize_tbs(p: &VerifiableMlsPlaintext) -> (res: Result<Vec<u8>, CodecError>)
    ensures
        res is Ok <==> tbs_encodable(*p),
        res matches Ok(v) ==> v@ == tbs_bytes(*p),
        res matches Err(e) ==> e == CodecError::EncodingError,
{
    let mut buf: Vec<u8> = Vec::new();
    match &p.serialized_context {
        Some(c) => push_bytes(&mut buf, c.as_slice()),
        None => {},
    }
    buf.push(match p.wire_format {
        WireFormat::MlsPlaintext => 1u8,
        WireFormat::MlsCiphertext => 2u8,
    });
    push_opaque(&mut buf, p.group_id.value.as_slice(), 1)?;
    push_u64(&mut buf, p.epoch.0);
    buf.push(match p.sender.sender_type {
        SenderType::Member => 1u8,
        SenderType::Preconfigured => 2u8,
        SenderType::NewMember => 3u8,
    });
    push_u32(&mut buf, p.sender.sender);
    push_opaque(&mut buf, p.authenticated_data.as_slice(), 4)?;
    buf.push(content_type_to_byte(p.content.content_type()));
    match write_content(&mut buf, &p.content) {
        Ok(()) => {},
        Err(_) => return Err(CodecError::EncodingError),
    }
    assert(buf@ =~= tbs_bytes(*p));
    Ok(buf)
}

/// Encodes what a membership tag covers.
pub fn serialize_tbm(p: &VerifiableMlsPlaintext) -> (res: Result<Vec<u8>, CodecError>)
    ensures
        res is Ok <==> tbm_encodable(*p),
        res matches Ok(v) ==> v@ == tbm_bytes(*p),
        res matches Err(e) ==> e == CodecError::EncodingError,
{
    let mut buf = serialize_tbs(p)?;
    push_opaque(&mut buf, p.signature.as_slice(), 2)?;
    match &p.confirmation_tag {
        None => buf.push(0u8),
        Some(t) => {
            buf.push(1u8);
            push_opaque(&mut buf, t.0.mac_value.as_slice(), 1)?;
        },
    }
    assert(buf@ =~= tbm_bytes(*p));
    Ok(buf)
}

/// Whether two byte strings are equal.
pub fn bytes_equal(a: &[u8], b: &[u8]) -> (eq: bool)
    ensures
        eq == (a@ == b@),
{
    if a.len() != b.len() {
        return false;
    }
    let mut i: usize = 0;
    while i < a.len()
        invariant
            a@.len() == b@.len(),
            i <= a@.len(),
            forall|j: int| 0 <= j < i ==> a@[j] == b@[j],
        decreases a@.len() - i,
    {
        if a[i] != b[i] {
            return false;
        }
        i = i + 1;
    }
    assert(a@ =~= b@);
    true
}

/// Computes the membership tag of a plaintext under a membership key.
pub fn compute_membership_tag(
    p: &VerifiableMlsPlaintext,
    backend: &openmls_rust_crypto::OpenMlsRustCrypto,
    membership_key: &Secret,
) -> (res: Result<Vec<u8>, CodecError>)
    ensures
        res is Ok <==> tbm_encodable(*p),
        res matches Ok(t) ==> t@ == membership_tag_of(*p, *membership_key),
        res matches Err(e) ==> e == CodecError::EncodingError,
{
    let tbm = serialize_tbm(p)?;
    match hkdf_extract(
        backend,
        membership_key.ciphersuite.hash_algorithm(),
        membership_key.value.as_slice(),
        tbm.as_slice(),
    ) {
        Ok(t) => Ok(t),
        Err(_) => Err(CodecError::EncodingError),
    }
}

/// Whether `signature` over `payload` verifies with the credential's key.
pub fn credential_verifies(
    credential: &Credential,
    backend: &openmls_rust_crypto::OpenMlsRustCrypto,
    payload: &[u8],
    signature: &[u8],
) -> (valid: bool)
    ensures
        valid == signature_valid(
            credential.signature_scheme,
            payload@,
            credential.signature_key@,
            signature@,
        ),
{
    verify_signature(
        backend,
        credential.signature_scheme,
        payload,
        credential.signature_key.as_slice(),
        signature,
    )
}

/// The plaintext of a verifiable one, once its signature was checked.
pub open spec fn verified_plaintext(p: VerifiableMlsPlaintext, v: MlsPlaintext) -> bool {
    &&& v.wire_format == p.wire_format
    &&& v.group_id == p.group_id
    &&& v.epoch == p.epoch
    &&& v.sender == p.sender
    &&& v.authenticated_data == p.authenticated_data
    &&& v.content == p.content
    &&& v.signature == p.signature
    &&& v.confirmation_tag == p.confirmation_tag
    &&& v.membership_tag == p.membership_tag
}

impl VerifiableMlsPlaintext {
    /// The plaintext, with the serialized context left behind.
    pub fn into_plaintext(self) -> (v: MlsPlaintext)
        ensures
            verified_plaintext(self, v),
    {
        MlsPlaintext {
            wire_format: self.wire_format,
            group_id: self.group_id,
            epoch: self.epoch,
            sender: self.sender,
            authenticated_data: self.authenticated_data,
            content: self.content,
            signature: self.signature,
            confirmation_tag: self.confirmation_tag,
            membership_tag: self.membership_tag,
        }
    }

    /// Checks the membership tag (ValSem008): it must be present and equal to
    /// the tag the membership key gives.
    pub fn verify_membership(
        &self,
        backend: &openmls_rust_crypto::OpenMlsRustCrypto,
        membership_key: &Secret,
    ) -> (res: Result<(), MembershipError>)
        ensures
            !tbm_encodable(*self) ==> res == Err::<(), MembershipError>(MembershipError::CodecError),
            tbm_encodable(*self) ==> match self.membership_tag {
                None => res == Err::<(), MembershipError>(MembershipError::MissingMembershipTag),
                Some(t) => if t.0.mac_value@ == membership_tag_of(*self, *membership_key) {
                    res is Ok
                } else {
                    res == Err::<(), MembershipError>(MembershipError::InvalidMembershipTag)
                },
            },
    {
        let expected = match compute_membership_tag(self, backend, membership_key) {
            Ok(t) => t,
            Err(_) => return Err(MembershipError::CodecError),
        };
        match &self.membership_tag {
            Some(t) => {
                if bytes_equal(t.0.mac_value.as_slice(), expected.as_slice()) {
                    Ok(())
                } else {
                    Err(MembershipError::InvalidMembershipTag)
                }
            },
            None => Err(MembershipError::MissingMembershipTag),
        }
    }

    /// Checks the signature with the credential's key and returns the
    /// verified plaintext.
    pub fn verify(self, backend: &openmls_rust_crypto::OpenMlsRustCrypto, credential: &Credential) -> (res:
        Result<MlsPlaintext, SignatureError>)
        ensures
            !tbs_encodable(self) ==> res == Err::<MlsPlaintext, SignatureError>(
                SignatureError::CodecError,
            ),
            tbs_encodable(self) ==> if signature_valid(
                credential.signature_scheme,
                tbs_bytes(self),
                credential.signature_key@,
                self.signature@,
            ) {
                res matches Ok(v) && verified_plaintext(self, v)
            } else {
                res == Err::<MlsPlaintext, SignatureError>(SignatureError::InvalidSignature)
            },
    {
        let payload = match serialize_tbs(&self) {
            Ok(p) => p,
            Err(_) => return Err(SignatureError::CodecError),
        };
        if credential_verifies(credential, backend, payload.as_slice(), self.signature.as_slice()) {
            Ok(self.into_plaintext())
        } else {
            Err(SignatureError::InvalidSignature)
        }
    }

    /// Checks the signature with the given public key and returns the
    /// verified plaintext.
    pub fn verify_with_key(
        self,
        backend: &openmls_rust_crypto::OpenMlsRustCrypto,
        signature_key: &SignaturePublicKey,
    ) -> (res: Result<MlsPlaintext, SignatureError>)
        ensures
            !tbs_encodable(self) ==> res == Err::<MlsPlaintext, SignatureError>(
                SignatureError::CodecError,
            ),
            tbs_encodable(self) ==> if signature_valid(
                signature_key.signature_scheme,
                tbs_bytes(self),
                signature_key.value@,
                self.signature@,
            ) {
                res matches Ok(v) && verified_plaintext(self, v)
            } else {
                res == Err::<MlsPlaintext, SignatureError>(SignatureError::InvalidSignature)
            },
    {
        let payload = match serialize_tbs(&self) {
            Ok(p) => p,
            Err(_) => return Err(SignatureError::CodecError),
        };
        if verify_signature(
            backend,
            signature_key.signature_scheme,
            payload.as_slice(),
            signature_key.value.as_slice(),
            self.signature.as_slice(),
        ) {
            Ok(self.into_plaintext())
        } else {
            Err(SignatureError::InvalidSignature)
        }
    }
}

/// Errors of the membership tag check.
#[derive(Clone, Copy, Debug, PartialEq, Eq, Structural)]
pub enum MembershipError {
    MissingMembershipTag,
    InvalidMembershipTag,
    CodecError,
}

/// Errors of the signature check.
#[derive(Clone, Copy, Debug, PartialEq, Eq, Structural)]
pub enum SignatureError {
    InvalidSignature,
    CodecError,
}

} // verus!
