//! Encrypted framing: how a plaintext message is protected for the group as
//! an `MLSCiphertext`, and how a member recovers it.
//!
//! The content, its signature, its confirmation tag and zero padding are
//! encrypted under the key and nonce of the sender's ratchet generation, the
//! nonce's first four bytes masked by a random reuse guard. The sender's leaf
//! index, the generation and the reuse guard travel encrypted under a key and
//! nonce derived from the epoch's sender data secret and a sample of the
//! ciphertext.

use vstd::prelude::*;

use crate::ciphersuite::Ciphersuite;
use crate::codec::{
    be_u32, lemma_u32_roundtrip, opaque32, opaque8, parse_u32, push_opaque, push_u64, read_opaque,
    read_u8, u64_bytes, CodecError,
};
use crate::content_codec::{
    ciphertext_content_encodable, enc_ciphertext_content, enc_content, enc_optional_tag,
    lemma_ciphertext_content_roundtrip, lemma_skip_skip, parse_ciphertext_content, read_content,
    write_content, zeros,
};
use crate::crypto::{
    aead_decrypt, aead_encrypt, aead_open_output, aead_seal_output, expand_with_label,
    expand_with_label_error, expand_with_label_ok, kdf_expand_label, push_bytes, push_u16, push_u32,
    random_vec, u16_bytes, u32_bytes, MlsCryptoError, Secret,
};
use crate::framing::{
    ConfirmationTag, ContentType, ContentView, GroupEpoch, GroupId, Mac, MlsPlaintext,
    MlsPlaintextContentType, Sender, SenderType, VerifiableMlsPlaintext, WireFormat,
};
use crate::message_secrets::MessageSecrets;
use crate::secret_tree::{
    law_author_cannot_decrypt, law_members_agree_on_message_keys, key_label, key_label_bytes, nonce_label, nonce_label_bytes, secret_type_of, SecretTree,
    SecretTreeError, SecretType,
};
use crate::sender_ratchet::{RatchetSecrets, SenderRatchetConfiguration};

verus! {

/// Errors of protecting and recovering messages.
#[derive(Clone, Copy, Debug, PartialEq, Eq, Structural)]
pub enum MlsCiphertextError {
    WrongWireFormat,
    InvalidContentType,
    GenerationOutOfBound,
    EncryptionError,
    DecryptionError,
    CodecError(CodecError),
    CryptoError(MlsCryptoError),
    SecretTreeError(SecretTreeError),
}

/// The byte that encodes a content type.
pub open spec fn content_type_byte(content_type: ContentType) -> u8 {
    match content_type {
        ContentType::Application => 1,
        ContentType::Proposal => 2,
        ContentType::Commit => 3,
    }
}

/// The content types are encoded as 1 (application), 2 (proposal) and 3
/// (commit): distinct types have distinct codes.
pub proof fn law_content_type_codes(a: ContentType, b: ContentType)
    ensures
        content_type_byte(ContentType::Application) == 1,
        content_type_byte(ContentType::Proposal) == 2,
        content_type_byte(ContentType::Commit) == 3,
        content_type_byte(a) == content_type_byte(b) ==> a == b,
{
}

/// Encodes a content type.
pub fn content_type_to_byte(content_type: ContentType) -> (b: u8)
    ensures
        b == content_type_byte(content_type),
{
    match content_type {
        ContentType::Application => 1,
        ContentType::Proposal => 2,
        ContentType::Commit => 3,
    }
}

/// Four random bytes that mask the first bytes of the content nonce, so that a
/// nonce is not reused when a ratchet generation is.
pub struct ReuseGuard {
    pub value: [u8; 4],
}

impl ReuseGuard {
    /// A reuse guard from the backend's random number generator.
    pub fn try_from_random(backend: &openmls_rust_crypto::OpenMlsRustCrypto) -> (res: Result<
        Self,
        MlsCryptoError,
    >)
        ensures
            res matches Err(e) ==> e == MlsCryptoError::InsufficientRandomness,
    {
        match random_vec(backend, 4) {
            Some(v) => Ok(ReuseGuard { value: [v[0], v[1], v[2], v[3]] }),
            None => Err(MlsCryptoError::InsufficientRandomness),
        }
    }
}

/// `nonce` with its first four bytes masked by `reuse_guard`.
pub open spec fn xor_nonce(nonce: Seq<u8>, reuse_guard: Seq<u8>) -> Seq<u8> {
    Seq::new(
        nonce.len(),
        |i: int|
            if i < 4 {
                nonce[i] ^ reuse_guard[i]
            } else {
                nonce[i]
            },
    )
}

/// Masks the first four bytes of a nonce with a reuse guard.
pub fn xor_with_reuse_guard(nonce: &mut Vec<u8>, reuse_guard: &ReuseGuard)
    requires
        old(nonce)@.len() >= 4,
    ensures
        final(nonce)@ == xor_nonce(old(nonce)@, reuse_guard.value@),
{
    let mut i: usize = 0;
    while i < 4
        invariant
            i <= 4,
            old(nonce)@.len() >= 4,
            nonce@.len() == old(nonce)@.len(),
            forall|j: int|
                0 <= j < nonce@.len() ==> #[trigger] nonce@[j] == if j < i {
                    old(nonce)@[j] ^ reuse_guard.value@[j]
                } else {
                    old(nonce)@[j]
                },
        decreases 4 - i,
    {
        let b = nonce[i] ^ reuse_guard.value[i];
        nonce.set(i, b);
        i = i + 1;
    }
    assert(nonce@ =~= xor_nonce(old(nonce)@, reuse_guard.value@));
}

/// The sender data: who sent a message, with which generation of its
/// ratchet, and the reuse guard of its nonce.
pub struct MlsSenderData {
    pub sender: u32,
    pub generation: u32,
    pub reuse_guard: ReuseGuard,
}

/// The encoding of the sender data.
pub open spec fn sender_data_bytes(sender: u32, generation: u32, reuse_guard: Seq<u8>) -> Seq<u8> {
    u32_bytes(sender as nat) + u32_bytes(generation as nat) + reuse_guard
}

/// What the first twelve bytes of `s` read as: sender, generation and reuse
/// guard. Bytes after them are not read.
pub open spec fn parse_sender_data(s: Seq<u8>) -> Option<(u32, u32, Seq<u8>)> {
    if s.len() < 12 {
        None
    } else {
        Some(
            (
                be_u32(s) as u32,
                be_u32(s.skip(4)) as u32,
                s.subrange(8, 12),
            ),
        )
    }
}

impl MlsSenderData {
    /// The sender data as plain values.
    pub open spec fn spec_view(&self) -> (u32, u32, Seq<u8>) {
        (self.sender, self.generation, self.reuse_guard.value@)
    }

    pub fn new(sender: u32, generation: u32, reuse_guard: ReuseGuard) -> (s: Self)
        ensures
            s.sender == sender,
            s.generation == generation,
            s.reuse_guard == reuse_guard,
    {
        MlsSenderData { sender, generation, reuse_guard }
    }

    /// Encodes the sender data.
    pub fn tls_serialize_detached(&self) -> (v: Vec<u8>)
        ensures
            v@ == sender_data_bytes(self.sender, self.generation, self.reuse_guard.value@),
    {
        let mut v: Vec<u8> = Vec::new();
        push_u32(&mut v, self.sender);
        push_u32(&mut v, self.generation);
        push_bytes(&mut v, self.reuse_guard.value.as_slice());
        assert(v@ =~= sender_data_bytes(self.sender, self.generation, self.reuse_guard.value@));
        v
    }

    /// Decodes sender data from the front of `bytes`.
    pub fn tls_deserialize(bytes: &[u8]) -> (res: Result<Self, CodecError>)
        ensures
            match parse_sender_data(bytes@) {
                Some(v) => res matches Ok(s) && s.spec_view() == v,
                None => res == Err::<Self, CodecError>(CodecError::EndOfStream),
            },
    {
        if bytes.len() < 12 {
            return Err(CodecError::EndOfStream);
        }
        let (sender, p1) = match crate::codec::read_u32(bytes, 0) {
            Some(r) => r,
            None => return Err(CodecError::EndOfStream),
        };
        assert(bytes@.skip(0) =~= bytes@);
        let (generation, p2) = match crate::codec::read_u32(bytes, 4) {
            Some(r) => r,
            None => return Err(CodecError::EndOfStream),
        };
        let reuse_guard = ReuseGuard { value: [bytes[8], bytes[9], bytes[10], bytes[11]] };
        assert(reuse_guard.value@ =~= bytes@.subrange(8, 12));
        Ok(MlsSenderData { sender, generation, reuse_guard })
    }
}

/// Encoded sender data read back as itself.
pub proof fn lemma_sender_data_roundtrip(sender: u32, generation: u32, reuse_guard: Seq<u8>)
    requires
        reuse_guard.len() == 4,
    ensures
        parse_sender_data(sender_data_bytes(sender, generation, reuse_guard)) == Some(
            (sender, generation, reuse_guard),
        ),
{
    let s = sender_data_bytes(sender, generation, reuse_guard);
    lemma_u32_roundtrip(sender as nat);
    lemma_u32_roundtrip(generation as nat);
    assert(s.subrange(0, 4) =~= u32_bytes(sender as nat));
    assert(be_u32(s) == be_u32(u32_bytes(sender as nat)));
    assert(s.skip(4).subrange(0, 4) =~= u32_bytes(generation as nat));
    assert(be_u32(s.skip(4)) == be_u32(u32_bytes(generation as nat)));
    assert(s.subrange(8, 12) =~= reuse_guard);
}

/// The associated data of the sender data: group, epoch and content type.
pub open spec fn sender_data_aad_bytes(group_id: Seq<u8>, epoch: u64, content_type: ContentType) -> Seq<
    u8,
> {
    opaque8(group_id) + u64_bytes(epoch as nat) + seq![content_type_byte(content_type)]
}

/// The associated data of the content: group, epoch, content type and the
/// message's authenticated data.
pub open spec fn content_aad_bytes(
    group_id: Seq<u8>,
    epoch: u64,
    content_type: ContentType,
    authenticated_data: Seq<u8>,
) -> Seq<u8> {
    sender_data_aad_bytes(group_id, epoch, content_type) + opaque32(authenticated_data)
}

/// The associated data of the sender data of a message.
pub struct MlsSenderDataAad {
    pub group_id: GroupId,
    pub epoch: GroupEpoch,
    pub content_type: ContentType,
}

impl MlsSenderDataAad {
    pub fn new(group_id: GroupId, epoch: GroupEpoch, content_type: ContentType) -> (a: Self)
        ensures
            a.group_id == group_id,
            a.epoch == epoch,
            a.content_type == content_type,
    {
        MlsSenderDataAad { group_id, epoch, content_type }
    }

    /// Encodes the associated data; fails when the group identifier is longer
    /// than 255 bytes.
    pub fn tls_serialize_detached(&self) -> (res: Result<Vec<u8>, CodecError>)
        ensures
            self.group_id.value@.len() <= 0xff ==> (res matches Ok(v) && v@
                == sender_data_aad_bytes(self.group_id.value@, self.epoch.0, self.content_type)),
            self.group_id.value@.len() > 0xff ==> res == Err::<Vec<u8>, CodecError>(
                CodecError::EncodingError,
            ),
    {
        let mut v: Vec<u8> = Vec::new();
        push_opaque(&mut v, self.group_id.value.as_slice(), 1)?;
        push_u64(&mut v, self.epoch.0);
        v.push(content_type_to_byte(self.content_type));
        assert(v@ =~= sender_data_aad_bytes(self.group_id.value@, self.epoch.0, self.content_type));
        Ok(v)
    }
}

/// Encodes the associated data of a content; fails when the group identifier
/// is longer than 255 bytes or the authenticated data longer than 2^32 - 1.
pub fn serialize_content_aad(
    group_id: &GroupId,
    epoch: GroupEpoch,
    content_type: ContentType,
    authenticated_data: &[u8],
) -> (res: Result<Vec<u8>, CodecError>)
    ensures
        group_id.value@.len() <= 0xff && authenticated_data@.len() <= 0xffff_ffff ==> (res matches Ok(v)
            && v@ == content_aad_bytes(group_id.value@, epoch.0, content_type, authenticated_data@)),
        !(group_id.value@.len() <= 0xff && authenticated_data@.len() <= 0xffff_ffff) ==> res
            == Err::<Vec<u8>, CodecError>(CodecError::EncodingError),
{
    let mut v: Vec<u8> = Vec::new();
    push_opaque(&mut v, group_id.value.as_slice(), 1)?;
    push_u64(&mut v, epoch.0);
    v.push(content_type_to_byte(content_type));
    push_opaque(&mut v, authenticated_data, 4)?;
    assert(v@ =~= content_aad_bytes(group_id.value@, epoch.0, content_type, authenticated_data@));
    Ok(v)
}

/// The sample of a ciphertext that sender data keys are derived from: its
/// first hash-length bytes, or all of it when it is shorter.
pub open spec fn ciphertext_sample(ciphersuite: Ciphersuite, ciphertext: Seq<u8>) -> Seq<u8> {
    if ciphertext.len() <= ciphersuite.spec_hash_length() {
        ciphertext
    } else {
        ciphertext.take(ciphersuite.spec_hash_length() as int)
    }
}

/// The sample of a ciphertext is its prefix of a hash output's length (all of
/// it when it is shorter): its bytes are the ciphertext's first bytes, in
/// order.
pub proof fn law_sample_is_prefix(ciphersuite: Ciphersuite, ciphertext: Seq<u8>)
    ensures
        ciphertext_sample(ciphersuite, ciphertext).len() == if ciphertext.len()
            <= ciphersuite.spec_hash_length() {
            ciphertext.len()
        } else {
            ciphersuite.spec_hash_length() as nat
        },
        forall|i: int|
            0 <= i < ciphertext_sample(ciphersuite, ciphertext).len() ==> #[trigger] ciphertext_sample(
                ciphersuite,
                ciphertext,
            )[i] == ciphertext[i],
{
}

/// The sender data of a ciphertext is sealed under
/// `ExpandWithLabel(sender_data_secret, "key", sample, key length)` and
/// `ExpandWithLabel(sender_data_secret, "nonce", sample, nonce length)`, with
/// the ASCII labels "key" and "nonce", where the sample is the ciphertext's
/// prefix (see `law_sample_is_prefix`).
pub proof fn law_sender_data_key_and_nonce(
    sender_data_secret: Secret,
    ciphersuite: Ciphersuite,
    ciphertext: Seq<u8>,
)
    ensures
        sender_data_key(sender_data_secret, ciphertext) == expand_with_label(
            sender_data_secret.value@,
            sender_data_secret.ciphersuite.spec_hash_algorithm(),
            seq![107u8, 101u8, 121u8],
            ciphertext_sample(sender_data_secret.ciphersuite, ciphertext),
            sender_data_secret.ciphersuite.spec_aead_key_length() as nat,
        ),
        sender_data_nonce(sender_data_secret, ciphersuite, ciphertext) == expand_with_label(
            sender_data_secret.value@,
            sender_data_secret.ciphersuite.spec_hash_algorithm(),
            seq![110u8, 111u8, 110u8, 99u8, 101u8],
            ciphertext_sample(ciphersuite, ciphertext),
            ciphersuite.spec_aead_nonce_length() as nat,
        ),
{
    assert(key_label() =~= seq![107u8, 101u8, 121u8]);
    assert(nonce_label() =~= seq![110u8, 111u8, 110u8, 99u8, 101u8]);
}

/// Takes the sample of a ciphertext.
pub fn sample_ciphertext<'a>(ciphersuite: &Ciphersuite, ciphertext: &'a [u8]) -> (s: &'a [u8])
    ensures
        s@ == ciphertext_sample(*ciphersuite, ciphertext@),
        s@.len() == if ciphertext@.len() <= ciphersuite.spec_hash_length() {
            ciphertext@.len()
        } else {
            ciphersuite.spec_hash_length() as nat
        },
        forall|i: int| 0 <= i < s@.len() ==> s@[i] == ciphertext@[i],
{
    let n = ciphersuite.hash_length();
    if ciphertext.len() <= n {
        ciphertext
    } else {
        let s = vstd::slice::slice_subrange(ciphertext, 0, n);
        assert(s@ =~= ciphertext@.take(n as int));
        s
    }
}

/// The key that protects the sender data of a ciphertext:
/// `ExpandWithLabel(sender_data_secret, "key", sample, key length)`, under the
/// secret's own ciphersuite.
pub open spec fn sender_data_key(sender_data_secret: Secret, ciphertext: Seq<u8>) -> Seq<u8> {
    let cs = sender_data_secret.ciphersuite;
    expand_with_label(
        sender_data_secret.value@,
        cs.spec_hash_algorithm(),
        key_label(),
        ciphertext_sample(cs, ciphertext),
        cs.spec_aead_key_length() as nat,
    )
}

/// Whether the sender data key can be derived.
pub open spec fn sender_data_key_ok(sender_data_secret: Secret, ciphertext: Seq<u8>) -> bool {
    let cs = sender_data_secret.ciphersuite;
    expand_with_label_ok(
        sender_data_secret.value@,
        cs.spec_hash_algorithm(),
        key_label(),
        ciphertext_sample(cs, ciphertext),
        cs.spec_aead_key_length() as nat,
    )
}

/// The nonce that protects the sender data of a ciphertext:
/// `ExpandWithLabel(sender_data_secret, "nonce", sample, nonce length)`.
pub open spec fn sender_data_nonce(
    sender_data_secret: Secret,
    ciphersuite: Ciphersuite,
    ciphertext: Seq<u8>,
) -> Seq<u8> {
    expand_with_label(
        sender_data_secret.value@,
        sender_data_secret.ciphersuite.spec_hash_algorithm(),
        nonce_label(),
        ciphertext_sample(ciphersuite, ciphertext),
        ciphersuite.spec_aead_nonce_length() as nat,
    )
}

/// Whether the sender data nonce can be derived.
pub open spec fn sender_data_nonce_ok(
    sender_data_secret: Secret,
    ciphersuite: Ciphersuite,
    ciphertext: Seq<u8>,
) -> bool {
    expand_with_label_ok(
        sender_data_secret.value@,
        sender_data_secret.ciphersuite.spec_hash_algorithm(),
        nonce_label(),
        ciphertext_sample(ciphersuite, ciphertext),
        ciphersuite.spec_aead_nonce_length() as nat,
    )
}

/// Derives the key that protects the sender data of a ciphertext.
pub fn derive_sender_data_key(
    sender_data_secret: &Secret,
    backend: &openmls_rust_crypto::OpenMlsRustCrypto,
    ciphertext: &[u8],
) -> (res: Result<Vec<u8>, MlsCryptoError>)
    ensures
        res is Ok <==> sender_data_key_ok(*sender_data_secret, ciphertext@),
        res matches Ok(k) ==> k@ == sender_data_key(*sender_data_secret, ciphertext@)
            && k@.len() == sender_data_secret.ciphersuite.spec_aead_key_length(),
        res matches Err(e) ==> e == expand_with_label_error(
            key_label(),
            ciphertext_sample(sender_data_secret.ciphersuite, ciphertext@),
            sender_data_secret.ciphersuite.spec_aead_key_length() as nat,
        ),
{
    let cs = sender_data_secret.ciphersuite;
    let sample = sample_ciphertext(&cs, ciphertext);
    let label = key_label_bytes();
    match kdf_expand_label(sender_data_secret, backend, label.as_slice(), sample, cs.aead_key_length()) {
        Ok(s) => Ok(s.value),
        Err(e) => Err(e),
    }
}

/// Derives the nonce that protects the sender data of a ciphertext.
pub fn derive_sender_data_nonce(
    sender_data_secret: &Secret,
    ciphersuite: &Ciphersuite,
    backend: &openmls_rust_crypto::OpenMlsRustCrypto,
    ciphertext: &[u8],
) -> (res: Result<Vec<u8>, MlsCryptoError>)
    ensures
        res is Ok <==> sender_data_nonce_ok(*sender_data_secret, *ciphersuite, ciphertext@),
        res matches Ok(n) ==> n@ == sender_data_nonce(*sender_data_secret, *ciphersuite, ciphertext@)
            && n@.len() == ciphersuite.spec_aead_nonce_length(),
        res matches Err(e) ==> e == expand_with_label_error(
            nonce_label(),
            ciphertext_sample(*ciphersuite, ciphertext@),
            ciphersuite.spec_aead_nonce_length() as nat,
        ),
{
    let sample = sample_ciphertext(ciphersuite, ciphertext);
    let label = nonce_label_bytes();
    match kdf_expand_label(
        sender_data_secret,
        backend,
        label.as_slice(),
        sample,
        ciphersuite.aead_nonce_length(),
    ) {
        Ok(s) => Ok(s.value),
        Err(e) => Err(e),
    }
}

/// The confirmation tag as plain values.
pub open spec fn tag_view(tag: Option<ConfirmationTag>) -> Option<Seq<u8>> {
    match tag {
        Some(t) => Some(t.0.mac_value@),
        None => None,
    }
}

/// How many zero bytes pad a content of `body_len` bytes so that, with the
/// two bytes of the padding's length and the AEAD tag, the ciphertext is a
/// multiple of `padding_size`; no padding when `padding_size` is 0.
pub open spec fn padding_length(body_len: nat, padding_size: nat, mac_len: nat) -> nat {
    if padding_size > 0 {
        ((padding_size as int - ((body_len + 2 + mac_len) as int % padding_size as int))
            % padding_size as int) as nat
    } else {
        0
    }
}

/// The length of a content, its signature and its confirmation tag, encoded.
pub open spec fn unpadded_length(c: ContentView, signature: Seq<u8>, tag: Option<Seq<u8>>) -> nat {
    enc_content(c).len() + 2 + signature.len() + enc_optional_tag(tag).len()
}

/// The padded `MLSCiphertextContent` of a plaintext.
pub open spec fn padded_content(p: MlsPlaintext, padding_size: nat, mac_len: nat) -> Seq<u8> {
    let c = p.content.spec_view();
    let sig = p.signature@;
    let tag = tag_view(p.confirmation_tag);
    enc_ciphertext_content(c, sig, tag, padding_length(unpadded_length(c, sig, tag), padding_size, mac_len))
}

/// Whether the padded `MLSCiphertextContent` of a plaintext can be encoded.
pub open spec fn padded_content_encodable(p: MlsPlaintext, padding_size: nat, mac_len: nat) -> bool {
    let c = p.content.spec_view();
    let sig = p.signature@;
    let tag = tag_view(p.confirmation_tag);
    &&& unpadded_length(c, sig, tag) + 2 + mac_len <= usize::MAX
    &&& ciphertext_content_encodable(
        c,
        sig,
        tag,
        padding_length(unpadded_length(c, sig, tag), padding_size, mac_len),
    )
}

/// Who sends a message, to which group and in which epoch.
pub struct MlsMessageHeader {
    pub group_id: GroupId,
    pub epoch: GroupEpoch,
    pub sender: u32,
}

/// The decrypted `MLSCiphertextContent`.
pub struct MlsCiphertextContent {
    pub content: MlsPlaintextContentType,
    pub signature: Vec<u8>,
    pub confirmation_tag: Option<ConfirmationTag>,
    pub padding: Vec<u8>,
}

impl MlsCiphertextContent {
    /// The content, signature, confirmation tag and padding as plain values.
    pub open spec fn spec_view(&self) -> (ContentView, Seq<u8>, Option<Seq<u8>>, Seq<u8>) {
        (self.content.spec_view(), self.signature@, tag_view(self.confirmation_tag), self.padding@)
    }

    /// Decodes an `MLSCiphertextContent` of the given content type from the
    /// front of `bytes`.
    pub fn deserialize(content_type: ContentType, bytes: &[u8]) -> (res: Result<Self, CodecError>)
        ensures
            match parse_ciphertext_content(content_type, bytes@) {
                Some(v) => res matches Ok(c) && c.spec_view() == v,
                None => res == Err::<Self, CodecError>(CodecError::DecodingError),
            },
    {
        assert(bytes@.skip(0) =~= bytes@);
        let (content, p1) = match read_content(bytes, 0, content_type) {
            Some(r) => r,
            None => return Err(CodecError::DecodingError),
        };
        proof { lemma_skip_skip(bytes@, 0, p1 as int); }
        let (signature, p2) = match read_opaque(bytes, p1, 2) {
            Some(r) => r,
            None => return Err(CodecError::DecodingError),
        };
        proof { lemma_skip_skip(bytes@, 0, p2 as int); }
        let (tag, p3) = match read_u8(bytes, p2) {
            Some(r) => r,
            None => return Err(CodecError::DecodingError),
        };
        proof { lemma_skip_skip(bytes@, p2 as int, 1); }
        let (confirmation_tag, p4): (Option<ConfirmationTag>, usize) = if tag == 0 {
            (None, p3)
        } else if tag == 1 {
            match read_opaque(bytes, p3, 1) {
                Some((m, p)) => (Some(ConfirmationTag(Mac { mac_value: m })), p),
                None => return Err(CodecError::DecodingError),
            }
        } else {
            return Err(CodecError::DecodingError);
        };
        proof { lemma_skip_skip(bytes@, 0, p4 as int); }
        let (padding, p5) = match read_opaque(bytes, p4, 2) {
            Some(r) => r,
            None => return Err(CodecError::DecodingError),
        };
        Ok(MlsCiphertextContent { content, signature, confirmation_tag, padding })
    }
}

/// An encrypted message, as the delivery service carries it.
pub struct MlsCiphertext {
    wire_format: WireFormat,
    group_id: GroupId,
    epoch: GroupEpoch,
    content_type: ContentType,
    authenticated_data: Vec<u8>,
    encrypted_sender_data: Vec<u8>,
    ciphertext: Vec<u8>,
}

/// What encrypting `p` for the group yields: the fields of `c` come from the
/// plaintext and the header; its ciphertext is the padded content sealed
/// under `key` and `nonce` masked by the reuse guard, and decrypts back to
/// it; its encrypted sender data is the sender's index, the generation and
/// the reuse guard sealed under the key and nonce that the sender data
/// secret and the ciphertext give, and decrypts back to them.
pub open spec fn sealed(
    c: MlsCiphertext,
    p: MlsPlaintext,
    group_id: Seq<u8>,
    epoch: GroupEpoch,
    sender_data_secret: Secret,
    ciphersuite: Ciphersuite,
    key: Seq<u8>,
    nonce: Seq<u8>,
    generation: u32,
    reuse_guard: Seq<u8>,
    padding_size: nat,
) -> bool {
    let content_type = p.content.spec_content_type();
    let content = padded_content(p, padding_size, ciphersuite.spec_mac_length() as nat);
    let full_nonce = xor_nonce(nonce, reuse_guard);
    let aad = content_aad_bytes(group_id, epoch.0, content_type, p.authenticated_data@);
    let ct = aead_seal_output(ciphersuite.spec_aead_algorithm(), key, content, full_nonce, aad);
    let sd = sender_data_bytes(p.sender.sender, generation, reuse_guard);
    let sd_aad = sender_data_aad_bytes(group_id, epoch.0, content_type);
    let sd_key = sender_data_key(sender_data_secret, ct);
    let sd_nonce = sender_data_nonce(sender_data_secret, ciphersuite, ct);
    let sd_alg = sender_data_secret.ciphersuite.spec_aead_algorithm();
    &&& group_id.len() <= 0xff
    &&& p.authenticated_data@.len() <= 0xffff_ffff
    &&& padded_content_encodable(p, padding_size, ciphersuite.spec_mac_length() as nat)
    &&& key.len() == ciphersuite.spec_aead_key_length()
    &&& c.spec_wire_format() == WireFormat::MlsCiphertext
    &&& c.spec_group_id() == group_id
    &&& c.spec_epoch() == epoch
    &&& c.spec_content_type() == content_type
    &&& c.spec_authenticated_data() == p.authenticated_data@
    &&& c.spec_ciphertext() == ct
    &&& ct.len() == content.len() + ciphersuite.spec_mac_length()
    &&& aead_open_output(ciphersuite.spec_aead_algorithm(), key, ct, full_nonce, aad) == Some(content)
    &&& sender_data_key_ok(sender_data_secret, ct)
    &&& sender_data_nonce_ok(sender_data_secret, ciphersuite, ct)
    &&& c.spec_encrypted_sender_data() == aead_seal_output(sd_alg, sd_key, sd, sd_nonce, sd_aad)
    &&& aead_open_output(sd_alg, sd_key, c.spec_encrypted_sender_data(), sd_nonce, sd_aad) == Some(sd)
}

/// The first check that encrypting `p` fails before any key is used: the
/// associated data cannot be encoded, the padded content cannot be encoded,
/// or the key has the wrong length.
pub open spec fn seal_precheck(
    p: MlsPlaintext,
    group_id: Seq<u8>,
    ciphersuite: Ciphersuite,
    key: Seq<u8>,
    padding_size: nat,
) -> Option<MlsCiphertextError> {
    if !(group_id.len() <= 0xff && p.authenticated_data@.len() <= 0xffff_ffff) {
        Some(MlsCiphertextError::CodecError(CodecError::EncodingError))
    } else if !padded_content_encodable(p, padding_size, ciphersuite.spec_mac_length() as nat) {
        Some(MlsCiphertextError::CodecError(CodecError::EncodingError))
    } else if key.len() != ciphersuite.spec_aead_key_length() {
        Some(MlsCiphertextError::EncryptionError)
    } else {
        None
    }
}

/// What decrypting the sender data of `c` yields: the sender, the generation
/// and the reuse guard, or the error of the first step that fails.
pub open spec fn sender_data_outcome(
    c: MlsCiphertext,
    sender_data_secret: Secret,
    ciphersuite: Ciphersuite,
) -> Result<(u32, u32, Seq<u8>), MlsCiphertextError> {
    let ct = c.spec_ciphertext();
    let sd_cs = sender_data_secret.ciphersuite;
    if c.spec_wire_format() != WireFormat::MlsCiphertext {
        Err(MlsCiphertextError::WrongWireFormat)
    } else if !sender_data_key_ok(sender_data_secret, ct) {
        Err(
            MlsCiphertextError::CryptoError(
                expand_with_label_error(
                    key_label(),
                    ciphertext_sample(sd_cs, ct),
                    sd_cs.spec_aead_key_length() as nat,
                ),
            ),
        )
    } else if !sender_data_nonce_ok(sender_data_secret, ciphersuite, ct) {
        Err(
            MlsCiphertextError::CryptoError(
                expand_with_label_error(
                    nonce_label(),
                    ciphertext_sample(ciphersuite, ct),
                    ciphersuite.spec_aead_nonce_length() as nat,
                ),
            ),
        )
    } else if c.spec_group_id().len() > 0xff {
        Err(MlsCiphertextError::CodecError(CodecError::EncodingError))
    } else {
        match aead_open_output(
            sd_cs.spec_aead_algorithm(),
            sender_data_key(sender_data_secret, ct),
            c.spec_encrypted_sender_data(),
            sender_data_nonce(sender_data_secret, ciphersuite, ct),
            sender_data_aad_bytes(c.spec_group_id(), c.spec_epoch().0, c.spec_content_type()),
        ) {
            None => Err(MlsCiphertextError::DecryptionError),
            Some(b) => match parse_sender_data(b) {
                None => Err(MlsCiphertextError::CodecError(CodecError::EndOfStream)),
                Some(v) => Ok(v),
            },
        }
    }
}

/// What decrypting the content of `c` with `key` and the masked `nonce`
/// yields: content, signature, confirmation tag and padding, or the error of
/// the first step that fails.
pub open spec fn content_outcome(
    c: MlsCiphertext,
    key: Seq<u8>,
    nonce: Seq<u8>,
    ciphersuite: Ciphersuite,
) -> Result<(ContentView, Seq<u8>, Option<Seq<u8>>, Seq<u8>), MlsCiphertextError> {
    if !(c.spec_group_id().len() <= 0xff && c.spec_authenticated_data().len() <= 0xffff_ffff) {
        Err(MlsCiphertextError::CodecError(CodecError::EncodingError))
    } else if key.len() != ciphersuite.spec_aead_key_length() {
        Err(MlsCiphertextError::DecryptionError)
    } else {
        match aead_open_output(
            ciphersuite.spec_aead_algorithm(),
            key,
            c.spec_ciphertext(),
            nonce,
            content_aad_bytes(
                c.spec_group_id(),
                c.spec_epoch().0,
                c.spec_content_type(),
                c.spec_authenticated_data(),
            ),
        ) {
            None => Err(MlsCiphertextError::DecryptionError),
            Some(b) => match parse_ciphertext_content(c.spec_content_type(), b) {
                None => Err(MlsCiphertextError::CodecError(CodecError::DecodingError)),
                Some(v) => Ok(v),
            },
        }
    }
}

impl MlsCiphertext {
    pub closed spec fn spec_wire_format(&self) -> WireFormat {
        self.wire_format
    }

    pub closed spec fn spec_group_id(&self) -> Seq<u8> {
        self.group_id.value@
    }

    pub closed spec fn spec_epoch(&self) -> GroupEpoch {
        self.epoch
    }

    pub closed spec fn spec_content_type(&self) -> ContentType {
        self.content_type
    }

    pub closed spec fn spec_authenticated_data(&self) -> Seq<u8> {
        self.authenticated_data@
    }

    pub closed spec fn spec_encrypted_sender_data(&self) -> Seq<u8> {
        self.encrypted_sender_data@
    }

    pub closed spec fn spec_ciphertext(&self) -> Seq<u8> {
        self.ciphertext@
    }

    /// Assembles a ciphertext message from its fields.
    pub fn new(
        wire_format: WireFormat,
        group_id: GroupId,
        epoch: GroupEpoch,
        content_type: ContentType,
        authenticated_data: Vec<u8>,
        encrypted_sender_data: Vec<u8>,
        ciphertext: Vec<u8>,
    ) -> (c: Self)
        ensures
            c.spec_wire_format() == wire_format,
            c.spec_group_id() == group_id.value@,
            c.spec_epoch() == epoch,
            c.spec_content_type() == content_type,
            c.spec_authenticated_data() == authenticated_data@,
            c.spec_encrypted_sender_data() == encrypted_sender_data@,
            c.spec_ciphertext() == ciphertext@,
    {
        MlsCiphertext {
            wire_format,
            group_id,
            epoch,
            content_type,
            authenticated_data,
            encrypted_sender_data,
            ciphertext,
        }
    }

    /// Encodes the content, signature and confirmation tag of a plaintext with
    /// zero padding, so that with the padding's length and the AEAD tag the
    /// ciphertext is a multiple of `padding_size` bytes.
    pub fn encode_padded_ciphertext_content_detached(
        mls_plaintext: &MlsPlaintext,
        padding_size: usize,
        mac_len: usize,
    ) -> (res: Result<Vec<u8>, CodecError>)
        ensures
            res is Ok <==> padded_content_encodable(*mls_plaintext, padding_size as nat, mac_len as nat),
            res matches Ok(v) ==> v@ == padded_content(*mls_plaintext, padding_size as nat, mac_len as nat),
            res matches Err(e) ==> e == CodecError::EncodingError,
    {
        let ghost c = mls_plaintext.content.spec_view();
        let ghost sig = mls_plaintext.signature@;
        let ghost tag = tag_view(mls_plaintext.confirmation_tag);
        let mut buffer: Vec<u8> = Vec::new();
        match write_content(&mut buffer, &mls_plaintext.content) {
            Ok(()) => {},
            Err(_) => return Err(CodecError::EncodingError),
        }
        push_opaque(&mut buffer, mls_plaintext.signature.as_slice(), 2)?;
        match &mls_plaintext.confirmation_tag {
            None => {
                buffer.push(0u8);
            },
            Some(t) => {
                buffer.push(1u8);
                push_opaque(&mut buffer, t.0.mac_value.as_slice(), 1)?;
            },
        }
        assert(buffer@ =~= enc_content(c) + u16_bytes(sig.len()) + sig + enc_optional_tag(tag));
        let ghost body_len = unpadded_length(c, sig, tag);
        assert(buffer@.len() == body_len);
        if buffer.len() > usize::MAX - 2 || buffer.len() + 2 > usize::MAX - mac_len {
            return Err(CodecError::EncodingError);
        }
        let pad_len: usize = if padding_size > 0 {
            let padding_offset = buffer.len() + 2 + mac_len;
            (padding_size - (padding_offset % padding_size)) % padding_size
        } else {
            0
        };
        assert(pad_len == padding_length(body_len, padding_size as nat, mac_len as nat));
        if pad_len > 0xffff {
            return Err(CodecError::EncodingError);
        }
        let mut padding: Vec<u8> = Vec::new();
        let mut i: usize = 0;
        while i < pad_len
            invariant
                i <= pad_len,
                padding@ == crate::content_codec::zeros(i as nat),
            decreases pad_len - i,
        {
            padding.push(0u8);
            i = i + 1;
            assert(padding@ =~= crate::content_codec::zeros(i as nat));
        }
        push_opaque(&mut buffer, padding.as_slice(), 2)?;
        assert(buffer@ =~= enc_ciphertext_content(c, sig, tag, pad_len as nat));
        Ok(buffer)
    }
}

/// Whether the sender data secret can key the sender data of any ciphertext:
/// it is at least a hash output of its ciphersuite long.
pub open spec fn sender_data_secret_usable(sender_data_secret: Secret) -> bool {
    sender_data_secret.value@.len() >= sender_data_secret.ciphersuite.spec_hash_algorithm().spec_size()
}

/// A usable sender data secret gives the sender data key and nonce of every
/// ciphertext.
pub proof fn lemma_sender_data_secret_usable(sender_data_secret: Secret, ciphersuite: Ciphersuite)
    requires
        sender_data_secret_usable(sender_data_secret),
    ensures
        forall|ct: Seq<u8>| #[trigger] sender_data_key_ok(sender_data_secret, ct),
        forall|ct: Seq<u8>| #[trigger] sender_data_nonce_ok(sender_data_secret, ciphersuite, ct),
{
    assert forall|ct: Seq<u8>| #[trigger] sender_data_key_ok(sender_data_secret, ct) by {
        let cs = sender_data_secret.ciphersuite;
        assert(ciphertext_sample(cs, ct).len() <= cs.spec_hash_length());
    }
    assert forall|ct: Seq<u8>| #[trigger] sender_data_nonce_ok(sender_data_secret, ciphersuite, ct) by {
        assert(ciphertext_sample(ciphersuite, ct).len() <= ciphersuite.spec_hash_length());
    }
}

/// Whether the group id and the authenticated data fit the encoding of the
/// associated data.
pub open spec fn header_encodable(p: MlsPlaintext, group_id: Seq<u8>) -> bool {
    group_id.len() <= 0xff && p.authenticated_data@.len() <= 0xffff_ffff
}

/// The generation that member `index`'s ratchet of type `secret_type` uses
/// next: that of its ratchet, or 0 when it is not initialized yet.
pub open spec fn next_generation(tree: SecretTree, index: u32, secret_type: SecretType) -> u32 {
    match tree.ratchet(index as int, secret_type) {
        Some(r) => r.spec_generation(),
        None => 0,
    }
}

/// A tree whose ratchet of member `index` and type `secret_type` can give the
/// next encryption secret: an initialized ratchet that is not exhausted, or
/// one that can be derived (some node on the leaf's path holds a secret, and
/// every derivation from the tree's secrets succeeds).
pub open spec fn can_encrypt(tree: SecretTree, ciphersuite: Ciphersuite, index: u32, secret_type: SecretType) -> bool {
    index < tree.spec_size() ==> match tree.ratchet(index as int, secret_type) {
        Some(r) => r.spec_generation() < u32::MAX,
        None => tree.derivations_succeed(ciphersuite) && tree.path_holds_secret(index as nat),
    }
}

/// Two message secrets that hold the same secrets besides the secret tree.
pub open spec fn same_secrets_but_tree(a: MessageSecrets, b: MessageSecrets) -> bool {
    &&& a.spec_sender_data_secret() == b.spec_sender_data_secret()
    &&& a.spec_membership_key() == b.spec_membership_key()
    &&& a.spec_confirmation_key() == b.spec_confirmation_key()
    &&& a.spec_serialized_context() == b.spec_serialized_context()
}

/// How a secret tree may change when a member's ratchet is used: its shape
/// and secrets stay, the other members' ratchets stay, and a tree that holds
/// what its secret derives still does.
pub open spec fn tree_evolves(old_tree: SecretTree, new_tree: SecretTree, index: u32, ciphersuite: Ciphersuite) -> bool {
    &&& new_tree.wf()
    &&& new_tree.spec_size() == old_tree.spec_size()
    &&& new_tree.spec_encryption_secret() == old_tree.spec_encryption_secret()
    &&& new_tree.spec_suite() == old_tree.spec_suite()
    &&& forall|j: int, t: SecretType|
        0 <= j < old_tree.spec_size() && j != index ==> #[trigger] new_tree.ratchet(j, t)
            == old_tree.ratchet(j, t)
    &&& old_tree.consistent() && ciphersuite == old_tree.spec_suite() ==> new_tree.consistent()
}

impl MlsCiphertext {
    /// Seals a plaintext with the key and nonce of generation `generation` of
    /// the sender's ratchet and the given reuse guard: encrypts the padded
    /// content, then the sender data under the key and nonce that the sender
    /// data secret and a sample of the ciphertext give.
    pub fn seal_with_ratchet_secrets(
        mls_plaintext: &MlsPlaintext,
        ciphersuite: &Ciphersuite,
        backend: &openmls_rust_crypto::OpenMlsRustCrypto,
        header: &MlsMessageHeader,
        sender_data_secret: &Secret,
        generation: u32,
        ratchet_secrets: RatchetSecrets,
        reuse_guard: ReuseGuard,
        padding_size: usize,
    ) -> (res: Result<MlsCiphertext, MlsCiphertextError>)
        requires
            ratchet_secrets.nonce@.len() == ciphersuite.spec_aead_nonce_length(),
        ensures
            seal_precheck(
                *mls_plaintext,
                header.group_id.value@,
                *ciphersuite,
                ratchet_secrets.key@,
                padding_size as nat,
            ) matches Some(e) ==> res == Err::<MlsCiphertext, MlsCiphertextError>(e),
            ({
                let content = padded_content(
                    *mls_plaintext,
                    padding_size as nat,
                    ciphersuite.spec_mac_length() as nat,
                );
                let aad = content_aad_bytes(
                    header.group_id.value@,
                    header.epoch.0,
                    mls_plaintext.content.spec_content_type(),
                    mls_plaintext.authenticated_data@,
                );
                let ct = aead_seal_output(
                    ciphersuite.spec_aead_algorithm(),
                    ratchet_secrets.key@,
                    content,
                    xor_nonce(ratchet_secrets.nonce@, reuse_guard.value@),
                    aad,
                );
                let sd_cs = sender_data_secret.ciphersuite;
                seal_precheck(
                    *mls_plaintext,
                    header.group_id.value@,
                    *ciphersuite,
                    ratchet_secrets.key@,
                    padding_size as nat,
                ) is None && content.len() <= 0xffff_ffff && aad.len() <= 0xffff_ffff ==> {
                    &&& !sender_data_key_ok(*sender_data_secret, ct) ==> res
                        == Err::<MlsCiphertext, MlsCiphertextError>(
                        MlsCiphertextError::CryptoError(
                            expand_with_label_error(
                                key_label(),
                                ciphertext_sample(sd_cs, ct),
                                sd_cs.spec_aead_key_length() as nat,
                            ),
                        ),
                    )
                    &&& sender_data_key_ok(*sender_data_secret, ct) && !sender_data_nonce_ok(
                        *sender_data_secret,
                        *ciphersuite,
                        ct,
                    ) ==> res == Err::<MlsCiphertext, MlsCiphertextError>(
                        MlsCiphertextError::CryptoError(
                            expand_with_label_error(
                                nonce_label(),
                                ciphertext_sample(*ciphersuite, ct),
                                ciphersuite.spec_aead_nonce_length() as nat,
                            ),
                        ),
                    )
                    &&& sender_data_key_ok(*sender_data_secret, ct) && sender_data_nonce_ok(
                        *sender_data_secret,
                        *ciphersuite,
                        ct,
                    ) ==> res is Ok
                }
            }),
            res matches Ok(c) ==> sealed(
                c,
                *mls_plaintext,
                header.group_id.value@,
                header.epoch,
                *sender_data_secret,
                *ciphersuite,
                ratchet_secrets.key@,
                ratchet_secrets.nonce@,
                generation,
                reuse_guard.value@,
                padding_size as nat,
            ),
            res matches Err(e) ==> (seal_precheck(
                *mls_plaintext,
                header.group_id.value@,
                *ciphersuite,
                ratchet_secrets.key@,
                padding_size as nat,
            ) == Some(e) || e == MlsCiphertextError::EncryptionError || e is CryptoError),
    {
        let content_type = mls_plaintext.content_type();
        let aad = match serialize_content_aad(
            &header.group_id,
            header.epoch,
            content_type,
            mls_plaintext.authenticated_data.as_slice(),
        ) {
            Ok(a) => a,
            Err(e) => return Err(MlsCiphertextError::CodecError(e)),
        };
        let mut nonce = ratchet_secrets.nonce;
        xor_with_reuse_guard(&mut nonce, &reuse_guard);
        let padded = match Self::encode_padded_ciphertext_content_detached(
            mls_plaintext,
            padding_size,
            ciphersuite.mac_length(),
        ) {
            Ok(v) => v,
            Err(e) => return Err(MlsCiphertextError::CodecError(e)),
        };
        let ciphertext = match aead_encrypt(
            backend,
            ciphersuite.aead_algorithm(),
            ratchet_secrets.key.as_slice(),
            padded.as_slice(),
            nonce.as_slice(),
            aad.as_slice(),
        ) {
            Ok(c) => c,
            Err(_) => return Err(MlsCiphertextError::EncryptionError),
        };
        let sender_data_key = match derive_sender_data_key(sender_data_secret, backend, ciphertext.as_slice()) {
            Ok(k) => k,
            Err(e) => return Err(MlsCiphertextError::CryptoError(e)),
        };
        let sender_data_nonce = match derive_sender_data_nonce(
            sender_data_secret,
            ciphersuite,
            backend,
            ciphertext.as_slice(),
        ) {
            Ok(n) => n,
            Err(e) => return Err(MlsCiphertextError::CryptoError(e)),
        };
        let sender_data_aad = MlsSenderDataAad::new(header.group_id.duplicate(), header.epoch, content_type);
        let sender_data_aad_bytes = match sender_data_aad.tls_serialize_detached() {
            Ok(b) => b,
            Err(e) => return Err(MlsCiphertextError::CodecError(e)),
        };
        let sender_data = MlsSenderData::new(mls_plaintext.sender.sender, generation, reuse_guard);
        let sender_data_bytes = sender_data.tls_serialize_detached();
        let encrypted_sender_data = match aead_encrypt(
            backend,
            sender_data_secret.ciphersuite.aead_algorithm(),
            sender_data_key.as_slice(),
            sender_data_bytes.as_slice(),
            sender_data_nonce.as_slice(),
            sender_data_aad_bytes.as_slice(),
        ) {
            Ok(c) => c,
            Err(_) => return Err(MlsCiphertextError::EncryptionError),
        };
        Ok(MlsCiphertext {
            wire_format: WireFormat::MlsCiphertext,
            group_id: header.group_id.duplicate(),
            epoch: header.epoch,
            content_type,
            authenticated_data: vstd::slice::slice_to_vec(mls_plaintext.authenticated_data.as_slice()),
            encrypted_sender_data,
            ciphertext,
        })
    }
}

impl MlsCiphertext {
    /// Encrypts a plaintext for the group: takes the key and nonce of the
    /// next generation of the sender's ratchet (moving the ratchet on), a
    /// random reuse guard, and seals the padded content and the sender data.
    pub fn try_from_plaintext(
        mls_plaintext: &MlsPlaintext,
        ciphersuite: &Ciphersuite,
        backend: &openmls_rust_crypto::OpenMlsRustCrypto,
        header: MlsMessageHeader,
        message_secrets: &mut MessageSecrets,
        padding_size: usize,
    ) -> (res: Result<MlsCiphertext, MlsCiphertextError>)
        requires
            old(message_secrets).wf(),
            mls_plaintext.wire_format == WireFormat::MlsCiphertext && header_encodable(
                *mls_plaintext,
                header.group_id.value@,
            ) ==> can_encrypt(
                old(message_secrets).spec_secret_tree(),
                *ciphersuite,
                header.sender,
                secret_type_of(mls_plaintext.content.spec_content_type()),
            ),
        ensures
            final(message_secrets).wf(),
            same_secrets_but_tree(*final(message_secrets), *old(message_secrets)),
            tree_evolves(
                old(message_secrets).spec_secret_tree(),
                final(message_secrets).spec_secret_tree(),
                header.sender,
                *ciphersuite,
            ),
            mls_plaintext.wire_format != WireFormat::MlsCiphertext ==> res == Err::<
                MlsCiphertext,
                MlsCiphertextError,
            >(MlsCiphertextError::WrongWireFormat) && *final(message_secrets)
                == *old(message_secrets),
            mls_plaintext.wire_format == WireFormat::MlsCiphertext && !header_encodable(
                *mls_plaintext,
                header.group_id.value@,
            ) ==> res == Err::<MlsCiphertext, MlsCiphertextError>(
                MlsCiphertextError::CodecError(CodecError::EncodingError),
            ) && *final(message_secrets) == *old(message_secrets),
            mls_plaintext.wire_format == WireFormat::MlsCiphertext && header_encodable(
                *mls_plaintext,
                header.group_id.value@,
            ) && header.sender >= old(message_secrets).spec_secret_tree().spec_size() ==> res
                == Err::<MlsCiphertext, MlsCiphertextError>(
                MlsCiphertextError::SecretTreeError(SecretTreeError::IndexOutOfBounds),
            ) && *final(message_secrets) == *old(message_secrets),
            res == Err::<MlsCiphertext, MlsCiphertextError>(MlsCiphertextError::WrongWireFormat)
                ==> mls_plaintext.wire_format != WireFormat::MlsCiphertext,
            res matches Err(MlsCiphertextError::CodecError(e)) ==> e == CodecError::EncodingError
                && mls_plaintext.wire_format == WireFormat::MlsCiphertext && (!header_encodable(
                *mls_plaintext,
                header.group_id.value@,
            ) || !padded_content_encodable(
                *mls_plaintext,
                padding_size as nat,
                ciphersuite.spec_mac_length() as nat,
            )),
            res matches Err(MlsCiphertextError::SecretTreeError(e)) ==> mls_plaintext.wire_format
                == WireFormat::MlsCiphertext && header_encodable(*mls_plaintext, header.group_id.value@)
                && (e is IndexOutOfBounds || e is CryptoError) && (e is IndexOutOfBounds
                ==> header.sender >= old(message_secrets).spec_secret_tree().spec_size()),
            res matches Ok(c) ==> c.spec_wire_format() == WireFormat::MlsCiphertext
                && c.spec_group_id() == header.group_id.value@ && c.spec_epoch() == header.epoch
                && c.spec_content_type() == mls_plaintext.content.spec_content_type()
                && c.spec_authenticated_data() == mls_plaintext.authenticated_data@,
            mls_plaintext.wire_format == WireFormat::MlsCiphertext && header_encodable(
                *mls_plaintext,
                header.group_id.value@,
            ) && !(res matches Err(MlsCiphertextError::SecretTreeError(_))) ==> (final(message_secrets).spec_secret_tree().ratchet(
                header.sender as int,
                secret_type_of(mls_plaintext.content.spec_content_type()),
            ) matches Some(r) && r.spec_generation() == next_generation(
                old(message_secrets).spec_secret_tree(),
                header.sender,
                secret_type_of(mls_plaintext.content.spec_content_type()),
            ) + 1 && r.spec_window() == 1),
            ({
                let tree = old(message_secrets).spec_secret_tree();
                mls_plaintext.wire_format == WireFormat::MlsCiphertext && header_encodable(
                    *mls_plaintext,
                    header.group_id.value@,
                ) && header.sender < tree.spec_size() && tree.consistent() && *ciphersuite
                    == tree.spec_suite() && tree.derivable() && padded_content_encodable(
                    *mls_plaintext,
                    padding_size as nat,
                    ciphersuite.spec_mac_length() as nat,
                ) && padded_content(
                    *mls_plaintext,
                    padding_size as nat,
                    ciphersuite.spec_mac_length() as nat,
                ).len() <= 0xffff_ffff && content_aad_bytes(
                    header.group_id.value@,
                    header.epoch.0,
                    mls_plaintext.content.spec_content_type(),
                    mls_plaintext.authenticated_data@,
                ).len() <= 0xffff_ffff && sender_data_secret_usable(
                    old(message_secrets).spec_sender_data_secret(),
                ) ==> (res is Ok || res == Err::<MlsCiphertext, MlsCiphertextError>(
                    MlsCiphertextError::CryptoError(MlsCryptoError::InsufficientRandomness),
                ))
            }),
            ({
                let tree = old(message_secrets).spec_secret_tree();
                let t = secret_type_of(mls_plaintext.content.spec_content_type());
                let g = next_generation(tree, header.sender, t);
                let mk = tree.message_key(header.sender as nat, t, g as nat);
                tree.consistent() && *ciphersuite == tree.spec_suite() ==> (res matches Ok(c)
                    ==> exists|rg: Seq<u8>|
                    rg.len() == 4 && #[trigger] sealed(
                        c,
                        *mls_plaintext,
                        header.group_id.value@,
                        header.epoch,
                        old(message_secrets).spec_sender_data_secret(),
                        *ciphersuite,
                        mk.0,
                        mk.1,
                        g,
                        rg,
                        padding_size as nat,
                    ))
            }),
    {
        if mls_plaintext.wire_format() != WireFormat::MlsCiphertext {
            return Err(MlsCiphertextError::WrongWireFormat);
        }
        match serialize_content_aad(
            &header.group_id,
            header.epoch,
            mls_plaintext.content_type(),
            mls_plaintext.authenticated_data.as_slice(),
        ) {
            Ok(_) => {},
            Err(e) => return Err(MlsCiphertextError::CodecError(e)),
        }
        let secret_type = SecretType::from(mls_plaintext);
        let ghost old_secrets = *message_secrets;
        let (generation, ratchet_secrets) = match message_secrets.secret_tree_mut().secret_for_encryption(
            ciphersuite,
            backend,
            header.sender,
            secret_type,
        ) {
            Ok(r) => r,
            Err(e) => return Err(MlsCiphertextError::SecretTreeError(e)),
        };
        let ghost key = ratchet_secrets.key@;
        let ghost nonce = ratchet_secrets.nonce@;
        let res = Self::seal_with_fresh_guard(
            mls_plaintext,
            ciphersuite,
            backend,
            &header,
            message_secrets.sender_data_secret(),
            generation,
            ratchet_secrets,
            padding_size,
        );
        proof {
            let tree = old_secrets.spec_secret_tree();
            let t = secret_type_of(mls_plaintext.content.spec_content_type());
            let g = next_generation(tree, header.sender, t);
            let mk = tree.message_key(header.sender as nat, t, g as nat);
            if tree.consistent() && *ciphersuite == tree.spec_suite() && res is Ok {
                let c = res->Ok_0;
                let rg = choose|rg: Seq<u8>|
                    rg.len() == 4 && #[trigger] sealed(
                        c,
                        *mls_plaintext,
                        header.group_id.value@,
                        header.epoch,
                        old_secrets.spec_sender_data_secret(),
                        *ciphersuite,
                        key,
                        nonce,
                        generation,
                        rg,
                        padding_size as nat,
                    );
                assert(sealed(
                    c,
                    *mls_plaintext,
                    header.group_id.value@,
                    header.epoch,
                    old_secrets.spec_sender_data_secret(),
                    *ciphersuite,
                    mk.0,
                    mk.1,
                    g,
                    rg,
                    padding_size as nat,
                ));
            }
        }
        res
    }

    /// Draws a random reuse guard and seals a plaintext with it and the key
    /// and nonce of generation `generation` of the sender's ratchet.
    fn seal_with_fresh_guard(
        mls_plaintext: &MlsPlaintext,
        ciphersuite: &Ciphersuite,
        backend: &openmls_rust_crypto::OpenMlsRustCrypto,
        header: &MlsMessageHeader,
        sender_data_secret: &Secret,
        generation: u32,
        ratchet_secrets: RatchetSecrets,
        padding_size: usize,
    ) -> (res: Result<MlsCiphertext, MlsCiphertextError>)
        requires
            ratchet_secrets.nonce@.len() == ciphersuite.spec_aead_nonce_length(),
        ensures
            res matches Err(e) ==> !(e is WrongWireFormat) && !(e is SecretTreeError),
            res matches Err(MlsCiphertextError::CodecError(e)) ==> e == CodecError::EncodingError && (
            !header_encodable(*mls_plaintext, header.group_id.value@) || !padded_content_encodable(
                *mls_plaintext,
                padding_size as nat,
                ciphersuite.spec_mac_length() as nat,
            )),
            res matches Ok(c) ==> c.spec_wire_format() == WireFormat::MlsCiphertext
                && c.spec_group_id() == header.group_id.value@ && c.spec_epoch() == header.epoch
                && c.spec_content_type() == mls_plaintext.content.spec_content_type()
                && c.spec_authenticated_data() == mls_plaintext.authenticated_data@,
            header_encodable(*mls_plaintext, header.group_id.value@) && padded_content_encodable(
                *mls_plaintext,
                padding_size as nat,
                ciphersuite.spec_mac_length() as nat,
            ) && ratchet_secrets.key@.len() == ciphersuite.spec_aead_key_length() && padded_content(
                *mls_plaintext,
                padding_size as nat,
                ciphersuite.spec_mac_length() as nat,
            ).len() <= 0xffff_ffff && content_aad_bytes(
                header.group_id.value@,
                header.epoch.0,
                mls_plaintext.content.spec_content_type(),
                mls_plaintext.authenticated_data@,
            ).len() <= 0xffff_ffff && sender_data_secret_usable(*sender_data_secret) ==> (res is Ok
                || res == Err::<MlsCiphertext, MlsCiphertextError>(
                MlsCiphertextError::CryptoError(MlsCryptoError::InsufficientRandomness),
            )),
            res matches Ok(c) ==> exists|rg: Seq<u8>|
                rg.len() == 4 && #[trigger] sealed(
                    c,
                    *mls_plaintext,
                    header.group_id.value@,
                    header.epoch,
                    *sender_data_secret,
                    *ciphersuite,
                    ratchet_secrets.key@,
                    ratchet_secrets.nonce@,
                    generation,
                    rg,
                    padding_size as nat,
                ),
    {
        let reuse_guard = match ReuseGuard::try_from_random(backend) {
            Ok(r) => r,
            Err(e) => return Err(MlsCiphertextError::CryptoError(e)),
        };
        let ghost rg = reuse_guard.value@;
        let ghost key = ratchet_secrets.key@;
        let ghost nonce = ratchet_secrets.nonce@;
        proof {
            if sender_data_secret_usable(*sender_data_secret) {
                lemma_sender_data_secret_usable(*sender_data_secret, *ciphersuite);
            }
        }
        let res = Self::seal_with_ratchet_secrets(
            mls_plaintext,
            ciphersuite,
            backend,
            header,
            sender_data_secret,
            generation,
            ratchet_secrets,
            reuse_guard,
            padding_size,
        );
        proof {
            if res is Ok {
                assert(sealed(
                    res->Ok_0,
                    *mls_plaintext,
                    header.group_id.value@,
                    header.epoch,
                    *sender_data_secret,
                    *ciphersuite,
                    key,
                    nonce,
                    generation,
                    rg,
                    padding_size as nat,
                ));
            }
        }
        res
    }
}

/// A decrypted content as plain values, or the error.
pub open spec fn content_result_view(res: Result<MlsCiphertextContent, MlsCiphertextError>) -> Result<
    (ContentView, Seq<u8>, Option<Seq<u8>>, Seq<u8>),
    MlsCiphertextError,
> {
    match res {
        Ok(c) => Ok(c.spec_view()),
        Err(e) => Err(e),
    }
}

/// A decrypted content without its padding.
pub open spec fn unpadded(r: Result<(ContentView, Seq<u8>, Option<Seq<u8>>, Seq<u8>), MlsCiphertextError>) -> Result<
    (ContentView, Seq<u8>, Option<Seq<u8>>),
    MlsCiphertextError,
> {
    match r {
        Ok(v) => Ok((v.0, v.1, v.2)),
        Err(e) => Err(e),
    }
}

/// What the content of `c` decrypts to with the key and nonce that the
/// tree gives for `generation` of `sender`'s ratchet, its nonce masked by the
/// reuse guard.
pub open spec fn decryption_expected(
    c: MlsCiphertext,
    tree: SecretTree,
    ciphersuite: Ciphersuite,
    sender: u32,
    generation: u32,
    reuse_guard: Seq<u8>,
) -> Result<(ContentView, Seq<u8>, Option<Seq<u8>>, Seq<u8>), MlsCiphertextError> {
    let t = secret_type_of(c.spec_content_type());
    let mk = tree.message_key(sender as nat, t, generation as nat);
    content_outcome(c, mk.0, xor_nonce(mk.1, reuse_guard), ciphersuite)
}

/// How the result of decrypting `c` relates to the receiver's tree: a sender
/// outside the tree, a ratchet that cannot be derived, a generation that the
/// sender's ratchet (or a fresh one) no longer or not yet accepts, or a key
/// derivation that fails on the way, gives `GenerationOutOfBound`; otherwise,
/// in a tree that holds what its secret derives, the result is what the
/// derived key and nonce give.
pub open spec fn decryption_matches(
    result: Result<(ContentView, Seq<u8>, Option<Seq<u8>>, Seq<u8>), MlsCiphertextError>,
    c: MlsCiphertext,
    tree: SecretTree,
    ciphersuite: Ciphersuite,
    configuration: SenderRatchetConfiguration,
    sender: u32,
    generation: u32,
    reuse_guard: Seq<u8>,
) -> bool {
    let t = secret_type_of(c.spec_content_type());
    let expected = decryption_expected(c, tree, ciphersuite, sender, generation, reuse_guard);
    &&& (tree.decryption_refused(sender as int, t, generation, configuration)
        || !tree.decryption_derivable(ciphersuite, sender as int, t, generation)) ==> result == Err::<
        (ContentView, Seq<u8>, Option<Seq<u8>>, Seq<u8>),
        MlsCiphertextError,
    >(MlsCiphertextError::GenerationOutOfBound)
    &&& tree.consistent() && ciphersuite == tree.spec_suite() && !tree.decryption_refused(
        sender as int,
        t,
        generation,
        configuration,
    ) && tree.decryption_derivable(ciphersuite, sender as int, t, generation) ==> result == expected
    &&& tree.consistent() && ciphersuite == tree.spec_suite() && tree.derivable() && sender
        < tree.spec_size() && tree.ratchet_available(sender as int, t)
        && tree.decryption_accepted(sender as int, t, generation, configuration) ==> result
        == expected
}

impl MlsCiphertext {
    /// Decrypts the sender data: the sender's leaf index, the generation of
    /// its ratchet, and the reuse guard.
    pub fn sender_data(
        &self,
        message_secrets: &mut MessageSecrets,
        backend: &openmls_rust_crypto::OpenMlsRustCrypto,
        ciphersuite: &Ciphersuite,
    ) -> (res: Result<MlsSenderData, MlsCiphertextError>)
        ensures
            *final(message_secrets) == *old(message_secrets),
            match sender_data_outcome(
                *self,
                old(message_secrets).spec_sender_data_secret(),
                *ciphersuite,
            ) {
                Ok(v) => res matches Ok(sd) && sd.spec_view() == v,
                Err(e) => res == Err::<MlsSenderData, MlsCiphertextError>(e),
            },
    {
        if self.wire_format != WireFormat::MlsCiphertext {
            return Err(MlsCiphertextError::WrongWireFormat);
        }
        let sender_data_secret = message_secrets.sender_data_secret();
        let key = match derive_sender_data_key(sender_data_secret, backend, self.ciphertext.as_slice()) {
            Ok(k) => k,
            Err(e) => return Err(MlsCiphertextError::CryptoError(e)),
        };
        let nonce = match derive_sender_data_nonce(
            sender_data_secret,
            ciphersuite,
            backend,
            self.ciphertext.as_slice(),
        ) {
            Ok(n) => n,
            Err(e) => return Err(MlsCiphertextError::CryptoError(e)),
        };
        let aad = MlsSenderDataAad::new(self.group_id.duplicate(), self.epoch, self.content_type);
        let aad_bytes = match aad.tls_serialize_detached() {
            Ok(b) => b,
            Err(e) => return Err(MlsCiphertextError::CodecError(e)),
        };
        let bytes = match aead_decrypt(
            backend,
            sender_data_secret.ciphersuite.aead_algorithm(),
            key.as_slice(),
            self.encrypted_sender_data.as_slice(),
            nonce.as_slice(),
            aad_bytes.as_slice(),
        ) {
            Ok(b) => b,
            Err(_) => return Err(MlsCiphertextError::DecryptionError),
        };
        match MlsSenderData::tls_deserialize(bytes.as_slice()) {
            Ok(sd) => Ok(sd),
            Err(e) => Err(MlsCiphertextError::CodecError(e)),
        }
    }

    /// Decrypts the content with the key and nonce of the sender's ratchet for
    /// the generation of the sender data, its nonce masked by the reuse guard.
    pub fn decrypt(
        &self,
        ciphersuite: &Ciphersuite,
        backend: &openmls_rust_crypto::OpenMlsRustCrypto,
        message_secrets: &mut MessageSecrets,
        sender_ratchet_configuration: &SenderRatchetConfiguration,
        sender_data: &MlsSenderData,
    ) -> (res: Result<MlsCiphertextContent, MlsCiphertextError>)
        requires
            old(message_secrets).wf(),
        ensures
            final(message_secrets).wf(),
            same_secrets_but_tree(*final(message_secrets), *old(message_secrets)),
            tree_evolves(
                old(message_secrets).spec_secret_tree(),
                final(message_secrets).spec_secret_tree(),
                sender_data.sender,
                *ciphersuite,
            ),
            decryption_matches(
                content_result_view(res),
                *self,
                old(message_secrets).spec_secret_tree(),
                *ciphersuite,
                *sender_ratchet_configuration,
                sender_data.sender,
                sender_data.generation,
                sender_data.reuse_guard.value@,
            ),
    {
        let secret_type = SecretType::from(&self.content_type);
        let ratchet_secrets = match message_secrets.secret_tree_mut().secret_for_decryption(
            ciphersuite,
            backend,
            sender_data.sender,
            secret_type,
            sender_data.generation,
            sender_ratchet_configuration,
        ) {
            Ok(r) => r,
            Err(_) => return Err(MlsCiphertextError::GenerationOutOfBound),
        };
        let mut nonce = ratchet_secrets.nonce;
        xor_with_reuse_guard(&mut nonce, &sender_data.reuse_guard);
        let aad = match serialize_content_aad(
            &self.group_id,
            self.epoch,
            self.content_type,
            self.authenticated_data.as_slice(),
        ) {
            Ok(a) => a,
            Err(e) => return Err(MlsCiphertextError::CodecError(e)),
        };
        let bytes = match aead_decrypt(
            backend,
            ciphersuite.aead_algorithm(),
            ratchet_secrets.key.as_slice(),
            self.ciphertext.as_slice(),
            nonce.as_slice(),
            aad.as_slice(),
        ) {
            Ok(b) => b,
            Err(_) => return Err(MlsCiphertextError::DecryptionError),
        };
        match MlsCiphertextContent::deserialize(self.content_type, bytes.as_slice()) {
            Ok(c) => Ok(c),
            Err(e) => Err(MlsCiphertextError::CodecError(e)),
        }
    }
}

/// A recovered plaintext's content, signature and confirmation tag as plain
/// values, or the error.
pub open spec fn plaintext_result_view(res: Result<VerifiableMlsPlaintext, MlsCiphertextError>) -> Result<
    (ContentView, Seq<u8>, Option<Seq<u8>>),
    MlsCiphertextError,
> {
    match res {
        Ok(v) => Ok((v.content.spec_view(), v.signature@, tag_view(v.confirmation_tag))),
        Err(e) => Err(e),
    }
}

impl MlsCiphertext {
    /// Decrypts the message into a plaintext whose signature is still to be
    /// checked. The sender is the member of the sender data; an encrypted
    /// message carries no membership tag.
    pub fn to_plaintext(
        &self,
        ciphersuite: &Ciphersuite,
        backend: &openmls_rust_crypto::OpenMlsRustCrypto,
        message_secrets: &mut MessageSecrets,
        sender_ratchet_configuration: &SenderRatchetConfiguration,
        sender_data: MlsSenderData,
    ) -> (res: Result<VerifiableMlsPlaintext, MlsCiphertextError>)
        requires
            old(message_secrets).wf(),
        ensures
            final(message_secrets).wf(),
            same_secrets_but_tree(*final(message_secrets), *old(message_secrets)),
            tree_evolves(
                old(message_secrets).spec_secret_tree(),
                final(message_secrets).spec_secret_tree(),
                sender_data.sender,
                *ciphersuite,
            ),
            exists|r: Result<(ContentView, Seq<u8>, Option<Seq<u8>>, Seq<u8>), MlsCiphertextError>|
                decryption_matches(
                    r,
                    *self,
                    old(message_secrets).spec_secret_tree(),
                    *ciphersuite,
                    *sender_ratchet_configuration,
                    sender_data.sender,
                    sender_data.generation,
                    sender_data.reuse_guard.value@,
                ) && #[trigger] unpadded(r) == plaintext_result_view(res),
            res matches Ok(v) ==> {
                &&& v.serialized_context is None
                &&& v.wire_format == self.spec_wire_format()
                &&& v.group_id.value@ == self.spec_group_id()
                &&& v.epoch == self.spec_epoch()
                &&& v.sender == Sender { sender_type: SenderType::Member, sender: sender_data.sender }
                &&& v.authenticated_data@ == self.spec_authenticated_data()
                &&& v.membership_tag is None
            },
    {
        let content = self.decrypt(
            ciphersuite,
            backend,
            message_secrets,
            sender_ratchet_configuration,
            &sender_data,
        );
        let ghost r = content_result_view(content);
        let content = match content {
            Ok(c) => c,
            Err(e) => {
                assert(unpadded(r) == plaintext_result_view(Err(e)));
                return Err(e);
            },
        };
        let sender = Sender { sender_type: SenderType::Member, sender: sender_data.sender };
        let verifiable = VerifiableMlsPlaintext {
            serialized_context: None,
            wire_format: self.wire_format,
            group_id: self.group_id.duplicate(),
            epoch: self.epoch,
            sender,
            authenticated_data: vstd::slice::slice_to_vec(self.authenticated_data.as_slice()),
            content: content.content,
            signature: content.signature,
            confirmation_tag: content.confirmation_tag,
            membership_tag: None,
        };
        assert(unpadded(r) == plaintext_result_view(Ok(verifiable)));
        Ok(verifiable)
    }

    /// Whether the message is a proposal or a commit.
    pub fn is_handshake_message(&self) -> (b: bool)
        ensures
            b == (self.spec_content_type() != ContentType::Application),
    {
        self.content_type.is_handshake_message()
    }

    /// The group identifier.
    pub fn group_id(&self) -> (g: &GroupId)
        ensures
            g.value@ == self.spec_group_id(),
    {
        &self.group_id
    }

    /// The authenticated data sent in the clear with the message.
    pub(crate) fn authenticated_data(&self) -> (a: &[u8])
        ensures
            a@ == self.spec_authenticated_data(),
    {
        self.authenticated_data.as_slice()
    }

    /// The encrypted content.
    pub fn ciphertext(&self) -> (c: &[u8])
        ensures
            c@ == self.spec_ciphertext(),
    {
        self.ciphertext.as_slice()
    }

    /// The epoch.
    pub fn epoch(&self) -> (e: GroupEpoch)
        ensures
            e == self.spec_epoch(),
    {
        self.epoch
    }

    /// The content type.
    pub fn content_type(&self) -> (c: ContentType)
        ensures
            c == self.spec_content_type(),
    {
        self.content_type
    }

    /// The wire format.
    pub fn wire_format(&self) -> (w: WireFormat)
        ensures
            w == self.spec_wire_format(),
    {
        self.wire_format
    }

    /// Replaces the wire format.
    pub fn set_wire_format(&mut self, wire_format: WireFormat)
        ensures
            final(self).spec_wire_format() == wire_format,
            final(self).spec_group_id() == old(self).spec_group_id(),
            final(self).spec_epoch() == old(self).spec_epoch(),
            final(self).spec_content_type() == old(self).spec_content_type(),
            final(self).spec_authenticated_data() == old(self).spec_authenticated_data(),
            final(self).spec_encrypted_sender_data() == old(self).spec_encrypted_sender_data(),
            final(self).spec_ciphertext() == old(self).spec_ciphertext(),
    {
        self.wire_format = wire_format;
    }

    /// Replaces the encrypted content.
    pub fn set_ciphertext(&mut self, ciphertext: Vec<u8>)
        ensures
            final(self).spec_ciphertext() == ciphertext@,
            final(self).spec_wire_format() == old(self).spec_wire_format(),
            final(self).spec_group_id() == old(self).spec_group_id(),
            final(self).spec_epoch() == old(self).spec_epoch(),
            final(self).spec_content_type() == old(self).spec_content_type(),
            final(self).spec_authenticated_data() == old(self).spec_authenticated_data(),
            final(self).spec_encrypted_sender_data() == old(self).spec_encrypted_sender_data(),
    {
        self.ciphertext = ciphertext;
    }
}

/// What a member seals for the group, every member recovers: when a message
/// was sealed with the key and nonce that the sender's tree gives for a
/// generation of its ratchet, decrypting its sender data with the same
/// sender data secret gives back the sender, the generation and the reuse
/// guard, and decrypting its content with the key and nonce that a receiver's
/// tree from the same encryption secret gives for that generation gives back
/// the content, the signature and the confirmation tag of the plaintext, with
/// zero padding.
pub proof fn law_members_recover_sealed_messages(
    c: MlsCiphertext,
    p: MlsPlaintext,
    group_id: Seq<u8>,
    epoch: GroupEpoch,
    sender_data_secret: Secret,
    ciphersuite: Ciphersuite,
    sender_tree: SecretTree,
    receiver_tree: SecretTree,
    generation: u32,
    reuse_guard: Seq<u8>,
    padding_size: nat,
)
    requires
        reuse_guard.len() == 4,
        sender_tree.spec_encryption_secret() == receiver_tree.spec_encryption_secret(),
        sender_tree.spec_suite() == receiver_tree.spec_suite(),
        sender_tree.spec_size() == receiver_tree.spec_size(),
        sealed(
            c,
            p,
            group_id,
            epoch,
            sender_data_secret,
            ciphersuite,
            sender_tree.message_key(
                p.sender.sender as nat,
                secret_type_of(p.content.spec_content_type()),
                generation as nat,
            ).0,
            sender_tree.message_key(
                p.sender.sender as nat,
                secret_type_of(p.content.spec_content_type()),
                generation as nat,
            ).1,
            generation,
            reuse_guard,
            padding_size,
        ),
    ensures
        sender_data_outcome(c, sender_data_secret, ciphersuite) == Ok::<
            (u32, u32, Seq<u8>),
            MlsCiphertextError,
        >((p.sender.sender, generation, reuse_guard)),
        decryption_expected(c, receiver_tree, ciphersuite, p.sender.sender, generation, reuse_guard)
            == Ok::<(ContentView, Seq<u8>, Option<Seq<u8>>, Seq<u8>), MlsCiphertextError>(
            (
                p.content.spec_view(),
                p.signature@,
                tag_view(p.confirmation_tag),
                zeros(
                    padding_length(
                        unpadded_length(
                            p.content.spec_view(),
                            p.signature@,
                            tag_view(p.confirmation_tag),
                        ),
                        padding_size,
                        ciphersuite.spec_mac_length() as nat,
                    ),
                ),
            ),
        ),
{
    let t = secret_type_of(p.content.spec_content_type());
    law_members_agree_on_message_keys(
        sender_tree,
        receiver_tree,
        p.sender.sender as nat,
        t,
        generation as nat,
    );
    lemma_sender_data_roundtrip(p.sender.sender, generation, reuse_guard);
    let cv = p.content.spec_view();
    let sig = p.signature@;
    let tag = tag_view(p.confirmation_tag);
    let pad = padding_length(
        unpadded_length(cv, sig, tag),
        padding_size,
        ciphersuite.spec_mac_length() as nat,
    );
    let content = enc_ciphertext_content(cv, sig, tag, pad);
    lemma_ciphertext_content_roundtrip(cv, sig, tag, pad, Seq::empty());
    assert(content + Seq::<u8>::empty() =~= content);
    assert(cv.content_type() == p.content.spec_content_type());
}

/// A member decrypts what another member sealed for it: when the receiver's
/// tree holds what its encryption secret derives (the sender's), can derive
/// the sender's ratchet and that ratchet accepts the message's generation,
/// decrypting the content gives back the plaintext's content, signature and
/// confirmation tag, with zero padding.
pub proof fn law_receiver_decrypts_sealed_message(
    result: Result<(ContentView, Seq<u8>, Option<Seq<u8>>, Seq<u8>), MlsCiphertextError>,
    c: MlsCiphertext,
    p: MlsPlaintext,
    group_id: Seq<u8>,
    epoch: GroupEpoch,
    sender_data_secret: Secret,
    ciphersuite: Ciphersuite,
    configuration: SenderRatchetConfiguration,
    sender_tree: SecretTree,
    receiver_tree: SecretTree,
    generation: u32,
    reuse_guard: Seq<u8>,
    padding_size: nat,
)
    requires
        reuse_guard.len() == 4,
        sender_tree.spec_encryption_secret() == receiver_tree.spec_encryption_secret(),
        sender_tree.spec_suite() == receiver_tree.spec_suite(),
        sender_tree.spec_size() == receiver_tree.spec_size(),
        sealed(
            c,
            p,
            group_id,
            epoch,
            sender_data_secret,
            ciphersuite,
            sender_tree.message_key(
                p.sender.sender as nat,
                secret_type_of(p.content.spec_content_type()),
                generation as nat,
            ).0,
            sender_tree.message_key(
                p.sender.sender as nat,
                secret_type_of(p.content.spec_content_type()),
                generation as nat,
            ).1,
            generation,
            reuse_guard,
            padding_size,
        ),
        receiver_tree.consistent(),
        ciphersuite == receiver_tree.spec_suite(),
        receiver_tree.derivable(),
        p.sender.sender < receiver_tree.spec_size(),
        receiver_tree.ratchet_available(
            p.sender.sender as int,
            secret_type_of(p.content.spec_content_type()),
        ),
        receiver_tree.decryption_accepted(
            p.sender.sender as int,
            secret_type_of(p.content.spec_content_type()),
            generation,
            configuration,
        ),
        decryption_matches(
            result,
            c,
            receiver_tree,
            ciphersuite,
            configuration,
            p.sender.sender,
            generation,
            reuse_guard,
        ),
    ensures
        result == Ok::<(ContentView, Seq<u8>, Option<Seq<u8>>, Seq<u8>), MlsCiphertextError>(
            (
                p.content.spec_view(),
                p.signature@,
                tag_view(p.confirmation_tag),
                zeros(
                    padding_length(
                        unpadded_length(
                            p.content.spec_view(),
                            p.signature@,
                            tag_view(p.confirmation_tag),
                        ),
                        padding_size,
                        ciphersuite.spec_mac_length() as nat,
                    ),
                ),
            ),
        ),
{
    law_members_recover_sealed_messages(
        c,
        p,
        group_id,
        epoch,
        sender_data_secret,
        ciphersuite,
        sender_tree,
        receiver_tree,
        generation,
        reuse_guard,
        padding_size,
    );
}

/// The author of a message cannot decrypt it: once its own ratchet has moved
/// past the message's generation and kept only its new secret (as
/// encrypting leaves it), whatever decrypting the message in its own tree
/// gives is `GenerationOutOfBound`.
pub proof fn law_author_cannot_decrypt_own_message(
    result: Result<(ContentView, Seq<u8>, Option<Seq<u8>>, Seq<u8>), MlsCiphertextError>,
    c: MlsCiphertext,
    tree: SecretTree,
    ciphersuite: Ciphersuite,
    configuration: SenderRatchetConfiguration,
    sender: u32,
    generation: u32,
    reuse_guard: Seq<u8>,
)
    requires
        tree.ratchet(sender as int, secret_type_of(c.spec_content_type())) matches Some(r)
            && r.spec_generation() == generation + 1 && r.spec_window() == 1,
        decryption_matches(
            result,
            c,
            tree,
            ciphersuite,
            configuration,
            sender,
            generation,
            reuse_guard,
        ),
    ensures
        result == Err::<(ContentView, Seq<u8>, Option<Seq<u8>>, Seq<u8>), MlsCiphertextError>(
            MlsCiphertextError::GenerationOutOfBound,
        ),
{
    law_author_cannot_decrypt(
        tree,
        sender as int,
        secret_type_of(c.spec_content_type()),
        generation,
        configuration,
    );
}

/// A message as it arrives from the delivery service: signed in the clear,
/// or encrypted.
pub enum MlsMessage {
    Plaintext(Box<VerifiableMlsPlaintext>),
    Ciphertext(Box<MlsCiphertext>),
}

/// An incoming message.
pub struct MlsMessageIn {
    pub mls_message: MlsMessage,
}

impl MlsMessageIn {
    /// The group the message is for.
    pub open spec fn spec_group_id(&self) -> Seq<u8> {
        match self.mls_message {
            MlsMessage::Plaintext(p) => p.group_id.value@,
            MlsMessage::Ciphertext(c) => c.spec_group_id(),
        }
    }

    /// The epoch the message was sent in.
    pub open spec fn spec_epoch(&self) -> GroupEpoch {
        match self.mls_message {
            MlsMessage::Plaintext(p) => p.epoch,
            MlsMessage::Ciphertext(c) => c.spec_epoch(),
        }
    }

    /// The content type of the message.
    pub open spec fn spec_content_type(&self) -> ContentType {
        match self.mls_message {
            MlsMessage::Plaintext(p) => p.content.spec_content_type(),
            MlsMessage::Ciphertext(c) => c.spec_content_type(),
        }
    }

    /// The wire format: that of the kind of message.
    pub open spec fn spec_wire_format(&self) -> WireFormat {
        match self.mls_message {
            MlsMessage::Plaintext(_) => WireFormat::MlsPlaintext,
            MlsMessage::Ciphertext(_) => WireFormat::MlsCiphertext,
        }
    }

    pub fn group_id(&self) -> (g: &GroupId)
        ensures
            g.value@ == self.spec_group_id(),
    {
        match &self.mls_message {
            MlsMessage::Plaintext(p) => &p.group_id,
            MlsMessage::Ciphertext(c) => c.group_id(),
        }
    }

    pub fn epoch(&self) -> (e: GroupEpoch)
        ensures
            e == self.spec_epoch(),
    {
        match &self.mls_message {
            MlsMessage::Plaintext(p) => p.epoch,
            MlsMessage::Ciphertext(c) => c.epoch(),
        }
    }

    pub fn content_type(&self) -> (t: ContentType)
        ensures
            t == self.spec_content_type(),
    {
        match &self.mls_message {
            MlsMessage::Plaintext(p) => p.content_type(),
            MlsMessage::Ciphertext(c) => c.content_type(),
        }
    }

    pub fn wire_format(&self) -> (w: WireFormat)
        ensures
            w == self.spec_wire_format(),
    {
        match &self.mls_message {
            MlsMessage::Plaintext(_) => WireFormat::MlsPlaintext,
            MlsMessage::Ciphertext(_) => WireFormat::MlsCiphertext,
        }
    }
}

/// With a padding size, the ciphertext of a sealed message is a multiple of
/// it: the padding fills the content, the two bytes of the padding's length
/// and the AEAD tag up to the next multiple.
pub proof fn law_padded_ciphertext_length(
    c: MlsCiphertext,
    p: MlsPlaintext,
    group_id: Seq<u8>,
    epoch: GroupEpoch,
    sender_data_secret: Secret,
    ciphersuite: Ciphersuite,
    key: Seq<u8>,
    nonce: Seq<u8>,
    generation: u32,
    reuse_guard: Seq<u8>,
    padding_size: nat,
)
    requires
        padding_size > 0,
        sealed(
            c,
            p,
            group_id,
            epoch,
            sender_data_secret,
            ciphersuite,
            key,
            nonce,
            generation,
            reuse_guard,
            padding_size,
        ),
    ensures
        c.spec_ciphertext().len() % padding_size == 0,
{
    let cv = p.content.spec_view();
    let sig = p.signature@;
    let tag = tag_view(p.confirmation_tag);
    let mac = ciphersuite.spec_mac_length() as nat;
    let body = unpadded_length(cv, sig, tag);
    let pad = padding_length(body, padding_size, mac);
    let content = enc_ciphertext_content(cv, sig, tag, pad);
    assert(content.len() == body + 2 + pad);
    lemma_padding_fills(body + 2 + mac, padding_size);
}

/// `x` plus `(n - x % n) % n` is a multiple of `n`.
pub proof fn lemma_padding_fills(x: nat, n: nat)
    requires
        n > 0,
    ensures
        (x + ((n as int - x as int % n as int) % n as int)) % (n as int) == 0,
{
    let r = x as int % n as int;
    let q = x as int / n as int;
    assert(x as int == q * n + r) by (nonlinear_arith)
        requires
            n > 0,
            r == x as int % n as int,
            q == x as int / n as int,
    ;
    assert(0 <= r < n);
    if r == 0 {
        assert((n as int - r) % n as int == 0) by (nonlinear_arith)
            requires
                n > 0,
                r == 0,
        ;
        assert((x as int + 0) % n as int == 0) by (nonlinear_arith)
            requires
                n > 0,
                x as int == q * n + r,
                r == 0,
        ;
    } else {
        assert((n as int - r) % n as int == n - r) by (nonlinear_arith)
            requires
                0 < r < n,
        ;
        assert((x as int + (n - r)) % n as int == 0) by (nonlinear_arith)
            requires
                n > 0,
                x as int == q * n + r,
        ;
    }
}

} // verus!
