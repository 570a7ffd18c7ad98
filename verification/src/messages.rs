//! Welcome messages, the group secrets they carry, and path secrets.

use vstd::prelude::*;

use crate::ciphersuite::{Ciphersuite, CiphersuiteName, HashType};
use crate::extensions::{duplicate_extensions, extension_views, Extension, ExtensionView};
use crate::framing::{ConfirmationTag, GroupEpoch, GroupId};
use crate::crypto::{hpke_open, hpke_open_output};
use crate::crypto::{expand_with_label, expand_with_label_error, expand_with_label_ok, kdf_expand_label, MlsCryptoError, Secret};

verus! {

/// The MLS protocol versions.
#[derive(Clone, Copy, Debug, PartialEq, Eq, Structural)]
pub enum ProtocolVersion {
    Mls10,
}

/// An HPKE ciphertext: the encapsulated key and the ciphertext.
pub struct HpkeCiphertext {
    pub kem_output: Vec<u8>,
    pub ciphertext: Vec<u8>,
}

/// The group secrets encrypted to one new member, named by the hash of its
/// key package.
pub struct EncryptedGroupSecrets {
    pub key_package_hash: Vec<u8>,
    pub encrypted_group_secrets: HpkeCiphertext,
}

/// A Welcome message:
///
/// ```text
/// struct {
///   ProtocolVersion version = mls10;
///   CipherSuite cipher_suite;
///   EncryptedGroupSecrets secrets<0..2^32-1>;
///   opaque encrypted_group_info<1..2^32-1>;
/// } Welcome;
/// ```
pub struct Welcome {
    version: ProtocolVersion,
    cipher_suite: CiphersuiteName,
    secrets: Vec<EncryptedGroupSecrets>,
    encrypted_group_info: Vec<u8>,
}

impl Welcome {
    pub closed spec fn spec_version(&self) -> ProtocolVersion {
        self.version
    }

    pub closed spec fn spec_ciphersuite(&self) -> CiphersuiteName {
        self.cipher_suite
    }

    pub closed spec fn spec_secrets(&self) -> Seq<EncryptedGroupSecrets> {
        self.secrets@
    }

    pub closed spec fn spec_encrypted_group_info(&self) -> Seq<u8> {
        self.encrypted_group_info@
    }

    /// A Welcome message from its parts; the secrets and the encrypted group
    /// info are taken over.
    pub fn new(
        version: ProtocolVersion,
        cipher_suite: &Ciphersuite,
        secrets: Vec<EncryptedGroupSecrets>,
        encrypted_group_info: Vec<u8>,
    ) -> (w: Self)
        ensures
            w.spec_version() == version,
            w.spec_ciphersuite() == cipher_suite.name,
            w.spec_secrets() == secrets@,
            w.spec_encrypted_group_info() == encrypted_group_info@,
    {
        Welcome { version, cipher_suite: cipher_suite.name(), secrets, encrypted_group_info }
    }

    /// The ciphersuite.
    pub fn ciphersuite(&self) -> (c: CiphersuiteName)
        ensures
            c == self.spec_ciphersuite(),
    {
        self.cipher_suite
    }

    /// The encrypted group secrets.
    pub fn secrets(&self) -> (s: &[EncryptedGroupSecrets])
        ensures
            s@ == self.spec_secrets(),
    {
        self.secrets.as_slice()
    }

    /// The encrypted group info.
    pub fn encrypted_group_info(&self) -> (g: &[u8])
        ensures
            g@ == self.spec_encrypted_group_info(),
    {
        self.encrypted_group_info.as_slice()
    }

    /// The protocol version.
    pub fn version(&self) -> (v: &ProtocolVersion)
        ensures
            *v == self.spec_version(),
    {
        &self.version
    }

    /// Replaces the encrypted group info.
    pub fn set_encrypted_group_info(&mut self, encrypted_group_info: Vec<u8>)
        ensures
            final(self).spec_encrypted_group_info() == encrypted_group_info@,
            final(self).spec_version() == old(self).spec_version(),
            final(self).spec_ciphersuite() == old(self).spec_ciphersuite(),
            final(self).spec_secrets() == old(self).spec_secrets(),
    {
        self.encrypted_group_info = encrypted_group_info;
    }
}

/// The signed content of a GroupInfo:
///
/// ```text
/// struct {
///   opaque group_id<0..255>;
///   uint64 epoch;
///   opaque tree_hash<0..255>;
///   opaque confirmed_transcript_hash<0..255>;
///   Extension group_context_extensions<0..2^32-1>;
///   Extension other_extensions<0..2^32-1>;
///   MAC confirmation_tag;
///   uint32 signer_index;
/// } GroupInfoPayload;
/// ```
pub struct GroupInfoPayload {
    group_id: GroupId,
    epoch: GroupEpoch,
    tree_hash: Vec<u8>,
    confirmed_transcript_hash: Vec<u8>,
    group_context_extensions: Vec<Extension>,
    other_extensions: Vec<Extension>,
    confirmation_tag: ConfirmationTag,
    signer_index: u32,
}

impl GroupInfoPayload {
    pub closed spec fn spec_group_id(&self) -> Seq<u8> {
        self.group_id.value@
    }

    pub closed spec fn spec_epoch(&self) -> GroupEpoch {
        self.epoch
    }

    pub closed spec fn spec_tree_hash(&self) -> Seq<u8> {
        self.tree_hash@
    }

    pub closed spec fn spec_confirmed_transcript_hash(&self) -> Seq<u8> {
        self.confirmed_transcript_hash@
    }

    pub closed spec fn spec_group_context_extensions(&self) -> Seq<ExtensionView> {
        extension_views(self.group_context_extensions@)
    }

    pub closed spec fn spec_other_extensions(&self) -> Seq<ExtensionView> {
        extension_views(self.other_extensions@)
    }

    pub closed spec fn spec_confirmation_tag(&self) -> Seq<u8> {
        self.confirmation_tag.0.mac_value@
    }

    pub closed spec fn spec_signer_index(&self) -> u32 {
        self.signer_index
    }

    /// A payload from its parts; the extensions are copied.
    pub fn new(
        group_id: GroupId,
        epoch: GroupEpoch,
        tree_hash: Vec<u8>,
        confirmed_transcript_hash: Vec<u8>,
        group_context_extensions: &[Extension],
        other_extensions: &[Extension],
        confirmation_tag: ConfirmationTag,
        signer_index: u32,
    ) -> (p: Self)
        ensures
            p.spec_group_id() == group_id.value@,
            p.spec_epoch() == epoch,
            p.spec_tree_hash() == tree_hash@,
            p.spec_confirmed_transcript_hash() == confirmed_transcript_hash@,
            p.spec_group_context_extensions() == extension_views(group_context_extensions@),
            p.spec_other_extensions() == extension_views(other_extensions@),
            p.spec_confirmation_tag() == confirmation_tag.0.mac_value@,
            p.spec_signer_index() == signer_index,
    {
        GroupInfoPayload {
            group_id,
            epoch,
            tree_hash,
            confirmed_transcript_hash,
            group_context_extensions: duplicate_extensions(group_context_extensions),
            other_extensions: duplicate_extensions(other_extensions),
            confirmation_tag,
            signer_index,
        }
    }
}

/// A GroupInfo: its payload and the signature of its signer over it.
pub struct GroupInfo {
    payload: GroupInfoPayload,
    signature: Vec<u8>,
}

impl GroupInfo {
    pub closed spec fn spec_payload(&self) -> GroupInfoPayload {
        self.payload
    }

    pub closed spec fn spec_signature(&self) -> Seq<u8> {
        self.signature@
    }

    /// A GroupInfo from a payload and its signature.
    pub fn from_payload(payload: GroupInfoPayload, signature: Vec<u8>) -> (g: Self)
        ensures
            g.spec_payload() == payload,
            g.spec_signature() == signature@,
    {
        GroupInfo { payload, signature }
    }

    /// The leaf index of the signer.
    pub fn signer_index(&self) -> (i: u32)
        ensures
            i == self.spec_payload().spec_signer_index(),
    {
        self.payload.signer_index
    }

    /// The group's id.
    pub fn group_id(&self) -> (g: &GroupId)
        ensures
            g.value@ == self.spec_payload().spec_group_id(),
    {
        &self.payload.group_id
    }

    /// The epoch.
    pub fn epoch(&self) -> (e: GroupEpoch)
        ensures
            e == self.spec_payload().spec_epoch(),
    {
        self.payload.epoch
    }

    /// The confirmed transcript hash.
    pub fn confirmed_transcript_hash(&self) -> (h: &[u8])
        ensures
            h@ == self.spec_payload().spec_confirmed_transcript_hash(),
    {
        self.payload.confirmed_transcript_hash.as_slice()
    }

    /// The confirmation tag.
    pub fn confirmation_tag(&self) -> (t: &ConfirmationTag)
        ensures
            t.0.mac_value@ == self.spec_payload().spec_confirmation_tag(),
    {
        &self.payload.confirmation_tag
    }

    /// The extensions that are not part of the group context.
    pub fn other_extensions(&self) -> (e: &[Extension])
        ensures
            extension_views(e@) == self.spec_payload().spec_other_extensions(),
    {
        self.payload.other_extensions.as_slice()
    }

    /// The extensions of the group context.
    pub fn group_context_extensions(&self) -> (e: &[Extension])
        ensures
            extension_views(e@) == self.spec_payload().spec_group_context_extensions(),
    {
        self.payload.group_context_extensions.as_slice()
    }

    /// Replaces the extensions that are not part of the group context; the
    /// rest of the payload and the signature stay as they are.
    pub fn set_other_extensions(&mut self, extensions: Vec<Extension>)
        ensures
            final(self).spec_payload().spec_other_extensions() == extension_views(extensions@),
            final(self).spec_payload().spec_group_id() == old(self).spec_payload().spec_group_id(),
            final(self).spec_payload().spec_epoch() == old(self).spec_payload().spec_epoch(),
            final(self).spec_payload().spec_tree_hash() == old(self).spec_payload().spec_tree_hash(),
            final(self).spec_payload().spec_confirmed_transcript_hash() == old(
                self,
            ).spec_payload().spec_confirmed_transcript_hash(),
            final(self).spec_payload().spec_group_context_extensions() == old(
                self,
            ).spec_payload().spec_group_context_extensions(),
            final(self).spec_payload().spec_confirmation_tag() == old(
                self,
            ).spec_payload().spec_confirmation_tag(),
            final(self).spec_payload().spec_signer_index() == old(self).spec_payload().spec_signer_index(),
            final(self).spec_signature() == old(self).spec_signature(),
    {
        self.payload.other_extensions = extensions;
    }

    /// The signature.
    pub fn signature(&self) -> (s: &[u8])
        ensures
            s@ == self.spec_signature(),
    {
        self.signature.as_slice()
    }
}

/// The label `"path"`.
pub open spec fn path_label() -> Seq<u8> {
    seq![112u8, 97u8, 116u8, 104u8]
}

/// An HPKE private key.
pub struct HpkePrivateKey {
    pub value: Vec<u8>,
}

impl HpkePrivateKey {
    /// The key's bytes.
    pub fn as_slice(&self) -> (b: &[u8])
        ensures
            b@ == self.value@,
    {
        self.value.as_slice()
    }
}

/// Errors of path secret decryption.
#[derive(Clone, Copy, Debug, PartialEq, Eq, Structural)]
pub enum PathSecretError {
    DecryptionError,
}

/// The next path secret up the tree is the current one expanded with the
/// ASCII label "path", an empty context and a hash output as length; a path
/// secret and the node secret of its node ("node") are therefore expansions
/// under different labels.
pub proof fn law_next_path_secret(secret: Seq<u8>, hash: HashType, length: nat)
    ensures
        expand_with_label(secret, hash, path_label(), Seq::empty(), length) == expand_with_label(
            secret,
            hash,
            seq![112u8, 97u8, 116u8, 104u8],
            Seq::empty(),
            length,
        ),
        expand_with_label_ok(secret, hash, path_label(), Seq::empty(), length)
            == expand_with_label_ok(secret, hash, seq![112u8, 97u8, 116u8, 104u8], Seq::empty(), length),
{
    assert(path_label() =~= seq![112u8, 97u8, 116u8, 104u8]);
}

/// A path secret: the secret from which a member on a commit's path derives
/// the next one up the tree and its node's key pair.
pub struct PathSecret {
    pub path_secret: Secret,
}

impl From<Secret> for PathSecret {
    fn from(path_secret: Secret) -> (p: Self) {
        PathSecret { path_secret }
    }
}

impl vstd::std_specs::convert::FromSpecImpl<Secret> for PathSecret {
    open spec fn obeys_from_spec() -> bool {
        true
    }

    open spec fn from_spec(path_secret: Secret) -> PathSecret {
        PathSecret { path_secret }
    }
}

impl PathSecret {
    /// The next path secret up the tree:
    /// `ExpandWithLabel(path_secret, "path", "", hash length)`.
    pub fn derive_path_secret(
        &self,
        backend: &openmls_rust_crypto::OpenMlsRustCrypto,
        ciphersuite: &Ciphersuite,
    ) -> (res: Result<Self, MlsCryptoError>)
        ensures
            res is Ok <==> expand_with_label_ok(
                self.path_secret.value@,
                self.path_secret.ciphersuite.spec_hash_algorithm(),
                path_label(),
                Seq::empty(),
                ciphersuite.spec_hash_length() as nat,
            ),
            res matches Ok(p) ==> p.path_secret.ciphersuite == self.path_secret.ciphersuite
                && p.path_secret.value@ == expand_with_label(
                self.path_secret.value@,
                self.path_secret.ciphersuite.spec_hash_algorithm(),
                path_label(),
                Seq::empty(),
                ciphersuite.spec_hash_length() as nat,
            ),
            res matches Err(e) ==> e == expand_with_label_error(
                path_label(),
                Seq::empty(),
                ciphersuite.spec_hash_length() as nat,
            ),
            res matches Ok(p) ==> p.path_secret.value@ == expand_with_label(
                self.path_secret.value@,
                self.path_secret.ciphersuite.spec_hash_algorithm(),
                seq![112u8, 97u8, 116u8, 104u8],
                Seq::empty(),
                ciphersuite.spec_hash_length() as nat,
            ),
    {
        let label: Vec<u8> = vec![112u8, 97u8, 116u8, 104u8];
        assert(label@ =~= path_label());
        let context: Vec<u8> = Vec::new();
        assert(context@ =~= Seq::<u8>::empty());
        match kdf_expand_label(
            &self.path_secret,
            backend,
            label.as_slice(),
            context.as_slice(),
            ciphersuite.hash_length(),
        ) {
            Ok(path_secret) => Ok(PathSecret { path_secret }),
            Err(e) => Err(e),
        }
    }

    /// Decrypts a path secret that was sent under the public key of
    /// `private_key`, with the serialized group context as HPKE info and no
    /// associated data. The decrypted bytes become a secret of the
    /// ciphersuite; when HPKE refuses the ciphertext, the result is a
    /// decryption error.
    pub fn decrypt(
        backend: &openmls_rust_crypto::OpenMlsRustCrypto,
        ciphersuite: &Ciphersuite,
        _version: ProtocolVersion,
        ciphertext: &HpkeCiphertext,
        private_key: &HpkePrivateKey,
        group_context: &[u8],
    ) -> (res: Result<PathSecret, PathSecretError>)
        ensures
            match hpke_open_output(
                ciphersuite.spec_code(),
                ciphertext.kem_output@,
                ciphertext.ciphertext@,
                private_key.value@,
                group_context@,
                Seq::empty(),
            ) {
                Some(bytes) => res matches Ok(p) && p.path_secret.value@ == bytes
                    && p.path_secret.ciphersuite == *ciphersuite,
                None => res == Err::<PathSecret, PathSecretError>(PathSecretError::DecryptionError),
            },
    {
        let aad: Vec<u8> = Vec::new();
        assert(aad@ =~= Seq::<u8>::empty());
        match hpke_open(
            backend,
            ciphersuite.code(),
            ciphertext.kem_output.as_slice(),
            ciphertext.ciphertext.as_slice(),
            private_key.as_slice(),
            group_context,
            aad.as_slice(),
        ) {
            Some(secret_bytes) => Ok(PathSecret {
                path_secret: Secret::from_slice(secret_bytes.as_slice(), *ciphersuite),
            }),
            None => Err(PathSecretError::DecryptionError),
        }
    }

    /// The secret, consuming the path secret.
    pub fn secret(self) -> (s: Secret)
        ensures
            s == self.path_secret,
    {
        self.path_secret
    }
}

} // verus!
