//! Validation steps for incoming messages.
//!
//! ```text
//! parse_message(MlsMessageIn) -> UnverifiedMessage
//!
//! MlsMessageIn (exposes: wire format, group, epoch)
//! |
//! V
//! DecryptedMessage
//! |
//! V
//! UnverifiedMessage (exposes AAD, Credential of sender)
//!
//! process_unverified_message(UnverifiedMessage) -> ProcessedMessage
//!
//! UnverifiedMessage
//! |
//! V
//! UnverifiedContextMessage (includes group context)
//! |
//! | (sender is a member or a new member)
//! V
//! UnverifiedGroupMessage
//! |
//! | (verify signature)
//! V
//! VerifiedMemberMessage
//! |
//! V
//! ProcessedMessage (Application, Proposal, Commit)
//! ```

use vstd::prelude::*;

use crate::framing::{
    ContentType, Credential, GroupEpoch, MlsPlaintext, MlsPlaintextContentType, Sender, SenderType,
    VerifiableMlsPlaintext, WireFormat,
};
use crate::authentication::{
    membership_tag_with, signature_valid, tbm_encodable, tbs_bytes, tbs_encodable,
    verified_plaintext, MembershipError, SignatureError, SignaturePublicKey,
};
use crate::ciphersuite::Ciphersuite;
use crate::ciphertext::{
    decryption_matches, sender_data_outcome, same_secrets_but_tree, tree_evolves, unpadded,
    MlsCiphertextError, MlsMessage, MlsMessageIn,
};
use crate::framing::ContentView;
use crate::message_secrets::MessageSecrets;
use crate::sender_ratchet::SenderRatchetConfiguration;
use crate::treesync::TreeSync;

verus! {

/// Errors of the validation of incoming messages.
#[derive(Clone, Copy, Debug, PartialEq, Eq, Structural)]
pub enum ValidationError {
    WrongWireFormat,
    UnencryptedApplicationMessage,
    MissingMembershipTag,
    InvalidMembershipTag,
    MissingConfirmationTag,
    InvalidSignature,
    UnknownSender,
    NoPath,
    NotACommit,
    LibraryError,
    CodecError,
    MlsCiphertextError(MlsCiphertextError),
}

/// The first framing check that a plaintext fails, if any:
/// - ValSem007: a member's message that did not arrive encrypted carries a
///   membership tag;
/// - ValSem009: a commit carries a confirmation tag;
/// - ValSem005: application messages arrive encrypted, and only members send
///   encrypted messages.
pub open spec fn plaintext_framing_error(p: VerifiableMlsPlaintext) -> Option<ValidationError> {
    if p.sender.sender_type == SenderType::Member && p.wire_format != WireFormat::MlsCiphertext
        && p.membership_tag is None {
        Some(ValidationError::MissingMembershipTag)
    } else if p.content.spec_content_type() == ContentType::Commit && p.confirmation_tag is None {
        Some(ValidationError::MissingConfirmationTag)
    } else if p.content.spec_content_type() == ContentType::Application && p.wire_format
        != WireFormat::MlsCiphertext {
        Some(ValidationError::UnencryptedApplicationMessage)
    } else if p.content.spec_content_type() == ContentType::Application
        && p.sender.sender_type != SenderType::Member {
        Some(ValidationError::LibraryError)
    } else {
        None
    }
}

/// The credential that a message's sender signs with, as the tree and the
/// message show it (ValSem246 and the first half of ValSem247): a member's
/// comes from its leaf, a new member's from the update path of its commit.
pub open spec fn sender_credential(
    p: VerifiableMlsPlaintext,
    treesync: TreeSync,
) -> Result<(Seq<u8>, u16, Seq<u8>), ValidationError> {
    match p.sender.sender_type {
        SenderType::Member => if p.sender.sender < treesync.leaves@.len()
            && treesync.leaves@[p.sender.sender as int] is Some {
            Ok(treesync.leaves@[p.sender.sender as int]->0.key_package.credential.spec_view())
        } else {
            Err(ValidationError::UnknownSender)
        },
        _ => match p.content {
            MlsPlaintextContentType::Commit(c) => match c.path {
                Some(path) => Ok(path.leaf_key_package.credential.spec_view()),
                None => Err(ValidationError::NoPath),
            },
            _ => Err(ValidationError::NotACommit),
        },
    }
}

/// A message that passed the framing checks and, if it arrived encrypted, was
/// decrypted.
pub struct DecryptedMessage {
    plaintext: VerifiableMlsPlaintext,
    aad: Option<Vec<u8>>,
}

impl DecryptedMessage {
    pub closed spec fn spec_plaintext(&self) -> VerifiableMlsPlaintext {
        self.plaintext
    }

    /// The authenticated data of the ciphertext the message came in, if it
    /// came encrypted.
    pub closed spec fn spec_aad(&self) -> Option<Seq<u8>> {
        match self.aad {
            Some(a) => Some(a@),
            None => None,
        }
    }

    /// Checks the framing of a plaintext (ValSem005, ValSem007, ValSem009).
    pub fn from_plaintext(plaintext: VerifiableMlsPlaintext) -> (res: Result<Self, ValidationError>)
        ensures
            plaintext_framing_error(plaintext) matches Some(e) ==> res == Err::<Self, ValidationError>(e),
            plaintext_framing_error(plaintext) is None ==> res is Ok,
            res matches Ok(d) ==> d.spec_plaintext() == plaintext && d.spec_aad() is None,
    {
        if plaintext.sender().is_member() && plaintext.wire_format() != WireFormat::MlsCiphertext
            && plaintext.membership_tag().is_none() {
            return Err(ValidationError::MissingMembershipTag);
        }
        if plaintext.content_type() == ContentType::Commit && plaintext.confirmation_tag().is_none() {
            return Err(ValidationError::MissingConfirmationTag);
        }
        if plaintext.content_type() == ContentType::Application {
            if plaintext.wire_format() != WireFormat::MlsCiphertext {
                return Err(ValidationError::UnencryptedApplicationMessage);
            } else if !plaintext.sender().is_member() {
                return Err(ValidationError::LibraryError);
            }
        }
        Ok(DecryptedMessage { plaintext, aad: None })
    }

    /// A decrypted message from an incoming plaintext (ValSem005, ValSem007,
    /// ValSem009).
    pub fn from_inbound_plaintext(inbound_message: MlsMessageIn) -> (res: Result<Self, ValidationError>)
        ensures
            match inbound_message.mls_message {
                MlsMessage::Plaintext(p) => match plaintext_framing_error(*p) {
                    Some(e) => res == Err::<Self, ValidationError>(e),
                    None => res matches Ok(d) && d.spec_plaintext() == *p && d.spec_aad() is None,
                },
                MlsMessage::Ciphertext(_) => res == Err::<Self, ValidationError>(
                    ValidationError::WrongWireFormat,
                ),
            },
    {
        match inbound_message.mls_message {
            MlsMessage::Plaintext(plaintext) => Self::from_plaintext(*plaintext),
            MlsMessage::Ciphertext(_) => Err(ValidationError::WrongWireFormat),
        }
    }

    /// A decrypted message from an incoming ciphertext: decrypts its sender
    /// data, then its content with the key of the sender's ratchet, and
    /// checks the framing of the plaintext (ValSem009; an encrypted message
    /// is always a member's and passes ValSem005 and ValSem007).
    #[verifier::rlimit(50)]
    pub fn from_inbound_ciphertext(
        inbound_message: MlsMessageIn,
        ciphersuite: &Ciphersuite,
        backend: &openmls_rust_crypto::OpenMlsRustCrypto,
        message_secrets: &mut MessageSecrets,
        sender_ratchet_configuration: &SenderRatchetConfiguration,
    ) -> (res: Result<Self, ValidationError>)
        requires
            old(message_secrets).wf(),
        ensures
            final(message_secrets).wf(),
            same_secrets_but_tree(*final(message_secrets), *old(message_secrets)),
            match inbound_message.mls_message {
                MlsMessage::Plaintext(_) => res == Err::<Self, ValidationError>(
                    ValidationError::WrongWireFormat,
                ) && *final(message_secrets) == *old(message_secrets),
                MlsMessage::Ciphertext(c) => match sender_data_outcome(
                    *c,
                    old(message_secrets).spec_sender_data_secret(),
                    *ciphersuite,
                ) {
                    Err(e) => res == Err::<Self, ValidationError>(
                        ValidationError::MlsCiphertextError(e),
                    ) && *final(message_secrets) == *old(message_secrets),
                    Ok(sd) => {
                        &&& tree_evolves(
                            old(message_secrets).spec_secret_tree(),
                            final(message_secrets).spec_secret_tree(),
                            sd.0,
                            *ciphersuite,
                        )
                        &&& exists|r: Result<(ContentView, Seq<u8>, Option<Seq<u8>>, Seq<u8>), MlsCiphertextError>|
                            #[trigger] decryption_matches(
                                r,
                                *c,
                                old(message_secrets).spec_secret_tree(),
                                *ciphersuite,
                                *sender_ratchet_configuration,
                                sd.0,
                                sd.1,
                                sd.2,
                            ) && match unpadded(r) {
                                Err(e) => res == Err::<Self, ValidationError>(
                                    ValidationError::MlsCiphertextError(e),
                                ),
                                Ok(v) => if v.0.content_type() == ContentType::Commit && v.2 is None {
                                    res == Err::<Self, ValidationError>(
                                        ValidationError::MissingConfirmationTag,
                                    )
                                } else {
                                    res matches Ok(d) && {
                                        let p = d.spec_plaintext();
                                        &&& p.content.spec_view() == v.0
                                        &&& p.signature@ == v.1
                                        &&& crate::ciphertext::tag_view(p.confirmation_tag) == v.2
                                        &&& p.sender == Sender {
                                            sender_type: SenderType::Member,
                                            sender: sd.0,
                                        }
                                        &&& p.wire_format == WireFormat::MlsCiphertext
                                        &&& p.group_id.value@ == c.spec_group_id()
                                        &&& p.epoch == c.spec_epoch()
                                        &&& p.authenticated_data@ == c.spec_authenticated_data()
                                        &&& p.membership_tag is None
                                        &&& p.serialized_context is None
                                        &&& d.spec_aad() == Some(c.spec_authenticated_data())
                                    }
                                },
                            }
                    },
                },
            },
    {
        match inbound_message.mls_message {
            MlsMessage::Ciphertext(ciphertext) => {
                let sender_data = match ciphertext.sender_data(message_secrets, backend, ciphersuite) {
                    Ok(sd) => sd,
                    Err(e) => return Err(ValidationError::MlsCiphertextError(e)),
                };
                let ghost sd = sender_data.spec_view();
                let res = ciphertext.to_plaintext(
                    ciphersuite,
                    backend,
                    message_secrets,
                    sender_ratchet_configuration,
                    sender_data,
                );
                let ghost r = choose|r: Result<(ContentView, Seq<u8>, Option<Seq<u8>>, Seq<u8>), MlsCiphertextError>|
                    decryption_matches(
                        r,
                        *ciphertext,
                        old(message_secrets).spec_secret_tree(),
                        *ciphersuite,
                        *sender_ratchet_configuration,
                        sd.0,
                        sd.1,
                        sd.2,
                    ) && #[trigger] unpadded(r) == crate::ciphertext::plaintext_result_view(res);
                let plaintext = match res {
                    Ok(p) => p,
                    Err(e) => return Err(ValidationError::MlsCiphertextError(e)),
                };
                let aad = vstd::slice::slice_to_vec(ciphertext.authenticated_data());
                match Self::from_plaintext(plaintext) {
                    Ok(d) => Ok(DecryptedMessage { plaintext: d.plaintext, aad: Some(aad) }),
                    Err(e) => Err(e),
                }
            },
            MlsMessage::Plaintext(_) => Err(ValidationError::WrongWireFormat),
        }
    }

    /// The credential of the message's sender (ValSem246, and the first half
    /// of ValSem247). Messages of preconfigured senders are not supported.
    pub fn credential(&self, treesync: &TreeSync) -> (res: Result<Credential, ValidationError>)
        requires
            self.spec_plaintext().sender.sender_type != SenderType::Preconfigured,
        ensures
            res matches Ok(c) ==> sender_credential(self.spec_plaintext(), *treesync) == Ok::<
                (Seq<u8>, u16, Seq<u8>),
                ValidationError,
            >(c.spec_view()),
            res matches Err(e) ==> sender_credential(self.spec_plaintext(), *treesync) == Err::<
                (Seq<u8>, u16, Seq<u8>),
                ValidationError,
            >(e),
    {
        let sender = self.sender();
        match sender.sender_type {
            SenderType::Member => {
                let sender_index = sender.to_leaf_index();
                match treesync.leaf(sender_index) {
                    Ok(Some(sender_leaf)) => Ok(sender_leaf.key_package().credential().duplicate()),
                    _ => Err(ValidationError::UnknownSender),
                }
            },
            SenderType::NewMember => {
                if let MlsPlaintextContentType::Commit(commit) = self.plaintext().content() {
                    if let Some(path) = commit.path() {
                        Ok(path.leaf_key_package().credential().duplicate())
                    } else {
                        Err(ValidationError::NoPath)
                    }
                } else {
                    Err(ValidationError::NotACommit)
                }
            },
            SenderType::Preconfigured => Err(ValidationError::LibraryError),
        }
    }

    /// The wire format the message arrived in.
    pub fn wire_format(&self) -> (w: WireFormat)
        ensures
            w == self.spec_plaintext().wire_format,
    {
        self.plaintext.wire_format()
    }

    /// The sender.
    pub fn sender(&self) -> (s: &Sender)
        ensures
            *s == self.spec_plaintext().sender,
    {
        self.plaintext.sender()
    }

    /// The content type.
    pub fn content_type(&self) -> (c: ContentType)
        ensures
            c == self.spec_plaintext().content.spec_content_type(),
    {
        self.plaintext.content_type()
    }

    /// The plaintext.
    pub fn plaintext(&self) -> (p: &VerifiableMlsPlaintext)
        ensures
            *p == self.spec_plaintext(),
    {
        &self.plaintext
    }
}

/// A message that passed the framing checks, with its sender's credential and
/// the optional additional authenticated data.
pub struct UnverifiedMessage {
    plaintext: VerifiableMlsPlaintext,
    credential: Option<Credential>,
    aad_option: Option<Vec<u8>>,
}

impl UnverifiedMessage {
    pub closed spec fn spec_plaintext(&self) -> VerifiableMlsPlaintext {
        self.plaintext
    }

    pub closed spec fn spec_credential(&self) -> Option<Credential> {
        self.credential
    }

    /// The authenticated data of the ciphertext the message came in, if it
    /// came encrypted.
    pub closed spec fn spec_aad(&self) -> Option<Seq<u8>> {
        match self.aad_option {
            Some(a) => Some(a@),
            None => None,
        }
    }

    /// An unverified message from a decrypted one and the sender's credential;
    /// a message that came encrypted keeps its authenticated data.
    pub fn from_decrypted_message(decrypted_message: DecryptedMessage, credential: Option<Credential>) -> (u: Self)
        ensures
            u.spec_plaintext() == decrypted_message.spec_plaintext(),
            u.spec_credential() == credential,
            u.spec_aad() == decrypted_message.spec_aad(),
    {
        UnverifiedMessage {
            plaintext: decrypted_message.plaintext,
            credential,
            aad_option: decrypted_message.aad,
        }
    }

    /// The epoch.
    pub fn epoch(&self) -> (e: GroupEpoch)
        ensures
            e == self.spec_plaintext().epoch,
    {
        self.plaintext.epoch()
    }

    /// The authenticated data of the ciphertext the message came in, if it
    /// came encrypted.
    pub fn aad(&self) -> (a: &Option<Vec<u8>>)
        ensures
            match a {
                Some(v) => self.spec_aad() == Some(v@),
                None => self.spec_aad() is None,
            },
    {
        &self.aad_option
    }

    /// The sender.
    pub fn sender(&self) -> (s: &Sender)
        ensures
            *s == self.spec_plaintext().sender,
    {
        self.plaintext.sender()
    }

    /// The sender's credential, if there is one.
    pub fn credential(&self) -> (c: Option<&Credential>)
        ensures
            match c {
                Some(c) => self.spec_credential() == Some(*c),
                None => self.spec_credential() is None,
            },
    {
        self.credential.as_ref()
    }

    /// The plaintext and the credential.
    pub fn into_parts(self) -> (parts: (VerifiableMlsPlaintext, Option<Credential>))
        ensures
            parts.0 == self.spec_plaintext(),
            parts.1 == self.spec_credential(),
    {
        (self.plaintext, self.credential)
    }
}

/// The error of the membership check (ValSem008), if any: a member's message
/// that did not arrive encrypted must carry the membership tag that the
/// membership key gives over it with the epoch's group context.
pub open spec fn membership_error(p: VerifiableMlsPlaintext, message_secrets: MessageSecrets) -> Option<
    ValidationError,
> {
    if p.sender.sender_type == SenderType::Member && p.wire_format != WireFormat::MlsCiphertext {
        if !tbm_encodable(p) {
            Some(ValidationError::CodecError)
        } else {
            match p.membership_tag {
                None => Some(ValidationError::MissingMembershipTag),
                Some(t) => if t.0.mac_value@ == membership_tag_with(
                    p,
                    message_secrets.spec_serialized_context(),
                    message_secrets.spec_membership_key(),
                ) {
                    None
                } else {
                    Some(ValidationError::InvalidMembershipTag)
                },
            }
        }
    } else {
        None
    }
}

/// `after` is `before` with the group context attached when the sender is a
/// member.
pub open spec fn context_attached(
    before: VerifiableMlsPlaintext,
    after: VerifiableMlsPlaintext,
    context: Seq<u8>,
) -> bool {
    &&& before.sender.sender_type == SenderType::Member ==> (after.serialized_context matches Some(
        c,
    ) && c@ == context)
    &&& before.sender.sender_type != SenderType::Member ==> after.serialized_context
        == before.serialized_context
    &&& after.wire_format == before.wire_format
    &&& after.group_id == before.group_id
    &&& after.epoch == before.epoch
    &&& after.sender == before.sender
    &&& after.authenticated_data == before.authenticated_data
    &&& after.content == before.content
    &&& after.signature == before.signature
    &&& after.confirmation_tag == before.confirmation_tag
    &&& after.membership_tag == before.membership_tag
}

/// A message with its group context, ready for its signature to be checked:
/// one of a member or a new member, or one of a preconfigured sender.
pub enum UnverifiedContextMessage {
    Group(UnverifiedGroupMessage),
    Preconfigured(UnverifiedPreconfiguredMessage),
}

/// A message of a member or a new member, with its sender's credential.
pub struct UnverifiedGroupMessage {
    plaintext: VerifiableMlsPlaintext,
    credential: Credential,
}

impl UnverifiedGroupMessage {
    pub closed spec fn spec_plaintext(&self) -> VerifiableMlsPlaintext {
        self.plaintext
    }

    pub closed spec fn spec_credential(&self) -> Credential {
        self.credential
    }

    /// Checks the signature (ValSem010) with the given key if there is one,
    /// else with the sender's credential.
    pub fn into_verified(
        self,
        backend: &openmls_rust_crypto::OpenMlsRustCrypto,
        signature_key: Option<&SignaturePublicKey>,
    ) -> (res: Result<VerifiedMemberMessage, ValidationError>)
        ensures
            !tbs_encodable(self.spec_plaintext()) ==> res == Err::<
                VerifiedMemberMessage,
                ValidationError,
            >(ValidationError::CodecError),
            tbs_encodable(self.spec_plaintext()) ==> if (match signature_key {
                Some(k) => signature_valid(
                    k.signature_scheme,
                    tbs_bytes(self.spec_plaintext()),
                    k.value@,
                    self.spec_plaintext().signature@,
                ),
                None => signature_valid(
                    self.spec_credential().signature_scheme,
                    tbs_bytes(self.spec_plaintext()),
                    self.spec_credential().signature_key@,
                    self.spec_plaintext().signature@,
                ),
            }) {
                res matches Ok(m) && verified_plaintext(self.spec_plaintext(), m.spec_plaintext())
            } else {
                res == Err::<VerifiedMemberMessage, ValidationError>(
                    ValidationError::InvalidSignature,
                )
            },
    {
        let verified = match signature_key {
            Some(key) => self.plaintext.verify_with_key(backend, key),
            None => self.plaintext.verify(backend, &self.credential),
        };
        match verified {
            Ok(plaintext) => Ok(VerifiedMemberMessage { plaintext }),
            Err(SignatureError::InvalidSignature) => Err(ValidationError::InvalidSignature),
            Err(SignatureError::CodecError) => Err(ValidationError::CodecError),
        }
    }
}

/// A message of a preconfigured sender.
pub struct UnverifiedPreconfiguredMessage {
    plaintext: VerifiableMlsPlaintext,
}

impl UnverifiedPreconfiguredMessage {
    pub closed spec fn spec_plaintext(&self) -> VerifiableMlsPlaintext {
        self.plaintext
    }

    /// Checks the signature (ValSem010) with the given key.
    pub fn into_verified(
        self,
        backend: &openmls_rust_crypto::OpenMlsRustCrypto,
        signature_key: &SignaturePublicKey,
    ) -> (res: Result<VerifiedExternalMessage, ValidationError>)
        ensures
            !tbs_encodable(self.spec_plaintext()) ==> res == Err::<
                VerifiedExternalMessage,
                ValidationError,
            >(ValidationError::CodecError),
            tbs_encodable(self.spec_plaintext()) ==> if signature_valid(
                signature_key.signature_scheme,
                tbs_bytes(self.spec_plaintext()),
                signature_key.value@,
                self.spec_plaintext().signature@,
            ) {
                res matches Ok(m) && verified_plaintext(self.spec_plaintext(), m.spec_plaintext())
            } else {
                res == Err::<VerifiedExternalMessage, ValidationError>(
                    ValidationError::InvalidSignature,
                )
            },
    {
        match self.plaintext.verify_with_key(backend, signature_key) {
            Ok(_plaintext) => Ok(VerifiedExternalMessage { _plaintext }),
            Err(SignatureError::InvalidSignature) => Err(ValidationError::InvalidSignature),
            Err(SignatureError::CodecError) => Err(ValidationError::CodecError),
        }
    }
}

impl UnverifiedContextMessage {
    /// Attaches the serialized group context to a member's message and, for a
    /// member's message that did not arrive encrypted, checks its membership
    /// tag (ValSem008). Messages of preconfigured senders are not supported.
    pub fn from_unverified_message(
        unverified_message: UnverifiedMessage,
        message_secrets: &MessageSecrets,
        backend: &openmls_rust_crypto::OpenMlsRustCrypto,
    ) -> (res: Result<Self, ValidationError>)
        requires
            unverified_message.spec_plaintext().sender.sender_type != SenderType::Preconfigured,
        ensures
            membership_error(unverified_message.spec_plaintext(), *message_secrets) matches Some(e)
                ==> res == Err::<Self, ValidationError>(e),
            membership_error(unverified_message.spec_plaintext(), *message_secrets) is None
                && unverified_message.spec_credential() is None ==> res == Err::<Self, ValidationError>(
                ValidationError::LibraryError,
            ),
            membership_error(unverified_message.spec_plaintext(), *message_secrets) is None
                && unverified_message.spec_credential() is Some ==> (res matches Ok(
                UnverifiedContextMessage::Group(g),
            ) && g.spec_credential() == unverified_message.spec_credential()->0 && context_attached(
                unverified_message.spec_plaintext(),
                g.spec_plaintext(),
                message_secrets.spec_serialized_context(),
            )),
    {
        let (mut plaintext, credential_option) = unverified_message.into_parts();
        if plaintext.sender().is_member() {
            plaintext.set_context(vstd::slice::slice_to_vec(message_secrets.serialized_context()));
            if plaintext.wire_format() != WireFormat::MlsCiphertext {
                match plaintext.verify_membership(backend, message_secrets.membership_key()) {
                    Ok(()) => {},
                    Err(MembershipError::MissingMembershipTag) => {
                        return Err(ValidationError::MissingMembershipTag)
                    },
                    Err(MembershipError::InvalidMembershipTag) => {
                        return Err(ValidationError::InvalidMembershipTag)
                    },
                    Err(MembershipError::CodecError) => return Err(ValidationError::CodecError),
                }
            }
        }
        match credential_option {
            Some(credential) => Ok(UnverifiedContextMessage::Group(UnverifiedGroupMessage { plaintext, credential })),
            None => Err(ValidationError::LibraryError),
        }
    }
}

/// A member message whose framing, membership tag and signature have been
/// checked.
pub struct VerifiedMemberMessage {
    plaintext: MlsPlaintext,
}

impl VerifiedMemberMessage {
    pub closed spec fn spec_plaintext(&self) -> MlsPlaintext {
        self.plaintext
    }

    /// The plaintext.
    pub fn plaintext(&self) -> (p: &MlsPlaintext)
        ensures
            *p == self.spec_plaintext(),
    {
        &self.plaintext
    }

    /// The plaintext, consuming the message.
    pub fn take_plaintext(self) -> (p: MlsPlaintext)
        ensures
            p == self.spec_plaintext(),
    {
        self.plaintext
    }
}

/// A message of a sender outside the group whose signature has been checked.
pub struct VerifiedExternalMessage {
    _plaintext: MlsPlaintext,
}

impl VerifiedExternalMessage {
    pub closed spec fn spec_plaintext(&self) -> MlsPlaintext {
        self._plaintext
    }

    /// The plaintext.
    pub fn _plaintext(&self) -> (p: &MlsPlaintext)
        ensures
            *p == self.spec_plaintext(),
    {
        &self._plaintext
    }

    /// The plaintext, consuming the message.
    pub fn _take_plaintext(self) -> (p: MlsPlaintext)
        ensures
            p == self.spec_plaintext(),
    {
        self._plaintext
    }
}

/// An application message received by the group.
pub struct ApplicationMessage {
    message: Vec<u8>,
    sender: Sender,
}

impl ApplicationMessage {
    pub closed spec fn spec_message(&self) -> Seq<u8> {
        self.message@
    }

    pub closed spec fn spec_sender(&self) -> Sender {
        self.sender
    }

    /// An application message with the given content and sender.
    pub fn new(message: Vec<u8>, sender: Sender) -> (a: Self)
        ensures
            a.spec_message() == message@,
            a.spec_sender() == sender,
    {
        ApplicationMessage { message, sender }
    }

    /// The message.
    pub fn message(&self) -> (m: &[u8])
        ensures
            m@ == self.spec_message(),
    {
        self.message.as_slice()
    }

    /// The sender.
    pub fn sender(&self) -> (s: &Sender)
        ensures
            *s == self.spec_sender(),
    {
        &self.sender
    }

    /// The message and the sender, consuming the application message.
    pub fn into_parts(self) -> (parts: (Vec<u8>, Sender))
        ensures
            parts.0@ == self.spec_message(),
            parts.1 == self.spec_sender(),
    {
        (self.message, self.sender)
    }
}

} // verus!
