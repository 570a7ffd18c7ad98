//! The group as incoming messages meet it: its ciphersuite, its context, its
//! tree and the message secrets of the current and past epochs; and the
//! parsing of incoming messages against it.

use vstd::prelude::*;

use crate::authentication::bytes_equal;
use crate::ciphersuite::Ciphersuite;
use crate::ciphertext::{
    decryption_matches, same_secrets_but_tree, sender_data_outcome, tag_view, unpadded, MlsCiphertextError, MlsMessage,
    MlsMessageIn,
};
use crate::framing::{
    ContentType, ContentView, GroupEpoch, GroupId, Sender, SenderType, VerifiableMlsPlaintext,
    WireFormat,
};
use crate::group_context::GroupContext;
use crate::message_secrets::{is_first_position, MessageSecrets, MessageSecretsStore};
use crate::sender_ratchet::SenderRatchetConfiguration;
use crate::codec::{parse_u32, read_u32};
use crate::framing::Proposal;
use crate::treesync::{first_free_leaf, TreeSync};
use crate::authentication::{
    context_bytes, signature_valid, tbs_bytes_with, tbs_encodable, verified_plaintext,
    SignaturePublicKey,
};
use crate::framing::{Credential, MlsPlaintext, MlsPlaintextContentType};
use crate::hash_ref::make_hash_ref;
use crate::proposals::{plaintext_bytes, plaintext_encodable, QueuedProposal, QueuedProposalError};
use crate::validation::{
    membership_error, plaintext_framing_error, sender_credential, ApplicationMessage,
    DecryptedMessage, UnverifiedContextMessage, UnverifiedMessage, ValidationError,
    VerifiedMemberMessage,
};

verus! {

/// Errors of the group's handling of incoming messages.
#[derive(Clone, Copy, Debug, PartialEq, Eq, Structural)]
pub enum CoreGroupError {
    WrongGroupId,
    WrongEpoch,
    UnknownMember,
    UnencryptedApplicationMessage,
    NonMemberApplicationMessage,
    MissingMembershipTag,
    MissingConfirmationTag,
    NoSecretsForEpoch,
    NoSignatureKey,
    ValidationError(ValidationError),
    QueuedProposalError(QueuedProposalError),
    LibraryError,
}

/// Whether a commit is sent by a member or by a new member joining by it.
#[derive(Clone, Copy, Debug, PartialEq, Eq, Structural)]
pub enum CommitType {
    External,
    Member,
}

/// The type of a Remove proposal.
pub const REMOVE_PROPOSAL_TYPE: u16 = 3;

/// The body of the first Remove proposal among `proposals`, if any.
pub open spec fn first_remove(proposals: Seq<Proposal>) -> Option<Seq<u8>>
    decreases proposals.len(),
{
    if proposals.len() == 0 {
        None
    } else if proposals[0].proposal_type == REMOVE_PROPOSAL_TYPE {
        Some(proposals[0].body@)
    } else {
        first_remove(proposals.drop_first())
    }
}

/// The leaf index and the sender type of a commit. A member commits from its
/// own leaf. A new member takes the leftmost blank leaf, or the leaf of the
/// first Remove proposal that comes with the commit where that leaf is further
/// left, as it would if it were added after that removal. A Remove proposal
/// whose body is not a leaf index is refused.
pub open spec fn commit_sender_outcome(
    commit_type: CommitType,
    tree: TreeSync,
    inline_proposals: Seq<Proposal>,
) -> Result<(u32, SenderType), CoreGroupError> {
    match commit_type {
        CommitType::Member => Ok((tree.own_leaf_index, SenderType::Member)),
        CommitType::External => {
            let free = first_free_leaf(tree.leaves@);
            match first_remove(inline_proposals) {
                None => Ok((free as u32, SenderType::NewMember)),
                Some(body) => match parse_u32(body) {
                    Some((removed, n)) => if n == body.len() {
                        Ok((if removed < free { removed } else { free as u32 }, SenderType::NewMember))
                    } else {
                        Err(CoreGroupError::LibraryError)
                    },
                    None => Err(CoreGroupError::LibraryError),
                },
            }
        },
    }
}

/// The first framing check an incoming message fails, if any: it must be for
/// this group (ValSem002), and of the current epoch, or of a past epoch for
/// an application message (ValSem003).
pub open spec fn framing_error(group_id: Seq<u8>, epoch: GroupEpoch, message: MlsMessageIn) -> Option<
    CoreGroupError,
> {
    if message.spec_group_id() != group_id {
        Some(CoreGroupError::WrongGroupId)
    } else if message.spec_content_type() == ContentType::Application {
        if message.spec_epoch().0 > epoch.0 {
            Some(CoreGroupError::WrongEpoch)
        } else {
            None
        }
    } else if message.spec_epoch() != epoch {
        Some(CoreGroupError::WrongEpoch)
    } else {
        None
    }
}

/// The framing checks of an incoming message (ValSem002, ValSem003): a
/// message for another group is refused; a proposal or commit passes only
/// in the group's current epoch, an application message in the current or
/// a past epoch; a message that fails is refused with `WrongEpoch`.
pub proof fn law_framing_epochs(group_id: Seq<u8>, epoch: GroupEpoch, message: MlsMessageIn)
    ensures
        message.spec_group_id() != group_id ==> framing_error(group_id, epoch, message) == Some(
            CoreGroupError::WrongGroupId,
        ),
        message.spec_group_id() == group_id && message.spec_content_type() != ContentType::Application
            ==> (framing_error(group_id, epoch, message) is None <==> message.spec_epoch() == epoch),
        message.spec_group_id() == group_id && message.spec_content_type() == ContentType::Application
            ==> (framing_error(group_id, epoch, message) is None <==> message.spec_epoch().0 <= epoch.0),
        message.spec_group_id() == group_id && framing_error(group_id, epoch, message) is Some
            ==> framing_error(group_id, epoch, message) == Some(CoreGroupError::WrongEpoch),
{
}

/// Whether the tree has a member at leaf `index`.
pub open spec fn leaf_present(tree: TreeSync, index: u32) -> bool {
    index < tree.leaves@.len() && tree.leaves@[index as int] is Some
}

/// The first check of a plaintext against the group's tree that fails, if
/// any: a member sender must have a leaf (ValSem004); application messages
/// must have arrived encrypted, from a member (ValSem005); a member's
/// message in the clear must carry a membership tag (ValSem007); a commit
/// must carry a confirmation tag (ValSem009).
pub open spec fn plaintext_check_error(p: VerifiableMlsPlaintext, tree: TreeSync) -> Option<
    CoreGroupError,
> {
    if p.sender.sender_type == SenderType::Member && !leaf_present(tree, p.sender.sender) {
        Some(CoreGroupError::UnknownMember)
    } else if p.content.spec_content_type() == ContentType::Application && p.wire_format
        != WireFormat::MlsCiphertext {
        Some(CoreGroupError::UnencryptedApplicationMessage)
    } else if p.content.spec_content_type() == ContentType::Application && p.sender.sender_type
        != SenderType::Member {
        Some(CoreGroupError::NonMemberApplicationMessage)
    } else if p.wire_format == WireFormat::MlsPlaintext && p.sender.sender_type == SenderType::Member
        && p.membership_tag is None {
        Some(CoreGroupError::MissingMembershipTag)
    } else if p.content.spec_content_type() == ContentType::Commit && p.confirmation_tag is None {
        Some(CoreGroupError::MissingConfirmationTag)
    } else {
        None
    }
}

/// What parsing a plaintext message that passed the framing checks yields:
/// the sender's credential, or the first error.
pub open spec fn plaintext_parse_outcome(p: VerifiableMlsPlaintext, tree: TreeSync) -> Result<
    (Seq<u8>, u16, Seq<u8>),
    CoreGroupError,
> {
    match plaintext_framing_error(p) {
        Some(e) => Err(CoreGroupError::ValidationError(e)),
        None => match plaintext_check_error(p, tree) {
            Some(e) => Err(e),
            None => match sender_credential(p, tree) {
                Ok(c) => Ok(c),
                Err(e) => Err(CoreGroupError::ValidationError(e)),
            },
        },
    }
}

/// The message secrets a message of `epoch` is decrypted with: those of the
/// current epoch, or those the store keeps for a past one.
pub open spec fn secrets_for_epoch(
    store: MessageSecretsStore,
    current: GroupEpoch,
    epoch: GroupEpoch,
) -> Option<MessageSecrets> {
    if epoch.0 < current.0 {
        if store.spec_epochs().contains(epoch) {
            Some(
                store.spec_past_secrets(
                    choose|i: int| is_first_position(store.spec_epochs(), epoch, i),
                ),
            )
        } else {
            None
        }
    } else {
        Some(store.spec_message_secrets())
    }
}

/// The group's state that incoming messages are checked against.
pub struct CoreGroup {
    ciphersuite: Ciphersuite,
    group_context: GroupContext,
    treesync: TreeSync,
    message_secrets_store: MessageSecretsStore,
}

impl CoreGroup {
    pub closed spec fn spec_ciphersuite(&self) -> Ciphersuite {
        self.ciphersuite
    }

    pub closed spec fn spec_context(&self) -> GroupContext {
        self.group_context
    }

    pub closed spec fn spec_treesync(&self) -> TreeSync {
        self.treesync
    }

    pub closed spec fn spec_store(&self) -> MessageSecretsStore {
        self.message_secrets_store
    }

    /// The secret store is well formed.
    pub open spec fn wf(&self) -> bool {
        self.spec_store().wf()
    }

    /// A group from its state.
    pub fn new(
        ciphersuite: Ciphersuite,
        group_context: GroupContext,
        treesync: TreeSync,
        message_secrets_store: MessageSecretsStore,
    ) -> (g: Self)
        ensures
            g.spec_ciphersuite() == ciphersuite,
            g.spec_context() == group_context,
            g.spec_treesync() == treesync,
            g.spec_store() == message_secrets_store,
    {
        CoreGroup { ciphersuite, group_context, treesync, message_secrets_store }
    }

    /// The ciphersuite.
    pub fn ciphersuite(&self) -> (c: Ciphersuite)
        ensures
            c == self.spec_ciphersuite(),
    {
        self.ciphersuite
    }

    /// The group context.
    pub fn context(&self) -> (c: &GroupContext)
        ensures
            *c == self.spec_context(),
    {
        &self.group_context
    }

    /// The tree.
    pub fn treesync(&self) -> (t: &TreeSync)
        ensures
            *t == self.spec_treesync(),
    {
        &self.treesync
    }

    /// The store of message secrets.
    pub fn message_secrets_store(&self) -> (s: &MessageSecretsStore)
        ensures
            *s == self.spec_store(),
    {
        &self.message_secrets_store
    }

    /// Checks that an incoming message is for this group (ValSem002) and of
    /// an epoch it accepts (ValSem003).
    pub fn validate_framing(&self, message: &MlsMessageIn) -> (res: Result<(), CoreGroupError>)
        ensures
            match framing_error(
                self.spec_context().spec_group_id(),
                self.spec_context().spec_epoch(),
                *message,
            ) {
                Some(e) => res == Err::<(), CoreGroupError>(e),
                None => res is Ok,
            },
            message.spec_group_id() != self.spec_context().spec_group_id() ==> res == Err::<
                (),
                CoreGroupError,
            >(CoreGroupError::WrongGroupId),
            message.spec_group_id() == self.spec_context().spec_group_id()
                && message.spec_content_type() != ContentType::Application ==> (res is Ok
                <==> message.spec_epoch() == self.spec_context().spec_epoch()),
            message.spec_group_id() == self.spec_context().spec_group_id()
                && message.spec_content_type() == ContentType::Application ==> (res is Ok
                <==> message.spec_epoch().0 <= self.spec_context().spec_epoch().0),
            res is Err ==> (res == Err::<(), CoreGroupError>(CoreGroupError::WrongGroupId) || res
                == Err::<(), CoreGroupError>(CoreGroupError::WrongEpoch)),
    {
        if !bytes_equal(message.group_id().as_slice(), self.group_context.group_id().as_slice()) {
            return Err(CoreGroupError::WrongGroupId);
        }
        let epoch = self.group_context.epoch();
        if message.content_type() == ContentType::Application {
            if message.epoch().0 > epoch.0 {
                return Err(CoreGroupError::WrongEpoch);
            }
        } else if message.epoch().0 != epoch.0 {
            return Err(CoreGroupError::WrongEpoch);
        }
        Ok(())
    }

    /// Checks a plaintext against the group's tree (ValSem004, ValSem005,
    /// ValSem007, ValSem009).
    pub fn validate_plaintext(&self, plaintext: &VerifiableMlsPlaintext) -> (res: Result<
        (),
        CoreGroupError,
    >)
        ensures
            match plaintext_check_error(*plaintext, self.spec_treesync()) {
                Some(e) => res == Err::<(), CoreGroupError>(e),
                None => res is Ok,
            },
    {
        let sender = plaintext.sender();
        if sender.is_member() {
            match self.treesync.leaf(sender.to_leaf_index()) {
                Ok(Some(_)) => {},
                _ => return Err(CoreGroupError::UnknownMember),
            }
        }
        if plaintext.content_type() == ContentType::Application {
            if plaintext.wire_format() != WireFormat::MlsCiphertext {
                return Err(CoreGroupError::UnencryptedApplicationMessage);
            } else if !plaintext.sender().is_member() {
                return Err(CoreGroupError::NonMemberApplicationMessage);
            }
        }
        if plaintext.wire_format() == WireFormat::MlsPlaintext && plaintext.sender().is_member()
            && plaintext.membership_tag().is_none() {
            return Err(CoreGroupError::MissingMembershipTag);
        }
        if plaintext.content_type() == ContentType::Commit && plaintext.confirmation_tag().is_none() {
            return Err(CoreGroupError::MissingConfirmationTag);
        }
        Ok(())
    }

    /// The message secrets of `epoch`: those of the current epoch, or those
    /// the store keeps for a past one.
    pub fn message_secrets(&self, epoch: GroupEpoch) -> (res: Result<&MessageSecrets, CoreGroupError>)
        requires
            self.wf(),
        ensures
            match secrets_for_epoch(self.spec_store(), self.spec_context().spec_epoch(), epoch) {
                None => res == Err::<&MessageSecrets, CoreGroupError>(
                    CoreGroupError::NoSecretsForEpoch,
                ),
                Some(m) => res matches Ok(r) && *r == m && r.wf(),
            },
    {
        if epoch.0 < self.group_context.epoch().0 {
            let ghost store = self.message_secrets_store;
            proof {
                if store.spec_epochs().contains(epoch) {
                    let k = choose|k: int| 0 <= k < store.spec_epochs().len() && store.spec_epochs()[k] == epoch;
                    lemma_first_position_exists(store.spec_epochs(), epoch, k);
                }
            }
            match self.message_secrets_store.secrets_for_epoch(epoch) {
                Some(m) => Ok(m),
                None => Err(CoreGroupError::NoSecretsForEpoch),
            }
        } else {
            Ok(self.message_secrets_store.message_secrets())
        }
    }

    /// The message secrets of `epoch`, to be changed in place: those of the
    /// current epoch, or those the store keeps for a past one.
    pub fn message_secrets_mut(&mut self, epoch: GroupEpoch) -> (res: Result<
        &mut MessageSecrets,
        CoreGroupError,
    >)
        requires
            old(self).wf(),
        ensures
            final(self).spec_ciphersuite() == old(self).spec_ciphersuite(),
            final(self).spec_context() == old(self).spec_context(),
            final(self).spec_treesync() == old(self).spec_treesync(),
            final(self).spec_store().spec_epochs() == old(self).spec_store().spec_epochs(),
            match secrets_for_epoch(old(self).spec_store(), old(self).spec_context().spec_epoch(), epoch) {
                None => res == Err::<&mut MessageSecrets, CoreGroupError>(
                    CoreGroupError::NoSecretsForEpoch,
                ) && *final(self) == *old(self),
                Some(m) => res matches Ok(r) && *r == m && r.wf() && (final(r).wf()
                    ==> final(self).wf()) && (same_secrets_but_tree(*final(r), *r) ==> store_used_for(
                    old(self).spec_store(),
                    final(self).spec_store(),
                    old(self).spec_context().spec_epoch(),
                    epoch,
                )),
            },
    {
        if epoch.0 < self.group_context.epoch().0 {
            let ghost store = self.message_secrets_store;
            proof {
                if store.spec_epochs().contains(epoch) {
                    let k = choose|k: int| 0 <= k < store.spec_epochs().len() && store.spec_epochs()[k] == epoch;
                    lemma_first_position_exists(store.spec_epochs(), epoch, k);
                }
            }
            match self.message_secrets_store.secrets_for_epoch_mut(epoch) {
                Some(m) => Ok(m),
                None => Err(CoreGroupError::NoSecretsForEpoch),
            }
        } else {
            Ok(self.message_secrets_store.message_secrets_mut())
        }
    }
}

impl CoreGroup {
    /// The leaf index from which this member sends a commit of the given
    /// type, with the `inline_proposals` that come with it, and its sender
    /// type: see [`commit_sender_outcome`].
    pub fn commit_sender(&self, commit_type: CommitType, inline_proposals: &[Proposal]) -> (res:
        Result<(u32, SenderType), CoreGroupError>)
        requires
            self.spec_treesync().leaves@.len() <= u32::MAX,
        ensures
            res == commit_sender_outcome(commit_type, self.spec_treesync(), inline_proposals@),
    {
        match commit_type {
            CommitType::Member => Ok((self.treesync.own_leaf_index(), SenderType::Member)),
            CommitType::External => {
                let free_leaf_index = self.treesync.free_leaf_index();
                let mut i: usize = 0;
                assert(inline_proposals@.skip(0) =~= inline_proposals@);
                while i < inline_proposals.len()
                    invariant
                        i <= inline_proposals@.len(),
                        commit_type == CommitType::External,
                        free_leaf_index == first_free_leaf(self.spec_treesync().leaves@),
                        first_remove(inline_proposals@) == first_remove(
                            inline_proposals@.skip(i as int),
                        ),
                    decreases inline_proposals@.len() - i,
                {
                    let ghost rest = inline_proposals@.skip(i as int);
                    assert(rest[0] == inline_proposals@[i as int]);
                    if inline_proposals[i].proposal_type == REMOVE_PROPOSAL_TYPE {
                        let body = inline_proposals[i].body.as_slice();
                        assert(body@.skip(0) =~= body@);
                        return match read_u32(body, 0) {
                            Some((removed, n)) => {
                                if n == body.len() {
                                    if removed < free_leaf_index {
                                        Ok((removed, SenderType::NewMember))
                                    } else {
                                        Ok((free_leaf_index, SenderType::NewMember))
                                    }
                                } else {
                                    Err(CoreGroupError::LibraryError)
                                }
                            },
                            None => Err(CoreGroupError::LibraryError),
                        };
                    }
                    assert(rest.drop_first() =~= inline_proposals@.skip(i + 1));
                    i = i + 1;
                }
                assert(inline_proposals@.skip(i as int).len() == 0);
                Ok((free_leaf_index, SenderType::NewMember))
            },
        }
    }
}

/// The store after the message secrets of `epoch` were used to decrypt a
/// message: those of the current epoch `current`, or those at the first
/// position of `epoch` among the past epochs. Its epochs and all other secrets
/// stay, and the used secrets keep everything but their secret tree.
pub open spec fn store_used_for(
    old_store: MessageSecretsStore,
    new_store: MessageSecretsStore,
    current: GroupEpoch,
    epoch: GroupEpoch,
) -> bool {
    &&& new_store.spec_epochs() == old_store.spec_epochs()
    &&& new_store.spec_max_epochs() == old_store.spec_max_epochs()
    &&& if epoch.0 < current.0 {
        &&& new_store.spec_message_secrets() == old_store.spec_message_secrets()
        &&& forall|i: int| #[trigger]
            is_first_position(old_store.spec_epochs(), epoch, i) ==> {
                &&& same_secrets_but_tree(new_store.spec_past_secrets(i), old_store.spec_past_secrets(i))
                &&& forall|j: int|
                    0 <= j < old_store.spec_epochs().len() && j != i ==> new_store.spec_past_secrets(j)
                        == old_store.spec_past_secrets(j)
            }
    } else {
        &&& same_secrets_but_tree(new_store.spec_message_secrets(), old_store.spec_message_secrets())
        &&& forall|j: int|
            0 <= j < old_store.spec_epochs().len() ==> new_store.spec_past_secrets(j)
                == old_store.spec_past_secrets(j)
    }
}

/// An epoch that occurs among `epochs` has a first position there.
pub proof fn lemma_first_position_exists(epochs: Seq<GroupEpoch>, epoch: GroupEpoch, k: int)
    requires
        0 <= k < epochs.len(),
        epochs[k] == epoch,
    ensures
        exists|i: int| is_first_position(epochs, epoch, i),
    decreases k,
{
    if exists|j: int| 0 <= j < k && epochs[j] == epoch {
        let j = choose|j: int| 0 <= j < k && epochs[j] == epoch;
        lemma_first_position_exists(epochs, epoch, j);
    } else {
        assert(is_first_position(epochs, epoch, k));
    }
}

/// What parsing an encrypted message yields once its content was decrypted
/// to `v` from the member `sender`: the framing checks of the decrypted
/// plaintext, the sender's leaf (ValSem004), and the sender's credential.
pub open spec fn decrypted_parse_matches(
    res: Result<UnverifiedMessage, CoreGroupError>,
    v: (ContentView, Seq<u8>, Option<Seq<u8>>),
    sender: u32,
    aad: Seq<u8>,
    tree: TreeSync,
) -> bool {
    if v.0.content_type() == ContentType::Commit && v.2 is None {
        res == Err::<UnverifiedMessage, CoreGroupError>(
            CoreGroupError::ValidationError(ValidationError::MissingConfirmationTag),
        )
    } else if !leaf_present(tree, sender) {
        res == Err::<UnverifiedMessage, CoreGroupError>(CoreGroupError::UnknownMember)
    } else {
        res matches Ok(u) && {
            let p = u.spec_plaintext();
            &&& p.content.spec_view() == v.0
            &&& p.signature@ == v.1
            &&& tag_view(p.confirmation_tag) == v.2
            &&& p.sender == Sender { sender_type: SenderType::Member, sender }
            &&& p.wire_format == WireFormat::MlsCiphertext
            &&& p.membership_tag is None
            &&& u.spec_credential() matches Some(c) && c.spec_view()
                == tree.leaves@[sender as int]->0.key_package.credential.spec_view()
            &&& u.spec_aad() == Some(aad)
        }
    }
}

impl CoreGroup {
    /// Parses an incoming message: checks its framing against the group,
    /// decrypts it with the message secrets of its epoch when it is
    /// encrypted, checks the plaintext against the group's tree, and finds
    /// the sender's credential. Messages of preconfigured senders are not
    /// supported.
    #[verifier::rlimit(60)]
    pub fn parse_message(
        &mut self,
        backend: &openmls_rust_crypto::OpenMlsRustCrypto,
        message: MlsMessageIn,
        sender_ratchet_configuration: &SenderRatchetConfiguration,
    ) -> (res: Result<UnverifiedMessage, CoreGroupError>)
        requires
            old(self).wf(),
            message.mls_message matches MlsMessage::Plaintext(p) ==> p.sender.sender_type
                != SenderType::Preconfigured,
        ensures
            final(self).wf(),
            final(self).spec_ciphersuite() == old(self).spec_ciphersuite(),
            final(self).spec_context() == old(self).spec_context(),
            final(self).spec_treesync() == old(self).spec_treesync(),
            framing_error(
                old(self).spec_context().spec_group_id(),
                old(self).spec_context().spec_epoch(),
                message,
            ) matches Some(e) ==> res == Err::<UnverifiedMessage, CoreGroupError>(e)
                && *final(self) == *old(self),
            message.mls_message matches MlsMessage::Ciphertext(c) ==> (framing_error(
                old(self).spec_context().spec_group_id(),
                old(self).spec_context().spec_epoch(),
                message,
            ) is None && secrets_for_epoch(
                old(self).spec_store(),
                old(self).spec_context().spec_epoch(),
                c.spec_epoch(),
            ) is Some ==> store_used_for(
                old(self).spec_store(),
                final(self).spec_store(),
                old(self).spec_context().spec_epoch(),
                c.spec_epoch(),
            )),
            framing_error(
                old(self).spec_context().spec_group_id(),
                old(self).spec_context().spec_epoch(),
                message,
            ) is None ==> match message.mls_message {
                MlsMessage::Plaintext(p) => *final(self) == *old(self) && match plaintext_parse_outcome(
                    *p,
                    old(self).spec_treesync(),
                ) {
                    Err(e) => res == Err::<UnverifiedMessage, CoreGroupError>(e),
                    Ok(c) => res matches Ok(u) && u.spec_plaintext() == *p && u.spec_aad() is None
                        && (u.spec_credential() matches Some(cr) && cr.spec_view() == c),
                },
                MlsMessage::Ciphertext(c) => match secrets_for_epoch(
                    old(self).spec_store(),
                    old(self).spec_context().spec_epoch(),
                    c.spec_epoch(),
                ) {
                    None => res == Err::<UnverifiedMessage, CoreGroupError>(
                        CoreGroupError::NoSecretsForEpoch,
                    ) && *final(self) == *old(self),
                    Some(ms) => match sender_data_outcome(
                        *c,
                        ms.spec_sender_data_secret(),
                        old(self).spec_ciphersuite(),
                    ) {
                        Err(e) => res == Err::<UnverifiedMessage, CoreGroupError>(
                            CoreGroupError::ValidationError(ValidationError::MlsCiphertextError(e)),
                        ),
                        Ok(sd) => exists|r: Result<(ContentView, Seq<u8>, Option<Seq<u8>>, Seq<u8>), MlsCiphertextError>|
                            #[trigger] decryption_matches(
                                r,
                                *c,
                                ms.spec_secret_tree(),
                                old(self).spec_ciphersuite(),
                                *sender_ratchet_configuration,
                                sd.0,
                                sd.1,
                                sd.2,
                            ) && match unpadded(r) {
                                Err(e) => res == Err::<UnverifiedMessage, CoreGroupError>(
                                    CoreGroupError::ValidationError(
                                        ValidationError::MlsCiphertextError(e),
                                    ),
                                ),
                                Ok(v) => decrypted_parse_matches(
                                    res,
                                    v,
                                    sd.0,
                                    c.spec_authenticated_data(),
                                    old(self).spec_treesync(),
                                ),
                            },
                    },
                },
            },
    {
        match self.validate_framing(&message) {
            Ok(()) => {},
            Err(e) => return Err(e),
        }
        let ciphersuite = self.ciphersuite;
        let decrypted_message = match message.wire_format() {
            WireFormat::MlsPlaintext => match DecryptedMessage::from_inbound_plaintext(message) {
                Ok(d) => d,
                Err(e) => return Err(CoreGroupError::ValidationError(e)),
            },
            WireFormat::MlsCiphertext => {
                let message_secrets = match self.message_secrets_mut(message.epoch()) {
                    Ok(m) => m,
                    Err(e) => return Err(e),
                };
                match DecryptedMessage::from_inbound_ciphertext(
                    message,
                    &ciphersuite,
                    backend,
                    message_secrets,
                    sender_ratchet_configuration,
                ) {
                    Ok(d) => d,
                    Err(e) => return Err(CoreGroupError::ValidationError(e)),
                }
            },
        };
        match self.validate_plaintext(decrypted_message.plaintext()) {
            Ok(()) => {},
            Err(e) => return Err(e),
        }
        let credential = match decrypted_message.credential(&self.treesync) {
            Ok(c) => c,
            Err(e) => return Err(CoreGroupError::ValidationError(e)),
        };
        Ok(UnverifiedMessage::from_decrypted_message(decrypted_message, Some(credential)))
    }
}

/// A message that passed every check: an application message, or a verified
/// proposal or commit for the group to queue or stage.
pub enum ProcessedMessage {
    ApplicationMessage(ApplicationMessage),
    ProposalMessage(Box<QueuedProposal>),
    StagedCommitMessage(Box<VerifiedMemberMessage>),
}

/// Whether the signature of a plaintext verifies: with the given key if there
/// is one, else with the sender's credential; over the signed content with
/// the group context in front for a member's message.
pub open spec fn signature_ok(
    p: VerifiableMlsPlaintext,
    context: Seq<u8>,
    credential: Credential,
    signature_key: Option<&SignaturePublicKey>,
) -> bool {
    let signed_context = if p.sender.sender_type == SenderType::Member {
        context
    } else {
        context_bytes(p)
    };
    let payload = tbs_bytes_with(p, signed_context);
    match signature_key {
        Some(k) => signature_valid(k.signature_scheme, payload, k.value@, p.signature@),
        None => signature_valid(
            credential.signature_scheme,
            payload,
            credential.signature_key@,
            p.signature@,
        ),
    }
}

/// The plaintext that checking the signature of `p` yields.
pub open spec fn verified_of(p: VerifiableMlsPlaintext) -> MlsPlaintext {
    MlsPlaintext {
        wire_format: p.wire_format,
        group_id: p.group_id,
        epoch: p.epoch,
        sender: p.sender,
        authenticated_data: p.authenticated_data,
        content: p.content,
        signature: p.signature,
        confirmation_tag: p.confirmation_tag,
        membership_tag: p.membership_tag,
    }
}

/// What a verified plaintext is processed into: an application message with
/// its data and sender; a proposal queued with its reference, the hash
/// reference of the encoded plaintext; or the verified commit.
pub open spec fn processed_matches(
    res: Result<ProcessedMessage, CoreGroupError>,
    p: VerifiableMlsPlaintext,
    ciphersuite: Ciphersuite,
) -> bool {
    match p.content {
        MlsPlaintextContentType::Application(d) => res matches Ok(
            ProcessedMessage::ApplicationMessage(a),
        ) && a.spec_message() == d@ && a.spec_sender() == p.sender,
        MlsPlaintextContentType::Proposal(prop) => if plaintext_encodable(verified_of(p)) {
            res matches Ok(ProcessedMessage::ProposalMessage(q)) && q.spec_proposal() == (
                prop.proposal_type,
                prop.body@,
            ) && q.spec_sender() == p.sender && q.spec_proposal_reference() == make_hash_ref(
                plaintext_bytes(verified_of(p)),
                ciphersuite,
            )
        } else {
            res == Err::<ProcessedMessage, CoreGroupError>(
                CoreGroupError::QueuedProposalError(QueuedProposalError::CodecError),
            )
        },
        MlsPlaintextContentType::Commit(_) => res matches Ok(
            ProcessedMessage::StagedCommitMessage(m),
        ) && verified_plaintext(p, m.spec_plaintext()),
    }
}

impl CoreGroup {
    /// Processes a parsed message: attaches the group context of its epoch,
    /// checks its membership tag (ValSem008) and its signature (ValSem010),
    /// and hands out its content. Messages of preconfigured senders are not
    /// supported.
    #[verifier::rlimit(60)]
    pub fn process_unverified_message(
        &mut self,
        unverified_message: UnverifiedMessage,
        signature_key: Option<&SignaturePublicKey>,
        backend: &openmls_rust_crypto::OpenMlsRustCrypto,
    ) -> (res: Result<ProcessedMessage, CoreGroupError>)
        requires
            old(self).wf(),
            unverified_message.spec_plaintext().sender.sender_type != SenderType::Preconfigured,
        ensures
            *final(self) == *old(self),
            ({
                let p = unverified_message.spec_plaintext();
                match secrets_for_epoch(
                    old(self).spec_store(),
                    old(self).spec_context().spec_epoch(),
                    p.epoch,
                ) {
                    None => res == Err::<ProcessedMessage, CoreGroupError>(
                        CoreGroupError::NoSecretsForEpoch,
                    ),
                    Some(ms) => match membership_error(p, ms) {
                        Some(e) => res == Err::<ProcessedMessage, CoreGroupError>(
                            CoreGroupError::ValidationError(e),
                        ),
                        None => match unverified_message.spec_credential() {
                            None => res == Err::<ProcessedMessage, CoreGroupError>(
                                CoreGroupError::ValidationError(ValidationError::LibraryError),
                            ),
                            Some(credential) => if !tbs_encodable(p) {
                                res == Err::<ProcessedMessage, CoreGroupError>(
                                    CoreGroupError::ValidationError(ValidationError::CodecError),
                                )
                            } else if !signature_ok(
                                p,
                                ms.spec_serialized_context(),
                                credential,
                                signature_key,
                            ) {
                                res == Err::<ProcessedMessage, CoreGroupError>(
                                    CoreGroupError::ValidationError(
                                        ValidationError::InvalidSignature,
                                    ),
                                )
                            } else {
                                processed_matches(res, p, old(self).spec_ciphersuite())
                            },
                        },
                    },
                }
            }),
    {
        let message_secrets = match self.message_secrets(unverified_message.epoch()) {
            Ok(m) => m,
            Err(e) => return Err(e),
        };
        let context_plaintext = match UnverifiedContextMessage::from_unverified_message(
            unverified_message,
            message_secrets,
            backend,
        ) {
            Ok(c) => c,
            Err(e) => return Err(CoreGroupError::ValidationError(e)),
        };
        match context_plaintext {
            UnverifiedContextMessage::Group(group_message) => {
                let verified = match group_message.into_verified(backend, signature_key) {
                    Ok(v) => v,
                    Err(e) => return Err(CoreGroupError::ValidationError(e)),
                };
                match &verified.plaintext().content {
                    MlsPlaintextContentType::Application(application_message) => {
                        let sender = *verified.plaintext().sender();
                        Ok(ProcessedMessage::ApplicationMessage(
                            ApplicationMessage::new(
                                vstd::slice::slice_to_vec(application_message.as_slice()),
                                sender,
                            ),
                        ))
                    },
                    MlsPlaintextContentType::Proposal(_) => {
                        let ciphersuite = self.ciphersuite;
                        match QueuedProposal::from_mls_plaintext(
                            &ciphersuite,
                            backend,
                            verified.take_plaintext(),
                        ) {
                            Ok(q) => Ok(ProcessedMessage::ProposalMessage(Box::new(q))),
                            Err(e) => Err(CoreGroupError::QueuedProposalError(e)),
                        }
                    },
                    MlsPlaintextContentType::Commit(_) => Ok(
                        ProcessedMessage::StagedCommitMessage(Box::new(verified)),
                    ),
                }
            },
            UnverifiedContextMessage::Preconfigured(_) => {
                proof {
                    assert(false);
                }
                Err(CoreGroupError::NoSignatureKey)
            },
        }
    }
}

} // verus!
