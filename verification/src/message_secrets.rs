//! The secrets that protect the messages of one epoch, and the store that
//! keeps those of past epochs so that late messages can still be decrypted.

use vstd::prelude::*;

use crate::ciphersuite::Ciphersuite;
use crate::crypto::{MlsCryptoError, Secret};
use crate::framing::GroupEpoch;
use crate::secret_tree::SecretTree;

verus! {

/// The secrets of an epoch that protect its messages: the sender data
/// secret, the membership and confirmation keys, the serialized group
/// context, and the secret tree from which message keys come.
pub struct MessageSecrets {
    sender_data_secret: Secret,
    membership_key: Secret,
    confirmation_key: Secret,
    serialized_context: Vec<u8>,
    secret_tree: SecretTree,
}

impl MessageSecrets {
    pub closed spec fn spec_sender_data_secret(&self) -> Secret {
        self.sender_data_secret
    }

    pub closed spec fn spec_membership_key(&self) -> Secret {
        self.membership_key
    }

    pub closed spec fn spec_confirmation_key(&self) -> Secret {
        self.confirmation_key
    }

    pub closed spec fn spec_serialized_context(&self) -> Seq<u8> {
        self.serialized_context@
    }

    pub closed spec fn spec_secret_tree(&self) -> SecretTree {
        self.secret_tree
    }

    /// The secret tree is well formed.
    pub open spec fn wf(&self) -> bool {
        self.spec_secret_tree().wf()
    }

    /// Gathers the secrets of an epoch.
    pub fn new(
        sender_data_secret: Secret,
        membership_key: Secret,
        confirmation_key: Secret,
        serialized_context: Vec<u8>,
        secret_tree: SecretTree,
    ) -> (m: Self)
        ensures
            m.spec_sender_data_secret() == sender_data_secret,
            m.spec_membership_key() == membership_key,
            m.spec_confirmation_key() == confirmation_key,
            m.spec_serialized_context() == serialized_context@,
            m.spec_secret_tree() == secret_tree,
    {
        MessageSecrets {
            sender_data_secret,
            membership_key,
            confirmation_key,
            serialized_context,
            secret_tree,
        }
    }

    /// Fresh random secrets for a tree of ten members, for tests.
    pub fn random(ciphersuite: Ciphersuite, backend: &openmls_rust_crypto::OpenMlsRustCrypto) -> (res:
        Result<Self, MlsCryptoError>)
        ensures
            res matches Ok(m) ==> m.wf() && m.spec_secret_tree().consistent()
                && m.spec_secret_tree().spec_size() == 10 && m.spec_secret_tree().spec_suite()
                == ciphersuite && m.spec_secret_tree().derivable()
                && m.spec_sender_data_secret().ciphersuite == ciphersuite
                && m.spec_sender_data_secret().value@.len() == ciphersuite.spec_hash_length(),
            res matches Err(e) ==> e == MlsCryptoError::InsufficientRandomness,
    {
        let sender_data_secret = Secret::random(ciphersuite, backend)?;
        let membership_key = Secret::random(ciphersuite, backend)?;
        let confirmation_key = Secret::random(ciphersuite, backend)?;
        let context = Secret::random(ciphersuite, backend)?;
        let encryption_secret = Secret::random(ciphersuite, backend)?;
        let secret_tree = SecretTree::new(encryption_secret, 10);
        Ok(MessageSecrets {
            sender_data_secret,
            membership_key,
            confirmation_key,
            serialized_context: context.value,
            secret_tree,
        })
    }

    /// The sender data secret.
    pub fn sender_data_secret(&self) -> (s: &Secret)
        ensures
            *s == self.spec_sender_data_secret(),
    {
        &self.sender_data_secret
    }

    /// The membership key.
    pub fn membership_key(&self) -> (s: &Secret)
        ensures
            *s == self.spec_membership_key(),
    {
        &self.membership_key
    }

    /// The confirmation key.
    pub fn confirmation_key(&self) -> (s: &Secret)
        ensures
            *s == self.spec_confirmation_key(),
    {
        &self.confirmation_key
    }

    /// The serialized group context of the epoch.
    pub fn serialized_context(&self) -> (c: &[u8])
        ensures
            c@ == self.spec_serialized_context(),
    {
        self.serialized_context.as_slice()
    }

    /// The secret tree.
    pub fn secret_tree(&self) -> (t: &SecretTree)
        ensures
            *t == self.spec_secret_tree(),
    {
        &self.secret_tree
    }

    /// The secret tree, to be changed in place; the other secrets stay.
    pub fn secret_tree_mut(&mut self) -> (t: &mut SecretTree)
        ensures
            *t == old(self).spec_secret_tree(),
            final(self).spec_secret_tree() == *final(t),
            final(self).spec_sender_data_secret() == old(self).spec_sender_data_secret(),
            final(self).spec_membership_key() == old(self).spec_membership_key(),
            final(self).spec_confirmation_key() == old(self).spec_confirmation_key(),
            final(self).spec_serialized_context() == old(self).spec_serialized_context(),
            *final(t) == *t ==> *final(self) == *old(self),
    {
        &mut self.secret_tree
    }
}

/// The message secrets of a past epoch.
pub struct EpochTree {
    epoch: GroupEpoch,
    message_secrets: MessageSecrets,
}

/// The epochs the store holds after adding `epoch` to a store that holds
/// `epochs` and keeps at most `max_epochs`: nothing is kept when the store
/// keeps none; otherwise the oldest one leaves when the store is full, and
/// the new one comes last.
pub open spec fn epochs_after_add(epochs: Seq<GroupEpoch>, max_epochs: nat, epoch: GroupEpoch) -> Seq<
    GroupEpoch,
> {
    if max_epochs == 0 {
        epochs
    } else if epochs.len() >= max_epochs {
        epochs.drop_first().push(epoch)
    } else {
        epochs.push(epoch)
    }
}

/// Whether `i` is the first position of `epoch` among `epochs`.
pub open spec fn is_first_position(epochs: Seq<GroupEpoch>, epoch: GroupEpoch, i: int) -> bool {
    &&& 0 <= i < epochs.len()
    &&& epochs[i] == epoch
    &&& forall|j: int| 0 <= j < i ==> epochs[j] != epoch
}

/// The last `max_epochs` of the epochs `added`, in the order they were added.
pub open spec fn latest_epochs(added: Seq<GroupEpoch>, max_epochs: nat) -> Seq<GroupEpoch> {
    if added.len() <= max_epochs {
        added
    } else {
        added.skip(added.len() - max_epochs)
    }
}

/// The message secrets of the current epoch, and those of up to `max_epochs`
/// past epochs, oldest first.
pub struct MessageSecretsStore {
    max_epochs: usize,
    past_epoch_trees: Vec<EpochTree>,
    message_secrets: MessageSecrets,
}

impl MessageSecretsStore {
    pub closed spec fn spec_max_epochs(&self) -> nat {
        self.max_epochs as nat
    }

    /// The past epochs whose secrets the store holds, oldest first.
    pub closed spec fn spec_epochs(&self) -> Seq<GroupEpoch> {
        self.past_epoch_trees@.map_values(|t: EpochTree| t.epoch)
    }

    /// The secrets the store holds for its `i`-th past epoch.
    pub closed spec fn spec_past_secrets(&self, i: int) -> MessageSecrets {
        self.past_epoch_trees@[i].message_secrets
    }

    /// The secrets of the current epoch.
    pub closed spec fn spec_message_secrets(&self) -> MessageSecrets {
        self.message_secrets
    }

    /// The store holds no more epochs than it keeps, and all the secrets it
    /// holds are well formed.
    pub closed spec fn wf(&self) -> bool {
        &&& self.spec_epochs().len() <= self.max_epochs
        &&& self.message_secrets.wf()
        &&& forall|i: int| 0 <= i < self.past_epoch_trees@.len() ==> #[trigger] self.past_epoch_trees@[i].message_secrets.wf()
    }

    /// Creates a store that keeps up to `max_epochs` past epochs, with the
    /// secrets of the current epoch.
    pub fn new_with_secret(max_epochs: usize, message_secrets: MessageSecrets) -> (s: Self)
        requires
            message_secrets.wf(),
        ensures
            s.wf(),
            s.spec_max_epochs() == max_epochs,
            s.spec_epochs() == Seq::<GroupEpoch>::empty(),
            s.spec_message_secrets() == message_secrets,
    {
        let s = MessageSecretsStore { max_epochs, past_epoch_trees: Vec::new(), message_secrets };
        assert(s.spec_epochs() =~= Seq::<GroupEpoch>::empty());
        s
    }

    /// Stores the message secrets of a past epoch. When the store keeps no
    /// epochs they are dropped; when it is full the oldest epoch leaves.
    pub fn add(&mut self, group_epoch: GroupEpoch, message_secrets: MessageSecrets)
        requires
            old(self).wf(),
            message_secrets.wf(),
        ensures
            final(self).wf(),
            final(self).spec_max_epochs() == old(self).spec_max_epochs(),
            final(self).spec_message_secrets() == old(self).spec_message_secrets(),
            final(self).spec_epochs() == epochs_after_add(
                old(self).spec_epochs(),
                old(self).spec_max_epochs(),
                group_epoch,
            ),
            old(self).spec_max_epochs() > 0 ==> final(self).spec_past_secrets(
                final(self).spec_epochs().len() - 1,
            ) == message_secrets,
    {
        if self.max_epochs == 0 {
            return;
        }
        let ghost before = self.spec_epochs();
        if self.past_epoch_trees.len() >= self.max_epochs {
            self.past_epoch_trees.remove(0);
            assert(self.spec_epochs() =~= before.drop_first());
        }
        let ghost mid = self.spec_epochs();
        self.past_epoch_trees.push(EpochTree { epoch: group_epoch, message_secrets });
        assert(self.spec_epochs() =~= mid.push(group_epoch));
    }

    /// The message secrets of a past epoch, to be changed in place, if the
    /// store holds that epoch.
    pub fn secrets_for_epoch_mut(&mut self, epoch: GroupEpoch) -> (r: Option<&mut MessageSecrets>)
        requires
            old(self).wf(),
        ensures
            r is Some <==> old(self).spec_epochs().contains(epoch),
            r is None ==> *final(self) == *old(self),
            r matches Some(s) ==> (final(s).wf() ==> final(self).wf()),
            r matches Some(s) ==> s.wf(),
            final(self).spec_epochs() == old(self).spec_epochs(),
            final(self).spec_max_epochs() == old(self).spec_max_epochs(),
            final(self).spec_message_secrets() == old(self).spec_message_secrets(),
            forall|i: int|
                #[trigger] is_first_position(old(self).spec_epochs(), epoch, i) ==> (r matches Some(s)
                    && *s == old(self).spec_past_secrets(i) && final(self).spec_past_secrets(i)
                    == *final(s) && forall|j: int|
                    0 <= j < old(self).spec_epochs().len() && j != i ==> final(self).spec_past_secrets(j)
                        == old(self).spec_past_secrets(j)),
            r is None ==> forall|j: int|
                0 <= j < old(self).spec_epochs().len() ==> final(self).spec_past_secrets(j)
                    == old(self).spec_past_secrets(j),
    {
        let mut i: usize = 0;
        while i < self.past_epoch_trees.len()
            invariant
                *self == *old(self),
                old(self).wf(),
                i <= self.past_epoch_trees@.len(),
                forall|j: int| 0 <= j < i ==> self.past_epoch_trees@[j].epoch != epoch,
            decreases self.past_epoch_trees@.len() - i,
        {
            if self.past_epoch_trees[i].epoch == epoch {
                let ghost k: int = i as int;
                proof {
                    assert(old(self).spec_epochs()[k] == epoch);
                    assert forall|m: int|
                        #[trigger] is_first_position(old(self).spec_epochs(), epoch, m) implies m
                        == k by {
                        if m < k {
                            assert(old(self).spec_epochs()[m] == epoch);
                        } else if m > k {
                            assert(old(self).spec_epochs()[k] == epoch);
                        }
                    }
                }
                let tree = &mut self.past_epoch_trees[i];
                let r = &mut tree.message_secrets;
                return Some(r);
            }
            i = i + 1;
        }
        proof {
            if self.spec_epochs().contains(epoch) {
                let k = choose|k: int| 0 <= k < self.spec_epochs().len() && self.spec_epochs()[k] == epoch;
                assert(self.past_epoch_trees@[k].epoch == epoch);
            }
        }
        None
    }

    /// The message secrets of a past epoch, if the store holds that epoch.
    pub fn secrets_for_epoch(&self, epoch: GroupEpoch) -> (r: Option<&MessageSecrets>)
        requires
            self.wf(),
        ensures
            r is Some <==> self.spec_epochs().contains(epoch),
            r matches Some(s) ==> s.wf(),
            forall|i: int|
                #[trigger] is_first_position(self.spec_epochs(), epoch, i) ==> (r matches Some(s)
                    && *s == self.spec_past_secrets(i)),
    {
        let mut i: usize = 0;
        while i < self.past_epoch_trees.len()
            invariant
                self.wf(),
                i <= self.past_epoch_trees@.len(),
                forall|j: int| 0 <= j < i ==> self.past_epoch_trees@[j].epoch != epoch,
            decreases self.past_epoch_trees@.len() - i,
        {
            if self.past_epoch_trees[i].epoch == epoch {
                let ghost k: int = i as int;
                proof {
                    assert(self.spec_epochs()[k] == epoch);
                    assert forall|m: int|
                        #[trigger] is_first_position(self.spec_epochs(), epoch, m) implies m == k by {
                        if m < k {
                            assert(self.spec_epochs()[m] == epoch);
                        } else if m > k {
                            assert(self.spec_epochs()[k] == epoch);
                        }
                    }
                }
                return Some(&self.past_epoch_trees[i].message_secrets);
            }
            i = i + 1;
        }
        proof {
            if self.spec_epochs().contains(epoch) {
                let k = choose|k: int| 0 <= k < self.spec_epochs().len() && self.spec_epochs()[k] == epoch;
                assert(self.past_epoch_trees@[k].epoch == epoch);
            }
        }
        None
    }

    /// The secrets of the current epoch.
    pub fn message_secrets(&self) -> (m: &MessageSecrets)
        ensures
            *m == self.spec_message_secrets(),
            self.wf() ==> m.wf(),
    {
        &self.message_secrets
    }

    /// The secrets of the current epoch, to be changed in place.
    pub fn message_secrets_mut(&mut self) -> (m: &mut MessageSecrets)
        ensures
            *m == old(self).spec_message_secrets(),
            final(self).spec_message_secrets() == *final(m),
            final(self).spec_epochs() == old(self).spec_epochs(),
            final(self).spec_max_epochs() == old(self).spec_max_epochs(),
            forall|j: int| 0 <= j < old(self).spec_epochs().len() ==> final(self).spec_past_secrets(j)
                == old(self).spec_past_secrets(j),
            old(self).wf() ==> m.wf(),
            old(self).wf() && final(m).wf() ==> final(self).wf(),
    {
        &mut self.message_secrets
    }
}

/// A store that holds the latest `max_epochs` of the epochs added to it so far
/// holds, after one more is added, the latest `max_epochs` of them all: the
/// store keeps exactly the most recent past epochs, in order.
pub proof fn law_store_keeps_latest_epochs(
    added: Seq<GroupEpoch>,
    max_epochs: nat,
    epoch: GroupEpoch,
)
    ensures
        epochs_after_add(latest_epochs(added, max_epochs), max_epochs, epoch) == latest_epochs(
            added.push(epoch),
            max_epochs,
        ),
{
    let held = latest_epochs(added, max_epochs);
    let all = added.push(epoch);
    if max_epochs == 0 {
        assert(held =~= all.skip(all.len() - 0));
        assert(latest_epochs(all, 0) =~= held);
    } else if added.len() < max_epochs {
        assert(epochs_after_add(held, max_epochs, epoch) =~= all);
    } else {
        assert(held.len() == max_epochs);
        assert(held.drop_first().push(epoch) =~= all.skip(all.len() - max_epochs));
    }
}

} // verus!
