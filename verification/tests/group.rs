use openmls::authentication::{compute_membership_tag, serialize_tbs, SignaturePublicKey};
use openmls::framing::{Mac, MembershipTag, Proposal};
use openmls::hash_ref::HashReference;
use openmls::proposals::serialize_plaintext;
use openmls::ciphersuite::{Ciphersuite, CiphersuiteName};
use openmls::ciphertext::{MlsCiphertext, MlsMessage, MlsMessageHeader, MlsMessageIn};
use openmls::core_group::{CommitType, CoreGroup, CoreGroupError, ProcessedMessage};
use openmls::crypto::Secret;
use openmls::framing::{
    Credential, GroupEpoch, GroupId, KeyPackage, MlsPlaintext, MlsPlaintextContentType, Sender,
    SenderType, VerifiableMlsPlaintext, WireFormat,
};
use openmls::group_context::GroupContext;
use openmls::message_secrets::{MessageSecrets, MessageSecretsStore};
use openmls::secret_tree::SecretTree;
use openmls::sender_ratchet::SenderRatchetConfiguration;
use openmls::treesync::{LeafNode, TreeSync};
use openmls::validation::ValidationError;
use openmls_rust_crypto::OpenMlsRustCrypto;
use openmls_traits::crypto::OpenMlsCrypto;
use openmls_traits::types::SignatureScheme;
use openmls_traits::OpenMlsCryptoProvider;

fn suite() -> Ciphersuite {
    Ciphersuite::new(CiphersuiteName::MLS10_128_DHKEMX25519_AES128GCM_SHA256_Ed25519)
}

fn secrets(cs: Ciphersuite) -> MessageSecrets {
    MessageSecrets::new(
        Secret::from_slice(&[1u8; 32], cs),
        Secret::from_slice(&[2u8; 32], cs),
        Secret::from_slice(&[3u8; 32], cs),
        vec![4u8; 8],
        SecretTree::new(Secret::from_slice(&[5u8; 32], cs), 4),
    )
}

fn credential(public_key: Vec<u8>) -> Credential {
    Credential { identity: b"alice".to_vec(), signature_scheme: 0x0807, signature_key: public_key }
}

fn group(cs: Ciphersuite, public_key: Vec<u8>) -> CoreGroup {
    let context = GroupContext::new(
        GroupId::from_slice(b"group"),
        GroupEpoch(1),
        vec![0u8; 32],
        vec![0u8; 32],
        &[],
    )
    .unwrap();
    let leaf = LeafNode {
        key_package: KeyPackage { credential: credential(public_key), payload: vec![] },
    };
    let tree = TreeSync::new(vec![None, None, Some(leaf), None], 2);
    CoreGroup::new(cs, context, tree, MessageSecretsStore::new_with_secret(2, secrets(cs)))
}

/// A signed application message of member 2, encrypted for the group.
fn signed_message(
    backend: &OpenMlsRustCrypto,
    cs: Ciphersuite,
    private_key: &[u8],
    epoch: u64,
    tamper: bool,
) -> MlsMessageIn {
    let mut to_sign = VerifiableMlsPlaintext {
        serialized_context: Some(vec![4u8; 8]),
        wire_format: WireFormat::MlsCiphertext,
        group_id: GroupId::from_slice(b"group"),
        epoch: GroupEpoch(epoch),
        sender: Sender { sender_type: SenderType::Member, sender: 2 },
        authenticated_data: b"note".to_vec(),
        content: MlsPlaintextContentType::Application(b"hello".to_vec()),
        signature: vec![],
        confirmation_tag: None,
        membership_tag: None,
    };
    let tbs = serialize_tbs(&to_sign).unwrap();
    let mut signature = backend.crypto().sign(SignatureScheme::ED25519, &tbs, private_key).unwrap();
    if tamper {
        signature[0] ^= 1;
    }
    to_sign.signature = signature.clone();
    let p = MlsPlaintext {
        wire_format: WireFormat::MlsCiphertext,
        group_id: GroupId::from_slice(b"group"),
        epoch: GroupEpoch(epoch),
        sender: Sender { sender_type: SenderType::Member, sender: 2 },
        authenticated_data: b"note".to_vec(),
        content: MlsPlaintextContentType::Application(b"hello".to_vec()),
        signature,
        confirmation_tag: None,
        membership_tag: None,
    };
    let mut sender_secrets = secrets(cs);
    let header =
        MlsMessageHeader { group_id: GroupId::from_slice(b"group"), epoch: GroupEpoch(epoch), sender: 2 };
    let c = MlsCiphertext::try_from_plaintext(&p, &cs, backend, header, &mut sender_secrets, 0).unwrap();
    MlsMessageIn { mls_message: MlsMessage::Ciphertext(Box::new(c)) }
}

#[test]
fn a_signed_encrypted_message_is_parsed_and_processed() {
    let cs = suite();
    let backend = OpenMlsRustCrypto::default();
    let (private_key, public_key) = backend.crypto().signature_key_gen(SignatureScheme::ED25519).unwrap();
    let mut g = group(cs, public_key.clone());
    let message = signed_message(&backend, cs, &private_key, 1, false);
    let config = SenderRatchetConfiguration::default();
    let unverified = g.parse_message(&backend, message, &config).unwrap();
    assert_eq!(unverified.epoch(), GroupEpoch(1));
    assert_eq!(*unverified.sender(), Sender { sender_type: SenderType::Member, sender: 2 });
    assert_eq!(unverified.credential().unwrap().identity, b"alice".to_vec());
    assert_eq!(unverified.aad(), &Some(b"note".to_vec()));
    let processed = g.process_unverified_message(unverified, None, &backend).unwrap();
    match processed {
        ProcessedMessage::ApplicationMessage(a) => {
            assert_eq!(a.message(), b"hello");
            assert_eq!(*a.sender(), Sender { sender_type: SenderType::Member, sender: 2 });
            let (m, s) = a.into_parts();
            assert_eq!(m, b"hello".to_vec());
            assert_eq!(s.sender, 2);
        },
        _ => panic!("expected an application message"),
    }
}

#[test]
fn a_bad_signature_is_refused() {
    let cs = suite();
    let backend = OpenMlsRustCrypto::default();
    let (private_key, public_key) = backend.crypto().signature_key_gen(SignatureScheme::ED25519).unwrap();
    let mut g = group(cs, public_key.clone());
    let message = signed_message(&backend, cs, &private_key, 1, true);
    let config = SenderRatchetConfiguration::default();
    let unverified = g.parse_message(&backend, message, &config).unwrap();
    let r = g.process_unverified_message(unverified, None, &backend);
    assert!(matches!(
        r,
        Err(CoreGroupError::ValidationError(ValidationError::InvalidSignature))
    ));
}

#[test]
fn an_explicit_signature_key_is_used() {
    let cs = suite();
    let backend = OpenMlsRustCrypto::default();
    let (private_key, public_key) = backend.crypto().signature_key_gen(SignatureScheme::ED25519).unwrap();
    let (_, other_public_key) = backend.crypto().signature_key_gen(SignatureScheme::ED25519).unwrap();
    let mut g = group(cs, public_key.clone());
    let message = signed_message(&backend, cs, &private_key, 1, false);
    let config = SenderRatchetConfiguration::default();
    let unverified = g.parse_message(&backend, message, &config).unwrap();
    let key = SignaturePublicKey { signature_scheme: 0x0807, value: other_public_key };
    let r = g.process_unverified_message(unverified, Some(&key), &backend);
    assert!(matches!(
        r,
        Err(CoreGroupError::ValidationError(ValidationError::InvalidSignature))
    ));
}

#[test]
fn messages_of_another_group_or_epoch_are_refused() {
    let cs = suite();
    let backend = OpenMlsRustCrypto::default();
    let (private_key, public_key) = backend.crypto().signature_key_gen(SignatureScheme::ED25519).unwrap();
    let mut g = group(cs, public_key);
    let config = SenderRatchetConfiguration::default();
    // An application message of a later epoch.
    let message = signed_message(&backend, cs, &private_key, 2, false);
    assert!(matches!(
        g.parse_message(&backend, message, &config),
        Err(CoreGroupError::WrongEpoch)
    ));
    // An application message of a past epoch whose secrets are gone.
    let message = signed_message(&backend, cs, &private_key, 0, false);
    assert!(matches!(
        g.parse_message(&backend, message, &config),
        Err(CoreGroupError::NoSecretsForEpoch)
    ));
    // A plaintext of another group.
    let p = VerifiableMlsPlaintext {
        serialized_context: None,
        wire_format: WireFormat::MlsPlaintext,
        group_id: GroupId::from_slice(b"other"),
        epoch: GroupEpoch(1),
        sender: Sender { sender_type: SenderType::Member, sender: 2 },
        authenticated_data: vec![],
        content: MlsPlaintextContentType::Application(b"x".to_vec()),
        signature: vec![],
        confirmation_tag: None,
        membership_tag: None,
    };
    let message = MlsMessageIn { mls_message: MlsMessage::Plaintext(Box::new(p)) };
    assert!(matches!(
        g.parse_message(&backend, message, &config),
        Err(CoreGroupError::WrongGroupId)
    ));
}

#[test]
fn an_unencrypted_application_message_is_refused() {
    let cs = suite();
    let backend = OpenMlsRustCrypto::default();
    let (_, public_key) = backend.crypto().signature_key_gen(SignatureScheme::ED25519).unwrap();
    let mut g = group(cs, public_key);
    let config = SenderRatchetConfiguration::default();
    let p = VerifiableMlsPlaintext {
        serialized_context: None,
        wire_format: WireFormat::MlsPlaintext,
        group_id: GroupId::from_slice(b"group"),
        epoch: GroupEpoch(1),
        sender: Sender { sender_type: SenderType::NewMember, sender: 0 },
        authenticated_data: vec![],
        content: MlsPlaintextContentType::Application(b"x".to_vec()),
        signature: vec![],
        confirmation_tag: None,
        membership_tag: None,
    };
    let message = MlsMessageIn { mls_message: MlsMessage::Plaintext(Box::new(p)) };
    assert!(matches!(
        g.parse_message(&backend, message, &config),
        Err(CoreGroupError::ValidationError(ValidationError::UnencryptedApplicationMessage))
    ));
}

#[test]
fn a_proposal_in_the_clear_is_queued_with_its_reference() {
    let cs = suite();
    let backend = OpenMlsRustCrypto::default();
    let (private_key, public_key) = backend.crypto().signature_key_gen(SignatureScheme::ED25519).unwrap();
    let mut g = group(cs, public_key);
    let proposal = || MlsPlaintextContentType::Proposal(Proposal { proposal_type: 2, body: vec![1, 2] });
    let mut p = VerifiableMlsPlaintext {
        serialized_context: Some(vec![4u8; 8]),
        wire_format: WireFormat::MlsPlaintext,
        group_id: GroupId::from_slice(b"group"),
        epoch: GroupEpoch(1),
        sender: Sender { sender_type: SenderType::Member, sender: 2 },
        authenticated_data: vec![3],
        content: proposal(),
        signature: vec![],
        confirmation_tag: None,
        membership_tag: None,
    };
    let tbs = serialize_tbs(&p).unwrap();
    p.signature = backend.crypto().sign(SignatureScheme::ED25519, &tbs, &private_key).unwrap();
    let membership_key = Secret::from_slice(&[2u8; 32], cs);
    let tag = compute_membership_tag(&p, &backend, &membership_key).unwrap();
    p.membership_tag = Some(MembershipTag(Mac { mac_value: tag.clone() }));
    p.serialized_context = None;
    let expected_plaintext = MlsPlaintext {
        wire_format: WireFormat::MlsPlaintext,
        group_id: GroupId::from_slice(b"group"),
        epoch: GroupEpoch(1),
        sender: Sender { sender_type: SenderType::Member, sender: 2 },
        authenticated_data: vec![3],
        content: proposal(),
        signature: p.signature.clone(),
        confirmation_tag: None,
        membership_tag: Some(MembershipTag(Mac { mac_value: tag })),
    };
    let expected_reference =
        HashReference::new(&serialize_plaintext(&expected_plaintext).unwrap(), &cs, &backend).unwrap();
    let message = MlsMessageIn { mls_message: MlsMessage::Plaintext(Box::new(p)) };
    let config = SenderRatchetConfiguration::default();
    let unverified = g.parse_message(&backend, message, &config).unwrap();
    // A message that came in the clear exposes no authenticated data here.
    assert!(unverified.aad().is_none());
    match g.process_unverified_message(unverified, None, &backend).unwrap() {
        ProcessedMessage::ProposalMessage(q) => {
            assert_eq!(q.proposal().proposal_type, 2);
            assert_eq!(q.proposal().body, vec![1, 2]);
            assert_eq!(q.sender().sender, 2);
            assert_eq!(q.proposal_reference().value(), expected_reference.value());
        },
        _ => panic!("expected a proposal"),
    }
}

#[test]
fn a_message_from_a_blank_leaf_is_refused() {
    let cs = suite();
    let backend = OpenMlsRustCrypto::default();
    let (_, public_key) = backend.crypto().signature_key_gen(SignatureScheme::ED25519).unwrap();
    let mut g = group(cs, public_key);
    let p = MlsPlaintext {
        wire_format: WireFormat::MlsCiphertext,
        group_id: GroupId::from_slice(b"group"),
        epoch: GroupEpoch(1),
        sender: Sender { sender_type: SenderType::Member, sender: 1 },
        authenticated_data: vec![],
        content: MlsPlaintextContentType::Application(b"hello".to_vec()),
        signature: vec![0; 64],
        confirmation_tag: None,
        membership_tag: None,
    };
    let mut sender_secrets = secrets(cs);
    let header =
        MlsMessageHeader { group_id: GroupId::from_slice(b"group"), epoch: GroupEpoch(1), sender: 1 };
    let c = MlsCiphertext::try_from_plaintext(&p, &cs, &backend, header, &mut sender_secrets, 0).unwrap();
    let message = MlsMessageIn { mls_message: MlsMessage::Ciphertext(Box::new(c)) };
    let config = SenderRatchetConfiguration::default();
    assert!(matches!(
        g.parse_message(&backend, message, &config),
        Err(CoreGroupError::UnknownMember)
    ));
}

fn remove(leaf: u32) -> Proposal {
    Proposal { proposal_type: 3, body: leaf.to_be_bytes().to_vec() }
}

#[test]
fn a_member_commits_from_its_own_leaf() {
    let cs = suite();
    let g = group(cs, vec![0; 32]);
    assert_eq!(g.commit_sender(CommitType::Member, &[remove(0)]), Ok((2, SenderType::Member)));
}

#[test]
fn a_new_member_commits_from_the_leftmost_blank_leaf() {
    let cs = suite();
    let g = group(cs, vec![0; 32]);
    assert_eq!(g.treesync().free_leaf_index(), 0);
    assert_eq!(g.commit_sender(CommitType::External, &[]), Ok((0, SenderType::NewMember)));
    let add = Proposal { proposal_type: 1, body: vec![9, 9] };
    assert_eq!(g.commit_sender(CommitType::External, &[add]), Ok((0, SenderType::NewMember)));
}

#[test]
fn a_full_tree_puts_a_new_member_past_its_last_leaf() {
    let leaf = |id: &[u8]| {
        Some(LeafNode {
            key_package: KeyPackage { credential: Credential { identity: id.to_vec(), signature_scheme: 0x0807, signature_key: vec![] }, payload: vec![] },
        })
    };
    let tree = TreeSync::new(vec![leaf(b"a"), leaf(b"b"), leaf(b"c")], 1);
    assert_eq!(tree.free_leaf_index(), 3);
    assert_eq!(tree.own_leaf_index(), 1);
    let half = TreeSync::new(vec![leaf(b"a"), None, leaf(b"c"), None], 0);
    assert_eq!(half.free_leaf_index(), 1);
    let context = GroupContext::new(GroupId::from_slice(b"group"), GroupEpoch(1), vec![], vec![], &[]).unwrap();
    let cs = suite();
    let g = CoreGroup::new(cs, context, tree, MessageSecretsStore::new_with_secret(2, secrets(cs)));
    assert_eq!(g.commit_sender(CommitType::External, &[]), Ok((3, SenderType::NewMember)));
    // A resync removes the member's past self: it takes that leaf back.
    assert_eq!(g.commit_sender(CommitType::External, &[remove(1)]), Ok((1, SenderType::NewMember)));
    // A removal past the first free leaf leaves the new member there.
    assert_eq!(g.commit_sender(CommitType::External, &[remove(7)]), Ok((3, SenderType::NewMember)));
    // Only the first Remove proposal counts.
    assert_eq!(
        g.commit_sender(CommitType::External, &[remove(5), remove(0)]),
        Ok((3, SenderType::NewMember))
    );
}

#[test]
fn a_remove_proposal_without_a_leaf_index_is_refused() {
    let cs = suite();
    let g = group(cs, vec![0; 32]);
    let bad = Proposal { proposal_type: 3, body: vec![0, 1] };
    assert_eq!(g.commit_sender(CommitType::External, &[bad]), Err(CoreGroupError::LibraryError));
    let long = Proposal { proposal_type: 3, body: vec![0, 0, 0, 1, 0] };
    assert_eq!(g.commit_sender(CommitType::External, &[long]), Err(CoreGroupError::LibraryError));
}
