use openmls::authentication::compute_membership_tag;
use openmls::ciphersuite::{Ciphersuite, CiphersuiteName};
use openmls::crypto::Secret;
use openmls::framing::{
    Commit, ConfirmationTag, Credential, GroupEpoch, GroupId, KeyPackage, Mac, MembershipTag,
    MlsPlaintextContentType, Sender, SenderType, UpdatePath, VerifiableMlsPlaintext, WireFormat,
};
use openmls::message_secrets::MessageSecrets;
use openmls::secret_tree::SecretTree;
use openmls::treesync::{LeafNode, TreeSync};
use openmls::validation::{
    DecryptedMessage, UnverifiedContextMessage, UnverifiedMessage, ValidationError,
};
use openmls_rust_crypto::OpenMlsRustCrypto;

fn plaintext(
    sender: Sender,
    wire_format: WireFormat,
    content: MlsPlaintextContentType,
) -> VerifiableMlsPlaintext {
    VerifiableMlsPlaintext {
        serialized_context: None,
        wire_format,
        group_id: GroupId::from_slice(b"group"),
        epoch: GroupEpoch(3),
        sender,
        authenticated_data: vec![],
        content,
        signature: vec![1, 2, 3],
        confirmation_tag: None,
        membership_tag: None,
    }
}

fn member(i: u32) -> Sender {
    Sender { sender_type: SenderType::Member, sender: i }
}

fn new_member() -> Sender {
    Sender { sender_type: SenderType::NewMember, sender: 0 }
}

fn bob() -> Credential {
    Credential { identity: b"bob".to_vec(), signature_scheme: 0x0807, signature_key: vec![7; 32] }
}

#[test]
fn a_member_message_in_the_clear_needs_a_membership_tag() {
    let p = plaintext(member(0), WireFormat::MlsPlaintext, MlsPlaintextContentType::Application(vec![]));
    assert!(matches!(
        DecryptedMessage::from_plaintext(p),
        Err(ValidationError::MissingMembershipTag)
    ));
}

#[test]
fn a_commit_needs_a_confirmation_tag() {
    let commit = Commit { proposals: vec![], path: None };
    let p = plaintext(member(0), WireFormat::MlsCiphertext, MlsPlaintextContentType::Commit(commit));
    assert!(matches!(
        DecryptedMessage::from_plaintext(p),
        Err(ValidationError::MissingConfirmationTag)
    ));
}

#[test]
fn application_messages_must_be_encrypted() {
    let mut p = plaintext(member(0), WireFormat::MlsPlaintext, MlsPlaintextContentType::Application(vec![]));
    p.membership_tag = Some(MembershipTag(Mac { mac_value: vec![0; 32] }));
    assert!(matches!(
        DecryptedMessage::from_plaintext(p),
        Err(ValidationError::UnencryptedApplicationMessage)
    ));
}

#[test]
fn a_well_framed_message_passes() {
    let p = plaintext(member(1), WireFormat::MlsCiphertext, MlsPlaintextContentType::Application(vec![5]));
    let d = DecryptedMessage::from_plaintext(p).unwrap();
    assert_eq!(d.wire_format(), WireFormat::MlsCiphertext);
    assert_eq!(*d.sender(), member(1));
    let tree = TreeSync::new(vec![None, Some(LeafNode { key_package: KeyPackage { credential: bob(), payload: vec![] } })], 1);
    assert_eq!(d.credential(&tree).unwrap().identity, b"bob".to_vec());
    let empty_tree = TreeSync::new(vec![None, None], 0);
    assert!(matches!(d.credential(&empty_tree), Err(ValidationError::UnknownSender)));
}

#[test]
fn a_new_member_signs_with_the_credential_of_its_update_path() {
    let path = UpdatePath {
        leaf_key_package: KeyPackage { credential: bob(), payload: vec![1] },
        nodes: vec![],
    };
    let commit = Commit { proposals: vec![], path: Some(path) };
    let mut p = plaintext(new_member(), WireFormat::MlsPlaintext, MlsPlaintextContentType::Commit(commit));
    p.confirmation_tag = Some(ConfirmationTag(Mac { mac_value: vec![0; 32] }));
    let d = DecryptedMessage::from_plaintext(p).unwrap();
    let tree = TreeSync::new(vec![], 0);
    assert_eq!(d.credential(&tree).unwrap().identity, b"bob".to_vec());

    let commit = Commit { proposals: vec![], path: None };
    let mut p = plaintext(new_member(), WireFormat::MlsPlaintext, MlsPlaintextContentType::Commit(commit));
    p.confirmation_tag = Some(ConfirmationTag(Mac { mac_value: vec![0; 32] }));
    let d = DecryptedMessage::from_plaintext(p).unwrap();
    assert!(matches!(d.credential(&tree), Err(ValidationError::NoPath)));
}

fn secrets(cs: Ciphersuite) -> MessageSecrets {
    MessageSecrets::new(
        Secret::from_slice(&[1u8; 32], cs),
        Secret::from_slice(&[2u8; 32], cs),
        Secret::from_slice(&[3u8; 32], cs),
        vec![4u8; 8],
        SecretTree::new(Secret::from_slice(&[5u8; 32], cs), 4),
    )
}

#[test]
fn membership_tags_are_checked() {
    let cs = Ciphersuite::new(CiphersuiteName::MLS10_128_DHKEMX25519_AES128GCM_SHA256_Ed25519);
    let backend = OpenMlsRustCrypto::default();
    let ms = secrets(cs);
    let proposal = openmls::framing::Proposal { proposal_type: 1, body: vec![1] };
    let mut p = plaintext(member(0), WireFormat::MlsPlaintext, MlsPlaintextContentType::Proposal(proposal));
    // The tag a member computes over the message with the epoch's context.
    let mut with_context = plaintext(
        member(0),
        WireFormat::MlsPlaintext,
        MlsPlaintextContentType::Proposal(openmls::framing::Proposal { proposal_type: 1, body: vec![1] }),
    );
    with_context.serialized_context = Some(vec![4u8; 8]);
    let tag = compute_membership_tag(&with_context, &backend, ms.membership_key()).unwrap();
    assert_eq!(tag.len(), 32);
    p.membership_tag = Some(MembershipTag(Mac { mac_value: tag.clone() }));
    let d = DecryptedMessage::from_plaintext(p).unwrap();
    let u = UnverifiedMessage::from_decrypted_message(d, Some(bob()));
    match UnverifiedContextMessage::from_unverified_message(u, &ms, &backend) {
        Ok(UnverifiedContextMessage::Group(_)) => {},
        _ => panic!("the membership tag should verify"),
    }

    let mut bad = tag;
    bad[0] ^= 1;
    let mut p = plaintext(
        member(0),
        WireFormat::MlsPlaintext,
        MlsPlaintextContentType::Proposal(openmls::framing::Proposal { proposal_type: 1, body: vec![1] }),
    );
    p.membership_tag = Some(MembershipTag(Mac { mac_value: bad }));
    let d = DecryptedMessage::from_plaintext(p).unwrap();
    let u = UnverifiedMessage::from_decrypted_message(d, Some(bob()));
    assert!(matches!(
        UnverifiedContextMessage::from_unverified_message(u, &ms, &backend),
        Err(ValidationError::InvalidMembershipTag)
    ));
}

#[test]
fn an_unverified_message_without_credential_is_a_library_error() {
    let cs = Ciphersuite::new(CiphersuiteName::MLS10_128_DHKEMX25519_AES128GCM_SHA256_Ed25519);
    let backend = OpenMlsRustCrypto::default();
    let ms = secrets(cs);
    let p = plaintext(member(1), WireFormat::MlsCiphertext, MlsPlaintextContentType::Application(vec![5]));
    let d = DecryptedMessage::from_plaintext(p).unwrap();
    let u = UnverifiedMessage::from_decrypted_message(d, None);
    assert!(matches!(
        UnverifiedContextMessage::from_unverified_message(u, &ms, &backend),
        Err(ValidationError::LibraryError)
    ));
}
