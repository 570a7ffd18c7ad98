use openmls::ciphersuite::{Ciphersuite, CiphersuiteName};
use openmls::ciphertext::{MlsCiphertext, MlsCiphertextError, MlsMessageHeader, MlsSenderData, ReuseGuard};
use openmls::crypto::Secret;
use openmls::framing::{
    Commit, ConfirmationTag, ContentType, GroupEpoch, GroupId, Mac, MlsPlaintext,
    MlsPlaintextContentType, Proposal, ProposalOrRef, Sender, SenderType, WireFormat,
};
use openmls::message_secrets::MessageSecrets;
use openmls::secret_tree::SecretTree;
use openmls::sender_ratchet::SenderRatchetConfiguration;
use openmls_rust_crypto::OpenMlsRustCrypto;

fn suite() -> Ciphersuite {
    Ciphersuite::new(CiphersuiteName::MLS10_128_DHKEMX25519_AES128GCM_SHA256_Ed25519)
}

fn secrets(cs: Ciphersuite) -> MessageSecrets {
    MessageSecrets::new(
        Secret::from_slice(&[1u8; 32], cs),
        Secret::from_slice(&[2u8; 32], cs),
        Secret::from_slice(&[3u8; 32], cs),
        vec![4u8; 8],
        SecretTree::new(Secret::from_slice(&[5u8; 32], cs), 4),
    )
}

fn plaintext(content: MlsPlaintextContentType, tag: Option<Vec<u8>>) -> MlsPlaintext {
    MlsPlaintext {
        wire_format: WireFormat::MlsCiphertext,
        group_id: GroupId::from_slice(b"group"),
        epoch: GroupEpoch(1),
        sender: Sender { sender_type: SenderType::Member, sender: 2 },
        authenticated_data: vec![9, 9],
        content,
        signature: vec![6u8; 64],
        confirmation_tag: tag.map(|t| ConfirmationTag(Mac { mac_value: t })),
        membership_tag: None,
    }
}

fn header() -> MlsMessageHeader {
    MlsMessageHeader { group_id: GroupId::from_slice(b"group"), epoch: GroupEpoch(1), sender: 2 }
}

#[test]
fn members_recover_an_encrypted_application_message() {
    let cs = suite();
    let backend = OpenMlsRustCrypto::default();
    let mut sender = secrets(cs);
    let mut receiver = secrets(cs);
    let p = plaintext(MlsPlaintextContentType::Application(b"hello".to_vec()), None);
    let c = MlsCiphertext::try_from_plaintext(&p, &cs, &backend, header(), &mut sender, 0).unwrap();
    assert_eq!(c.wire_format(), WireFormat::MlsCiphertext);
    assert_eq!(c.epoch(), GroupEpoch(1));
    assert_eq!(c.content_type(), ContentType::Application);
    assert!(!c.is_handshake_message());
    assert_ne!(c.ciphertext().to_vec(), b"hello".to_vec());
    let sd = c.sender_data(&mut receiver, &backend, &cs).unwrap();
    assert_eq!(sd.sender, 2);
    assert_eq!(sd.generation, 0);
    let config = SenderRatchetConfiguration::default();
    let v = c.to_plaintext(&cs, &backend, &mut receiver, &config, sd).unwrap();
    match &v.content {
        MlsPlaintextContentType::Application(d) => assert_eq!(d, &b"hello".to_vec()),
        _ => panic!("wrong content"),
    }
    assert_eq!(v.signature, vec![6u8; 64]);
    assert_eq!(v.sender, Sender { sender_type: SenderType::Member, sender: 2 });
    assert_eq!(v.authenticated_data, vec![9, 9]);
    assert!(v.membership_tag.is_none());
    assert!(v.confirmation_tag.is_none());
}

#[test]
fn members_recover_an_encrypted_commit() {
    let cs = suite();
    let backend = OpenMlsRustCrypto::default();
    let mut sender = secrets(cs);
    let mut receiver = secrets(cs);
    let commit = Commit {
        proposals: vec![
            ProposalOrRef::Proposal(Proposal { proposal_type: 3, body: vec![1, 2, 3] }),
            ProposalOrRef::Reference(vec![7u8; 16]),
        ],
        path: None,
    };
    let p = plaintext(MlsPlaintextContentType::Commit(commit), Some(vec![8u8; 32]));
    let c = MlsCiphertext::try_from_plaintext(&p, &cs, &backend, header(), &mut sender, 32).unwrap();
    assert!(c.is_handshake_message());
    let sd = c.sender_data(&mut receiver, &backend, &cs).unwrap();
    let config = SenderRatchetConfiguration::default();
    let v = c.to_plaintext(&cs, &backend, &mut receiver, &config, sd).unwrap();
    match &v.content {
        MlsPlaintextContentType::Commit(c) => {
            assert_eq!(c.proposals.len(), 2);
            match &c.proposals[0] {
                ProposalOrRef::Proposal(p) => {
                    assert_eq!(p.proposal_type, 3);
                    assert_eq!(p.body, vec![1, 2, 3]);
                },
                _ => panic!("wrong proposal"),
            }
            match &c.proposals[1] {
                ProposalOrRef::Reference(r) => assert_eq!(r, &vec![7u8; 16]),
                _ => panic!("wrong reference"),
            }
            assert!(c.path.is_none());
        },
        _ => panic!("wrong content"),
    }
    assert_eq!(v.confirmation_tag.unwrap().0.mac_value, vec![8u8; 32]);
}

#[test]
fn ciphertexts_are_padded_to_a_multiple_of_the_padding_size() {
    let cs = suite();
    let backend = OpenMlsRustCrypto::default();
    for padding in [16usize, 32, 100] {
        let mut sender = secrets(cs);
        let p = plaintext(MlsPlaintextContentType::Application(vec![1u8; 13]), None);
        let c = MlsCiphertext::try_from_plaintext(&p, &cs, &backend, header(), &mut sender, padding)
            .unwrap();
        assert_eq!(c.ciphertext().len() % padding, 0);
    }
}

#[test]
fn padded_content_encoding() {
    let p = plaintext(MlsPlaintextContentType::Application(vec![0xAB; 3]), None);
    let encoded = MlsCiphertext::encode_padded_ciphertext_content_detached(&p, 0, 16).unwrap();
    // 4-byte length and the data, 2-byte signature length and the signature,
    // the absent tag, and an empty padding.
    let mut expected = vec![0, 0, 0, 3, 0xAB, 0xAB, 0xAB, 0, 64];
    expected.extend_from_slice(&[6u8; 64]);
    expected.extend_from_slice(&[0, 0, 0]);
    assert_eq!(encoded, expected);
    let padded = MlsCiphertext::encode_padded_ciphertext_content_detached(&p, 10, 16).unwrap();
    // body 74 bytes; (10 - (74 + 2 + 16) % 10) % 10 = 8 bytes of padding
    assert_eq!(padded.len(), 74 + 2 + 8);
    assert_eq!(&padded[74..76], &[0, 8]);
    assert!(padded[76..].iter().all(|b| *b == 0));
}

#[test]
fn the_author_cannot_decrypt_its_own_message() {
    let cs = suite();
    let backend = OpenMlsRustCrypto::default();
    let mut sender = secrets(cs);
    let p = plaintext(MlsPlaintextContentType::Application(b"hi".to_vec()), None);
    let c = MlsCiphertext::try_from_plaintext(&p, &cs, &backend, header(), &mut sender, 0).unwrap();
    let sd = c.sender_data(&mut sender, &backend, &cs).unwrap();
    let config = SenderRatchetConfiguration::default();
    let r = c.to_plaintext(&cs, &backend, &mut sender, &config, sd);
    assert!(matches!(r, Err(MlsCiphertextError::GenerationOutOfBound)));
}

#[test]
fn a_plaintext_wire_format_is_refused() {
    let cs = suite();
    let backend = OpenMlsRustCrypto::default();
    let mut sender = secrets(cs);
    let mut p = plaintext(MlsPlaintextContentType::Application(b"hi".to_vec()), None);
    p.wire_format = WireFormat::MlsPlaintext;
    let r = MlsCiphertext::try_from_plaintext(&p, &cs, &backend, header(), &mut sender, 0);
    assert!(matches!(r, Err(MlsCiphertextError::WrongWireFormat)));
}

#[test]
fn a_tampered_ciphertext_is_refused() {
    let cs = suite();
    let backend = OpenMlsRustCrypto::default();
    let mut sender = secrets(cs);
    let mut receiver = secrets(cs);
    let p = plaintext(MlsPlaintextContentType::Application(b"hello".to_vec()), None);
    let mut c =
        MlsCiphertext::try_from_plaintext(&p, &cs, &backend, header(), &mut sender, 0).unwrap();
    let sd = c.sender_data(&mut receiver, &backend, &cs).unwrap();
    let mut bytes = c.ciphertext().to_vec();
    bytes[0] ^= 1;
    c.set_ciphertext(bytes);
    let config = SenderRatchetConfiguration::default();
    let r = c.to_plaintext(&cs, &backend, &mut receiver, &config, sd);
    assert!(matches!(r, Err(MlsCiphertextError::DecryptionError)));
}

#[test]
fn a_ciphertext_with_a_plaintext_wire_format_has_no_sender_data() {
    let cs = suite();
    let backend = OpenMlsRustCrypto::default();
    let mut sender = secrets(cs);
    let mut receiver = secrets(cs);
    let p = plaintext(MlsPlaintextContentType::Application(b"hello".to_vec()), None);
    let mut c =
        MlsCiphertext::try_from_plaintext(&p, &cs, &backend, header(), &mut sender, 0).unwrap();
    c.set_wire_format(WireFormat::MlsPlaintext);
    let r = c.sender_data(&mut receiver, &backend, &cs);
    assert!(matches!(r, Err(MlsCiphertextError::WrongWireFormat)));
}

#[test]
fn sender_data_encoding() {
    let sd = MlsSenderData::new(0x01020304, 5, ReuseGuard { value: [9, 8, 7, 6] });
    let bytes = sd.tls_serialize_detached();
    assert_eq!(bytes, vec![1, 2, 3, 4, 0, 0, 0, 5, 9, 8, 7, 6]);
    let back = MlsSenderData::tls_deserialize(&bytes).unwrap();
    assert_eq!(back.sender, 0x01020304);
    assert_eq!(back.generation, 5);
    assert_eq!(back.reuse_guard.value, [9, 8, 7, 6]);
    assert!(MlsSenderData::tls_deserialize(&bytes[..11]).is_err());
}

#[test]
fn reuse_guards_mask_the_nonce() {
    let mut nonce = vec![0xFFu8; 12];
    openmls::ciphertext::xor_with_reuse_guard(&mut nonce, &ReuseGuard { value: [1, 2, 3, 4] });
    assert_eq!(nonce, vec![0xFE, 0xFD, 0xFC, 0xFB, 0xFF, 0xFF, 0xFF, 0xFF, 0xFF, 0xFF, 0xFF, 0xFF]);
}

#[test]
fn senders_outside_the_tree_and_long_group_ids_are_refused() {
    let cs = suite();
    let backend = OpenMlsRustCrypto::default();
    let mut sender = secrets(cs);
    let p = plaintext(MlsPlaintextContentType::Application(b"hi".to_vec()), None);
    let far = MlsMessageHeader { group_id: GroupId::from_slice(b"group"), epoch: GroupEpoch(1), sender: 4 };
    let r = MlsCiphertext::try_from_plaintext(&p, &cs, &backend, far, &mut sender, 0);
    assert!(matches!(
        r,
        Err(MlsCiphertextError::SecretTreeError(openmls::secret_tree::SecretTreeError::IndexOutOfBounds))
    ));
    let long = MlsMessageHeader { group_id: GroupId::from_slice(&[1u8; 256]), epoch: GroupEpoch(1), sender: 2 };
    let r = MlsCiphertext::try_from_plaintext(&p, &cs, &backend, long, &mut sender, 0);
    assert!(matches!(r, Err(MlsCiphertextError::CodecError(openmls::codec::CodecError::EncodingError))));
}

#[test]
fn a_generation_too_far_ahead_of_a_fresh_ratchet_is_out_of_bound() {
    let cs = suite();
    let backend = OpenMlsRustCrypto::default();
    let mut sender = secrets(cs);
    let mut receiver = secrets(cs);
    let p = plaintext(MlsPlaintextContentType::Application(b"hello".to_vec()), None);
    let c = MlsCiphertext::try_from_plaintext(&p, &cs, &backend, header(), &mut sender, 0).unwrap();
    let config = SenderRatchetConfiguration::new(5, 10);
    let far = MlsSenderData::new(2, 11, ReuseGuard { value: [0; 4] });
    let r = c.decrypt(&cs, &backend, &mut receiver, &config, &far);
    assert!(matches!(r, Err(MlsCiphertextError::GenerationOutOfBound)));
    let outside = MlsSenderData::new(9, 0, ReuseGuard { value: [0; 4] });
    let r = c.decrypt(&cs, &backend, &mut receiver, &config, &outside);
    assert!(matches!(r, Err(MlsCiphertextError::GenerationOutOfBound)));
}

#[test]
fn encryption_moves_the_authors_ratchet_even_past_a_message() {
    let cs = suite();
    let backend = OpenMlsRustCrypto::default();
    let mut sender = secrets(cs);
    let p = plaintext(MlsPlaintextContentType::Application(b"a".to_vec()), None);
    let c0 = MlsCiphertext::try_from_plaintext(&p, &cs, &backend, header(), &mut sender, 0).unwrap();
    let c1 = MlsCiphertext::try_from_plaintext(&p, &cs, &backend, header(), &mut sender, 0).unwrap();
    let mut receiver = secrets(cs);
    assert_eq!(c0.sender_data(&mut receiver, &backend, &cs).unwrap().generation, 0);
    assert_eq!(c1.sender_data(&mut receiver, &backend, &cs).unwrap().generation, 1);
    assert_eq!(c1.group_id().as_slice(), b"group");
}

#[test]
fn a_failing_key_derivation_is_out_of_bound() {
    let cs = suite();
    let backend = OpenMlsRustCrypto::default();
    let mut sender = secrets(cs);
    let p = plaintext(MlsPlaintextContentType::Application(b"hello".to_vec()), None);
    let c = MlsCiphertext::try_from_plaintext(&p, &cs, &backend, header(), &mut sender, 0).unwrap();
    // A receiver whose tree secret is shorter than a hash output cannot
    // derive the sender's ratchet.
    let mut receiver = MessageSecrets::new(
        Secret::from_slice(&[1u8; 32], cs),
        Secret::from_slice(&[2u8; 32], cs),
        Secret::from_slice(&[3u8; 32], cs),
        vec![4u8; 8],
        SecretTree::new(Secret::from_slice(&[5u8; 4], cs), 4),
    );
    let sd = c.sender_data(&mut receiver, &backend, &cs).unwrap();
    let config = SenderRatchetConfiguration::default();
    let r = c.decrypt(&cs, &backend, &mut receiver, &config, &sd);
    assert!(matches!(r, Err(MlsCiphertextError::GenerationOutOfBound)));
}
