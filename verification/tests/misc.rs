use openmls::ciphersuite::{Ciphersuite, CiphersuiteName};
use openmls::codec::{push_opaque, push_u64, read_opaque, read_u16, read_u32, read_u64, CodecError};
use openmls::content_codec::{read_content, write_content};
use openmls::crypto::Secret;
use openmls::extensions::{Extension, ExtensionType, RequiredCapabilitiesExtension};
use openmls::framing::{
    Commit, ConfirmationTag, ContentType, Credential, Mac, GroupEpoch, GroupId, KeyPackage, MlsPlaintextContentType,
    Proposal, ProposalOrRef, UpdatePath,
};
use openmls::group_context::GroupContext;
use openmls::hash_ref::HashReference;
use openmls::messages::{
    EncryptedGroupSecrets, GroupInfo, GroupInfoPayload, HpkeCiphertext, HpkePrivateKey, PathSecret,
    PathSecretError, ProtocolVersion, Welcome,
};
use openmls::test_utils::{bytes_to_hex, hex_to_bytes, hex_to_bytes_option};
use openmls_rust_crypto::OpenMlsRustCrypto;
use openmls_traits::crypto::OpenMlsCrypto;
use openmls_traits::types::{HpkeAeadType, HpkeConfig, HpkeKdfType, HpkeKemType};
use openmls_traits::OpenMlsCryptoProvider;

fn suite() -> Ciphersuite {
    Ciphersuite::new(CiphersuiteName::MLS10_128_DHKEMX25519_AES128GCM_SHA256_Ed25519)
}

#[test]
fn hash_references_are_sixteen_bytes_of_hkdf() {
    let backend = OpenMlsRustCrypto::default();
    let cs = suite();
    let a = HashReference::new(b"key package", &cs, &backend).unwrap();
    let b = HashReference::new(b"key package", &cs, &backend).unwrap();
    let c = HashReference::new(b"another one", &cs, &backend).unwrap();
    assert_eq!(a.value(), b.value());
    assert_ne!(a.value(), c.value());
    assert_ne!(&a.value()[..], &b"key package"[..11]);
}

#[test]
fn initial_group_context() {
    let cs = suite();
    let ext = vec![
        Extension::Other(ExtensionType::Lifetime, vec![1]),
        Extension::RequiredCapabilities(RequiredCapabilitiesExtension {
            extensions: vec![1, 2],
            proposals: vec![3],
        }),
        Extension::RequiredCapabilities(RequiredCapabilitiesExtension {
            extensions: vec![9],
            proposals: vec![],
        }),
    ];
    let mut gc = GroupContext::create_initial_group_context(&cs, GroupId::from_slice(b"g"), vec![7; 32], &ext)
        .unwrap();
    assert_eq!(gc.epoch(), GroupEpoch(0));
    assert_eq!(gc.confirmed_transcript_hash(), &[0u8; 32][..]);
    assert_eq!(gc.group_id().as_slice(), b"g");
    assert_eq!(gc.extensions().len(), 3);
    let rc = gc.required_capabilities().unwrap();
    assert_eq!(rc.extensions, vec![1, 2]);
    assert_eq!(rc.proposals, vec![3]);
    gc.set_epoch(GroupEpoch(4));
    assert_eq!(gc.epoch(), GroupEpoch(4));

    let gc = GroupContext::new(GroupId::from_slice(b"g"), GroupEpoch(1), vec![], vec![1], &[]).unwrap();
    assert!(gc.required_capabilities().is_none());
}

#[test]
fn extension_kinds() {
    let e = Extension::Other(ExtensionType::KeyId, vec![]);
    assert_eq!(e.extension_type(), ExtensionType::KeyId);
    assert!(e.as_required_capabilities_extension().is_err());
}

#[test]
fn hex_strings() {
    assert_eq!(bytes_to_hex(&[0x0a, 0xff, 0x10]), "0AFF10");
    assert_eq!(hex_to_bytes("0aFF10"), vec![0x0a, 0xff, 0x10]);
    assert_eq!(hex_to_bytes(""), Vec::<u8>::new());
    let bytes: Vec<u8> = (0..=255u8).collect();
    assert_eq!(hex_to_bytes(&bytes_to_hex(&bytes)), bytes);
    assert_eq!(hex_to_bytes_option(None), Vec::<u8>::new());
    assert_eq!(hex_to_bytes_option(Some("00ab".to_string())), vec![0, 0xab]);
}

#[test]
fn welcome_messages() {
    let cs = suite();
    let secrets = vec![EncryptedGroupSecrets {
        key_package_hash: vec![1; 16],
        encrypted_group_secrets: HpkeCiphertext { kem_output: vec![2], ciphertext: vec![3] },
    }];
    let mut w = Welcome::new(ProtocolVersion::Mls10, &cs, secrets, vec![4, 5]);
    assert_eq!(w.ciphersuite(), CiphersuiteName::MLS10_128_DHKEMX25519_AES128GCM_SHA256_Ed25519);
    assert_eq!(*w.version(), ProtocolVersion::Mls10);
    assert_eq!(w.secrets().len(), 1);
    assert_eq!(w.secrets()[0].key_package_hash, vec![1; 16]);
    assert_eq!(w.encrypted_group_info(), &[4, 5]);
    w.set_encrypted_group_info(vec![6]);
    assert_eq!(w.encrypted_group_info(), &[6]);
}

#[test]
fn path_secrets_derive_the_next_one() {
    let cs = suite();
    let backend = OpenMlsRustCrypto::default();
    let p = PathSecret::from(Secret::from_slice(&[1u8; 32], cs));
    let next = p.derive_path_secret(&backend, &cs).unwrap();
    let again = p.derive_path_secret(&backend, &cs).unwrap();
    assert_eq!(next.path_secret.value.len(), 32);
    assert_eq!(next.path_secret.value, again.path_secret.value);
    assert_ne!(next.path_secret.value, p.path_secret.value);
    let s = next.secret();
    assert_eq!(s.value.len(), 32);
}

#[test]
fn contents_read_back() {
    let commit = Commit {
        proposals: vec![
            ProposalOrRef::Reference(vec![1, 2]),
            ProposalOrRef::Proposal(Proposal { proposal_type: 0x0102, body: vec![3] }),
        ],
        path: Some(UpdatePath {
            leaf_key_package: KeyPackage {
                credential: Credential {
                    identity: b"id".to_vec(),
                    signature_scheme: 0x0807,
                    signature_key: vec![4; 4],
                },
                payload: vec![5],
            },
            nodes: vec![6, 7],
        }),
    };
    let content = MlsPlaintextContentType::Commit(commit);
    let mut buf = vec![0xEE];
    write_content(&mut buf, &content).unwrap();
    let (back, end) = read_content(&buf, 1, ContentType::Commit).unwrap();
    assert_eq!(end, buf.len());
    match back {
        MlsPlaintextContentType::Commit(c) => {
            assert_eq!(c.proposals.len(), 2);
            let path = c.path.unwrap();
            assert_eq!(path.leaf_key_package.credential.identity, b"id".to_vec());
            assert_eq!(path.leaf_key_package.payload, vec![5]);
            assert_eq!(path.nodes, vec![6, 7]);
        },
        _ => panic!("wrong content"),
    }
    // Cut short, the content does not read.
    assert!(read_content(&buf[..buf.len() - 1], 1, ContentType::Commit).is_none());
}

#[test]
fn primitive_encodings() {
    let mut buf = Vec::new();
    push_u64(&mut buf, 0x0102030405060708);
    assert_eq!(buf, vec![1, 2, 3, 4, 5, 6, 7, 8]);
    assert_eq!(read_u64(&buf, 0), Some((0x0102030405060708, 8)));
    assert_eq!(read_u32(&buf, 4), Some((0x05060708, 8)));
    assert_eq!(read_u16(&buf, 6), Some((0x0708, 8)));
    assert_eq!(read_u16(&buf, 7), None);
    let mut buf = Vec::new();
    push_opaque(&mut buf, &[9, 9, 9], 2).unwrap();
    assert_eq!(buf, vec![0, 3, 9, 9, 9]);
    assert_eq!(read_opaque(&buf, 0, 2), Some((vec![9, 9, 9], 5)));
    assert_eq!(read_opaque(&buf[..4], 0, 2), None);
    assert_eq!(push_opaque(&mut buf, &[0u8; 256], 1), Err(CodecError::EncodingError));
}

#[test]
fn a_group_info_gives_back_its_payload_and_signature() {
    let required = Extension::RequiredCapabilities(RequiredCapabilitiesExtension {
        extensions: vec![5],
        proposals: vec![1, 2],
    });
    let other = Extension::Other(ExtensionType::RatchetTree, vec![7, 7]);
    let payload = GroupInfoPayload::new(
        GroupId::from_slice(b"group"),
        GroupEpoch(4),
        vec![1; 32],
        vec![2; 32],
        &[required],
        &[other],
        ConfirmationTag(Mac { mac_value: vec![3; 32] }),
        6,
    );
    let mut info = GroupInfo::from_payload(payload, vec![9; 64]);
    assert_eq!(info.signer_index(), 6);
    assert_eq!(info.group_id().value, b"group".to_vec());
    assert_eq!(info.epoch(), GroupEpoch(4));
    assert_eq!(info.confirmed_transcript_hash(), &[2u8; 32][..]);
    assert_eq!(info.confirmation_tag().0.mac_value, vec![3u8; 32]);
    assert_eq!(info.signature(), &[9u8; 64][..]);
    assert_eq!(info.group_context_extensions().len(), 1);
    assert_eq!(info.group_context_extensions()[0].extension_type(), ExtensionType::RequiredCapabilities);
    assert_eq!(info.other_extensions().len(), 1);
    assert_eq!(info.other_extensions()[0].extension_type(), ExtensionType::RatchetTree);
    info.set_other_extensions(vec![]);
    assert!(info.other_extensions().is_empty());
    assert_eq!(info.group_context_extensions().len(), 1);
    assert_eq!(info.signer_index(), 6);
}

#[test]
fn a_path_secret_sealed_to_a_key_decrypts_under_its_private_key() {
    let backend = OpenMlsRustCrypto::default();
    let cs = suite();
    let config = || HpkeConfig(HpkeKemType::DhKem25519, HpkeKdfType::HkdfSha256, HpkeAeadType::AesGcm128);
    let pair = backend.crypto().derive_hpke_keypair(config(), &[7u8; 32]);
    let sealed = backend.crypto().hpke_seal(config(), &pair.public, b"context", &[], &[5u8; 32]);
    let ciphertext = HpkeCiphertext {
        kem_output: sealed.kem_output.as_slice().to_vec(),
        ciphertext: sealed.ciphertext.as_slice().to_vec(),
    };
    let key = HpkePrivateKey { value: pair.private.clone() };
    let p = PathSecret::decrypt(&backend, &cs, ProtocolVersion::Mls10, &ciphertext, &key, b"context").unwrap();
    assert_eq!(p.secret().as_slice(), &[5u8; 32][..]);
    // Another group context, or another key, does not open it.
    assert!(matches!(
        PathSecret::decrypt(&backend, &cs, ProtocolVersion::Mls10, &ciphertext, &key, b"other"),
        Err(PathSecretError::DecryptionError)
    ));
    let other = HpkePrivateKey { value: backend.crypto().derive_hpke_keypair(config(), &[8u8; 32]).private };
    assert!(matches!(
        PathSecret::decrypt(&backend, &cs, ProtocolVersion::Mls10, &ciphertext, &other, b"context"),
        Err(PathSecretError::DecryptionError)
    ));
    // A KEM the backend does not implement refuses every ciphertext.
    let x448 = Ciphersuite::new(CiphersuiteName::MLS10_256_DHKEMX448_AES256GCM_SHA512_Ed448);
    assert!(matches!(
        PathSecret::decrypt(&backend, &x448, ProtocolVersion::Mls10, &ciphertext, &key, b"context"),
        Err(PathSecretError::DecryptionError)
    ));
    // A key of the wrong length is refused, not a panic.
    let short = HpkePrivateKey { value: vec![1, 2, 3] };
    assert!(matches!(
        PathSecret::decrypt(&backend, &cs, ProtocolVersion::Mls10, &ciphertext, &short, b"context"),
        Err(PathSecretError::DecryptionError)
    ));
}

#[test]
fn a_group_context_encodes_field_by_field() {
    let required = Extension::RequiredCapabilities(RequiredCapabilitiesExtension {
        extensions: vec![5],
        proposals: vec![1, 2],
    });
    let other = Extension::Other(ExtensionType::RatchetTree, vec![7, 7]);
    let gc = GroupContext::new(
        GroupId::from_slice(b"gr"),
        GroupEpoch(0x0102),
        vec![0xAA],
        vec![0xBB, 0xCC],
        &[required, other],
    )
    .unwrap();
    let bytes = gc.tls_serialize_detached().unwrap();
    let mut expected = vec![2, b'g', b'r'];
    expected.extend_from_slice(&[0, 0, 0, 0, 0, 0, 1, 2]);
    expected.extend_from_slice(&[1, 0xAA]);
    expected.extend_from_slice(&[2, 0xBB, 0xCC]);
    let ext1 = vec![0, 6, 0, 0, 0, 8, 2, 0, 5, 4, 0, 1, 0, 2];
    let ext2 = vec![0, 5, 0, 0, 0, 2, 7, 7];
    expected.extend_from_slice(&[0, 0, 0, (ext1.len() + ext2.len()) as u8]);
    expected.extend_from_slice(&ext1);
    expected.extend_from_slice(&ext2);
    assert_eq!(bytes, expected);
    let long = GroupContext::new(GroupId::from_slice(&[0; 256]), GroupEpoch(0), vec![], vec![], &[]).unwrap();
    assert_eq!(long.tls_serialize_detached(), Err(CodecError::EncodingError));
}

#[test]
fn hash_references_encode_as_their_sixteen_bytes() {
    let backend = OpenMlsRustCrypto::default();
    let cs = suite();
    let a = HashReference::new(b"key package", &cs, &backend).unwrap();
    let b = HashReference::new(b"key package", &cs, &backend).unwrap();
    let c = HashReference::new(b"another one", &cs, &backend).unwrap();
    assert!(a == b);
    assert!(a != c);
    let mut bytes = a.tls_serialize_detached();
    assert_eq!(bytes.len(), 16);
    assert_eq!(&bytes[..], &a.value()[..]);
    bytes.push(9);
    let back = HashReference::tls_deserialize(&bytes).unwrap();
    assert!(back == a);
    assert_eq!(HashReference::tls_deserialize(&bytes[..15]), Err(CodecError::EndOfStream));
}
