use openmls::ciphersuite::{Ciphersuite, CiphersuiteName};
use openmls::crypto::{serialized_kdf_label, MlsCryptoError, Secret};
use openmls::secret_tree::{derive_tree_secret, SecretTree, SecretTreeError, SecretType, TreeContext};
use openmls::sender_ratchet::SenderRatchetConfiguration;
use openmls::treemath;
use openmls_rust_crypto::OpenMlsRustCrypto;

fn suite() -> Ciphersuite {
    Ciphersuite::new(CiphersuiteName::MLS10_128_DHKEMX25519_AES128GCM_SHA256_Ed25519)
}

fn tree(size: u32) -> SecretTree {
    SecretTree::new(Secret::from_slice(&[5u8; 32], suite()), size)
}

#[test]
fn sender_and_receiver_agree_on_keys() {
    let cs = suite();
    let backend = OpenMlsRustCrypto::default();
    let config = SenderRatchetConfiguration::default();
    for size in [1u32, 2, 3, 5, 8] {
        for index in 0..size {
            let mut sender = tree(size);
            let mut receiver = tree(size);
            for generation in 0..3u32 {
                let (g, enc) = sender
                    .secret_for_encryption(&cs, &backend, index, SecretType::ApplicationSecret)
                    .unwrap();
                assert_eq!(g, generation);
                assert_eq!(enc.key.len(), 16);
                assert_eq!(enc.nonce.len(), 12);
                let dec = receiver
                    .secret_for_decryption(&cs, &backend, index, SecretType::ApplicationSecret, g, &config)
                    .unwrap();
                assert_eq!(enc.key, dec.key);
                assert_eq!(enc.nonce, dec.nonce);
            }
            assert_eq!(sender.generation(index, SecretType::ApplicationSecret), 3);
            assert_eq!(sender.generation(index, SecretType::HandshakeSecret), 0);
        }
    }
}

#[test]
fn members_and_types_get_different_keys() {
    let cs = suite();
    let backend = OpenMlsRustCrypto::default();
    let mut t = tree(4);
    let (_, a0) = t.secret_for_encryption(&cs, &backend, 0, SecretType::ApplicationSecret).unwrap();
    let (_, h0) = t.secret_for_encryption(&cs, &backend, 0, SecretType::HandshakeSecret).unwrap();
    let (_, a1) = t.secret_for_encryption(&cs, &backend, 1, SecretType::ApplicationSecret).unwrap();
    let (_, a0_next) = t.secret_for_encryption(&cs, &backend, 0, SecretType::ApplicationSecret).unwrap();
    assert_ne!(a0.key, h0.key);
    assert_ne!(a0.key, a1.key);
    assert_ne!(a0.key, a0_next.key);
}

#[test]
fn out_of_order_generations_within_the_window() {
    let cs = suite();
    let backend = OpenMlsRustCrypto::default();
    let config = SenderRatchetConfiguration::new(5, 1000);
    let mut sender = tree(2);
    let mut receiver = tree(2);
    let mut keys = Vec::new();
    for _ in 0..4 {
        let (_, s) = sender.secret_for_encryption(&cs, &backend, 1, SecretType::HandshakeSecret).unwrap();
        keys.push(s.key);
    }
    // Generation 3 first, then the earlier ones.
    let d3 = receiver.secret_for_decryption(&cs, &backend, 1, SecretType::HandshakeSecret, 3, &config).unwrap();
    assert_eq!(d3.key, keys[3]);
    let d1 = receiver.secret_for_decryption(&cs, &backend, 1, SecretType::HandshakeSecret, 1, &config).unwrap();
    assert_eq!(d1.key, keys[1]);
}

#[test]
fn too_distant_generations_are_refused() {
    let cs = suite();
    let backend = OpenMlsRustCrypto::default();
    let config = SenderRatchetConfiguration::new(2, 10);
    let mut receiver = tree(2);
    assert_eq!(
        receiver
            .secret_for_decryption(&cs, &backend, 0, SecretType::ApplicationSecret, 11, &config)
            .err(),
        Some(SecretTreeError::TooDistantInTheFuture)
    );
    receiver
        .secret_for_decryption(&cs, &backend, 0, SecretType::ApplicationSecret, 10, &config)
        .unwrap();
    assert_eq!(
        receiver
            .secret_for_decryption(&cs, &backend, 0, SecretType::ApplicationSecret, 3, &config)
            .err(),
        Some(SecretTreeError::TooDistantInThePast)
    );
    assert_eq!(
        receiver
            .secret_for_decryption(&cs, &backend, 0, SecretType::ApplicationSecret, u32::MAX, &config)
            .err(),
        Some(SecretTreeError::TooDistantInTheFuture)
    );
}

#[test]
fn members_outside_the_tree_are_refused() {
    let cs = suite();
    let backend = OpenMlsRustCrypto::default();
    let config = SenderRatchetConfiguration::default();
    let mut t = tree(3);
    assert_eq!(
        t.secret_for_encryption(&cs, &backend, 3, SecretType::ApplicationSecret).err(),
        Some(SecretTreeError::IndexOutOfBounds)
    );
    assert_eq!(
        t.secret_for_decryption(&cs, &backend, 7, SecretType::ApplicationSecret, 0, &config).err(),
        Some(SecretTreeError::IndexOutOfBounds)
    );
}

#[test]
fn the_author_of_a_generation_cannot_decrypt_it() {
    let cs = suite();
    let backend = OpenMlsRustCrypto::default();
    let config = SenderRatchetConfiguration::default();
    let mut t = tree(2);
    let (g, _) = t.secret_for_encryption(&cs, &backend, 0, SecretType::ApplicationSecret).unwrap();
    assert!(t
        .secret_for_decryption(&cs, &backend, 0, SecretType::ApplicationSecret, g, &config)
        .is_err());
}

#[test]
fn ratchet_configuration_defaults() {
    let c = SenderRatchetConfiguration::default();
    assert_eq!(c.out_of_order_tolerance(), 5);
    assert_eq!(c.maximum_forward_distance(), 1000);
    let c = SenderRatchetConfiguration::new(1, 2);
    assert_eq!(c.out_of_order_tolerance(), 1);
    assert_eq!(c.maximum_forward_distance(), 2);
}

#[test]
fn kdf_label_encoding() {
    let label = serialized_kdf_label(&[0xAA, 0xBB], b"key", 16).unwrap();
    let mut expected = vec![0, 16, 9];
    expected.extend_from_slice(b"mls10 key");
    expected.extend_from_slice(&[0, 0, 0, 2, 0xAA, 0xBB]);
    assert_eq!(label, expected);
    assert_eq!(serialized_kdf_label(&[], b"key", 0x10000).err(), Some(MlsCryptoError::KdfLabelTooLarge));
    assert_eq!(
        serialized_kdf_label(&[], &[0u8; 250], 16).err(),
        Some(MlsCryptoError::KdfSerializationError)
    );
}

#[test]
fn tree_context_encoding() {
    let c = TreeContext { node: 0x0102, generation: 7 };
    assert_eq!(c.tls_serialize_detached(), vec![0, 0, 1, 2, 0, 0, 0, 7]);
}

#[test]
fn tree_secrets_depend_on_label_node_and_generation() {
    let cs = suite();
    let backend = OpenMlsRustCrypto::default();
    let s = Secret::from_slice(&[9u8; 32], cs);
    let a = derive_tree_secret(&s, b"tree", 1, 0, 32, &backend).unwrap();
    let b = derive_tree_secret(&s, b"tree", 3, 0, 32, &backend).unwrap();
    let c = derive_tree_secret(&s, b"tree", 1, 1, 32, &backend).unwrap();
    let d = derive_tree_secret(&s, b"key", 1, 0, 16, &backend).unwrap();
    assert_eq!(a.value.len(), 32);
    assert_eq!(d.value.len(), 16);
    assert_ne!(a.value, b.value);
    assert_ne!(a.value, c.value);
    assert_ne!(a.value, s.value);
    // A secret shorter than a hash output is refused by HKDF-Expand.
    let short = Secret::from_slice(&[9u8; 8], cs);
    assert!(derive_tree_secret(&short, b"tree", 1, 0, 32, &backend).is_err());
}

#[test]
fn tree_math() {
    // A tree of 5 leaves has 9 nodes and its root at 7.
    assert_eq!(treemath::node_width_of(5), 9);
    assert_eq!(treemath::root(5), 7);
    assert_eq!(treemath::root(1), 0);
    assert_eq!(treemath::root(4), 3);
    assert_eq!(treemath::left(3), 1);
    assert_eq!(treemath::right(3, 4), 5);
    assert_eq!(treemath::right(7, 5), 8);
    assert_eq!(treemath::node_level(7), 3);
    assert_eq!(treemath::pow2(10), 1024);
    assert_eq!(treemath::leaf_path_down(2, 4), vec![3, 5, 4]);
}
