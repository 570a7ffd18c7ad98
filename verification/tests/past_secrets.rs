use openmls::ciphersuite::{Ciphersuite, CiphersuiteName};
use openmls::framing::GroupEpoch;
use openmls::message_secrets::{MessageSecrets, MessageSecretsStore};
use openmls::test_utils::ciphersuites;
use openmls_rust_crypto::OpenMlsRustCrypto;

#[test]
fn test_secret_tree_store() {
    let backend = OpenMlsRustCrypto::default();
    for ciphersuite in ciphersuites() {
        // Create a store that keeps up to 3 epochs
        let mut message_secrets_store = MessageSecretsStore::new_with_secret(
            3,
            MessageSecrets::random(ciphersuite, &backend).unwrap(),
        );

        // Add message secrets to the store
        message_secrets_store.add(
            GroupEpoch(0),
            MessageSecrets::random(ciphersuite, &backend).unwrap(),
        );

        // Make sure we can access the message secrets we just stored
        assert!(message_secrets_store
            .secrets_for_epoch_mut(GroupEpoch(0))
            .is_some());

        // Add 5 more message secrets, this should drop trees from earlier epochs
        for i in 1..6u64 {
            message_secrets_store.add(
                GroupEpoch(i),
                MessageSecrets::random(ciphersuite, &backend).unwrap(),
            );
        }

        // These epochs should be in the store
        assert!(message_secrets_store
            .secrets_for_epoch_mut(GroupEpoch(3))
            .is_some());
        assert!(message_secrets_store
            .secrets_for_epoch_mut(GroupEpoch(4))
            .is_some());
        assert!(message_secrets_store
            .secrets_for_epoch_mut(GroupEpoch(5))
            .is_some());

        // These epochs should not be in the store
        assert!(message_secrets_store
            .secrets_for_epoch_mut(GroupEpoch(0))
            .is_none());
        assert!(message_secrets_store
            .secrets_for_epoch_mut(GroupEpoch(1))
            .is_none());
        assert!(message_secrets_store
            .secrets_for_epoch_mut(GroupEpoch(2))
            .is_none());
        assert!(message_secrets_store
            .secrets_for_epoch_mut(GroupEpoch(6))
            .is_none());
    }
}

#[test]
fn test_empty_secret_tree_store() {
    let backend = OpenMlsRustCrypto::default();
    for ciphersuite in ciphersuites() {
        // Create a store that keeps no epochs
        let mut message_secrets_store = MessageSecretsStore::new_with_secret(
            0,
            MessageSecrets::random(ciphersuite, &backend).unwrap(),
        );

        // Add message secrets to the store
        message_secrets_store.add(
            GroupEpoch(0),
            MessageSecrets::random(ciphersuite, &backend).unwrap(),
        );

        // Make sure we cannot access the message secrets we just stored
        assert!(message_secrets_store
            .secrets_for_epoch_mut(GroupEpoch(0))
            .is_none());
    }
}

#[test]
fn store_keeps_the_latest_epochs_in_order() {
    let backend = OpenMlsRustCrypto::default();
    let ciphersuite =
        Ciphersuite::new(CiphersuiteName::MLS10_128_DHKEMX25519_AES128GCM_SHA256_Ed25519);
    let mut store = MessageSecretsStore::new_with_secret(
        2,
        MessageSecrets::random(ciphersuite, &backend).unwrap(),
    );
    for e in [7u64, 3, 9] {
        store.add(GroupEpoch(e), MessageSecrets::random(ciphersuite, &backend).unwrap());
    }
    assert!(store.secrets_for_epoch(GroupEpoch(7)).is_none());
    assert!(store.secrets_for_epoch(GroupEpoch(3)).is_some());
    assert!(store.secrets_for_epoch(GroupEpoch(9)).is_some());
}

#[test]
fn random_message_secrets_have_the_hash_length() {
    let backend = OpenMlsRustCrypto::default();
    let ciphersuite =
        Ciphersuite::new(CiphersuiteName::MLS10_128_DHKEMX25519_AES128GCM_SHA256_Ed25519);
    let a = MessageSecrets::random(ciphersuite, &backend).unwrap();
    let b = MessageSecrets::random(ciphersuite, &backend).unwrap();
    assert_eq!(a.sender_data_secret().as_slice().len(), 32);
    assert_ne!(a.sender_data_secret().as_slice(), b.sender_data_secret().as_slice());
}
