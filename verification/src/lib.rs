//! Verified core of an MLS (Messaging Layer Security) group library.
//!
//! - `secret_tree`, `sender_ratchet`, `treemath`: the secret tree of an epoch
//!   and the per-member ratchets that give message keys and nonces;
//! - `ciphertext`, `codec`, `content_codec`: how messages are encrypted for the
//!   group and recovered, and the encodings they use;
//! - `validation`, `authentication`, `core_group`: the checks that incoming
//!   messages pass (framing, membership tags, signatures) on their way to the
//!   application, and the leaf a commit is sent from;
//! - `message_secrets`: the secrets of the current and of past epochs;
//! - `group_context`, `extensions`, `messages`, `hash_ref`, `treesync`: group
//!   state, its tree, and the Welcome, GroupInfo and path secret messages;
//! - `crypto`, `ciphersuite`: key derivation and the crypto backend.

pub mod authentication;
pub mod ciphersuite;
pub mod ciphertext;
pub mod codec;
pub mod config;
pub mod content_codec;
pub mod core_group;
pub mod crypto;
pub mod extensions;
pub mod framing;
pub mod group_context;
pub mod hash_ref;
pub mod message_secrets;
pub mod messages;
pub mod pow2;
pub mod proposals;
pub mod secret_tree;
pub mod sender_ratchet;
pub mod test_utils;
pub mod treemath;
pub mod treesync;
pub mod validation;
