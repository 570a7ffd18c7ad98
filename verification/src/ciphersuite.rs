//! Ciphersuites and the algorithm parameters they fix.

use vstd::prelude::*;

verus! {

/// Hash functions used by the supported ciphersuites.
#[derive(Clone, Copy, Debug, PartialEq, Eq, Structural)]
#[allow(non_camel_case_types)]
pub enum HashType {
    Sha2_256,
    Sha2_384,
    Sha2_512,
}

impl HashType {
    /// Output length of the hash function in bytes.
    pub open spec fn spec_size(&self) -> usize {
        match self {
            HashType::Sha2_256 => 32,
            HashType::Sha2_384 => 48,
            HashType::Sha2_512 => 64,
        }
    }

    #[verifier::when_used_as_spec(spec_size)]
    pub fn size(&self) -> (s: usize)
        ensures
            s == self.spec_size(),
    {
        match self {
            HashType::Sha2_256 => 32,
            HashType::Sha2_384 => 48,
            HashType::Sha2_512 => 64,
        }
    }
}

/// AEAD algorithms used by the supported ciphersuites.
#[derive(Clone, Copy, Debug, PartialEq, Eq, Structural)]
pub enum AeadType {
    Aes128Gcm,
    Aes256Gcm,
    ChaCha20Poly1305,
}

impl AeadType {
    pub open spec fn spec_key_size(&self) -> usize {
        match self {
            AeadType::Aes128Gcm => 16,
            AeadType::Aes256Gcm => 32,
            AeadType::ChaCha20Poly1305 => 32,
        }
    }

    #[verifier::when_used_as_spec(spec_key_size)]
    pub fn key_size(&self) -> (s: usize)
        ensures
            s == self.spec_key_size(),
    {
        match self {
            AeadType::Aes128Gcm => 16,
            AeadType::Aes256Gcm => 32,
            AeadType::ChaCha20Poly1305 => 32,
        }
    }

    /// All three algorithms use 96-bit nonces and 128-bit tags.
    pub open spec fn spec_nonce_size(&self) -> usize {
        12
    }

    #[verifier::when_used_as_spec(spec_nonce_size)]
    pub fn nonce_size(&self) -> (s: usize)
        ensures
            s == self.spec_nonce_size(),
    {
        12
    }

    pub open spec fn spec_tag_size(&self) -> usize {
        16
    }

    #[verifier::when_used_as_spec(spec_tag_size)]
    pub fn tag_size(&self) -> (s: usize)
        ensures
            s == self.spec_tag_size(),
    {
        16
    }
}

/// The MLS ciphersuites.
#[derive(Clone, Copy, Debug, PartialEq, Eq, Structural)]
#[allow(non_camel_case_types)]
pub enum CiphersuiteName {
    MLS10_128_DHKEMX25519_AES128GCM_SHA256_Ed25519,
    MLS10_128_DHKEMP256_AES128GCM_SHA256_P256,
    MLS10_128_DHKEMX25519_CHACHA20POLY1305_SHA256_Ed25519,
    MLS10_256_DHKEMX448_AES256GCM_SHA512_Ed448,
    MLS10_256_DHKEMP521_AES256GCM_SHA512_P521,
    MLS10_256_DHKEMX448_CHACHA20POLY1305_SHA512_Ed448,
    MLS10_256_DHKEMP384_AES256GCM_SHA384_P384,
}

/// A ciphersuite: the hash and AEAD algorithms that a group uses.
#[derive(Clone, Copy, Debug, PartialEq, Eq, Structural)]
pub struct Ciphersuite {
    pub name: CiphersuiteName,
}

impl Ciphersuite {
    pub fn new(name: CiphersuiteName) -> (cs: Ciphersuite)
        ensures
            cs.name == name,
    {
        Ciphersuite { name }
    }

    pub fn name(&self) -> (n: CiphersuiteName)
        ensures
            n == self.name,
    {
        self.name
    }

    /// The ciphersuite's code point on the wire.
    pub open spec fn spec_code(&self) -> u16 {
        match self.name {
            CiphersuiteName::MLS10_128_DHKEMX25519_AES128GCM_SHA256_Ed25519 => 1,
            CiphersuiteName::MLS10_128_DHKEMP256_AES128GCM_SHA256_P256 => 2,
            CiphersuiteName::MLS10_128_DHKEMX25519_CHACHA20POLY1305_SHA256_Ed25519 => 3,
            CiphersuiteName::MLS10_256_DHKEMX448_AES256GCM_SHA512_Ed448 => 4,
            CiphersuiteName::MLS10_256_DHKEMP521_AES256GCM_SHA512_P521 => 5,
            CiphersuiteName::MLS10_256_DHKEMX448_CHACHA20POLY1305_SHA512_Ed448 => 6,
            CiphersuiteName::MLS10_256_DHKEMP384_AES256GCM_SHA384_P384 => 7,
        }
    }

    #[verifier::when_used_as_spec(spec_code)]
    pub fn code(&self) -> (c: u16)
        ensures
            c == self.spec_code(),
            1 <= c <= 7,
    {
        match self.name {
            CiphersuiteName::MLS10_128_DHKEMX25519_AES128GCM_SHA256_Ed25519 => 1,
            CiphersuiteName::MLS10_128_DHKEMP256_AES128GCM_SHA256_P256 => 2,
            CiphersuiteName::MLS10_128_DHKEMX25519_CHACHA20POLY1305_SHA256_Ed25519 => 3,
            CiphersuiteName::MLS10_256_DHKEMX448_AES256GCM_SHA512_Ed448 => 4,
            CiphersuiteName::MLS10_256_DHKEMP521_AES256GCM_SHA512_P521 => 5,
            CiphersuiteName::MLS10_256_DHKEMX448_CHACHA20POLY1305_SHA512_Ed448 => 6,
            CiphersuiteName::MLS10_256_DHKEMP384_AES256GCM_SHA384_P384 => 7,
        }
    }

    pub open spec fn spec_hash_algorithm(&self) -> HashType {
        match self.name {
            CiphersuiteName::MLS10_128_DHKEMX25519_AES128GCM_SHA256_Ed25519
            | CiphersuiteName::MLS10_128_DHKEMP256_AES128GCM_SHA256_P256
            | CiphersuiteName::MLS10_128_DHKEMX25519_CHACHA20POLY1305_SHA256_Ed25519 => {
                HashType::Sha2_256
            },
            CiphersuiteName::MLS10_256_DHKEMP384_AES256GCM_SHA384_P384 => HashType::Sha2_384,
            _ => HashType::Sha2_512,
        }
    }

    #[verifier::when_used_as_spec(spec_hash_algorithm)]
    pub fn hash_algorithm(&self) -> (h: HashType)
        ensures
            h == self.spec_hash_algorithm(),
    {
        match self.name {
            CiphersuiteName::MLS10_128_DHKEMX25519_AES128GCM_SHA256_Ed25519
            | CiphersuiteName::MLS10_128_DHKEMP256_AES128GCM_SHA256_P256
            | CiphersuiteName::MLS10_128_DHKEMX25519_CHACHA20POLY1305_SHA256_Ed25519 => {
                HashType::Sha2_256
            },
            CiphersuiteName::MLS10_256_DHKEMP384_AES256GCM_SHA384_P384 => HashType::Sha2_384,
            _ => HashType::Sha2_512,
        }
    }

    pub open spec fn spec_aead_algorithm(&self) -> AeadType {
        match self.name {
            CiphersuiteName::MLS10_128_DHKEMX25519_AES128GCM_SHA256_Ed25519
            | CiphersuiteName::MLS10_128_DHKEMP256_AES128GCM_SHA256_P256 => AeadType::Aes128Gcm,
            CiphersuiteName::MLS10_128_DHKEMX25519_CHACHA20POLY1305_SHA256_Ed25519
            | CiphersuiteName::MLS10_256_DHKEMX448_CHACHA20POLY1305_SHA512_Ed448 => {
                AeadType::ChaCha20Poly1305
            },
            _ => AeadType::Aes256Gcm,
        }
    }

    #[verifier::when_used_as_spec(spec_aead_algorithm)]
    pub fn aead_algorithm(&self) -> (a: AeadType)
        ensures
            a == self.spec_aead_algorithm(),
    {
        match self.name {
            CiphersuiteName::MLS10_128_DHKEMX25519_AES128GCM_SHA256_Ed25519
            | CiphersuiteName::MLS10_128_DHKEMP256_AES128GCM_SHA256_P256 => AeadType::Aes128Gcm,
            CiphersuiteName::MLS10_128_DHKEMX25519_CHACHA20POLY1305_SHA256_Ed25519
            | CiphersuiteName::MLS10_256_DHKEMX448_CHACHA20POLY1305_SHA512_Ed448 => {
                AeadType::ChaCha20Poly1305
            },
            _ => AeadType::Aes256Gcm,
        }
    }

    pub open spec fn spec_hash_length(&self) -> usize {
        self.spec_hash_algorithm().spec_size()
    }

    /// Length of the hash output in bytes.
    #[verifier::when_used_as_spec(spec_hash_length)]
    pub fn hash_length(&self) -> (l: usize)
        ensures
            l == self.spec_hash_length(),
    {
        self.hash_algorithm().size()
    }

    pub open spec fn spec_mac_length(&self) -> usize {
        self.spec_aead_algorithm().spec_tag_size()
    }

    /// Length of the AEAD tag in bytes.
    #[verifier::when_used_as_spec(spec_mac_length)]
    pub fn mac_length(&self) -> (l: usize)
        ensures
            l == self.spec_mac_length(),
    {
        self.aead_algorithm().tag_size()
    }

    pub open spec fn spec_aead_key_length(&self) -> usize {
        self.spec_aead_algorithm().spec_key_size()
    }

    /// Length of the AEAD key in bytes.
    #[verifier::when_used_as_spec(spec_aead_key_length)]
    pub fn aead_key_length(&self) -> (l: usize)
        ensures
            l == self.spec_aead_key_length(),
    {
        self.aead_algorithm().key_size()
    }

    pub open spec fn spec_aead_nonce_length(&self) -> usize {
        self.spec_aead_algorithm().spec_nonce_size()
    }

    /// Length of the AEAD nonce in bytes.
    #[verifier::when_used_as_spec(spec_aead_nonce_length)]
    pub fn aead_nonce_length(&self) -> (l: usize)
        ensures
            l == self.spec_aead_nonce_length(),
    {
        self.aead_algorithm().nonce_size()
    }
}

} // verus!
