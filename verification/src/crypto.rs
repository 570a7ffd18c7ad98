//! Secrets and key derivation: the HKDF calls of the crypto backend and the
//! `KdfLabel` construction built on them.

use openmls_traits::crypto::OpenMlsCrypto;
use openmls_traits::random::OpenMlsRand;
use openmls_traits::OpenMlsCryptoProvider;
use vstd::prelude::*;

use crate::ciphersuite::{AeadType, Ciphersuite, HashType};

verus! {

/// The crypto backend: the default provider of `openmls_rust_crypto`.
#[verifier::external_type_specification]
#[verifier::external_body]
pub struct ExOpenMlsRustCrypto(openmls_rust_crypto::OpenMlsRustCrypto);

/// Errors that the crypto backend reports.
#[verifier::external_type_specification]
#[verifier::external_body]
pub struct ExCryptoError(openmls_traits::types::CryptoError);

/// Errors of the key derivation and encryption steps of this library.
#[derive(Clone, Copy, Debug, PartialEq, Eq, Structural)]
pub enum MlsCryptoError {
    KdfLabelTooLarge,
    KdfSerializationError,
    HkdfOutputLengthInvalid,
    InvalidLength,
    AeadDecryptionError,
    CryptoLibraryError,
    InsufficientRandomness,
}

/// What HKDF-Extract returns for a hash function, a salt and input key material.
pub uninterp spec fn hkdf_extract_output(hash: HashType, salt: Seq<u8>, ikm: Seq<u8>) -> Seq<u8>;

/// What HKDF-Expand returns for a hash function, a pseudorandom key, an info
/// string and an output length.
pub uninterp spec fn hkdf_expand_output(hash: HashType, prk: Seq<u8>, info: Seq<u8>, len: nat) -> Seq<u8>;

/// `OpenMlsCrypto::hkdf_extract` of the rust-crypto backend.
/// It always succeeds and returns a pseudorandom key as long as the hash output;
/// the bytes themselves are named by `hkdf_extract_output`.
#[verifier::external_body]
pub(crate) fn hkdf_extract(
    backend: &openmls_rust_crypto::OpenMlsRustCrypto,
    hash: HashType,
    salt: &[u8],
    ikm: &[u8],
) -> (res: Result<Vec<u8>, openmls_traits::types::CryptoError>)
    ensures
        res is Ok,
        res matches Ok(v) ==> v@ == hkdf_extract_output(hash, salt@, ikm@),
        res matches Ok(v) ==> v@.len() == hash.spec_size(),
{
    let h = match hash {
        HashType::Sha2_256 => openmls_traits::types::HashType::Sha2_256,
        HashType::Sha2_384 => openmls_traits::types::HashType::Sha2_384,
        HashType::Sha2_512 => openmls_traits::types::HashType::Sha2_512,
    };
    backend.crypto().hkdf_extract(h, salt, ikm)
}

/// `OpenMlsCrypto::hkdf_expand` of the rust-crypto backend.
/// It fails exactly when the pseudorandom key is shorter than the hash output or
/// the requested length exceeds 255 hash outputs; otherwise it returns `len`
/// bytes, named by `hkdf_expand_output`.
#[verifier::external_body]
pub(crate) fn hkdf_expand(
    backend: &openmls_rust_crypto::OpenMlsRustCrypto,
    hash: HashType,
    prk: &[u8],
    info: &[u8],
    len: usize,
) -> (res: Result<Vec<u8>, openmls_traits::types::CryptoError>)
    ensures
        res is Ok <==> (prk@.len() >= hash.spec_size() && len <= 255 * hash.spec_size()),
        res matches Ok(v) ==> v@ == hkdf_expand_output(hash, prk@, info@, len as nat),
        res matches Ok(v) ==> v@.len() == len,
{
    let h = match hash {
        HashType::Sha2_256 => openmls_traits::types::HashType::Sha2_256,
        HashType::Sha2_384 => openmls_traits::types::HashType::Sha2_384,
        HashType::Sha2_512 => openmls_traits::types::HashType::Sha2_512,
    };
    backend.crypto().hkdf_expand(h, prk, info, len)
}

/// A secret value together with the ciphersuite whose hash it is used with.
pub struct Secret {
    pub ciphersuite: Ciphersuite,
    pub value: Vec<u8>,
}

impl Secret {
    /// Creates a secret from bytes.
    pub fn from_slice(bytes: &[u8], ciphersuite: Ciphersuite) -> (s: Secret)
        ensures
            s.value@ == bytes@,
            s.ciphersuite == ciphersuite,
    {
        Secret { ciphersuite, value: vstd::slice::slice_to_vec(bytes) }
    }

    /// The bytes of the secret.
    pub fn as_slice(&self) -> (b: &[u8])
        ensures
            b@ == self.value@,
    {
        self.value.as_slice()
    }

    /// A copy of the secret.
    pub fn duplicate(&self) -> (s: Secret)
        ensures
            s.value@ == self.value@,
            s.ciphersuite == self.ciphersuite,
    {
        let value = self.value.clone();
        assert(value@ =~= self.value@);
        Secret { ciphersuite: self.ciphersuite, value }
    }
}

/// The prefix `"mls10 "` that every KDF label carries.
pub open spec fn label_prefix() -> Seq<u8> {
    seq![109u8, 108u8, 115u8, 49u8, 48u8, 32u8]
}

/// Big-endian encoding of a 16-bit value.
pub open spec fn u16_bytes(x: nat) -> Seq<u8> {
    seq![((x / 256) % 256) as u8, (x % 256) as u8]
}

/// Big-endian encoding of a 32-bit value.
pub open spec fn u32_bytes(x: nat) -> Seq<u8> {
    seq![
        ((x / 0x1000000) % 256) as u8,
        ((x / 0x10000) % 256) as u8,
        ((x / 0x100) % 256) as u8,
        (x % 256) as u8,
    ]
}

/// The TLS encoding of
/// `struct { uint16 length; opaque label<7..255>; opaque context<0..2^32-1>; } KdfLabel;`
/// with the label prefixed by `"mls10 "`.
pub open spec fn kdf_label(length: nat, label: Seq<u8>, context: Seq<u8>) -> Seq<u8> {
    let full = label_prefix() + label;
    u16_bytes(length) + seq![full.len() as u8] + full + u32_bytes(context.len()) + context
}

/// Every KDF label carries the ASCII prefix "mls10 " before its label: the
/// info of an expansion is the output length, the prefixed label and the
/// context, each with its length.
pub proof fn law_kdf_label_prefix(length: nat, label: Seq<u8>, context: Seq<u8>)
    ensures
        kdf_label(length, label, context) == u16_bytes(length) + seq![(6 + label.len()) as u8]
            + seq![109u8, 108u8, 115u8, 49u8, 48u8, 32u8] + label + u32_bytes(context.len()) + context,
{
    assert(label_prefix() + label =~= seq![109u8, 108u8, 115u8, 49u8, 48u8, 32u8] + label);
    assert(kdf_label(length, label, context) =~= u16_bytes(length) + seq![(6 + label.len()) as u8]
        + seq![109u8, 108u8, 115u8, 49u8, 48u8, 32u8] + label + u32_bytes(context.len()) + context);
}

/// Whether `kdf_label` can be encoded: the length fits 16 bits, the full label
/// 8 bits and the context 32 bits.
pub open spec fn kdf_label_encodable(length: nat, label: Seq<u8>, context: Seq<u8>) -> bool {
    &&& length <= 0xffff
    &&& label_prefix().len() + label.len() <= 0xff
    &&& context.len() <= 0xffff_ffff
}

/// Appends the big-endian encoding of a 16-bit value.
pub fn push_u16(buf: &mut Vec<u8>, x: u16)
    ensures
        final(buf)@ == old(buf)@ + u16_bytes(x as nat),
{
    buf.push((x / 256) as u8);
    buf.push((x % 256) as u8);
    assert(final(buf)@ =~= old(buf)@ + u16_bytes(x as nat));
}

/// Appends the big-endian encoding of a 32-bit value.
pub fn push_u32(buf: &mut Vec<u8>, x: u32)
    ensures
        final(buf)@ == old(buf)@ + u32_bytes(x as nat),
{
    buf.push(((x / 0x1000000) % 256) as u8);
    buf.push(((x / 0x10000) % 256) as u8);
    buf.push(((x / 0x100) % 256) as u8);
    buf.push((x % 256) as u8);
    assert(final(buf)@ =~= old(buf)@ + u32_bytes(x as nat));
}

/// Appends bytes.
pub fn push_bytes(buf: &mut Vec<u8>, bytes: &[u8])
    ensures
        final(buf)@ == old(buf)@ + bytes@,
{
    let mut i: usize = 0;
    while i < bytes.len()
        invariant
            i <= bytes@.len(),
            buf@ == old(buf)@ + bytes@.subrange(0, i as int),
        decreases bytes@.len() - i,
    {
        buf.push(bytes[i]);
        i = i + 1;
        assert(buf@ =~= old(buf)@ + bytes@.subrange(0, i as int));
    }
    assert(bytes@.subrange(0, i as int) =~= bytes@);
}

/// Serializes a `KdfLabel`. Fails with `KdfLabelTooLarge` when the length does
/// not fit 16 bits and with `KdfSerializationError` when the label or the context
/// is too long for its length prefix.
pub fn serialized_kdf_label(context: &[u8], label: &[u8], length: usize) -> (res: Result<
    Vec<u8>,
    MlsCryptoError,
>)
    ensures
        length > 0xffff ==> res == Err::<Vec<u8>, MlsCryptoError>(MlsCryptoError::KdfLabelTooLarge),
        length <= 0xffff && !kdf_label_encodable(length as nat, label@, context@) ==> res == Err::<Vec<u8>, MlsCryptoError>(MlsCryptoError::KdfSerializationError),
        kdf_label_encodable(length as nat, label@, context@) ==> res is Ok,
        res matches Ok(v) ==> v@ == kdf_label(length as nat, label@, context@),
{
    if length > 0xffff {
        return Err(MlsCryptoError::KdfLabelTooLarge);
    }
    if label.len() > 0xff - 6 || context.len() > 0xffff_ffff {
        return Err(MlsCryptoError::KdfSerializationError);
    }
    let mut buf: Vec<u8> = Vec::new();
    push_u16(&mut buf, length as u16);
    buf.push((label.len() + 6) as u8);
    buf.push(109u8);
    buf.push(108u8);
    buf.push(115u8);
    buf.push(49u8);
    buf.push(48u8);
    buf.push(32u8);
    push_bytes(&mut buf, label);
    push_u32(&mut buf, context.len() as u32);
    push_bytes(&mut buf, context);
    assert(buf@ =~= kdf_label(length as nat, label@, context@));
    Ok(buf)
}

/// The bytes `ExpandWithLabel(secret, label, context, length)` derives.
pub open spec fn expand_with_label(
    secret: Seq<u8>,
    hash: HashType,
    label: Seq<u8>,
    context: Seq<u8>,
    length: nat,
) -> Seq<u8> {
    hkdf_expand_output(hash, secret, kdf_label(length, label, context), length)
}

/// When `ExpandWithLabel` succeeds: the label is encodable, the secret is at
/// least a hash output long and the length at most 255 hash outputs.
pub open spec fn expand_with_label_ok(
    secret: Seq<u8>,
    hash: HashType,
    label: Seq<u8>,
    context: Seq<u8>,
    length: nat,
) -> bool {
    &&& kdf_label_encodable(length, label, context)
    &&& secret.len() >= hash.spec_size()
    &&& length <= 255 * hash.spec_size()
}

/// The error `ExpandWithLabel` fails with when it fails: the length does not
/// fit 16 bits, the label or the context does not fit its length prefix, or
/// HKDF-Expand refuses the secret or the length.
pub open spec fn expand_with_label_error(label: Seq<u8>, context: Seq<u8>, length: nat) -> MlsCryptoError {
    if length > 0xffff {
        MlsCryptoError::KdfLabelTooLarge
    } else if !kdf_label_encodable(length, label, context) {
        MlsCryptoError::KdfSerializationError
    } else {
        MlsCryptoError::HkdfOutputLengthInvalid
    }
}

/// `ExpandWithLabel`: HKDF-Expand of the secret with the serialized `KdfLabel`
/// as info, under the secret's own ciphersuite.
pub fn kdf_expand_label(
    secret: &Secret,
    backend: &openmls_rust_crypto::OpenMlsRustCrypto,
    label: &[u8],
    context: &[u8],
    length: usize,
) -> (res: Result<Secret, MlsCryptoError>)
    ensures
        res is Ok <==> expand_with_label_ok(
            secret.value@,
            secret.ciphersuite.spec_hash_algorithm(),
            label@,
            context@,
            length as nat,
        ),
        res matches Ok(s) ==> (s.ciphersuite == secret.ciphersuite && s.value@.len() == length
            && s.value@ == expand_with_label(
            secret.value@,
            secret.ciphersuite.spec_hash_algorithm(),
            label@,
            context@,
            length as nat,
        )),
        res matches Err(e) ==> e == expand_with_label_error(label@, context@, length as nat),
{
    let info = match serialized_kdf_label(context, label, length) {
        Ok(info) => info,
        Err(e) => return Err(e),
    };
    let hash = secret.ciphersuite.hash_algorithm();
    match hkdf_expand(backend, hash, secret.value.as_slice(), info.as_slice(), length) {
        Ok(value) => Ok(Secret { ciphersuite: secret.ciphersuite, value }),
        Err(_) => Err(MlsCryptoError::HkdfOutputLengthInvalid),
    }
}

/// What AEAD encryption returns for an algorithm, a key, a plaintext, a nonce
/// and associated data: the ciphertext followed by the tag.
pub uninterp spec fn aead_seal_output(
    alg: AeadType,
    key: Seq<u8>,
    plaintext: Seq<u8>,
    nonce: Seq<u8>,
    aad: Seq<u8>,
) -> Seq<u8>;

/// What AEAD decryption returns for an algorithm, a key of the right length, a
/// ciphertext with its tag, a nonce and associated data: the plaintext, or
/// nothing when the tag does not verify.
pub uninterp spec fn aead_open_output(
    alg: AeadType,
    key: Seq<u8>,
    ciphertext: Seq<u8>,
    nonce: Seq<u8>,
    aad: Seq<u8>,
) -> Option<Seq<u8>>;

/// `OpenMlsCrypto::aead_encrypt` of the rust-crypto backend (AES-GCM and
/// ChaCha20-Poly1305 of the RustCrypto crates). The nonce must have the
/// algorithm's 12 bytes: the backend converts it to a fixed-size array and
/// panics otherwise. A key of the wrong length is refused; with the right key
/// length, messages and associated data of up to 2^32 - 1 bytes are
/// encrypted (the algorithms' limits lie above). The result, named by
/// `aead_seal_output`, is 16 bytes longer than the plaintext, and, as the
/// algorithms are correct, decrypts under the same key, nonce and associated
/// data to the plaintext.
#[verifier::external_body]
pub(crate) fn aead_encrypt(
    backend: &openmls_rust_crypto::OpenMlsRustCrypto,
    alg: AeadType,
    key: &[u8],
    data: &[u8],
    nonce: &[u8],
    aad: &[u8],
) -> (res: Result<Vec<u8>, openmls_traits::types::CryptoError>)
    requires
        nonce@.len() == alg.spec_nonce_size(),
    ensures
        key@.len() != alg.spec_key_size() ==> res is Err,
        key@.len() == alg.spec_key_size() && data@.len() <= 0xffff_ffff && aad@.len()
            <= 0xffff_ffff ==> res is Ok,
        res matches Ok(v) ==> v@ == aead_seal_output(alg, key@, data@, nonce@, aad@),
        res matches Ok(v) ==> v@.len() == data@.len() + alg.spec_tag_size(),
        res matches Ok(v) ==> aead_open_output(alg, key@, v@, nonce@, aad@) == Some(data@),
{
    let a = match alg {
        AeadType::Aes128Gcm => openmls_traits::types::AeadType::Aes128Gcm,
        AeadType::Aes256Gcm => openmls_traits::types::AeadType::Aes256Gcm,
        AeadType::ChaCha20Poly1305 => openmls_traits::types::AeadType::ChaCha20Poly1305,
    };
    backend.crypto().aead_encrypt(a, key, data, nonce, aad)
}

/// `OpenMlsCrypto::aead_decrypt` of the rust-crypto backend. The nonce must
/// have 12 bytes (the backend panics otherwise). It succeeds exactly when the
/// key has the algorithm's length and the tag verifies, returning the
/// plaintext named by `aead_open_output`.
#[verifier::external_body]
pub(crate) fn aead_decrypt(
    backend: &openmls_rust_crypto::OpenMlsRustCrypto,
    alg: AeadType,
    key: &[u8],
    ciphertext: &[u8],
    nonce: &[u8],
    aad: &[u8],
) -> (res: Result<Vec<u8>, openmls_traits::types::CryptoError>)
    requires
        nonce@.len() == alg.spec_nonce_size(),
    ensures
        res is Ok <==> (key@.len() == alg.spec_key_size()
            && aead_open_output(alg, key@, ciphertext@, nonce@, aad@) is Some),
        res matches Ok(v) ==> aead_open_output(alg, key@, ciphertext@, nonce@, aad@) == Some(v@),
{
    let a = match alg {
        AeadType::Aes128Gcm => openmls_traits::types::AeadType::Aes128Gcm,
        AeadType::Aes256Gcm => openmls_traits::types::AeadType::Aes256Gcm,
        AeadType::ChaCha20Poly1305 => openmls_traits::types::AeadType::ChaCha20Poly1305,
    };
    backend.crypto().aead_decrypt(a, key, ciphertext, nonce, aad)
}

/// What single-shot HPKE decryption in base mode returns for the ciphersuite
/// with the given code, an encapsulated key, a ciphertext, a private key, an
/// info string and associated data: the plaintext, or nothing when decryption
/// fails.
pub uninterp spec fn hpke_open_output(
    suite: u16,
    kem_output: Seq<u8>,
    ciphertext: Seq<u8>,
    private_key: Seq<u8>,
    info: Seq<u8>,
    aad: Seq<u8>,
) -> Option<Seq<u8>>;

/// `OpenMlsCrypto::hpke_open` of the rust-crypto backend, with the HPKE
/// algorithms of the ciphersuite with the given code (1 to 7). The backend
/// reports every failure (a KEM it does not implement, a malformed key or
/// encapsulation, a ciphertext that does not verify) as an error and does not
/// panic on any input; the plaintext, or its absence, is named by
/// `hpke_open_output`. (Setting up HPKE seeds a random number generator from
/// the operating system, which panics if the system has no entropy to give.)
#[verifier::external_body]
pub(crate) fn hpke_open(
    backend: &openmls_rust_crypto::OpenMlsRustCrypto,
    suite: u16,
    kem_output: &[u8],
    ciphertext: &[u8],
    private_key: &[u8],
    info: &[u8],
    aad: &[u8],
) -> (res: Option<Vec<u8>>)
    requires
        1 <= suite <= 7,
    ensures
        res is Some <==> hpke_open_output(suite, kem_output@, ciphertext@, private_key@, info@, aad@) is Some,
        res matches Some(v) ==> hpke_open_output(suite, kem_output@, ciphertext@, private_key@, info@, aad@)
            == Some(v@),
{
    let cs = match openmls_traits::types::Ciphersuite::try_from(suite) {
        Ok(cs) => cs,
        Err(_) => return None,
    };
    let config = openmls_traits::types::HpkeConfig(cs.hpke_kem_algorithm(), cs.hpke_kdf_algorithm(), cs.hpke_aead_algorithm());
    let input = openmls_traits::types::HpkeCiphertext { kem_output: kem_output.into(), ciphertext: ciphertext.into() };
    backend.crypto().hpke_open(config, &input, private_key, info, aad).ok()
}

/// `OpenMlsRand::random_vec` of the rust-crypto backend: `len` bytes from its
/// random number generator, or nothing when the generator fails. Which bytes
/// come is left open.
#[verifier::external_body]
pub(crate) fn random_vec(backend: &openmls_rust_crypto::OpenMlsRustCrypto, len: usize) -> (res:
    Option<Vec<u8>>)
    ensures
        res matches Some(v) ==> v@.len() == len,
{
    backend.rand().random_vec(len).ok()
}

impl Secret {
    /// A fresh random secret of the ciphersuite's hash length.
    pub fn random(ciphersuite: Ciphersuite, backend: &openmls_rust_crypto::OpenMlsRustCrypto) -> (res:
        Result<Secret, MlsCryptoError>)
        ensures
            res matches Ok(s) ==> s.ciphersuite == ciphersuite && s.value@.len()
                == ciphersuite.spec_hash_length(),
            res matches Err(e) ==> e == MlsCryptoError::InsufficientRandomness,
    {
        match random_vec(backend, ciphersuite.hash_length()) {
            Some(value) => Ok(Secret { ciphersuite, value }),
            None => Err(MlsCryptoError::InsufficientRandomness),
        }
    }
}

} // verus!
