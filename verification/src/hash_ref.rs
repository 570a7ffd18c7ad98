//! # Hash References
//!
//! Some MLS messages refer to other MLS objects by hash. For example, Welcome
//! messages refer to KeyPackages for the members being welcomed, and Commits
//! refer to Proposals they cover. These identifiers are computed as follows:
//!
//! ```text
//! opaque HashReference[16];
//!
//! MakeHashRef(value) = KDF.expand(KDF.extract("", value), "MLS 1.0 ref", 16)
//!
//! HashReference KeyPackageRef;
//! HashReference ProposalRef;
//! ```

use vstd::prelude::*;

use crate::ciphersuite::Ciphersuite;
use crate::codec::CodecError;
use crate::crypto::{hkdf_expand, hkdf_expand_output, hkdf_extract, hkdf_extract_output, MlsCryptoError};

verus! {

/// The label `"MLS 1.0 ref"`.
pub open spec fn hash_ref_label() -> Seq<u8> {
    seq![77u8, 76u8, 83u8, 32u8, 49u8, 46u8, 48u8, 32u8, 114u8, 101u8, 102u8]
}

/// `MakeHashRef(value)` under a ciphersuite's hash.
pub open spec fn make_hash_ref(value: Seq<u8>, ciphersuite: Ciphersuite) -> Seq<u8> {
    hkdf_expand_output(
        ciphersuite.spec_hash_algorithm(),
        hkdf_extract_output(ciphersuite.spec_hash_algorithm(), Seq::empty(), value),
        hash_ref_label(),
        16,
    )
}

/// A reference to an MLS object computed as an HKDF of the value.
#[derive(Clone, Copy, Debug, Eq)]
pub struct HashReference {
    value: [u8; 16],
}

impl HashReference {
    pub closed spec fn spec_value(&self) -> Seq<u8> {
        self.value@
    }

    /// Computes the hash reference of `value`.
    pub fn new(
        value: &[u8],
        ciphersuite: &Ciphersuite,
        backend: &openmls_rust_crypto::OpenMlsRustCrypto,
    ) -> (res: Result<Self, MlsCryptoError>)
        ensures
            res is Ok,
            res matches Ok(r) ==> r.spec_value() == make_hash_ref(value@, *ciphersuite),
            res matches Ok(r) ==> r.spec_value() == hkdf_expand_output(
                ciphersuite.spec_hash_algorithm(),
                hkdf_extract_output(ciphersuite.spec_hash_algorithm(), Seq::<u8>::empty(), value@),
                seq![77u8, 76u8, 83u8, 32u8, 49u8, 46u8, 48u8, 32u8, 114u8, 101u8, 102u8],
                16,
            ),
    {
        let hash = ciphersuite.hash_algorithm();
        let salt: Vec<u8> = Vec::new();
        let prk = match hkdf_extract(backend, hash, salt.as_slice(), value) {
            Ok(prk) => prk,
            Err(_) => return Err(MlsCryptoError::CryptoLibraryError),
        };
        let label: Vec<u8> = vec![77u8, 76u8, 83u8, 32u8, 49u8, 46u8, 48u8, 32u8, 114u8, 101u8, 102u8];
        proof {
            assert(salt@ =~= Seq::<u8>::empty());
            assert(label@ =~= hash_ref_label());
        }
        let okm = match hkdf_expand(backend, hash, prk.as_slice(), label.as_slice(), 16) {
            Ok(okm) => okm,
            Err(_) => return Err(MlsCryptoError::HkdfOutputLengthInvalid),
        };
        if okm.len() != 16 {
            return Err(MlsCryptoError::InvalidLength);
        }
        let mut array = [0u8; 16];
        let mut i: usize = 0;
        while i < 16
            invariant
                okm@.len() == 16,
                i <= 16,
                forall|j: int| 0 <= j < i ==> array@[j] == okm@[j],
            decreases 16 - i,
        {
            array[i] = okm[i];
            i = i + 1;
        }
        assert(array@ =~= okm@);
        Ok(HashReference { value: array })
    }

    /// Encodes the hash reference: its 16 bytes, without a length.
    pub fn tls_serialize_detached(&self) -> (bytes: Vec<u8>)
        ensures
            bytes@ == self.spec_value(),
    {
        let mut bytes: Vec<u8> = Vec::new();
        let mut i: usize = 0;
        while i < 16
            invariant
                i <= 16,
                self.value@.len() == 16,
                bytes@ == self.value@.take(i as int),
            decreases 16 - i,
        {
            bytes.push(self.value[i]);
            assert(bytes@ =~= self.value@.take(i + 1));
            i = i + 1;
        }
        assert(self.value@.take(16) =~= self.value@);
        bytes
    }

    /// Reads a hash reference from the first 16 bytes of `bytes`; fails with
    /// `EndOfStream` when there are fewer.
    pub fn tls_deserialize(bytes: &[u8]) -> (res: Result<Self, CodecError>)
        ensures
            bytes@.len() >= 16 ==> (res matches Ok(r) && r.spec_value() == bytes@.take(16)),
            bytes@.len() < 16 ==> res == Err::<Self, CodecError>(CodecError::EndOfStream),
    {
        if bytes.len() < 16 {
            return Err(CodecError::EndOfStream);
        }
        let mut array = [0u8; 16];
        let mut i: usize = 0;
        while i < 16
            invariant
                bytes@.len() >= 16,
                i <= 16,
                forall|j: int| 0 <= j < i ==> array@[j] == bytes@[j],
            decreases 16 - i,
        {
            array[i] = bytes[i];
            i = i + 1;
        }
        assert(array@ =~= bytes@.take(16));
        Ok(HashReference { value: array })
    }

    /// The value of the hash reference.
    pub fn value(&self) -> (v: &[u8; 16])
        ensures
            v@ == self.spec_value(),
    {
        &self.value
    }
}

impl PartialEq for HashReference {
    fn eq(&self, other: &Self) -> (r: bool) {
        let mut i: usize = 0;
        while i < 16
            invariant
                i <= 16,
                self.value@.len() == 16,
                other.value@.len() == 16,
                forall|j: int| 0 <= j < i ==> self.value@[j] == other.value@[j],
            decreases 16 - i,
        {
            if self.value[i] != other.value[i] {
                return false;
            }
            i = i + 1;
        }
        assert(self.value@ =~= other.value@);
        true
    }
}

impl vstd::std_specs::cmp::PartialEqSpecImpl for HashReference {
    open spec fn obeys_eq_spec() -> bool {
        true
    }

    open spec fn eq_spec(&self, other: &Self) -> bool {
        self.spec_value() == other.spec_value()
    }
}

/// A hash reference is `KDF.expand(KDF.extract("", value), "MLS 1.0 ref", 16)`:
/// the value is the input key material of the extraction, whose salt is
/// empty, and the ASCII label "MLS 1.0 ref" is the info of the expansion.
/// Two values whose extractions differ therefore have references that are
/// expansions of different keys.
pub proof fn law_hash_ref_is_expand_of_extract(value: Seq<u8>, ciphersuite: Ciphersuite)
    ensures
        make_hash_ref(value, ciphersuite) == hkdf_expand_output(
            ciphersuite.spec_hash_algorithm(),
            hkdf_extract_output(ciphersuite.spec_hash_algorithm(), Seq::<u8>::empty(), value),
            seq![77u8, 76u8, 83u8, 32u8, 49u8, 46u8, 48u8, 32u8, 114u8, 101u8, 102u8],
            16,
        ),
{
    assert(hash_ref_label() =~= seq![77u8, 76u8, 83u8, 32u8, 49u8, 46u8, 48u8, 32u8, 114u8, 101u8, 102u8]);
}

/// A hash reference reads back as itself: its encoding, whatever follows it,
/// starts with its 16 bytes.
pub proof fn lemma_hash_ref_roundtrip(r: HashReference, rest: Seq<u8>)
    ensures
        r.spec_value().len() == 16,
        (r.spec_value() + rest).take(16) == r.spec_value(),
{
    assert((r.spec_value() + rest).take(16) =~= r.spec_value());
}

} // verus!
