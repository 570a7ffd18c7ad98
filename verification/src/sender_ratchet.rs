//! Sender ratchets: the hash chain of per-generation secrets of one member,
//! from which the key and nonce of each message are derived.

use vstd::prelude::*;

use crate::ciphersuite::{Ciphersuite, HashType};
use crate::crypto::Secret;
use crate::secret_tree::{
    derive_tree_secret, key_label, key_label_bytes, nonce_label, nonce_label_bytes, secret_label,
    secret_label_bytes, tree_secret, tree_secret_ok, SecretTreeError,
};

verus! {

/// How far out of order, backwards and forwards, a receiver accepts
/// generations.
pub struct SenderRatchetConfiguration {
    out_of_order_tolerance: u32,
    maximum_forward_distance: u32,
}

impl SenderRatchetConfiguration {
    /// A configuration with the given tolerance for past generations and the
    /// given maximal distance into the future.
    pub fn new(out_of_order_tolerance: u32, maximum_forward_distance: u32) -> (c: Self)
        ensures
            c.spec_out_of_order_tolerance() == out_of_order_tolerance,
            c.spec_maximum_forward_distance() == maximum_forward_distance,
    {
        SenderRatchetConfiguration { out_of_order_tolerance, maximum_forward_distance }
    }

    pub closed spec fn spec_out_of_order_tolerance(&self) -> u32 {
        self.out_of_order_tolerance
    }

    pub closed spec fn spec_maximum_forward_distance(&self) -> u32 {
        self.maximum_forward_distance
    }

    /// How many generations before the current one can still be decrypted.
    pub fn out_of_order_tolerance(&self) -> (t: u32)
        ensures
            t == self.spec_out_of_order_tolerance(),
    {
        self.out_of_order_tolerance
    }

    /// How many generations beyond the current one can be decrypted.
    pub fn maximum_forward_distance(&self) -> (d: u32)
        ensures
            d == self.spec_maximum_forward_distance(),
    {
        self.maximum_forward_distance
    }
}

impl Default for SenderRatchetConfiguration {
    /// A tolerance of 5 past generations and a forward distance of 1000.
    fn default() -> (c: Self)
        ensures
            c.spec_out_of_order_tolerance() == 5,
            c.spec_maximum_forward_distance() == 1000,
    {
        SenderRatchetConfiguration { out_of_order_tolerance: 5, maximum_forward_distance: 1000 }
    }
}

/// The AEAD key and nonce of one generation.
pub struct RatchetSecrets {
    pub key: Vec<u8>,
    pub nonce: Vec<u8>,
}

/// The chain secret of generation `g` of a ratchet that starts with `base`:
/// each generation's secret is `DeriveTreeSecret(previous, "secret", node,
/// previous generation, hash length)`.
pub open spec fn chain_secret(base: Seq<u8>, cs: Ciphersuite, node: nat, g: nat) -> Seq<u8>
    decreases g,
{
    if g == 0 {
        base
    } else {
        tree_secret(
            chain_secret(base, cs, node, (g - 1) as nat),
            cs.spec_hash_algorithm(),
            secret_label(),
            node,
            (g - 1) as nat,
            cs.spec_hash_length() as nat,
        )
    }
}

/// The AEAD key of generation `g`.
pub open spec fn ratchet_key(base: Seq<u8>, cs: Ciphersuite, node: nat, g: nat) -> Seq<u8> {
    tree_secret(
        chain_secret(base, cs, node, g),
        cs.spec_hash_algorithm(),
        key_label(),
        node,
        g,
        cs.spec_aead_key_length() as nat,
    )
}

/// The AEAD nonce of generation `g`.
pub open spec fn ratchet_nonce(base: Seq<u8>, cs: Ciphersuite, node: nat, g: nat) -> Seq<u8> {
    tree_secret(
        chain_secret(base, cs, node, g),
        cs.spec_hash_algorithm(),
        nonce_label(),
        node,
        g,
        cs.spec_aead_nonce_length() as nat,
    )
}

/// Length of the chain secret of generation `g`.
pub open spec fn chain_len(base: Seq<u8>, cs: Ciphersuite, g: nat) -> nat {
    if g == 0 {
        base.len()
    } else {
        cs.spec_hash_length() as nat
    }
}

/// Whether a secret is at least a hash output of its own ciphersuite long, as
/// every derivation from it needs.
pub open spec fn secret_usable(s: Secret) -> bool {
    s.value@.len() >= s.ciphersuite.spec_hash_length()
}

/// The ratchet of one member for one content type.
pub struct SenderRatchet {
    index: u32,
    generation: u32,
    past_secrets: Vec<Secret>,
    base: Ghost<Seq<u8>>,
    suite: Ghost<Ciphersuite>,
}

impl SenderRatchet {
    /// The member (leaf) index.
    pub closed spec fn spec_index(&self) -> u32 {
        self.index
    }

    /// The next generation to be used.
    pub closed spec fn spec_generation(&self) -> u32 {
        self.generation
    }

    /// The secret the ratchet started from.
    pub closed spec fn spec_base(&self) -> Seq<u8> {
        self.base@
    }

    /// The ciphersuite of the secret the ratchet started from.
    pub closed spec fn spec_suite(&self) -> Ciphersuite {
        self.suite@
    }

    /// Node index of the member's leaf, used in every derivation.
    pub open spec fn spec_node(&self) -> nat {
        (2 * self.spec_index()) as nat
    }

    /// Number of chain secrets kept: the current one and those of past
    /// generations still decryptable.
    pub closed spec fn spec_window(&self) -> nat {
        self.past_secrets@.len()
    }

    /// Structural well-formedness.
    pub closed spec fn wf(&self) -> bool {
        &&& self.past_secrets@.len() >= 1
        &&& self.past_secrets@.len() - 1 <= self.generation
        &&& self.index <= 0x7fff_ffff
    }

    /// The kept chain secrets are those of the generations just before and at
    /// the current one, under the ratchet's starting secret.
    pub closed spec fn consistent(&self) -> bool {
        forall|j: int|
            0 <= j < self.past_secrets@.len() ==> {
                let g = (self.generation - (self.past_secrets@.len() - 1) + j) as nat;
                let s = #[trigger] self.past_secrets@[j];
                &&& s.ciphersuite == self.suite@
                &&& s.value@ == chain_secret(self.base@, self.suite@, self.spec_node(), g)
                &&& s.value@.len() == chain_len(self.base@, self.suite@, g)
            }
    }

    /// Whether every derivation of this ratchet succeeds: the starting secret
    /// is at least a hash output long.
    pub open spec fn derivable(&self) -> bool {
        self.spec_base().len() >= self.spec_suite().spec_hash_length()
    }

    /// The chain secret of the current generation.
    closed spec fn current_secret(&self) -> Secret {
        self.past_secrets@[self.past_secrets@.len() - 1]
    }

    /// Whether the derivations that decrypting `generation` makes succeed:
    /// the chain secret it starts from is at least a hash output long, and,
    /// when the ratchet has to move forward, so are the secrets of length
    /// `ciphersuite`'s hash output it derives on the way.
    pub closed spec fn decryption_derivable(&self, ciphersuite: Ciphersuite, generation: u32) -> bool {
        if generation >= self.generation {
            &&& secret_usable(self.current_secret())
            &&& generation > self.generation ==> ciphersuite.spec_hash_length()
                >= self.current_secret().ciphersuite.spec_hash_length()
        } else {
            secret_usable(
                self.past_secrets@[self.past_secrets@.len() - 1 - (self.generation - generation)],
            )
        }
    }

    /// A ratchet for member `index` starting at generation 0 with `secret`.
    pub fn new(index: u32, secret: &Secret) -> (r: Self)
        requires
            index <= 0x7fff_ffff,
        ensures
            r.wf(),
            r.consistent(),
            r.spec_index() == index,
            r.spec_generation() == 0,
            r.spec_base() == secret.value@,
            r.spec_suite() == secret.ciphersuite,
            r.spec_window() == 1,
            forall|cs: Ciphersuite, g: u32|
                #[trigger] r.decryption_derivable(cs, g) <==> (secret_usable(*secret) && (g > 0
                    ==> cs.spec_hash_length() >= secret.ciphersuite.spec_hash_length())),
    {
        let mut past_secrets: Vec<Secret> = Vec::new();
        past_secrets.push(secret.duplicate());
        let r = SenderRatchet {
            index,
            generation: 0,
            past_secrets,
            base: Ghost(secret.value@),
            suite: Ghost(secret.ciphersuite),
        };
        assert(chain_secret(secret.value@, secret.ciphersuite, (2 * index) as nat, 0) == secret.value@);
        r
    }

    /// The next generation to be used.
    pub fn generation(&self) -> (g: u32)
        ensures
            g == self.spec_generation(),
    {
        self.generation
    }

    proof fn lemma_chain_step(base: Seq<u8>, cs: Ciphersuite, node: nat, g: nat)
        ensures
            chain_secret(base, cs, node, g + 1) == tree_secret(
                chain_secret(base, cs, node, g),
                cs.spec_hash_algorithm(),
                secret_label(),
                node,
                g,
                cs.spec_hash_length() as nat,
            ),
    {
        assert((g + 1 - 1) as nat == g);
    }

    /// The chain secret that follows `secret` at generation `generation`.
    fn ratchet_secret(
        &self,
        ciphersuite: &Ciphersuite,
        backend: &openmls_rust_crypto::OpenMlsRustCrypto,
        secret: &Secret,
        generation: u32,
    ) -> (res: Result<Secret, SecretTreeError>)
        requires
            self.wf(),
        ensures
            res is Ok <==> tree_secret_ok(
                secret.value@,
                secret.ciphersuite.spec_hash_algorithm(),
                secret_label(),
                self.spec_node(),
                generation as nat,
                ciphersuite.spec_hash_length() as nat,
            ),
            res matches Ok(s) ==> (s.ciphersuite == secret.ciphersuite && s.value@.len()
                == ciphersuite.spec_hash_length() && s.value@ == tree_secret(
                secret.value@,
                secret.ciphersuite.spec_hash_algorithm(),
                secret_label(),
                self.spec_node(),
                generation as nat,
                ciphersuite.spec_hash_length() as nat,
            )),
            res matches Err(e) ==> e is CryptoError,
    {
        let label = secret_label_bytes();
        derive_tree_secret(
            secret,
            label.as_slice(),
            2 * self.index,
            generation,
            ciphersuite.hash_length(),
            backend,
        )
    }

    /// The key and nonce derived from the chain secret `secret` of generation
    /// `generation`.
    fn derive_key_nonce(
        &self,
        ciphersuite: &Ciphersuite,
        backend: &openmls_rust_crypto::OpenMlsRustCrypto,
        secret: &Secret,
        generation: u32,
    ) -> (res: Result<RatchetSecrets, SecretTreeError>)
        requires
            self.wf(),
        ensures
            res is Ok <==> (tree_secret_ok(
                secret.value@,
                secret.ciphersuite.spec_hash_algorithm(),
                nonce_label(),
                self.spec_node(),
                generation as nat,
                ciphersuite.spec_aead_nonce_length() as nat,
            ) && tree_secret_ok(
                secret.value@,
                secret.ciphersuite.spec_hash_algorithm(),
                key_label(),
                self.spec_node(),
                generation as nat,
                ciphersuite.spec_aead_key_length() as nat,
            )),
            res matches Ok(rs) ==> rs.key@ == tree_secret(
                secret.value@,
                secret.ciphersuite.spec_hash_algorithm(),
                key_label(),
                self.spec_node(),
                generation as nat,
                ciphersuite.spec_aead_key_length() as nat,
            ),
            res matches Ok(rs) ==> rs.nonce@ == tree_secret(
                secret.value@,
                secret.ciphersuite.spec_hash_algorithm(),
                nonce_label(),
                self.spec_node(),
                generation as nat,
                ciphersuite.spec_aead_nonce_length() as nat,
            ),
            res matches Ok(rs) ==> rs.key@.len() == ciphersuite.spec_aead_key_length()
                && rs.nonce@.len() == ciphersuite.spec_aead_nonce_length(),
            res matches Err(e) ==> e is CryptoError,
    {
        let node = 2 * self.index;
        let nonce_label = nonce_label_bytes();
        let key_label = key_label_bytes();
        let nonce = match derive_tree_secret(
            secret,
            nonce_label.as_slice(),
            node,
            generation,
            ciphersuite.aead_nonce_length(),
            backend,
        ) {
            Ok(n) => n,
            Err(e) => return Err(e),
        };
        let key = match derive_tree_secret(
            secret,
            key_label.as_slice(),
            node,
            generation,
            ciphersuite.aead_key_length(),
            backend,
        ) {
            Ok(k) => k,
            Err(e) => return Err(e),
        };
        Ok(RatchetSecrets { key: key.value, nonce: nonce.value })
    }
}


/// With a secret at least a hash output long, a short label and a length of at
/// most a hash output, `DeriveTreeSecret` succeeds.
pub proof fn lemma_tree_secret_ok(
    secret: Seq<u8>,
    cs: Ciphersuite,
    label: Seq<u8>,
    node: nat,
    generation: nat,
    length: nat,
)
    requires
        secret.len() >= cs.spec_hash_length(),
        label.len() <= 11,
        length <= 64,
        node <= 0xffff_ffff,
        generation <= 0xffff_ffff,
    ensures
        tree_secret_ok(secret, cs.spec_hash_algorithm(), label, node, generation, length),
{
}

impl SenderRatchet {
    /// The kept chain secret of generation `g`, when it is kept.
    proof fn lemma_kept(&self, j: int)
        requires
            self.wf(),
            self.consistent(),
            0 <= j < self.past_secrets@.len(),
        ensures
            self.past_secrets@[j].ciphersuite == self.suite@,
            self.past_secrets@[j].value@ == chain_secret(
                self.base@,
                self.suite@,
                self.spec_node(),
                (self.generation - (self.past_secrets@.len() - 1) + j) as nat,
            ),
            self.past_secrets@[j].value@.len() == chain_len(
                self.base@,
                self.suite@,
                (self.generation - (self.past_secrets@.len() - 1) + j) as nat,
            ),
    {
        let s = self.past_secrets@[j];
    }

    /// Returns the key and nonce of the current generation, which it then
    /// leaves behind: the ratchet moves one generation on and keeps only the new
    /// current chain secret, so that the used secrets cannot be derived again.
    pub fn secret_for_encryption(
        &mut self,
        ciphersuite: &Ciphersuite,
        backend: &openmls_rust_crypto::OpenMlsRustCrypto,
    ) -> (res: Result<(u32, RatchetSecrets), SecretTreeError>)
        requires
            old(self).wf(),
            old(self).spec_generation() < u32::MAX,
        ensures
            final(self).wf(),
            final(self).spec_index() == old(self).spec_index(),
            final(self).spec_base() == old(self).spec_base(),
            final(self).spec_suite() == old(self).spec_suite(),
            res matches Ok(r) ==> r.1.key@.len() == ciphersuite.spec_aead_key_length()
                && r.1.nonce@.len() == ciphersuite.spec_aead_nonce_length(),
            res is Err ==> *final(self) == *old(self),
            res matches Err(e) ==> e is CryptoError,
            res matches Ok(r) ==> (r.0 == old(self).spec_generation() && final(self).spec_generation()
                == old(self).spec_generation() + 1 && final(self).spec_window() == 1),
            old(self).consistent() && *ciphersuite == old(self).spec_suite() ==> final(self).consistent(),
            old(self).consistent() && *ciphersuite == old(self).spec_suite() && old(self).derivable()
                ==> res is Ok,
            old(self).consistent() && *ciphersuite == old(self).spec_suite() ==> (res matches Ok(r)
                ==> (r.1.key@ == ratchet_key(
                old(self).spec_base(),
                old(self).spec_suite(),
                old(self).spec_node(),
                r.0 as nat,
            ) && r.1.nonce@ == ratchet_nonce(
                old(self).spec_base(),
                old(self).spec_suite(),
                old(self).spec_node(),
                r.0 as nat,
            ))),
    {
        let last = self.past_secrets.len() - 1;
        let generation = self.generation;
        proof {
            if secret_usable(self.past_secrets@[last as int]) {
                lemma_tree_secret_ok(
                    self.past_secrets@[last as int].value@,
                    self.past_secrets@[last as int].ciphersuite,
                    secret_label(),
                    self.spec_node(),
                    generation as nat,
                    ciphersuite.spec_hash_length() as nat,
                );
            }
            if self.consistent() {
                self.lemma_kept(last as int);
                if *ciphersuite == self.suite@ && self.derivable() {
                    lemma_tree_secret_ok(
                        self.past_secrets@[last as int].value@,
                        self.suite@,
                        secret_label(),
                        self.spec_node(),
                        generation as nat,
                        ciphersuite.spec_hash_length() as nat,
                    );
                    lemma_tree_secret_ok(
                        self.past_secrets@[last as int].value@,
                        self.suite@,
                        key_label(),
                        self.spec_node(),
                        generation as nat,
                        ciphersuite.spec_aead_key_length() as nat,
                    );
                    lemma_tree_secret_ok(
                        self.past_secrets@[last as int].value@,
                        self.suite@,
                        nonce_label(),
                        self.spec_node(),
                        generation as nat,
                        ciphersuite.spec_aead_nonce_length() as nat,
                    );
                }
            }
        }
        let next_secret = match self.ratchet_secret(
            ciphersuite,
            backend,
            &self.past_secrets[last],
            generation,
        ) {
            Ok(s) => s,
            Err(e) => return Err(e),
        };
        let ratchet_secrets = match self.derive_key_nonce(
            ciphersuite,
            backend,
            &self.past_secrets[last],
            generation,
        ) {
            Ok(rs) => rs,
            Err(e) => return Err(e),
        };
        let ghost old_self = *self;
        let mut past_secrets: Vec<Secret> = Vec::new();
        past_secrets.push(next_secret);
        self.past_secrets = past_secrets;
        self.generation = generation + 1;
        proof {
            if old_self.consistent() && *ciphersuite == self.suite@ {
                Self::lemma_chain_step(self.base@, self.suite@, self.spec_node(), generation as nat);
                assert(self.consistent()) by {
                    assert(self.past_secrets@[0] == next_secret);
                }
            }
        }
        Ok((generation, ratchet_secrets))
    }
}


impl SenderRatchet {
    /// Whether a receiver at this state accepts `generation`: it is not beyond
    /// the maximal forward distance (nor the last representable generation),
    /// and, if it is in the past, within the tolerance and its chain secret
    /// is still kept.
    pub open spec fn accepts(&self, generation: u32, configuration: SenderRatchetConfiguration) -> bool {
        &&& generation < u32::MAX
        &&& generation <= self.spec_generation() + configuration.spec_maximum_forward_distance()
        &&& generation < self.spec_generation() ==> {
            &&& self.spec_generation() - generation <= configuration.spec_out_of_order_tolerance()
            &&& self.spec_generation() - generation <= self.spec_window() - 1
        }
    }

    /// Pushes the chain secret that follows the current one.
    fn step(
        &mut self,
        ciphersuite: &Ciphersuite,
        backend: &openmls_rust_crypto::OpenMlsRustCrypto,
    ) -> (res: Result<(), SecretTreeError>)
        requires
            old(self).wf(),
            old(self).spec_generation() < u32::MAX,
        ensures
            final(self).wf(),
            final(self).spec_index() == old(self).spec_index(),
            final(self).spec_base() == old(self).spec_base(),
            final(self).spec_suite() == old(self).spec_suite(),
            res is Err ==> *final(self) == *old(self),
            res matches Err(e) ==> e is CryptoError,
            res is Ok ==> final(self).spec_generation() == old(self).spec_generation() + 1,
            res is Ok ==> final(self).spec_window() == old(self).spec_window() + 1,
            res is Ok <==> secret_usable(old(self).current_secret()),
            res is Ok ==> final(self).current_secret().ciphersuite == old(self).current_secret().ciphersuite
                && final(self).current_secret().value@.len() == ciphersuite.spec_hash_length(),
            old(self).consistent() && *ciphersuite == old(self).spec_suite() ==> final(self).consistent(),
            old(self).consistent() && *ciphersuite == old(self).spec_suite() && old(self).derivable()
                ==> res is Ok,
    {
        let last = self.past_secrets.len() - 1;
        let generation = self.generation;
        proof {
            if self.consistent() {
                self.lemma_kept(last as int);
                if *ciphersuite == self.suite@ && self.derivable() {
                    lemma_tree_secret_ok(
                        self.past_secrets@[last as int].value@,
                        self.suite@,
                        secret_label(),
                        self.spec_node(),
                        generation as nat,
                        ciphersuite.spec_hash_length() as nat,
                    );
                }
            }
        }
        let next_secret = match self.ratchet_secret(
            ciphersuite,
            backend,
            &self.past_secrets[last],
            generation,
        ) {
            Ok(s) => s,
            Err(e) => return Err(e),
        };
        let ghost old_self = *self;
        self.past_secrets.push(next_secret);
        self.generation = generation + 1;
        proof {
            if old_self.consistent() && *ciphersuite == self.suite@ {
                Self::lemma_chain_step(self.base@, self.suite@, self.spec_node(), generation as nat);
                assert forall|j: int| 0 <= j < self.past_secrets@.len() implies {
                    let g = (self.generation - (self.past_secrets@.len() - 1) + j) as nat;
                    let s = #[trigger] self.past_secrets@[j];
                    &&& s.ciphersuite == self.suite@
                    &&& s.value@ == chain_secret(self.base@, self.suite@, self.spec_node(), g)
                    &&& s.value@.len() == chain_len(self.base@, self.suite@, g)
                } by {
                    if j < old_self.past_secrets@.len() {
                        old_self.lemma_kept(j);
                        assert(self.past_secrets@[j] == old_self.past_secrets@[j]);
                    }
                }
            }
        }
        Ok(())
    }

    /// Drops the oldest kept chain secrets until at most `keep` are left.
    fn prune(&mut self, keep: u32)
        requires
            old(self).wf(),
            keep >= 1,
        ensures
            final(self).wf(),
            final(self).spec_index() == old(self).spec_index(),
            final(self).spec_base() == old(self).spec_base(),
            final(self).spec_suite() == old(self).spec_suite(),
            final(self).spec_generation() == old(self).spec_generation(),
            old(self).spec_window() <= keep ==> final(self).spec_window() == old(self).spec_window(),
            old(self).spec_window() > keep ==> final(self).spec_window() == keep,
            old(self).consistent() ==> final(self).consistent(),
    {
        while self.past_secrets.len() > keep as usize
            invariant
                self.wf(),
                keep >= 1,
                self.spec_index() == old(self).spec_index(),
                self.spec_base() == old(self).spec_base(),
                self.spec_suite() == old(self).spec_suite(),
                self.spec_generation() == old(self).spec_generation(),
                old(self).spec_window() <= keep ==> self.spec_window() == old(self).spec_window(),
                old(self).spec_window() > keep ==> self.spec_window() >= keep,
                old(self).consistent() ==> self.consistent(),
            decreases self.past_secrets@.len(),
        {
            let ghost before = *self;
            self.past_secrets.remove(0);
            proof {
                if before.consistent() {
                    assert forall|j: int| 0 <= j < self.past_secrets@.len() implies {
                        let g = (self.generation - (self.past_secrets@.len() - 1) + j) as nat;
                        let s = #[trigger] self.past_secrets@[j];
                        &&& s.ciphersuite == self.suite@
                        &&& s.value@ == chain_secret(self.base@, self.suite@, self.spec_node(), g)
                        &&& s.value@.len() == chain_len(self.base@, self.suite@, g)
                    } by {
                        before.lemma_kept(j + 1);
                        assert(self.past_secrets@[j] == before.past_secrets@[j + 1]);
                    }
                }
            }
        }
    }

    /// Returns the key and nonce of `generation` for decrypting a message of
    /// that generation. Generations ahead of the ratchet (within the maximal
    /// forward distance) move it forward, keeping the chain secrets of the
    /// skipped generations for out-of-order messages; the ratchet then stands
    /// one past `generation` and keeps at most `tolerance + 1` chain secrets.
    /// Past generations are served from the kept chain secrets while within
    /// the tolerance.
    pub fn secret_for_decryption(
        &mut self,
        ciphersuite: &Ciphersuite,
        backend: &openmls_rust_crypto::OpenMlsRustCrypto,
        generation: u32,
        configuration: &SenderRatchetConfiguration,
    ) -> (res: Result<RatchetSecrets, SecretTreeError>)
        requires
            old(self).wf(),
        ensures
            final(self).wf(),
            final(self).spec_index() == old(self).spec_index(),
            final(self).spec_base() == old(self).spec_base(),
            final(self).spec_suite() == old(self).spec_suite(),
            (generation == u32::MAX || generation > old(self).spec_generation()
                + configuration.spec_maximum_forward_distance()) ==> res == Err::<
                RatchetSecrets,
                SecretTreeError,
            >(SecretTreeError::TooDistantInTheFuture),
            (generation < u32::MAX && generation <= old(self).spec_generation()
                + configuration.spec_maximum_forward_distance() && generation
                < old(self).spec_generation() && (old(self).spec_generation() - generation
                > configuration.spec_out_of_order_tolerance() || old(self).spec_generation()
                - generation > old(self).spec_window() - 1)) ==> res == Err::<
                RatchetSecrets,
                SecretTreeError,
            >(SecretTreeError::TooDistantInThePast),
            res matches Err(e) ==> (e is CryptoError || !old(self).accepts(generation, *configuration)),
            !old(self).accepts(generation, *configuration) ==> *final(self) == *old(self),
            generation < old(self).spec_generation() ==> *final(self) == *old(self),
            res matches Ok(rs) ==> rs.key@.len() == ciphersuite.spec_aead_key_length()
                && rs.nonce@.len() == ciphersuite.spec_aead_nonce_length(),
            res is Ok ==> old(self).accepts(generation, *configuration),
            old(self).accepts(generation, *configuration) ==> (res is Ok <==> old(
                self,
            ).decryption_derivable(*ciphersuite, generation)),
            res is Ok && generation >= old(self).spec_generation() ==> final(self).spec_generation()
                == generation + 1,
            res is Ok && generation >= old(self).spec_generation() ==> final(self).spec_window()
                <= configuration.spec_out_of_order_tolerance() + 1,
            old(self).consistent() && *ciphersuite == old(self).spec_suite() ==> final(self).consistent(),
            old(self).consistent() && *ciphersuite == old(self).spec_suite() && old(self).derivable()
                && old(self).accepts(generation, *configuration) ==> res is Ok,
            old(self).consistent() && *ciphersuite == old(self).spec_suite() ==> (res matches Ok(rs)
                ==> (rs.key@ == ratchet_key(
                old(self).spec_base(),
                old(self).spec_suite(),
                old(self).spec_node(),
                generation as nat,
            ) && rs.nonce@ == ratchet_nonce(
                old(self).spec_base(),
                old(self).spec_suite(),
                old(self).spec_node(),
                generation as nat,
            ))),
    {
        let current = self.generation;
        if generation == u32::MAX || generation as u64 > current as u64
            + configuration.maximum_forward_distance() as u64 {
            return Err(SecretTreeError::TooDistantInTheFuture);
        }
        if generation < current && current - generation > configuration.out_of_order_tolerance() {
            return Err(SecretTreeError::TooDistantInThePast);
        }
        let ghost old_self = *self;
        let ghost matching = old_self.consistent() && *ciphersuite == old_self.suite@;
        if generation >= current {
            while self.generation < generation
                invariant
                    self.wf(),
                    self.spec_index() == old_self.spec_index(),
                    self.spec_base() == old_self.spec_base(),
                    self.spec_suite() == old_self.spec_suite(),
                    old_self.spec_generation() <= self.generation <= generation < u32::MAX,
                    matching == (old_self.consistent() && *ciphersuite == old_self.suite@),
                    matching ==> self.consistent(),
                    old_self == *old(self),
                    current == old_self.spec_generation(),
                    current <= generation,
                    generation <= current + configuration.spec_maximum_forward_distance(),
                    self.generation == current ==> self.current_secret() == old_self.current_secret(),
                    self.generation > current ==> secret_usable(old_self.current_secret())
                        && self.current_secret().ciphersuite == old_self.current_secret().ciphersuite
                        && self.current_secret().value@.len() == ciphersuite.spec_hash_length(),
                decreases generation - self.generation,
            {
                match self.step(ciphersuite, backend) {
                    Ok(()) => {},
                    Err(e) => return Err(e),
                }
            }
            let last = self.past_secrets.len() - 1;
            proof {
                if secret_usable(self.past_secrets@[last as int]) {
                    lemma_tree_secret_ok(
                        self.past_secrets@[last as int].value@,
                        self.past_secrets@[last as int].ciphersuite,
                        key_label(),
                        self.spec_node(),
                        generation as nat,
                        ciphersuite.spec_aead_key_length() as nat,
                    );
                    lemma_tree_secret_ok(
                        self.past_secrets@[last as int].value@,
                        self.past_secrets@[last as int].ciphersuite,
                        nonce_label(),
                        self.spec_node(),
                        generation as nat,
                        ciphersuite.spec_aead_nonce_length() as nat,
                    );
                }
                if matching {
                    self.lemma_kept(last as int);
                    if old_self.derivable() {
                        lemma_tree_secret_ok(
                            self.past_secrets@[last as int].value@,
                            self.suite@,
                            key_label(),
                            self.spec_node(),
                            generation as nat,
                            ciphersuite.spec_aead_key_length() as nat,
                        );
                        lemma_tree_secret_ok(
                            self.past_secrets@[last as int].value@,
                            self.suite@,
                            nonce_label(),
                            self.spec_node(),
                            generation as nat,
                            ciphersuite.spec_aead_nonce_length() as nat,
                        );
                    }
                }
            }
            let ratchet_secrets = match self.derive_key_nonce(
                ciphersuite,
                backend,
                &self.past_secrets[last],
                generation,
            ) {
                Ok(rs) => rs,
                Err(e) => return Err(e),
            };
            match self.step(ciphersuite, backend) {
                Ok(()) => {},
                Err(e) => return Err(e),
            }
            let keep = if configuration.out_of_order_tolerance() < u32::MAX {
                configuration.out_of_order_tolerance() + 1
            } else {
                u32::MAX
            };
            self.prune(keep);
            Ok(ratchet_secrets)
        } else {
            let back = current - generation;
            if back as usize > self.past_secrets.len() - 1 {
                return Err(SecretTreeError::TooDistantInThePast);
            }
            let index = self.past_secrets.len() - 1 - back as usize;
            proof {
                if secret_usable(self.past_secrets@[index as int]) {
                    lemma_tree_secret_ok(
                        self.past_secrets@[index as int].value@,
                        self.past_secrets@[index as int].ciphersuite,
                        key_label(),
                        self.spec_node(),
                        generation as nat,
                        ciphersuite.spec_aead_key_length() as nat,
                    );
                    lemma_tree_secret_ok(
                        self.past_secrets@[index as int].value@,
                        self.past_secrets@[index as int].ciphersuite,
                        nonce_label(),
                        self.spec_node(),
                        generation as nat,
                        ciphersuite.spec_aead_nonce_length() as nat,
                    );
                }
                if matching {
                    self.lemma_kept(index as int);
                    if old_self.derivable() {
                        lemma_tree_secret_ok(
                            self.past_secrets@[index as int].value@,
                            self.suite@,
                            key_label(),
                            self.spec_node(),
                            generation as nat,
                            ciphersuite.spec_aead_key_length() as nat,
                        );
                        lemma_tree_secret_ok(
                            self.past_secrets@[index as int].value@,
                            self.suite@,
                            nonce_label(),
                            self.spec_node(),
                            generation as nat,
                            ciphersuite.spec_aead_nonce_length() as nat,
                        );
                    }
                }
            }
            self.derive_key_nonce(ciphersuite, backend, &self.past_secrets[index], generation)
        }
    }
}

} // verus!
