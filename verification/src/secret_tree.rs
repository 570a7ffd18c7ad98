//! The secret tree: per-member encryption secrets derived down a binary tree
//! from the epoch's encryption secret, and the sender ratchets they seed.

use vstd::prelude::*;

use crate::ciphersuite::{Ciphersuite, HashType};
use crate::crypto::{
    expand_with_label_error,
    expand_with_label, expand_with_label_ok, kdf_expand_label, push_u32, u32_bytes,
    MlsCryptoError, Secret,
};
use crate::framing::{ContentType, MlsPlaintext};
use crate::pow2::p2;
use crate::sender_ratchet::{
    lemma_tree_secret_ok, ratchet_key, ratchet_nonce, RatchetSecrets, SenderRatchet,
    SenderRatchetConfiguration,
};
use crate::treemath::{
    derived_secret, idx, leaf_path, leaf_path_down, left, left_of, level, lemma_coords_of_idx,
    lemma_derived_child, lemma_idx_of_coords, lemma_path_from, lemma_root_level, lemma_under_root,
    node_width, node_width_of, pos, right, right_of, root, root_level,
};

verus! {

/// Errors of the secret tree and its sender ratchets.
#[derive(Clone, Copy, Debug, PartialEq, Eq, Structural)]
pub enum SecretTreeError {
    TooDistantInThePast,
    TooDistantInTheFuture,
    IndexOutOfBounds,
    LibraryError,
    CryptoError(MlsCryptoError),
}

/// Which of a member's two ratchets a secret belongs to.
#[derive(Clone, Copy, Debug, PartialEq, Eq, Structural)]
pub enum SecretType {
    HandshakeSecret,
    ApplicationSecret,
}

/// The ratchet a content type is encrypted with: application messages use
/// the application ratchet, proposals and commits the handshake ratchet.
pub open spec fn secret_type_of(content_type: ContentType) -> SecretType {
    match content_type {
        ContentType::Application => SecretType::ApplicationSecret,
        _ => SecretType::HandshakeSecret,
    }
}

impl<'a> From<&'a ContentType> for SecretType {
    fn from(content_type: &'a ContentType) -> (s: SecretType) {
        match content_type {
            ContentType::Application => SecretType::ApplicationSecret,
            ContentType::Commit => SecretType::HandshakeSecret,
            ContentType::Proposal => SecretType::HandshakeSecret,
        }
    }
}

impl<'a> vstd::std_specs::convert::FromSpecImpl<&'a ContentType> for SecretType {
    open spec fn obeys_from_spec() -> bool {
        true
    }

    open spec fn from_spec(content_type: &'a ContentType) -> SecretType {
        secret_type_of(*content_type)
    }
}

impl<'a> From<&'a MlsPlaintext> for SecretType {
    fn from(mls_plaintext: &'a MlsPlaintext) -> (s: SecretType) {
        SecretType::from(&mls_plaintext.content_type())
    }
}

impl<'a> vstd::std_specs::convert::FromSpecImpl<&'a MlsPlaintext> for SecretType {
    open spec fn obeys_from_spec() -> bool {
        true
    }

    open spec fn from_spec(mls_plaintext: &'a MlsPlaintext) -> SecretType {
        secret_type_of(mls_plaintext.content.spec_content_type())
    }
}

/// `struct { uint32 node; uint32 generation; } TreeContext;`
pub struct TreeContext {
    pub node: u32,
    pub generation: u32,
}

/// TLS encoding of a `TreeContext`.
pub open spec fn tree_context_bytes(node: nat, generation: nat) -> Seq<u8> {
    u32_bytes(node) + u32_bytes(generation)
}

impl TreeContext {
    /// Serializes the tree context.
    pub fn tls_serialize_detached(&self) -> (bytes: Vec<u8>)
        ensures
            bytes@ == tree_context_bytes(self.node as nat, self.generation as nat),
    {
        let mut bytes: Vec<u8> = Vec::new();
        push_u32(&mut bytes, self.node);
        push_u32(&mut bytes, self.generation);
        assert(bytes@ =~= tree_context_bytes(self.node as nat, self.generation as nat));
        bytes
    }
}

/// The label `"tree"`.
pub open spec fn tree_label() -> Seq<u8> {
    seq![116u8, 114u8, 101u8, 101u8]
}

/// The label `"handshake"`.
pub open spec fn handshake_label() -> Seq<u8> {
    seq![104u8, 97u8, 110u8, 100u8, 115u8, 104u8, 97u8, 107u8, 101u8]
}

/// The label `"application"`.
pub open spec fn application_label() -> Seq<u8> {
    seq![97u8, 112u8, 112u8, 108u8, 105u8, 99u8, 97u8, 116u8, 105u8, 111u8, 110u8]
}

/// The label `"secret"`.
pub open spec fn secret_label() -> Seq<u8> {
    seq![115u8, 101u8, 99u8, 114u8, 101u8, 116u8]
}

/// The label `"key"`.
pub open spec fn key_label() -> Seq<u8> {
    seq![107u8, 101u8, 121u8]
}

/// The label `"nonce"`.
pub open spec fn nonce_label() -> Seq<u8> {
    seq![110u8, 111u8, 110u8, 99u8, 101u8]
}

/// The bytes of the label `"tree"`.
pub fn tree_label_bytes() -> (v: Vec<u8>)
    ensures
        v@ == tree_label(),
{
    let v: Vec<u8> = vec![116u8, 114u8, 101u8, 101u8];
    assert(v@ =~= tree_label());
    v
}

/// The bytes of the label `"handshake"`.
pub fn handshake_label_bytes() -> (v: Vec<u8>)
    ensures
        v@ == handshake_label(),
{
    let v: Vec<u8> = vec![104u8, 97u8, 110u8, 100u8, 115u8, 104u8, 97u8, 107u8, 101u8];
    assert(v@ =~= handshake_label());
    v
}

/// The bytes of the label `"application"`.
pub fn application_label_bytes() -> (v: Vec<u8>)
    ensures
        v@ == application_label(),
{
    let v: Vec<u8> = vec![97u8, 112u8, 112u8, 108u8, 105u8, 99u8, 97u8, 116u8, 105u8, 111u8, 110u8];
    assert(v@ =~= application_label());
    v
}

/// The bytes of the label `"secret"`.
pub fn secret_label_bytes() -> (v: Vec<u8>)
    ensures
        v@ == secret_label(),
{
    let v: Vec<u8> = vec![115u8, 101u8, 99u8, 114u8, 101u8, 116u8];
    assert(v@ =~= secret_label());
    v
}

/// The bytes of the label `"key"`.
pub fn key_label_bytes() -> (v: Vec<u8>)
    ensures
        v@ == key_label(),
{
    let v: Vec<u8> = vec![107u8, 101u8, 121u8];
    assert(v@ =~= key_label());
    v
}

/// The bytes of the label `"nonce"`.
pub fn nonce_label_bytes() -> (v: Vec<u8>)
    ensures
        v@ == nonce_label(),
{
    let v: Vec<u8> = vec![110u8, 111u8, 110u8, 99u8, 101u8];
    assert(v@ =~= nonce_label());
    v
}

/// `DeriveTreeSecret(secret, label, node, generation, length)`.
pub open spec fn tree_secret(
    secret: Seq<u8>,
    hash: HashType,
    label: Seq<u8>,
    node: nat,
    generation: nat,
    length: nat,
) -> Seq<u8> {
    expand_with_label(secret, hash, label, tree_context_bytes(node, generation), length)
}

/// When `DeriveTreeSecret` succeeds.
pub open spec fn tree_secret_ok(
    secret: Seq<u8>,
    hash: HashType,
    label: Seq<u8>,
    node: nat,
    generation: nat,
    length: nat,
) -> bool {
    expand_with_label_ok(secret, hash, label, tree_context_bytes(node, generation), length)
}

/// Derives the secret of a node of the secret tree, or of a ratchet step:
/// `ExpandWithLabel(secret, label, TreeContext(node, generation), length)`.
pub fn derive_tree_secret(
    secret: &Secret,
    label: &[u8],
    node: u32,
    generation: u32,
    length: usize,
    backend: &openmls_rust_crypto::OpenMlsRustCrypto,
) -> (res: Result<Secret, SecretTreeError>)
    ensures
        res is Ok <==> tree_secret_ok(
            secret.value@,
            secret.ciphersuite.spec_hash_algorithm(),
            label@,
            node as nat,
            generation as nat,
            length as nat,
        ),
        res matches Ok(s) ==> (s.ciphersuite == secret.ciphersuite && s.value@.len() == length
            && s.value@ == tree_secret(
            secret.value@,
            secret.ciphersuite.spec_hash_algorithm(),
            label@,
            node as nat,
            generation as nat,
            length as nat,
        )),
        res matches Err(e) ==> e == SecretTreeError::CryptoError(
            expand_with_label_error(label@, tree_context_bytes(node as nat, generation as nat), length as nat),
        ),
{
    let tree_context = TreeContext { node, generation };
    let serialized_tree_context = tree_context.tls_serialize_detached();
    match kdf_expand_label(
        secret,
        backend,
        label,
        serialized_tree_context.as_slice(),
        length,
    ) {
        Ok(s) => Ok(s),
        Err(e) => Err(SecretTreeError::CryptoError(e)),
    }
}


/// A node of the secret tree.
pub struct SecretTreeNode {
    pub secret: Secret,
}

/// The derivation of a child's secret from its parent's:
/// `DeriveTreeSecret(parent, "tree", child, 0, hash length)`.
pub open spec fn tree_derivation(cs: Ciphersuite) -> spec_fn(Seq<u8>, nat) -> Seq<u8> {
    |parent: Seq<u8>, child: nat|
        tree_secret(
            parent,
            cs.spec_hash_algorithm(),
            tree_label(),
            child,
            0,
            cs.spec_hash_length() as nat,
        )
}

/// The secret of node `x` of a tree of `size` leaves whose root holds
/// `encryption_secret`.
pub open spec fn node_secret_spec(
    encryption_secret: Seq<u8>,
    cs: Ciphersuite,
    size: nat,
    x: nat,
) -> Seq<u8> {
    derived_secret(tree_derivation(cs), node_width(size), encryption_secret, x)
}

/// The secret a ratchet of member `index` starts from.
pub open spec fn ratchet_base_spec(
    encryption_secret: Seq<u8>,
    cs: Ciphersuite,
    size: nat,
    index: nat,
    secret_type: SecretType,
) -> Seq<u8> {
    tree_secret(
        node_secret_spec(encryption_secret, cs, size, 2 * index),
        cs.spec_hash_algorithm(),
        match secret_type {
            SecretType::HandshakeSecret => handshake_label(),
            SecretType::ApplicationSecret => application_label(),
        },
        2 * index,
        0,
        cs.spec_hash_length() as nat,
    )
}

/// A member's ratchets start from its leaf's secret expanded with the ASCII
/// label "handshake" for handshake messages and "application" for
/// application messages, with the leaf's node index and generation 0 as
/// context and a hash output as length: the two ratchets of a leaf are
/// derived under different labels, each under its own.
pub proof fn law_ratchet_bases_use_their_labels(
    encryption_secret: Seq<u8>,
    cs: Ciphersuite,
    size: nat,
    index: nat,
)
    ensures
        ratchet_base_spec(encryption_secret, cs, size, index, SecretType::HandshakeSecret)
            == expand_with_label(
            node_secret_spec(encryption_secret, cs, size, 2 * index),
            cs.spec_hash_algorithm(),
            seq![104u8, 97u8, 110u8, 100u8, 115u8, 104u8, 97u8, 107u8, 101u8],
            u32_bytes(2 * index) + u32_bytes(0),
            cs.spec_hash_length() as nat,
        ),
        ratchet_base_spec(encryption_secret, cs, size, index, SecretType::ApplicationSecret)
            == expand_with_label(
            node_secret_spec(encryption_secret, cs, size, 2 * index),
            cs.spec_hash_algorithm(),
            seq![97u8, 112u8, 112u8, 108u8, 105u8, 99u8, 97u8, 116u8, 105u8, 111u8, 110u8],
            u32_bytes(2 * index) + u32_bytes(0),
            cs.spec_hash_length() as nat,
        ),
{
    assert(handshake_label() =~= seq![104u8, 97u8, 110u8, 100u8, 115u8, 104u8, 97u8, 107u8, 101u8]);
    assert(application_label() =~= seq![97u8, 112u8, 112u8, 108u8, 105u8, 99u8, 97u8, 116u8, 105u8, 111u8, 110u8]);
}

/// The secrets of the secret tree are expanded with the ASCII labels of the
/// protocol: "tree" for a child node, "secret" for the next chain secret of
/// a ratchet, "key" and "nonce" for a message's key and nonce.
pub proof fn law_secret_tree_labels()
    ensures
        tree_label() == seq![116u8, 114u8, 101u8, 101u8],
        secret_label() == seq![115u8, 101u8, 99u8, 114u8, 101u8, 116u8],
        key_label() == seq![107u8, 101u8, 121u8],
        nonce_label() == seq![110u8, 111u8, 110u8, 99u8, 101u8],
{
    assert(tree_label() =~= seq![116u8, 114u8, 101u8, 101u8]);
    assert(secret_label() =~= seq![115u8, 101u8, 99u8, 114u8, 101u8, 116u8]);
    assert(key_label() =~= seq![107u8, 101u8, 121u8]);
    assert(nonce_label() =~= seq![110u8, 111u8, 110u8, 99u8, 101u8]);
}

/// The AEAD key and nonce of generation `generation` of member `index`'s
/// ratchet of type `secret_type`.
pub open spec fn message_key_spec(
    encryption_secret: Seq<u8>,
    cs: Ciphersuite,
    size: nat,
    index: nat,
    secret_type: SecretType,
    generation: nat,
) -> (Seq<u8>, Seq<u8>) {
    let base = ratchet_base_spec(encryption_secret, cs, size, index, secret_type);
    (ratchet_key(base, cs, 2 * index, generation), ratchet_nonce(base, cs, 2 * index, generation))
}

/// The secret tree of an epoch: node secrets derived on demand from the
/// epoch's encryption secret, and the two sender ratchets of each member.
pub struct SecretTree {
    nodes: Vec<Option<SecretTreeNode>>,
    handshake_sender_ratchets: Vec<Option<SenderRatchet>>,
    application_sender_ratchets: Vec<Option<SenderRatchet>>,
    size: u32,
    encryption_secret: Ghost<Seq<u8>>,
    suite: Ghost<Ciphersuite>,
}

impl SecretTree {
    /// Number of leaves.
    pub closed spec fn spec_size(&self) -> nat {
        self.size as nat
    }

    /// Number of nodes.
    pub open spec fn spec_width(&self) -> nat {
        node_width(self.spec_size())
    }

    /// The secret the tree was created from.
    pub closed spec fn spec_encryption_secret(&self) -> Seq<u8> {
        self.encryption_secret@
    }

    /// The ciphersuite of the secret the tree was created from.
    pub closed spec fn spec_suite(&self) -> Ciphersuite {
        self.suite@
    }

    /// The secret held by node `x`, if any.
    pub closed spec fn node_secret(&self, x: int) -> Option<Seq<u8>> {
        match self.nodes@[x] {
            Some(n) => Some(n.secret.value@),
            None => None,
        }
    }

    pub closed spec fn ratchets(&self, secret_type: SecretType) -> Seq<Option<SenderRatchet>> {
        match secret_type {
            SecretType::HandshakeSecret => self.handshake_sender_ratchets@,
            SecretType::ApplicationSecret => self.application_sender_ratchets@,
        }
    }

    /// The ratchet of member `index` and type `secret_type`, if initialized.
    pub open spec fn ratchet(&self, index: int, secret_type: SecretType) -> Option<SenderRatchet> {
        self.ratchets(secret_type)[index]
    }

    /// The AEAD key and nonce that generation `generation` of member `index`'s
    /// ratchet yields in this tree.
    pub open spec fn message_key(&self, index: nat, secret_type: SecretType, generation: nat) -> (
        Seq<u8>,
        Seq<u8>,
    ) {
        message_key_spec(
            self.spec_encryption_secret(),
            self.spec_suite(),
            self.spec_size(),
            index,
            secret_type,
            generation,
        )
    }

    /// Structural well-formedness.
    pub closed spec fn wf(&self) -> bool {
        &&& 1 <= self.size <= 0x8000_0000
        &&& self.nodes@.len() == node_width(self.size as nat)
        &&& self.handshake_sender_ratchets@.len() == self.size
        &&& self.application_sender_ratchets@.len() == self.size
        &&& forall|x: int|
            0 <= x < self.nodes@.len() && #[trigger] self.nodes@[x] is Some ==> self.nodes@[x]->0.secret.ciphersuite
                == self.suite@
        &&& forall|i: int|
            0 <= i < self.size && #[trigger] self.handshake_sender_ratchets@[i] is Some
                ==> self.handshake_sender_ratchets@[i]->0.wf()
                && self.handshake_sender_ratchets@[i]->0.spec_index() == i
        &&& forall|i: int|
            0 <= i < self.size && #[trigger] self.application_sender_ratchets@[i] is Some
                ==> self.application_sender_ratchets@[i]->0.wf()
                && self.application_sender_ratchets@[i]->0.spec_index() == i
        &&& self.ratchets_paired()
    }

    /// Every member's two ratchets are both initialized or both not.
    closed spec fn ratchets_paired(&self) -> bool {
        forall|i: int|
            0 <= i < self.size ==> (#[trigger] self.handshake_sender_ratchets@[i] is Some
                <==> self.application_sender_ratchets@[i] is Some)
    }

    /// A member's two ratchets are set together: both are initialized, or
    /// neither is.
    pub proof fn lemma_ratchets_set_together(&self, index: int)
        requires
            self.wf(),
            0 <= index < self.spec_size(),
        ensures
            self.ratchet(index, SecretType::HandshakeSecret) is Some <==> self.ratchet(
                index,
                SecretType::ApplicationSecret,
            ) is Some,
    {
    }

    /// Whether a ratchet holds what member `index`'s ratchet of that type holds
    /// in this tree.
    pub open spec fn ratchet_consistent(&self, r: SenderRatchet, index: nat, secret_type: SecretType) -> bool {
        &&& r.consistent()
        &&& r.spec_suite() == self.spec_suite()
        &&& r.spec_base() == ratchet_base_spec(
            self.spec_encryption_secret(),
            self.spec_suite(),
            self.spec_size(),
            index,
            secret_type,
        )
        &&& r.spec_base().len() == self.spec_suite().spec_hash_length()
    }

    /// Every secret the tree holds is the one derived from its encryption
    /// secret, and every ratchet is the one derived for its member.
    pub closed spec fn consistent(&self) -> bool {
        &&& forall|x: int|
            0 <= x < self.nodes@.len() && #[trigger] self.nodes@[x] is Some ==> {
                &&& self.nodes@[x]->0.secret.value@ == node_secret_spec(
                    self.encryption_secret@,
                    self.suite@,
                    self.size as nat,
                    x as nat,
                )
                &&& self.nodes@[x]->0.secret.value@.len() == if x == idx(
                    root_level(node_width(self.size as nat)),
                    0,
                ) {
                    self.encryption_secret@.len()
                } else {
                    self.suite@.spec_hash_length() as nat
                }
            }
        &&& forall|i: int|
            0 <= i < self.size && #[trigger] self.handshake_sender_ratchets@[i] is Some
                ==> self.ratchet_consistent(
                self.handshake_sender_ratchets@[i]->0,
                i as nat,
                SecretType::HandshakeSecret,
            )
        &&& forall|i: int|
            0 <= i < self.size && #[trigger] self.application_sender_ratchets@[i] is Some
                ==> self.ratchet_consistent(
                self.application_sender_ratchets@[i]->0,
                i as nat,
                SecretType::ApplicationSecret,
            )
    }

    /// Whether every derivation in the tree succeeds: the encryption secret is
    /// at least a hash output long.
    pub open spec fn derivable(&self) -> bool {
        self.spec_encryption_secret().len() >= self.spec_suite().spec_hash_length()
    }

    /// Whether every derivation from the secrets the tree holds succeeds for
    /// `ciphersuite`: each held node secret is at least a hash output of the
    /// tree's suite long, and so is a hash output of `ciphersuite` (the length
    /// of the secrets derived from them).
    pub open spec fn derivations_succeed(&self, ciphersuite: Ciphersuite) -> bool {
        &&& ciphersuite.spec_hash_length() >= self.spec_suite().spec_hash_length()
        &&& forall|x: int|
            0 <= x < self.spec_width() && #[trigger] self.node_secret(x) is Some ==> self.node_secret(
                x,
            )->0.len() >= self.spec_suite().spec_hash_length()
    }

    /// In a tree that holds what its secret derives, from a secret at least a
    /// hash output long, every derivation succeeds.
    pub proof fn lemma_consistent_derivations_succeed(&self)
        requires
            self.wf(),
            self.consistent(),
            self.derivable(),
        ensures
            self.derivations_succeed(self.spec_suite()),
    {
    }

    /// Creates a secret tree of `size` leaves from the epoch's encryption
    /// secret. Only the root holds a secret; node secrets and ratchets are
    /// derived when they are first needed.
    pub fn new(encryption_secret: Secret, size: u32) -> (tree: Self)
        requires
            1 <= size <= 0x8000_0000,
        ensures
            tree.wf(),
            tree.consistent(),
            tree.spec_size() == size,
            tree.spec_encryption_secret() == encryption_secret.value@,
            tree.spec_suite() == encryption_secret.ciphersuite,
            forall|x: int|
                0 <= x < tree.spec_width() ==> #[trigger] tree.node_secret(x) == if x == idx(
                    root_level(tree.spec_width()),
                    0,
                ) {
                    Some(encryption_secret.value@)
                } else {
                    None::<Seq<u8>>
                },
            forall|i: int, t: SecretType| 0 <= i < size ==> #[trigger] tree.ratchet(i, t) is None,
    {
        let root = root(size);
        let num_indices = node_width_of(size);
        let ghost w = num_indices as nat;
        let mut nodes: Vec<Option<SecretTreeNode>> = Vec::new();
        let mut n: u32 = 0;
        while n < num_indices
            invariant
                n <= num_indices,
                nodes@.len() == n,
                forall|x: int| 0 <= x < n ==> #[trigger] nodes@[x] is None,
            decreases num_indices - n,
        {
            nodes.push(None);
            n = n + 1;
        }
        let ghost es = encryption_secret.value@;
        let ghost cs = encryption_secret.ciphersuite;
        nodes.set(root as usize, Some(SecretTreeNode { secret: encryption_secret }));
        let mut handshake_sender_ratchets: Vec<Option<SenderRatchet>> = Vec::new();
        let mut application_sender_ratchets: Vec<Option<SenderRatchet>> = Vec::new();
        let mut i: u32 = 0;
        while i < size
            invariant
                i <= size,
                handshake_sender_ratchets@.len() == i,
                application_sender_ratchets@.len() == i,
                forall|x: int| 0 <= x < i ==> #[trigger] handshake_sender_ratchets@[x] is None,
                forall|x: int| 0 <= x < i ==> #[trigger] application_sender_ratchets@[x] is None,
            decreases size - i,
        {
            handshake_sender_ratchets.push(None);
            application_sender_ratchets.push(None);
            i = i + 1;
        }
        let tree = SecretTree {
            nodes,
            handshake_sender_ratchets,
            application_sender_ratchets,
            size,
            encryption_secret: Ghost(es),
            suite: Ghost(cs),
        };
        proof {
            let kr = root_level(w);
            lemma_coords_of_idx(kr, 0);
            assert(node_secret_spec(es, cs, size as nat, root as nat) == es);
            assert forall|i: int, t: SecretType| 0 <= i < size implies #[trigger] tree.ratchet(i, t) is None by {
                match t {
                    SecretType::HandshakeSecret => {},
                    SecretType::ApplicationSecret => {},
                }
            }
        }
        tree
    }
}


impl SecretTree {
    /// The ratchet of member `index` and type `secret_type`, or
    /// `IndexOutOfBounds` when the tree has no such member.
    fn ratchet_opt(&self, index: u32, secret_type: SecretType) -> (res: Result<
        Option<&SenderRatchet>,
        SecretTreeError,
    >)
        requires
            self.wf(),
        ensures
            index >= self.spec_size() ==> res == Err::<Option<&SenderRatchet>, SecretTreeError>(
                SecretTreeError::IndexOutOfBounds,
            ),
            index < self.spec_size() ==> res is Ok,
            res matches Ok(o) ==> (match o {
                Some(r) => self.ratchet(index as int, secret_type) == Some(*r),
                None => self.ratchet(index as int, secret_type) is None,
            }),
    {
        let sender_ratchets = match secret_type {
            SecretType::HandshakeSecret => &self.handshake_sender_ratchets,
            SecretType::ApplicationSecret => &self.application_sender_ratchets,
        };
        if (index as usize) < sender_ratchets.len() {
            Ok(sender_ratchets[index as usize].as_ref())
        } else {
            Err(SecretTreeError::IndexOutOfBounds)
        }
    }

    /// The current generation of member `index`'s ratchet of type
    /// `secret_type`; 0 when it is not initialized yet.
    pub fn generation(&self, index: u32, secret_type: SecretType) -> (g: u32)
        requires
            self.wf(),
            index < self.spec_size(),
        ensures
            g == match self.ratchet(index as int, secret_type) {
                Some(r) => r.spec_generation(),
                None => 0,
            },
    {
        match self.ratchet_opt(index, secret_type) {
            Ok(Some(sender_ratchet)) => sender_ratchet.generation(),
            _ => 0,
        }
    }

    /// Member `index`'s ratchet of type `secret_type`, which must be
    /// initialized.
    fn ratchet_mut(&mut self, index: u32, secret_type: SecretType) -> (r: &mut SenderRatchet)
        requires
            old(self).wf(),
            index < old(self).spec_size(),
            old(self).ratchet(index as int, secret_type) is Some,
        ensures
            *r == old(self).ratchet(index as int, secret_type)->0,
            final(self).nodes == old(self).nodes,
            final(self).size == old(self).size,
            final(self).encryption_secret == old(self).encryption_secret,
            final(self).suite == old(self).suite,
            final(self).ratchets(secret_type) == old(self).ratchets(secret_type).update(
                index as int,
                Some(*final(r)),
            ),
            secret_type is HandshakeSecret ==> final(self).application_sender_ratchets
                == old(self).application_sender_ratchets,
            secret_type is ApplicationSecret ==> final(self).handshake_sender_ratchets
                == old(self).handshake_sender_ratchets,
    {
        match secret_type {
            SecretType::HandshakeSecret => {
                self.handshake_sender_ratchets[index as usize].as_mut().unwrap()
            },
            SecretType::ApplicationSecret => {
                self.application_sender_ratchets[index as usize].as_mut().unwrap()
            },
        }
    }
}


impl SecretTree {
    /// The secret `derive_down` gives a child of a node holding `parent`.
    pub open spec fn child_secret(&self, parent: Seq<u8>, child: nat, ciphersuite: Ciphersuite) -> Seq<u8> {
        tree_secret(
            parent,
            self.spec_suite().spec_hash_algorithm(),
            tree_label(),
            child,
            0,
            ciphersuite.spec_hash_length() as nat,
        )
    }

    /// The index of the left child of node `x`.
    pub open spec fn left_child(x: nat) -> nat {
        idx(left_of(level(x), pos(x)).0, left_of(level(x), pos(x)).1)
    }

    /// The index of the right child of node `x` in this tree.
    pub open spec fn right_child(&self, x: nat) -> nat {
        idx(right_of(self.spec_width(), level(x), pos(x)).0, right_of(self.spec_width(), level(x), pos(x)).1)
    }

    /// The tree is left as it was except for its nodes.
    pub open spec fn same_but_nodes(&self, other: &Self) -> bool {
        &&& self.spec_size() == other.spec_size()
        &&& self.spec_encryption_secret() == other.spec_encryption_secret()
        &&& self.spec_suite() == other.spec_suite()
        &&& forall|i: int, t: SecretType| #[trigger] self.ratchet(i, t) == other.ratchet(i, t)
    }

    proof fn lemma_same_but_nodes(&self, other: &Self)
        requires
            self.size == other.size,
            self.encryption_secret == other.encryption_secret,
            self.suite == other.suite,
            self.handshake_sender_ratchets == other.handshake_sender_ratchets,
            self.application_sender_ratchets == other.application_sender_ratchets,
        ensures
            self.same_but_nodes(other),
    {
        assert forall|i: int, t: SecretType| #[trigger] self.ratchet(i, t) == other.ratchet(i, t) by {
            match t {
                SecretType::HandshakeSecret => {},
                SecretType::ApplicationSecret => {},
            }
        }
    }

    /// Derives the secrets of both children of node `index_in_tree` from its
    /// own secret and deletes the node's secret. Fails with `LibraryError`
    /// when the node holds no secret.
    #[verifier::rlimit(80)]
    #[verifier::spinoff_prover]
    fn derive_down(
        &mut self,
        ciphersuite: &Ciphersuite,
        backend: &openmls_rust_crypto::OpenMlsRustCrypto,
        index_in_tree: u32,
    ) -> (res: Result<(), SecretTreeError>)
        requires
            old(self).wf(),
            (index_in_tree as nat) < old(self).spec_width(),
            level(index_in_tree as nat) >= 1 || old(self).node_secret(index_in_tree as int) is None,
        ensures
            final(self).wf(),
            final(self).same_but_nodes(old(self)),
            final(self).handshake_sender_ratchets == old(self).handshake_sender_ratchets,
            final(self).application_sender_ratchets == old(self).application_sender_ratchets,
            old(self).node_secret(index_in_tree as int) is None ==> res == Err::<(), SecretTreeError>(
                SecretTreeError::LibraryError,
            ),
            res is Err ==> *final(self) == *old(self),
            res matches Err(e) ==> (e is LibraryError || e is CryptoError),
            old(self).node_secret(index_in_tree as int) is Some ==> (res matches Err(e) ==> e is CryptoError),
            res is Ok ==> old(self).node_secret(index_in_tree as int) is Some,
            res is Ok ==> forall|x: int|
                0 <= x < old(self).spec_width() ==> #[trigger] final(self).node_secret(x) == if x
                    == index_in_tree {
                    None::<Seq<u8>>
                } else if x == Self::left_child(index_in_tree as nat) {
                    Some(
                        old(self).child_secret(
                            old(self).node_secret(index_in_tree as int)->0,
                            x as nat,
                            *ciphersuite,
                        ),
                    )
                } else if x == old(self).right_child(index_in_tree as nat) {
                    Some(
                        old(self).child_secret(
                            old(self).node_secret(index_in_tree as int)->0,
                            x as nat,
                            *ciphersuite,
                        ),
                    )
                } else {
                    old(self).node_secret(x)
                },
            old(self).consistent() && *ciphersuite == old(self).spec_suite() ==> final(self).consistent(),
            old(self).consistent() && *ciphersuite == old(self).spec_suite() && old(self).derivable()
                && old(self).node_secret(index_in_tree as int) is Some ==> res is Ok,
            old(self).derivations_succeed(*ciphersuite) && old(self).node_secret(index_in_tree as int)
                is Some ==> res is Ok,
            old(self).derivations_succeed(*ciphersuite) ==> final(self).derivations_succeed(*ciphersuite),
            old(self).node_secret(index_in_tree as int) is Some ==> (res is Ok <==> old(self).node_secret(
                index_in_tree as int,
            )->0.len() >= old(self).spec_suite().spec_hash_length()),
            res is Ok ==> final(self).node_secret(Self::left_child(index_in_tree as nat) as int)->0.len()
                == ciphersuite.spec_hash_length() && final(self).node_secret(
                old(self).right_child(index_in_tree as nat) as int,
            )->0.len() == ciphersuite.spec_hash_length(),
    {
        let hash_len = ciphersuite.hash_length();
        let ghost w = self.spec_width();
        let ghost old_self = *self;
        let label = tree_label_bytes();
        proof {
            lemma_root_level(w);
            lemma_idx_of_coords(index_in_tree as nat);
            lemma_under_root(w, root_level(w), level(index_in_tree as nat), pos(index_in_tree as nat));
        }
        let (left_index, right_index, left_secret, right_secret) = match &self.nodes[index_in_tree as usize] {
            Some(node) => {
                let left_index = left(index_in_tree);
                let right_index = right(index_in_tree, self.size);
                proof {
                    if node.secret.value@.len() >= self.suite@.spec_hash_length() {
                        lemma_tree_secret_ok(
                            node.secret.value@,
                            self.suite@,
                            tree_label(),
                            left_index as nat,
                            0,
                            hash_len as nat,
                        );
                        lemma_tree_secret_ok(
                            node.secret.value@,
                            self.suite@,
                            tree_label(),
                            right_index as nat,
                            0,
                            hash_len as nat,
                        );
                    }
                    if old_self.derivations_succeed(*ciphersuite) {
                        assert(old_self.node_secret(index_in_tree as int) is Some);
                        lemma_tree_secret_ok(
                            node.secret.value@,
                            self.suite@,
                            tree_label(),
                            left_index as nat,
                            0,
                            hash_len as nat,
                        );
                        lemma_tree_secret_ok(
                            node.secret.value@,
                            self.suite@,
                            tree_label(),
                            right_index as nat,
                            0,
                            hash_len as nat,
                        );
                    }
                    if old_self.consistent() && *ciphersuite == old_self.suite@ && old_self.derivable() {
                        lemma_tree_secret_ok(
                            node.secret.value@,
                            self.suite@,
                            tree_label(),
                            left_index as nat,
                            0,
                            hash_len as nat,
                        );
                        lemma_tree_secret_ok(
                            node.secret.value@,
                            self.suite@,
                            tree_label(),
                            right_index as nat,
                            0,
                            hash_len as nat,
                        );
                    }
                }
                let l = match derive_tree_secret(
                    &node.secret,
                    label.as_slice(),
                    left_index,
                    0,
                    hash_len,
                    backend,
                ) {
                    Ok(l) => l,
                    Err(e) => return Err(e),
                };
                let r = match derive_tree_secret(
                    &node.secret,
                    label.as_slice(),
                    right_index,
                    0,
                    hash_len,
                    backend,
                ) {
                    Ok(r) => r,
                    Err(e) => return Err(e),
                };
                (left_index, right_index, l, r)
            },
            None => {
                proof {
                    old_self.lemma_same_but_nodes(&old_self);
                }
                return Err(SecretTreeError::LibraryError);
            },
        };
        let ghost parent = self.nodes@[index_in_tree as int]->0.secret.value@;
        let ghost before_nodes = self.nodes@;
        self.nodes.set(left_index as usize, Some(SecretTreeNode { secret: left_secret }));
        self.nodes.set(right_index as usize, Some(SecretTreeNode { secret: right_secret }));
        self.nodes.set(index_in_tree as usize, None);
        proof {
            if old_self.derivations_succeed(*ciphersuite) {
                assert forall|x: int|
                    0 <= x < self.spec_width() && #[trigger] self.node_secret(x) is Some implies self.node_secret(
                        x,
                    )->0.len() >= self.suite@.spec_hash_length() by {
                    if x != left_index && x != right_index && x != index_in_tree {
                        assert(self.nodes@[x] == before_nodes[x]);
                        assert(old_self.node_secret(x) is Some);
                    }
                }
            }
        }
        proof {
            self.lemma_same_but_nodes(&old_self);
            assert(forall|x: int|
                0 <= x < self.nodes@.len() && #[trigger] self.nodes@[x] is Some
                    ==> self.nodes@[x]->0.secret.ciphersuite == self.suite@);
            if old_self.consistent() && *ciphersuite == old_self.suite@ {
                let d = tree_derivation(self.suite@);
                let y = index_in_tree as nat;
                let kr = root_level(w);
                lemma_derived_child(d, w, self.encryption_secret@, y, left_of(level(y), pos(y)));
                lemma_derived_child(d, w, self.encryption_secret@, y, right_of(w, level(y), pos(y)));
                lemma_coords_of_idx(left_of(level(y), pos(y)).0, left_of(level(y), pos(y)).1);
                lemma_coords_of_idx(
                    right_of(w, level(y), pos(y)).0,
                    right_of(w, level(y), pos(y)).1,
                );
                lemma_coords_of_idx(kr, 0);
                crate::treemath::lemma_walk_child(
                    d,
                    w,
                    parent,
                    level(y),
                    pos(y),
                    left_of(level(y), pos(y)),
                );
                crate::treemath::lemma_walk_child(
                    d,
                    w,
                    parent,
                    level(y),
                    pos(y),
                    right_of(w, level(y), pos(y)),
                );
                assert(self.consistent());
            }
        }
        Ok(())
    }
}


impl SecretTree {
    /// The index of the node at position `t` of the path from the root down to
    /// leaf `index`.
    pub open spec fn path_node(&self, index: nat, t: int) -> nat {
        idx(leaf_path(self.spec_width(), index)[t].0, leaf_path(self.spec_width(), index)[t].1)
    }

    /// Number of nodes on the path from the root down to leaf `index`.
    pub open spec fn path_len(&self, index: nat) -> nat {
        leaf_path(self.spec_width(), index).len()
    }

    /// Whether some node on the path from the root down to leaf `index` holds a
    /// secret.
    pub open spec fn path_holds_secret(&self, index: nat) -> bool {
        exists|t: int| 0 <= t < self.path_len(index) && #[trigger] self.node_secret(self.path_node(index, t) as int) is Some
    }

    /// Whether position `v` of the path from the root down to leaf `index` is
    /// the lowest that holds a secret.
    pub open spec fn is_lowest_path_secret(&self, index: nat, v: int) -> bool {
        &&& 0 <= v < self.path_len(index)
        &&& self.node_secret(self.path_node(index, v) as int) is Some
        &&& forall|u: int|
            v < u < self.path_len(index) ==> #[trigger] self.node_secret(self.path_node(index, u) as int)
                is None
    }

    /// Whether initializing member `index`'s ratchets with `ciphersuite`
    /// succeeds: the lowest secret on the leaf's path is at least a hash output
    /// of the tree's suite long, and so is a hash output of `ciphersuite` when
    /// that secret lies above the leaf (the secrets derived down to the leaf
    /// have that length).
    pub open spec fn initialization_derivable(&self, ciphersuite: Ciphersuite, index: nat) -> bool {
        exists|v: int|
            #[trigger] self.is_lowest_path_secret(index, v) && self.node_secret(
                self.path_node(index, v) as int,
            )->0.len() >= self.spec_suite().spec_hash_length() && (v < self.path_len(index) - 1
                ==> ciphersuite.spec_hash_length() >= self.spec_suite().spec_hash_length())
    }

    /// Whether both ratchets of member `index` are initialized.
    pub open spec fn ratchets_initialized(&self, index: int) -> bool {
        self.ratchet(index, SecretType::HandshakeSecret) is Some && self.ratchet(
            index,
            SecretType::ApplicationSecret,
        ) is Some
    }

    /// What holds of the path from the root down to a leaf.
    proof fn lemma_path(&self, index: nat)
        requires
            self.wf(),
            index < self.spec_size(),
        ensures
            self.path_len(index) >= 1,
            self.path_node(index, self.path_len(index) - 1) == 2 * index,
            forall|t: int|
                0 <= t < self.path_len(index) ==> #[trigger] self.path_node(index, t) < self.spec_width()
                    && level(self.path_node(index, t)) == leaf_path(self.spec_width(), index)[t].0,
            forall|t: int|
                0 <= t < self.path_len(index) - 1 ==> level(#[trigger] self.path_node(index, t)) >= 1
                    && (self.path_node(index, t + 1) == Self::left_child(self.path_node(index, t))
                    || self.path_node(index, t + 1) == self.right_child(self.path_node(index, t))),
            forall|t: int, v: int|
                0 <= t < v < self.path_len(index) ==> level(#[trigger] self.path_node(index, t)) > level(
                    #[trigger] self.path_node(index, v),
                ),
    {
        let w = self.spec_width();
        let kr = root_level(w);
        lemma_root_level(w);
        crate::treemath::lemma_idx_zero(kr);
        lemma_under_root(w, kr, 0, index);
        assert(idx(0, index) == 2 * index);
        assert((kr - 0) as nat == kr);
        assert(idx(kr, index / p2(kr)) < w);
        lemma_path_from(w, kr, index);
        let p = leaf_path(w, index);
        assert forall|t: int| 0 <= t < self.path_len(index) implies #[trigger] self.path_node(index, t)
            < self.spec_width() && level(self.path_node(index, t)) == p[t].0 by {
            lemma_coords_of_idx(p[t].0, p[t].1);
        }
        assert forall|t: int| 0 <= t < self.path_len(index) - 1 implies level(
            #[trigger] self.path_node(index, t),
        ) >= 1 && (self.path_node(index, t + 1) == Self::left_child(self.path_node(index, t))
            || self.path_node(index, t + 1) == self.right_child(self.path_node(index, t))) by {
            lemma_coords_of_idx(p[t].0, p[t].1);
        }
        assert forall|t: int, v: int| 0 <= t < v < self.path_len(index) implies level(
            #[trigger] self.path_node(index, t),
        ) > level(#[trigger] self.path_node(index, v)) by {
            lemma_coords_of_idx(p[t].0, p[t].1);
            lemma_coords_of_idx(p[v].0, p[v].1);
            crate::treemath::lemma_path_levels(w, kr, index, t, v);
        }
    }
}


impl SecretTree {
    /// The position of the lowest node on `path` (the path down to leaf
    /// `index`) that holds a secret, if any.
    fn lowest_secret_on_path(&self, path: &Vec<u32>, Ghost(index): Ghost<nat>) -> (found: Option<
        usize,
    >)
        requires
            self.wf(),
            index < self.spec_size(),
            path@.len() == self.path_len(index),
            forall|v: int| 0 <= v < path@.len() ==> path@[v] == self.path_node(index, v),
        ensures
            found matches Some(t) ==> t < path@.len() && self.node_secret(path@[t as int] as int) is Some
                && forall|u: int| t < u < path@.len() ==> #[trigger] self.node_secret(path@[u] as int) is None,
            found is None ==> forall|u: int| 0 <= u < path@.len() ==> #[trigger] self.node_secret(path@[u] as int) is None,
    {
        proof {
            self.lemma_path(index);
        }
        let m = path.len() - 1;
        let mut t = m;
        loop
            invariant
                t <= m,
                m + 1 == path@.len(),
                forall|v: int| 0 <= v < path@.len() ==> path@[v] == self.path_node(index, v),
                forall|v: int| 0 <= v < path@.len() ==> self.path_node(index, v) < self.spec_width(),
                self.wf(),
                forall|u: int| t < u <= m ==> #[trigger] self.node_secret(path@[u] as int) is None,
            decreases t,
        {
            if self.nodes[path[t] as usize].is_some() {
                return Some(t);
            }
            if t == 0 {
                return None;
            }
            t = t - 1;
        }
    }

    /// Derives down along `path` (the path down to leaf `index`) from position
    /// `start`, which holds a secret, to the leaf.
    #[verifier::spinoff_prover]
    #[verifier::rlimit(40)]
    fn derive_along_path(
        &mut self,
        ciphersuite: &Ciphersuite,
        backend: &openmls_rust_crypto::OpenMlsRustCrypto,
        path: &Vec<u32>,
        start: usize,
        Ghost(index): Ghost<nat>,
    ) -> (res: Result<(), SecretTreeError>)
        requires
            old(self).wf(),
            index < old(self).spec_size(),
            path@.len() == old(self).path_len(index),
            forall|v: int| 0 <= v < path@.len() ==> path@[v] == old(self).path_node(index, v),
            start < path@.len(),
            old(self).node_secret(path@[start as int] as int) is Some,
        ensures
            final(self).wf(),
            final(self).same_but_nodes(old(self)),
            final(self).handshake_sender_ratchets == old(self).handshake_sender_ratchets,
            final(self).application_sender_ratchets == old(self).application_sender_ratchets,
            res matches Err(e) ==> e is CryptoError,
            res is Ok ==> final(self).node_secret(path@[path@.len() - 1] as int) is Some,
            res is Ok ==> forall|v: int|
                start <= v < path@.len() - 1 ==> #[trigger] final(self).node_secret(path@[v] as int) is None,
            old(self).consistent() && *ciphersuite == old(self).spec_suite() ==> final(self).consistent(),
            old(self).consistent() && *ciphersuite == old(self).spec_suite() && old(self).derivable()
                ==> res is Ok,
            old(self).derivations_succeed(*ciphersuite) ==> res is Ok && final(self).derivations_succeed(
                *ciphersuite,
            ),
            res is Ok <==> ((start < path@.len() - 1 ==> old(self).node_secret(path@[start as int] as int)->0.len()
                >= old(self).spec_suite().spec_hash_length()) && (start + 1 < path@.len() - 1
                ==> ciphersuite.spec_hash_length() >= old(self).spec_suite().spec_hash_length())),
            res is Ok ==> final(self).node_secret(path@[path@.len() - 1] as int)->0.len() == if start
                < path@.len() - 1 {
                ciphersuite.spec_hash_length() as nat
            } else {
                old(self).node_secret(path@[start as int] as int)->0.len()
            },
    {
        let ghost old_self = *self;
        let ghost matching = old_self.consistent() && *ciphersuite == old_self.suite@;
        proof {
            old_self.lemma_path(index);
        }
        let m = path.len() - 1;
        let mut u = start;
        while u < m
            invariant
                start <= u <= m,
                m + 1 == path@.len(),
                path@.len() == old_self.path_len(index),
                forall|v: int| 0 <= v < path@.len() ==> path@[v] == old_self.path_node(index, v),
                self.wf(),
                index < old_self.spec_size(),
                self.same_but_nodes(&old_self),
                self.spec_width() == old_self.spec_width(),
                self.handshake_sender_ratchets == old_self.handshake_sender_ratchets,
                self.application_sender_ratchets == old_self.application_sender_ratchets,
                self.node_secret(path@[u as int] as int) is Some,
                forall|v: int| start <= v < u ==> #[trigger] self.node_secret(path@[v] as int) is None,
                matching == (old_self.consistent() && *ciphersuite == old_self.suite@),
                matching ==> self.consistent(),
                old_self.derivations_succeed(*ciphersuite) ==> self.derivations_succeed(*ciphersuite),
                u == start ==> self.node_secret(path@[u as int] as int) == old_self.node_secret(
                    path@[start as int] as int,
                ),
                u > start ==> old_self.node_secret(path@[start as int] as int)->0.len()
                    >= old_self.spec_suite().spec_hash_length() && self.node_secret(
                    path@[u as int] as int,
                )->0.len() == ciphersuite.spec_hash_length(),
                u > start + 1 ==> ciphersuite.spec_hash_length() >= old_self.spec_suite().spec_hash_length(),
                old_self == *old(self),
                old_self.wf(),
            decreases m - u,
        {
            proof {
                old_self.lemma_path(index);
            }
            let y = path[u];
            let ghost before = *self;
            match self.derive_down(ciphersuite, backend, y) {
                Ok(()) => {},
                Err(e) => return Err(e),
            }
            proof {
                assert(path@[u + 1] == Self::left_child(y as nat) || path@[u + 1] == before.right_child(
                    y as nat,
                ));
                Self::lemma_children_below(before.spec_width(), y as nat);
                assert forall|v: int| start <= v < u + 1 implies #[trigger] self.node_secret(path@[v] as int) is None by {
                    if v < u {
                        assert(level(path@[v] as nat) > level(y as nat));
                    }
                }
            }
            u = u + 1;
        }
        Ok(())
    }

    /// Both children of a node lie on lower levels.
    proof fn lemma_children_below(w: nat, y: nat)
        requires
            level(y) >= 1,
        ensures
            level(Self::left_child(y)) < level(y),
            level(idx(right_of(w, level(y), pos(y)).0, right_of(w, level(y), pos(y)).1)) < level(y),
    {
        lemma_coords_of_idx(left_of(level(y), pos(y)).0, left_of(level(y), pos(y)).1);
        lemma_coords_of_idx(right_of(w, level(y), pos(y)).0, right_of(w, level(y), pos(y)).1);
        crate::treemath::lemma_right_chain(w, (level(y) - 1) as nat, 2 * pos(y) + 1);
    }
}


impl SecretTree {
    /// Derives both ratchets of member `index` from its leaf's secret, and
    /// deletes that secret.
    #[verifier::spinoff_prover]
    fn install_ratchets(
        &mut self,
        ciphersuite: &Ciphersuite,
        backend: &openmls_rust_crypto::OpenMlsRustCrypto,
        index: u32,
    ) -> (res: Result<(), SecretTreeError>)
        requires
            old(self).wf(),
            index < old(self).spec_size(),
            old(self).node_secret(2 * index) is Some,
        ensures
            final(self).wf(),
            final(self).spec_size() == old(self).spec_size(),
            final(self).spec_encryption_secret() == old(self).spec_encryption_secret(),
            final(self).spec_suite() == old(self).spec_suite(),
            res is Err ==> *final(self) == *old(self),
            res matches Err(e) ==> e is CryptoError,
            forall|j: int, t: SecretType| 0 <= j < old(self).spec_size() && j != index ==> #[trigger] final(self).ratchet(j, t) == old(self).ratchet(j, t),
            res is Ok ==> final(self).ratchets_initialized(index as int),
            res is Ok ==> forall|t: SecretType| #[trigger] final(self).ratchet(index as int, t)->0.spec_generation() == 0,
            res is Ok ==> forall|x: int|
                0 <= x < old(self).spec_width() ==> #[trigger] final(self).node_secret(x) == if x == 2 * index {
                    None::<Seq<u8>>
                } else {
                    old(self).node_secret(x)
                },
            old(self).consistent() && *ciphersuite == old(self).spec_suite() ==> final(self).consistent(),
            old(self).consistent() && *ciphersuite == old(self).spec_suite() && old(self).derivable()
                ==> res is Ok,
            old(self).derivations_succeed(*ciphersuite) ==> res is Ok,
            res is Ok <==> old(self).node_secret(2 * index)->0.len() >= old(self).spec_suite().spec_hash_length(),
            res is Ok ==> forall|t: SecretType, cs: Ciphersuite, g: u32|
                #[trigger] final(self).ratchet(index as int, t)->0.decryption_derivable(cs, g) <==> (
                ciphersuite.spec_hash_length() >= old(self).spec_suite().spec_hash_length() && (g > 0
                ==> cs.spec_hash_length() >= old(self).spec_suite().spec_hash_length())),
    {
        let ghost old_self = *self;
        let ghost matching = old_self.consistent() && *ciphersuite == old_self.suite@;
        let index_in_tree = 2 * index;
        let hash_len = ciphersuite.hash_length();
        let handshake = handshake_label_bytes();
        let application = application_label_bytes();
        let (handshake_secret, application_secret) = match &self.nodes[index_in_tree as usize] {
            Some(node) => {
                proof {
                    if old_self.derivations_succeed(*ciphersuite) {
                        assert(old_self.node_secret(index_in_tree as int) is Some);
                    }
                    if (matching && old_self.derivable()) || old_self.derivations_succeed(*ciphersuite)
                        || node.secret.value@.len() >= self.suite@.spec_hash_length() {
                        lemma_tree_secret_ok(node.secret.value@, self.suite@, handshake_label(), index_in_tree as nat, 0, hash_len as nat);
                        lemma_tree_secret_ok(node.secret.value@, self.suite@, application_label(), index_in_tree as nat, 0, hash_len as nat);
                    }
                }
                let h = match derive_tree_secret(&node.secret, handshake.as_slice(), index_in_tree, 0, hash_len, backend) {
                    Ok(h) => h,
                    Err(e) => return Err(e),
                };
                let a = match derive_tree_secret(&node.secret, application.as_slice(), index_in_tree, 0, hash_len, backend) {
                    Ok(a) => a,
                    Err(e) => return Err(e),
                };
                (h, a)
            },
            None => return Err(SecretTreeError::LibraryError),
        };
        let handshake_sender_ratchet = SenderRatchet::new(index, &handshake_secret);
        self.handshake_sender_ratchets.set(index as usize, Some(handshake_sender_ratchet));
        let application_sender_ratchet = SenderRatchet::new(index, &application_secret);
        self.application_sender_ratchets.set(index as usize, Some(application_sender_ratchet));
        self.nodes.set(index_in_tree as usize, None);
        proof {
            assert forall|j: int, t: SecretType| 0 <= j < old_self.spec_size() && j != index implies #[trigger] self.ratchet(j, t) == old_self.ratchet(j, t) by {
                match t {
                    SecretType::HandshakeSecret => {},
                    SecretType::ApplicationSecret => {},
                }
            }
            assert forall|t: SecretType| #[trigger] self.ratchet(index as int, t)->0.spec_generation() == 0 by {
                match t {
                    SecretType::HandshakeSecret => {},
                    SecretType::ApplicationSecret => {},
                }
            }
            assert forall|t: SecretType, cs: Ciphersuite, g: u32|
                #[trigger] self.ratchet(index as int, t)->0.decryption_derivable(cs, g) <==> (
                ciphersuite.spec_hash_length() >= old_self.spec_suite().spec_hash_length() && (g > 0
                ==> cs.spec_hash_length() >= old_self.spec_suite().spec_hash_length())) by {
                match t {
                    SecretType::HandshakeSecret => {
                        assert(handshake_sender_ratchet.decryption_derivable(cs, g) == self.ratchet(
                            index as int,
                            t,
                        )->0.decryption_derivable(cs, g));
                    },
                    SecretType::ApplicationSecret => {
                        assert(application_sender_ratchet.decryption_derivable(cs, g) == self.ratchet(
                            index as int,
                            t,
                        )->0.decryption_derivable(cs, g));
                    },
                }
            }
            if matching {
                assert(self.consistent());
            }
        }
        Ok(())
    }

    /// Initializes both ratchets of member `index`: derives the node secrets
    /// down from the lowest node on the leaf's path that holds one, deleting
    /// each used node secret, derives the two ratchet secrets from the leaf's
    /// secret and deletes the leaf's secret too.
    fn initialize_sender_ratchets(
        &mut self,
        ciphersuite: &Ciphersuite,
        backend: &openmls_rust_crypto::OpenMlsRustCrypto,
        index: u32,
    ) -> (res: Result<(), SecretTreeError>)
        requires
            old(self).wf(),
        ensures
            final(self).wf(),
            final(self).spec_size() == old(self).spec_size(),
            final(self).spec_encryption_secret() == old(self).spec_encryption_secret(),
            final(self).spec_suite() == old(self).spec_suite(),
            index >= old(self).spec_size() ==> res == Err::<(), SecretTreeError>(
                SecretTreeError::IndexOutOfBounds,
            ) && *final(self) == *old(self),
            index < old(self).spec_size() && old(self).ratchets_initialized(index as int) ==> res
                is Ok && *final(self) == *old(self),
            index < old(self).spec_size() && !old(self).ratchets_initialized(index as int)
                && !old(self).path_holds_secret(index as nat) ==> res == Err::<(), SecretTreeError>(
                SecretTreeError::LibraryError,
            ) && *final(self) == *old(self),
            res matches Err(e) ==> (e is IndexOutOfBounds || e is LibraryError || e is CryptoError),
            forall|j: int, t: SecretType| 0 <= j < old(self).spec_size() && j != index ==> #[trigger] final(self).ratchet(j, t) == old(self).ratchet(j, t),
            res is Ok ==> final(self).ratchets_initialized(index as int),
            res is Ok && !old(self).ratchets_initialized(index as int) ==> final(self).node_secret(2 * index) is None,
            res is Ok && !old(self).ratchets_initialized(index as int) ==> forall|t: SecretType|
                #[trigger] final(self).ratchet(index as int, t)->0.spec_generation() == 0,
            res is Ok && !old(self).ratchets_initialized(index as int) ==> forall|v: int|
                0 <= v < old(self).path_len(index as nat) && old(self).node_secret(
                    old(self).path_node(index as nat, v) as int,
                ) is Some && (forall|u: int|
                    v < u < old(self).path_len(index as nat) ==> old(self).node_secret(
                        #[trigger] old(self).path_node(index as nat, u) as int,
                    ) is None) ==> forall|u: int|
                    v <= u < old(self).path_len(index as nat) ==> final(self).node_secret(
                        #[trigger] old(self).path_node(index as nat, u) as int,
                    ) is None,
            old(self).consistent() && *ciphersuite == old(self).spec_suite() ==> final(self).consistent(),
            old(self).consistent() && *ciphersuite == old(self).spec_suite() && old(self).derivable()
                && index < old(self).spec_size() && (old(self).ratchets_initialized(index as int)
                || old(self).path_holds_secret(index as nat)) ==> res is Ok,
            old(self).derivations_succeed(*ciphersuite) && index < old(self).spec_size() && (old(
                self,
            ).ratchets_initialized(index as int) || old(self).path_holds_secret(index as nat)) ==> res is Ok,
            index < old(self).spec_size() && !old(self).ratchets_initialized(index as int) ==> (res is Ok
                <==> old(self).initialization_derivable(*ciphersuite, index as nat)),
            res is Ok && !old(self).ratchets_initialized(index as int) ==> forall|t: SecretType, cs: Ciphersuite, g: u32|
                #[trigger] final(self).ratchet(index as int, t)->0.decryption_derivable(cs, g) <==> (
                ciphersuite.spec_hash_length() >= old(self).spec_suite().spec_hash_length() && (g > 0
                ==> cs.spec_hash_length() >= old(self).spec_suite().spec_hash_length())),
    {
        if index >= self.size {
            return Err(SecretTreeError::IndexOutOfBounds);
        }
        if self.handshake_sender_ratchets[index as usize].is_some()
            && self.application_sender_ratchets[index as usize].is_some() {
            return Ok(());
        }
        let ghost old_self = *self;
        let path = leaf_path_down(index, self.size);
        proof {
            self.lemma_path(index as nat);
            assert forall|v: int| 0 <= v < path@.len() implies path@[v] == self.path_node(index as nat, v) by {}
        }
        let start = match self.lowest_secret_on_path(&path, Ghost(index as nat)) {
            Some(t) => t,
            None => {
                proof {
                    assert forall|t: int| 0 <= t < self.path_len(index as nat) implies !(#[trigger] self.node_secret(self.path_node(index as nat, t) as int) is Some) by {
                        assert(path@[t] == self.path_node(index as nat, t));
                    }
                    assert forall|v: int| !#[trigger] self.is_lowest_path_secret(index as nat, v) by {
                        if 0 <= v < self.path_len(index as nat) {
                            assert(path@[v] == self.path_node(index as nat, v));
                        }
                    }
                }
                return Err(SecretTreeError::LibraryError);
            },
        };
        proof {
            assert(self.is_lowest_path_secret(index as nat, start as int)) by {
                assert(path@[start as int] == self.path_node(index as nat, start as int));
                assert forall|u: int| start < u < self.path_len(index as nat) implies #[trigger] self.node_secret(
                    self.path_node(index as nat, u) as int,
                ) is None by {
                    assert(path@[u] == self.path_node(index as nat, u));
                }
            }
            assert forall|v: int| #[trigger] self.is_lowest_path_secret(index as nat, v) implies v == start by {
                if v < start {
                    assert(self.node_secret(self.path_node(index as nat, start as int) as int) is Some);
                }
                if v > start {
                    assert(self.node_secret(self.path_node(index as nat, v) as int) is Some);
                }
            }
        }
        match self.derive_along_path(ciphersuite, backend, &path, start, Ghost(index as nat)) {
            Ok(()) => {},
            Err(e) => return Err(e),
        }
        let ghost mid = *self;
        proof {
            old_self.lemma_path(index as nat);
        }
        match self.install_ratchets(ciphersuite, backend, index) {
            Ok(()) => {},
            Err(e) => return Err(e),
        }
        proof {
            assert forall|j: int, t: SecretType| 0 <= j < old_self.spec_size() && j != index implies #[trigger] self.ratchet(j, t) == old_self.ratchet(j, t) by {
                assert(mid.ratchet(j, t) == old_self.ratchet(j, t));
            }
            assert forall|v: int|
                0 <= v < old_self.path_len(index as nat) && old_self.node_secret(
                    old_self.path_node(index as nat, v) as int,
                ) is Some && (forall|u: int|
                    v < u < old_self.path_len(index as nat) ==> old_self.node_secret(
                        #[trigger] old_self.path_node(index as nat, u) as int,
                    ) is None) implies forall|u: int|
                    v <= u < old_self.path_len(index as nat) ==> self.node_secret(
                        #[trigger] old_self.path_node(index as nat, u) as int,
                    ) is None by {
                if v < start {
                    assert(old_self.node_secret(path@[start as int] as int) is Some);
                    assert(old_self.node_secret(old_self.path_node(index as nat, start as int) as int) is None);
                }
                if v > start {
                    assert(old_self.node_secret(path@[v] as int) is None);
                }
                assert(v == start);
                assert forall|u: int| v <= u < old_self.path_len(index as nat) implies self.node_secret(
                    #[trigger] old_self.path_node(index as nat, u) as int,
                ) is None by {
                    assert(old_self.path_node(index as nat, u) == path@[u]);
                    if u < path@.len() - 1 {
                        assert(mid.node_secret(path@[u] as int) is None);
                    }
                }
            }
        }
        Ok(())
    }
}


impl SecretTree {
    /// Whether member `index`'s ratchet of type `secret_type` accepts
    /// `generation`; a ratchet not initialized yet starts at generation 0.
    pub open spec fn decryption_accepted(
        &self,
        index: int,
        secret_type: SecretType,
        generation: u32,
        configuration: SenderRatchetConfiguration,
    ) -> bool {
        match self.ratchet(index, secret_type) {
            Some(r) => r.accepts(generation, configuration),
            None => generation < u32::MAX && generation
                <= configuration.spec_maximum_forward_distance(),
        }
    }

    /// Whether a message of `generation` from member `index` is refused
    /// whatever the keys: the member is not in the tree, its ratchet cannot be
    /// derived, or the ratchet does not accept the generation.
    pub open spec fn decryption_refused(
        &self,
        index: int,
        secret_type: SecretType,
        generation: u32,
        configuration: SenderRatchetConfiguration,
    ) -> bool {
        ||| index >= self.spec_size()
        ||| !self.ratchet_available(index, secret_type)
        ||| !self.decryption_accepted(index, secret_type, generation, configuration)
    }

    /// Whether the derivations that decrypting `generation` of member `index`'s
    /// ratchet of type `secret_type` makes succeed: those of the ratchet, or,
    /// for a ratchet not initialized yet, those that initialize it and those
    /// of the fresh ratchet (whose secrets are a hash output of `ciphersuite`
    /// long).
    pub open spec fn decryption_derivable(
        &self,
        ciphersuite: Ciphersuite,
        index: int,
        secret_type: SecretType,
        generation: u32,
    ) -> bool {
        match self.ratchet(index, secret_type) {
            Some(r) => r.decryption_derivable(ciphersuite, generation),
            None => self.initialization_derivable(ciphersuite, index as nat)
                && ciphersuite.spec_hash_length() >= self.spec_suite().spec_hash_length(),
        }
    }

    /// Whether the ratchet of member `index` and type `secret_type` exists or
    /// can be derived.
    pub open spec fn ratchet_available(&self, index: int, secret_type: SecretType) -> bool {
        self.ratchet(index, secret_type) is Some || self.path_holds_secret(index as nat)
    }

    /// Returns the key and nonce for decrypting a message of `generation` sent
    /// by member `index`, initializing the member's ratchets first when needed.
    pub fn secret_for_decryption(
        &mut self,
        ciphersuite: &Ciphersuite,
        backend: &openmls_rust_crypto::OpenMlsRustCrypto,
        index: u32,
        secret_type: SecretType,
        generation: u32,
        configuration: &SenderRatchetConfiguration,
    ) -> (res: Result<RatchetSecrets, SecretTreeError>)
        requires
            old(self).wf(),
        ensures
            final(self).wf(),
            final(self).spec_size() == old(self).spec_size(),
            final(self).spec_encryption_secret() == old(self).spec_encryption_secret(),
            final(self).spec_suite() == old(self).spec_suite(),
            forall|j: int, t: SecretType| 0 <= j < old(self).spec_size() && j != index ==> #[trigger] final(self).ratchet(j, t) == old(self).ratchet(j, t),
            index >= old(self).spec_size() ==> res == Err::<RatchetSecrets, SecretTreeError>(
                SecretTreeError::IndexOutOfBounds,
            ) && *final(self) == *old(self),
            old(self).decryption_refused(index as int, secret_type, generation, *configuration)
                ==> res is Err,
            !old(self).decryption_refused(index as int, secret_type, generation, *configuration) ==> (res
                is Ok <==> old(self).decryption_derivable(*ciphersuite, index as int, secret_type, generation)),
            old(self).ratchet(index as int, secret_type) is Some ==> (forall|x: int|
                #[trigger] final(self).node_secret(x) == old(self).node_secret(x)) && (forall|t: SecretType|
                t != secret_type ==> #[trigger] final(self).ratchet(index as int, t) == old(self).ratchet(index as int, t)),
            index < old(self).spec_size() && old(self).ratchet(index as int, secret_type) is Some
                && !old(self).decryption_accepted(index as int, secret_type, generation, *configuration)
                ==> final(self).same_but_nodes(old(self)) && (forall|x: int| #[trigger] final(self).node_secret(x) == old(self).node_secret(x)) && (res matches Err(e) && (e is TooDistantInTheFuture
                || e is TooDistantInThePast)),
            res matches Ok(rs) ==> rs.key@.len() == ciphersuite.spec_aead_key_length()
                && rs.nonce@.len() == ciphersuite.spec_aead_nonce_length(),
            old(self).consistent() && *ciphersuite == old(self).spec_suite() ==> final(self).consistent(),
            old(self).consistent() && *ciphersuite == old(self).spec_suite() ==> (res matches Ok(rs)
                ==> (rs.key@, rs.nonce@) == old(self).message_key(index as nat, secret_type, generation as nat)),
            old(self).consistent() && *ciphersuite == old(self).spec_suite() && old(self).derivable()
                && index < old(self).spec_size() && old(self).ratchet_available(index as int, secret_type)
                && old(self).decryption_accepted(index as int, secret_type, generation, *configuration)
                ==> res is Ok,
    {
        if index >= self.size {
            return Err(SecretTreeError::IndexOutOfBounds);
        }
        let ghost old_self = *self;
        let ghost matching = old_self.consistent() && *ciphersuite == old_self.suite@;
        let initialized = match self.ratchet_opt(index, secret_type) {
            Ok(o) => o.is_some(),
            Err(e) => return Err(e),
        };
        if !initialized {
            proof {
                if matching && old_self.derivable() && old_self.ratchet_available(index as int, secret_type) {
                    assert(old_self.path_holds_secret(index as nat));
                }
            }
            match self.initialize_sender_ratchets(ciphersuite, backend, index) {
                Ok(()) => {},
                Err(e) => return Err(e),
            }
        }
        let ghost mid = *self;
        proof {
            if matching {
                match secret_type {
                    SecretType::HandshakeSecret => {
                        assert(mid.ratchet_consistent(mid.handshake_sender_ratchets@[index as int]->0, index as nat, secret_type));
                    },
                    SecretType::ApplicationSecret => {
                        assert(mid.ratchet_consistent(mid.application_sender_ratchets@[index as int]->0, index as nat, secret_type));
                    },
                }
            }
        }
        let sender_ratchet = self.ratchet_mut(index, secret_type);
        let res = sender_ratchet.secret_for_decryption(ciphersuite, backend, generation, configuration);
        proof {
            if old_self.ratchet(index as int, secret_type) is Some && !old_self.decryption_accepted(index as int, secret_type, generation, *configuration) {
                assert forall|j: int, t: SecretType| #[trigger] self.ratchet(j, t) == old_self.ratchet(j, t) by {
                    match t {
                        SecretType::HandshakeSecret => {
                            assert(self.handshake_sender_ratchets@ =~= old_self.handshake_sender_ratchets@);
                        },
                        SecretType::ApplicationSecret => {
                            assert(self.application_sender_ratchets@ =~= old_self.application_sender_ratchets@);
                        },
                    }
                }
            }
            if old_self.ratchet(index as int, secret_type) is Some && !old_self.decryption_accepted(index as int, secret_type, generation, *configuration) {
                assert forall|j: int, t: SecretType| #[trigger] self.ratchet(j, t) == old_self.ratchet(j, t) by {
                    match t {
                        SecretType::HandshakeSecret => {
                            assert(self.handshake_sender_ratchets@ =~= old_self.handshake_sender_ratchets@);
                        },
                        SecretType::ApplicationSecret => {
                            assert(self.application_sender_ratchets@ =~= old_self.application_sender_ratchets@);
                        },
                    }
                }
            }
            assert forall|j: int, t: SecretType| 0 <= j < old_self.spec_size() && j != index implies #[trigger] self.ratchet(j, t) == old_self.ratchet(j, t) by {
                assert(mid.ratchet(j, t) == old_self.ratchet(j, t));
                match t {
                    SecretType::HandshakeSecret => {},
                    SecretType::ApplicationSecret => {},
                }
            }
            if matching {
                assert(self.consistent());
            }
        }
        res
    }
}


impl SecretTree {
    /// Returns the generation and the key and nonce with which member `index`
    /// encrypts its next message, and moves the member's ratchet on, so that
    /// the used key material is gone. Initializes the member's ratchets first
    /// when needed.
    pub fn secret_for_encryption(
        &mut self,
        ciphersuite: &Ciphersuite,
        backend: &openmls_rust_crypto::OpenMlsRustCrypto,
        index: u32,
        secret_type: SecretType,
    ) -> (res: Result<(u32, RatchetSecrets), SecretTreeError>)
        requires
            old(self).wf(),
            index < old(self).spec_size() ==> match old(self).ratchet(index as int, secret_type) {
                Some(r) => r.spec_generation() < u32::MAX,
                None => old(self).derivations_succeed(*ciphersuite) && old(self).path_holds_secret(
                    index as nat,
                ),
            },
        ensures
            final(self).wf(),
            final(self).spec_size() == old(self).spec_size(),
            final(self).spec_encryption_secret() == old(self).spec_encryption_secret(),
            final(self).spec_suite() == old(self).spec_suite(),
            forall|j: int, t: SecretType| 0 <= j < old(self).spec_size() && j != index ==> #[trigger] final(self).ratchet(j, t) == old(self).ratchet(j, t),
            index >= old(self).spec_size() ==> res == Err::<(u32, RatchetSecrets), SecretTreeError>(
                SecretTreeError::IndexOutOfBounds,
            ) && *final(self) == *old(self),
            old(self).ratchet(index as int, secret_type) is Some ==> (forall|x: int|
                #[trigger] final(self).node_secret(x) == old(self).node_secret(x)) && (forall|t: SecretType|
                t != secret_type ==> #[trigger] final(self).ratchet(index as int, t) == old(self).ratchet(index as int, t)),
            res matches Err(e) ==> (e is IndexOutOfBounds || e is CryptoError),
            res == Err::<(u32, RatchetSecrets), SecretTreeError>(SecretTreeError::IndexOutOfBounds)
                ==> index >= old(self).spec_size(),
            res matches Ok(r) ==> r.0 == match old(self).ratchet(index as int, secret_type) {
                Some(sr) => sr.spec_generation(),
                None => 0,
            },
            res matches Ok(r) ==> (final(self).ratchet(index as int, secret_type) matches Some(sr)
                && sr.spec_generation() == r.0 + 1 && sr.spec_window() == 1),
            res matches Ok(r) ==> r.1.key@.len() == ciphersuite.spec_aead_key_length()
                && r.1.nonce@.len() == ciphersuite.spec_aead_nonce_length(),
            old(self).consistent() && *ciphersuite == old(self).spec_suite() ==> final(self).consistent(),
            old(self).consistent() && *ciphersuite == old(self).spec_suite() ==> (res matches Ok(r)
                ==> (r.1.key@, r.1.nonce@) == old(self).message_key(index as nat, secret_type, r.0 as nat)),
            old(self).consistent() && *ciphersuite == old(self).spec_suite() && old(self).derivable()
                && index < old(self).spec_size() ==> res is Ok,
    {
        let ghost old_self = *self;
        let ghost matching = old_self.consistent() && *ciphersuite == old_self.suite@;
        let initialized = match self.ratchet_opt(index, secret_type) {
            Ok(o) => o.is_some(),
            Err(e) => return Err(e),
        };
        if !initialized {
            match self.initialize_sender_ratchets(ciphersuite, backend, index) {
                Ok(()) => {},
                Err(e) => {
                    proof {
                        assert(false);
                    }
                    return Err(e);
                },
            }
        }
        let ghost mid = *self;
        proof {
            if matching {
                match secret_type {
                    SecretType::HandshakeSecret => {
                        assert(mid.ratchet_consistent(mid.handshake_sender_ratchets@[index as int]->0, index as nat, secret_type));
                    },
                    SecretType::ApplicationSecret => {
                        assert(mid.ratchet_consistent(mid.application_sender_ratchets@[index as int]->0, index as nat, secret_type));
                    },
                }
            }
            match secret_type {
                SecretType::HandshakeSecret => {
                    assert(mid.handshake_sender_ratchets@[index as int]->0.spec_generation() < u32::MAX);
                },
                SecretType::ApplicationSecret => {
                    assert(mid.application_sender_ratchets@[index as int]->0.spec_generation() < u32::MAX);
                },
            }
        }
        let sender_ratchet = self.ratchet_mut(index, secret_type);
        let res = sender_ratchet.secret_for_encryption(ciphersuite, backend);
        proof {
            assert forall|j: int, t: SecretType| 0 <= j < old_self.spec_size() && j != index implies #[trigger] self.ratchet(j, t) == old_self.ratchet(j, t) by {
                assert(mid.ratchet(j, t) == old_self.ratchet(j, t));
                match t {
                    SecretType::HandshakeSecret => {},
                    SecretType::ApplicationSecret => {},
                }
            }
            if matching {
                assert(self.consistent());
            }
        }
        res
    }
}

/// Two members whose secret trees come from the same encryption secret, for
/// the same group size and ciphersuite, agree on the key and nonce of every
/// generation of every member's ratchets: what the sender's
/// `secret_for_encryption` returns for a generation is what the receiver's
/// `secret_for_decryption` returns for it.
pub proof fn law_members_agree_on_message_keys(
    sender: SecretTree,
    receiver: SecretTree,
    index: nat,
    secret_type: SecretType,
    generation: nat,
)
    requires
        sender.spec_encryption_secret() == receiver.spec_encryption_secret(),
        sender.spec_suite() == receiver.spec_suite(),
        sender.spec_size() == receiver.spec_size(),
    ensures
        sender.message_key(index, secret_type, generation) == receiver.message_key(
            index,
            secret_type,
            generation,
        ),
{
}

/// After a member has taken the key material of a generation for encryption,
/// its own tree no longer accepts that generation for decryption: the author
/// of a message cannot decrypt it.
pub proof fn law_author_cannot_decrypt(
    tree: SecretTree,
    index: int,
    secret_type: SecretType,
    generation: u32,
    configuration: SenderRatchetConfiguration,
)
    requires
        tree.ratchet(index, secret_type) matches Some(r) && r.spec_generation() == generation + 1
            && r.spec_window() == 1,
    ensures
        !tree.decryption_accepted(index, secret_type, generation, configuration),
{
}

} // verus!
