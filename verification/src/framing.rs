//! Framing of MLS messages: senders, wire formats, content types and the
//! plaintext message a member receives before its signature is checked.

use vstd::prelude::*;

verus! {

/// How a message travels: signed in the clear or encrypted.
#[derive(Clone, Copy, Debug, PartialEq, Eq, Structural)]
pub enum WireFormat {
    MlsPlaintext,
    MlsCiphertext,
}

/// What a message carries.
#[derive(Clone, Copy, Debug, PartialEq, Eq, Structural)]
pub enum ContentType {
    Application,
    Proposal,
    Commit,
}

impl ContentType {
    /// Proposals and commits are handshake messages.
    pub fn is_handshake_message(&self) -> (b: bool)
        ensures
            b == (*self != ContentType::Application),
    {
        match self {
            ContentType::Application => false,
            _ => true,
        }
    }
}

/// Who sent a message, relative to the group.
#[derive(Clone, Copy, Debug, PartialEq, Eq, Structural)]
pub enum SenderType {
    Member,
    Preconfigured,
    NewMember,
}

/// The sender of a message: its kind and its leaf index.
#[derive(Clone, Copy, Debug, PartialEq, Eq, Structural)]
pub struct Sender {
    pub sender_type: SenderType,
    pub sender: u32,
}

impl Sender {
    /// Whether the sender is a member of the group.
    pub fn is_member(&self) -> (b: bool)
        ensures
            b == (self.sender_type == SenderType::Member),
    {
        match self.sender_type {
            SenderType::Member => true,
            _ => false,
        }
    }

    /// The sender's leaf index.
    pub fn to_leaf_index(&self) -> (i: u32)
        ensures
            i == self.sender,
    {
        self.sender
    }
}

/// The epoch of a group.
#[derive(Clone, Copy, Debug, PartialEq, Eq, Structural)]
pub struct GroupEpoch(pub u64);

/// A group identifier.
pub struct GroupId {
    pub value: Vec<u8>,
}

impl GroupId {
    pub fn from_slice(bytes: &[u8]) -> (g: GroupId)
        ensures
            g.value@ == bytes@,
    {
        GroupId { value: vstd::slice::slice_to_vec(bytes) }
    }

    pub fn as_slice(&self) -> (b: &[u8])
        ensures
            b@ == self.value@,
    {
        self.value.as_slice()
    }

    /// A copy of the identifier.
    pub fn duplicate(&self) -> (g: GroupId)
        ensures
            g.value@ == self.value@,
    {
        GroupId { value: vstd::slice::slice_to_vec(self.value.as_slice()) }
    }
}

/// A basic credential: an identity and the key that signs for it.
pub struct Credential {
    pub identity: Vec<u8>,
    pub signature_scheme: u16,
    pub signature_key: Vec<u8>,
}

impl Credential {
    /// The credential as plain values.
    pub open spec fn spec_view(&self) -> (Seq<u8>, u16, Seq<u8>) {
        (self.identity@, self.signature_scheme, self.signature_key@)
    }

    /// A copy of the credential.
    pub fn duplicate(&self) -> (c: Credential)
        ensures
            c.spec_view() == self.spec_view(),
    {
        Credential {
            identity: vstd::slice::slice_to_vec(self.identity.as_slice()),
            signature_scheme: self.signature_scheme,
            signature_key: vstd::slice::slice_to_vec(self.signature_key.as_slice()),
        }
    }
}

/// The part of a key package that the framing checks read: its credential.
pub struct KeyPackage {
    pub credential: Credential,
    pub payload: Vec<u8>,
}

impl KeyPackage {
    pub fn credential(&self) -> (c: &Credential)
        ensures
            *c == self.credential,
    {
        &self.credential
    }
}

/// An update path: the committer's new key package and the encrypted path
/// secrets.
pub struct UpdatePath {
    pub leaf_key_package: KeyPackage,
    pub nodes: Vec<u8>,
}

impl UpdatePath {
    pub fn leaf_key_package(&self) -> (k: &KeyPackage)
        ensures
            *k == self.leaf_key_package,
    {
        &self.leaf_key_package
    }
}

/// A proposal: its type and the encoding of its body.
pub struct Proposal {
    pub proposal_type: u16,
    pub body: Vec<u8>,
}

/// A proposal carried by value or by reference.
pub enum ProposalOrRef {
    Proposal(Proposal),
    Reference(Vec<u8>),
}

/// A proposal or a proposal reference as plain values.
pub enum ProposalOrRefView {
    Proposal(u16, Seq<u8>),
    Reference(Seq<u8>),
}

impl ProposalOrRef {
    pub open spec fn spec_view(&self) -> ProposalOrRefView {
        match self {
            ProposalOrRef::Proposal(p) => ProposalOrRefView::Proposal(p.proposal_type, p.body@),
            ProposalOrRef::Reference(r) => ProposalOrRefView::Reference(r@),
        }
    }
}

/// The views of a list of proposals.
pub open spec fn proposal_views(ps: Seq<ProposalOrRef>) -> Seq<ProposalOrRefView> {
    ps.map_values(|p: ProposalOrRef| p.spec_view())
}

/// An update path as plain values: the credential of its key package, the
/// rest of the key package, and the encrypted path secrets.
pub struct UpdatePathView {
    pub credential: (Seq<u8>, u16, Seq<u8>),
    pub payload: Seq<u8>,
    pub nodes: Seq<u8>,
}

impl UpdatePath {
    pub open spec fn spec_view(&self) -> UpdatePathView {
        UpdatePathView {
            credential: self.leaf_key_package.credential.spec_view(),
            payload: self.leaf_key_package.payload@,
            nodes: self.nodes@,
        }
    }
}

/// The content of a plaintext message as plain values.
pub enum ContentView {
    Application(Seq<u8>),
    Proposal(u16, Seq<u8>),
    Commit(Seq<ProposalOrRefView>, Option<UpdatePathView>),
}

impl ContentView {
    pub open spec fn content_type(&self) -> ContentType {
        match self {
            ContentView::Application(_) => ContentType::Application,
            ContentView::Proposal(_, _) => ContentType::Proposal,
            ContentView::Commit(_, _) => ContentType::Commit,
        }
    }
}

/// A commit: the proposals it covers and the optional update path.
pub struct Commit {
    pub proposals: Vec<ProposalOrRef>,
    pub path: Option<UpdatePath>,
}

impl Commit {
    /// Returns `true` if the commit contains an update path.
    pub fn has_path(&self) -> (b: bool)
        ensures
            b == self.path is Some,
    {
        self.path.is_some()
    }

    /// The update path, if any.
    pub fn path(&self) -> (p: &Option<UpdatePath>)
        ensures
            *p == self.path,
    {
        &self.path
    }
}

/// A message authentication code.
pub struct Mac {
    pub mac_value: Vec<u8>,
}

/// The confirmation tag of a commit.
pub struct ConfirmationTag(pub Mac);

/// The membership tag of a plaintext message sent by a member.
pub struct MembershipTag(pub Mac);

/// The content of a plaintext message.
pub enum MlsPlaintextContentType {
    Application(Vec<u8>),
    Proposal(Proposal),
    Commit(Commit),
}

impl MlsPlaintextContentType {
    pub open spec fn spec_view(&self) -> ContentView {
        match self {
            MlsPlaintextContentType::Application(d) => ContentView::Application(d@),
            MlsPlaintextContentType::Proposal(p) => ContentView::Proposal(p.proposal_type, p.body@),
            MlsPlaintextContentType::Commit(c) => ContentView::Commit(
                proposal_views(c.proposals@),
                match c.path {
                    Some(path) => Some(path.spec_view()),
                    None => None,
                },
            ),
        }
    }

    pub open spec fn spec_content_type(&self) -> ContentType {
        match self {
            MlsPlaintextContentType::Application(_) => ContentType::Application,
            MlsPlaintextContentType::Proposal(_) => ContentType::Proposal,
            MlsPlaintextContentType::Commit(_) => ContentType::Commit,
        }
    }

    pub fn content_type(&self) -> (c: ContentType)
        ensures
            c == self.spec_content_type(),
    {
        match self {
            MlsPlaintextContentType::Application(_) => ContentType::Application,
            MlsPlaintextContentType::Proposal(_) => ContentType::Proposal,
            MlsPlaintextContentType::Commit(_) => ContentType::Commit,
        }
    }
}

/// A plaintext message whose signature (and membership tag) has not been
/// checked yet.
pub struct VerifiableMlsPlaintext {
    pub serialized_context: Option<Vec<u8>>,
    pub wire_format: WireFormat,
    pub group_id: GroupId,
    pub epoch: GroupEpoch,
    pub sender: Sender,
    pub authenticated_data: Vec<u8>,
    pub content: MlsPlaintextContentType,
    pub signature: Vec<u8>,
    pub confirmation_tag: Option<ConfirmationTag>,
    pub membership_tag: Option<MembershipTag>,
}

impl VerifiableMlsPlaintext {
    pub fn sender(&self) -> (s: &Sender)
        ensures
            *s == self.sender,
    {
        &self.sender
    }

    pub fn wire_format(&self) -> (w: WireFormat)
        ensures
            w == self.wire_format,
    {
        self.wire_format
    }

    pub fn content_type(&self) -> (c: ContentType)
        ensures
            c == self.content.spec_content_type(),
    {
        self.content.content_type()
    }

    pub fn epoch(&self) -> (e: GroupEpoch)
        ensures
            e == self.epoch,
    {
        self.epoch
    }

    pub fn content(&self) -> (c: &MlsPlaintextContentType)
        ensures
            *c == self.content,
    {
        &self.content
    }

    pub fn membership_tag(&self) -> (t: &Option<MembershipTag>)
        ensures
            *t == self.membership_tag,
    {
        &self.membership_tag
    }

    pub fn confirmation_tag(&self) -> (t: &Option<ConfirmationTag>)
        ensures
            *t == self.confirmation_tag,
    {
        &self.confirmation_tag
    }

    /// Attaches the serialized group context, which member messages are
    /// signed and tagged over.
    pub fn set_context(&mut self, serialized_context: Vec<u8>)
        ensures
            final(self).serialized_context == Some(serialized_context),
            final(self).wire_format == old(self).wire_format,
            final(self).group_id == old(self).group_id,
            final(self).epoch == old(self).epoch,
            final(self).sender == old(self).sender,
            final(self).authenticated_data == old(self).authenticated_data,
            final(self).content == old(self).content,
            final(self).signature == old(self).signature,
            final(self).confirmation_tag == old(self).confirmation_tag,
            final(self).membership_tag == old(self).membership_tag,
    {
        self.serialized_context = Some(serialized_context);
    }
}

/// A plaintext message whose signature has been checked.
pub struct MlsPlaintext {
    pub wire_format: WireFormat,
    pub group_id: GroupId,
    pub epoch: GroupEpoch,
    pub sender: Sender,
    pub authenticated_data: Vec<u8>,
    pub content: MlsPlaintextContentType,
    pub signature: Vec<u8>,
    pub confirmation_tag: Option<ConfirmationTag>,
    pub membership_tag: Option<MembershipTag>,
}

impl MlsPlaintext {
    pub fn sender(&self) -> (s: &Sender)
        ensures
            *s == self.sender,
    {
        &self.sender
    }

    pub fn content(&self) -> (c: &MlsPlaintextContentType)
        ensures
            *c == self.content,
    {
        &self.content
    }

    pub fn content_type(&self) -> (c: ContentType)
        ensures
            c == self.content.spec_content_type(),
    {
        self.content.content_type()
    }

    pub fn wire_format(&self) -> (w: WireFormat)
        ensures
            w == self.wire_format,
    {
        self.wire_format
    }
}

} // verus!
