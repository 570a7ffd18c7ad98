//! The group context: what every member of a group agrees on in an epoch.

use vstd::prelude::*;

use crate::ciphersuite::Ciphersuite;
use crate::codec::{opaque32, opaque8, push_opaque, push_u64, u64_bytes, CodecError};
use crate::extensions::{
    duplicate_extensions, enc_extensions, extension_encodable, extension_views, push_extensions,
    Extension, ExtensionType, ExtensionView, RequiredCapabilitiesExtension,
};
use crate::framing::{GroupEpoch, GroupId};

verus! {

/// Whether `extensions[i]` is the first required-capabilities extension.
pub open spec fn is_first_required_capabilities(extensions: Seq<Extension>, i: int) -> bool {
    &&& 0 <= i < extensions.len()
    &&& extensions[i].spec_extension_type() == ExtensionType::RequiredCapabilities
    &&& forall|j: int|
        0 <= j < i ==> extensions[j].spec_extension_type() != ExtensionType::RequiredCapabilities
}

/// Whether some extension among `extensions` is a required-capabilities one.
pub open spec fn has_required_capabilities(extensions: Seq<Extension>) -> bool {
    exists|i: int|
        0 <= i < extensions.len() && #[trigger] extensions[i].spec_extension_type()
            == ExtensionType::RequiredCapabilities
}

/// The encoding of a group context:
///
/// ```text
/// struct {
///   opaque group_id<0..255>;
///   uint64 epoch;
///   opaque tree_hash<0..255>;
///   opaque confirmed_transcript_hash<0..255>;
///   Extension extensions<0..2^32-1>;
/// } GroupContext;
/// ```
pub open spec fn group_context_bytes(
    group_id: Seq<u8>,
    epoch: GroupEpoch,
    tree_hash: Seq<u8>,
    confirmed_transcript_hash: Seq<u8>,
    extensions: Seq<ExtensionView>,
) -> Seq<u8> {
    opaque8(group_id) + u64_bytes(epoch.0 as nat) + opaque8(tree_hash) + opaque8(confirmed_transcript_hash)
        + opaque32(enc_extensions(extensions))
}

/// Whether a group context can be encoded: the identifier and the hashes fit
/// their one-byte lengths, every extension can be encoded, and so can their
/// list.
pub open spec fn group_context_encodable(
    group_id: Seq<u8>,
    tree_hash: Seq<u8>,
    confirmed_transcript_hash: Seq<u8>,
    extensions: Seq<ExtensionView>,
) -> bool {
    &&& group_id.len() <= 0xff
    &&& tree_hash.len() <= 0xff
    &&& confirmed_transcript_hash.len() <= 0xff
    &&& forall|i: int| 0 <= i < extensions.len() ==> #[trigger] extension_encodable(extensions[i])
    &&& enc_extensions(extensions).len() <= 0xffff_ffff
}

/// The group context of an epoch.
pub struct GroupContext {
    group_id: GroupId,
    epoch: GroupEpoch,
    tree_hash: Vec<u8>,
    confirmed_transcript_hash: Vec<u8>,
    extensions: Vec<Extension>,
}

impl GroupContext {
    pub closed spec fn spec_group_id(&self) -> Seq<u8> {
        self.group_id.value@
    }

    pub closed spec fn spec_epoch(&self) -> GroupEpoch {
        self.epoch
    }

    pub closed spec fn spec_tree_hash(&self) -> Seq<u8> {
        self.tree_hash@
    }

    pub closed spec fn spec_confirmed_transcript_hash(&self) -> Seq<u8> {
        self.confirmed_transcript_hash@
    }

    pub closed spec fn spec_extensions(&self) -> Seq<Extension> {
        self.extensions@
    }

    /// Creates a group context.
    pub fn new(
        group_id: GroupId,
        epoch: GroupEpoch,
        tree_hash: Vec<u8>,
        confirmed_transcript_hash: Vec<u8>,
        extensions: &[Extension],
    ) -> (res: Result<Self, CodecError>)
        ensures
            res is Ok,
            res matches Ok(c) ==> (c.spec_group_id() == group_id.value@ && c.spec_epoch() == epoch
                && c.spec_tree_hash() == tree_hash@ && c.spec_confirmed_transcript_hash()
                == confirmed_transcript_hash@ && extension_views(c.spec_extensions())
                == extension_views(extensions@)),
    {
        let group_context = GroupContext {
            group_id,
            epoch,
            tree_hash,
            confirmed_transcript_hash,
            extensions: duplicate_extensions(extensions),
        };
        Ok(group_context)
    }

    /// Serializes the group context; fails with `EncodingError` when it cannot
    /// be encoded.
    pub fn tls_serialize_detached(&self) -> (res: Result<Vec<u8>, CodecError>)
        ensures
            group_context_encodable(
                self.spec_group_id(),
                self.spec_tree_hash(),
                self.spec_confirmed_transcript_hash(),
                extension_views(self.spec_extensions()),
            ) ==> (res matches Ok(v) && v@ == group_context_bytes(
                self.spec_group_id(),
                self.spec_epoch(),
                self.spec_tree_hash(),
                self.spec_confirmed_transcript_hash(),
                extension_views(self.spec_extensions()),
            )),
            !group_context_encodable(
                self.spec_group_id(),
                self.spec_tree_hash(),
                self.spec_confirmed_transcript_hash(),
                extension_views(self.spec_extensions()),
            ) ==> res == Err::<Vec<u8>, CodecError>(CodecError::EncodingError),
    {
        let mut buf: Vec<u8> = Vec::new();
        push_opaque(&mut buf, self.group_id.value.as_slice(), 1)?;
        push_u64(&mut buf, self.epoch.0);
        push_opaque(&mut buf, self.tree_hash.as_slice(), 1)?;
        push_opaque(&mut buf, self.confirmed_transcript_hash.as_slice(), 1)?;
        let mut exts: Vec<u8> = Vec::new();
        let r = push_extensions(&mut exts, self.extensions.as_slice());
        proof {
            let es = extension_views(self.extensions@);
            assert((forall|i: int| 0 <= i < es.len() ==> #[trigger] extension_encodable(es[i])) <==> (
            forall|i: int| 0 <= i < self.extensions@.len() ==> #[trigger] extension_encodable(
                self.extensions@[i].spec_view(),
            ))) by {
                if forall|i: int| 0 <= i < self.extensions@.len() ==> #[trigger] extension_encodable(
                    self.extensions@[i].spec_view(),
                ) {
                    assert forall|i: int| 0 <= i < es.len() implies #[trigger] extension_encodable(es[i]) by {
                        assert(es[i] == self.extensions@[i].spec_view());
                    }
                }
                if forall|i: int| 0 <= i < es.len() ==> #[trigger] extension_encodable(es[i]) {
                    assert forall|i: int| 0 <= i < self.extensions@.len() implies #[trigger] extension_encodable(
                        self.extensions@[i].spec_view(),
                    ) by {
                        assert(es[i] == self.extensions@[i].spec_view());
                    }
                }
            }
        }
        match r {
            Ok(()) => {},
            Err(e) => return Err(e),
        }
        push_opaque(&mut buf, exts.as_slice(), 4)?;
        assert(buf@ =~= group_context_bytes(
            self.group_id.value@,
            self.epoch,
            self.tree_hash@,
            self.confirmed_transcript_hash@,
            extension_views(self.extensions@),
        ));
        Ok(buf)
    }

    /// The group context of a group when it is created: epoch 0 and an
    /// all-zero confirmed transcript hash of the ciphersuite's hash length.
    pub fn create_initial_group_context(
        ciphersuite: &Ciphersuite,
        group_id: GroupId,
        tree_hash: Vec<u8>,
        extensions: &[Extension],
    ) -> (res: Result<Self, CodecError>)
        ensures
            res is Ok,
            res matches Ok(c) ==> (c.spec_group_id() == group_id.value@ && c.spec_epoch()
                == GroupEpoch(0) && c.spec_tree_hash() == tree_hash@
                && c.spec_confirmed_transcript_hash() == Seq::new(
                ciphersuite.spec_hash_length() as nat,
                |i: int| 0u8,
            ) && extension_views(c.spec_extensions()) == extension_views(extensions@)),
    {
        let n = ciphersuite.hash_length();
        let mut zero: Vec<u8> = Vec::new();
        let mut i: usize = 0;
        while i < n
            invariant
                i <= n,
                zero@ == Seq::new(i as nat, |j: int| 0u8),
            decreases n - i,
        {
            zero.push(0u8);
            i = i + 1;
            assert(zero@ =~= Seq::new(i as nat, |j: int| 0u8));
        }
        Self::new(group_id, GroupEpoch(0), tree_hash, zero, extensions)
    }

    /// Sets the epoch.
    pub fn set_epoch(&mut self, epoch: GroupEpoch)
        ensures
            final(self).spec_epoch() == epoch,
            final(self).spec_group_id() == old(self).spec_group_id(),
            final(self).spec_tree_hash() == old(self).spec_tree_hash(),
            final(self).spec_confirmed_transcript_hash() == old(self).spec_confirmed_transcript_hash(),
            final(self).spec_extensions() == old(self).spec_extensions(),
    {
        self.epoch = epoch;
    }

    /// The group identifier.
    pub fn group_id(&self) -> (g: &GroupId)
        ensures
            g.value@ == self.spec_group_id(),
    {
        &self.group_id
    }

    /// The epoch.
    pub fn epoch(&self) -> (e: GroupEpoch)
        ensures
            e == self.spec_epoch(),
    {
        self.epoch
    }

    /// The extensions.
    pub fn extensions(&self) -> (e: &[Extension])
        ensures
            e@ == self.spec_extensions(),
    {
        self.extensions.as_slice()
    }

    /// The first required-capabilities extension, if there is one.
    pub fn required_capabilities(&self) -> (r: Option<&RequiredCapabilitiesExtension>)
        ensures
            !has_required_capabilities(self.spec_extensions()) ==> r is None,
            r is Some ==> has_required_capabilities(self.spec_extensions()),
            forall|i: int|
                #[trigger] is_first_required_capabilities(self.spec_extensions(), i) ==> match r {
                    Some(rc) => self.spec_extensions()[i] == Extension::RequiredCapabilities(*rc),
                    None => !(self.spec_extensions()[i] is RequiredCapabilities),
                },
    {
        let mut i: usize = 0;
        while i < self.extensions.len()
            invariant
                i <= self.extensions@.len(),
                forall|j: int|
                    0 <= j < i ==> self.extensions@[j].spec_extension_type()
                        != ExtensionType::RequiredCapabilities,
            decreases self.extensions@.len() - i,
        {
            if self.extensions[i].extension_type() == ExtensionType::RequiredCapabilities {
                let ghost k: int = i as int;
                proof {
                    assert forall|m: int|
                        #[trigger] is_first_required_capabilities(self.extensions@, m) implies m
                        == k by {
                        if m < k {
                        } else if m > k {
                            assert(self.extensions@[k].spec_extension_type()
                                == ExtensionType::RequiredCapabilities);
                        }
                    }
                }
                return match self.extensions[i].as_required_capabilities_extension() {
                    Ok(r) => Some(r),
                    Err(_) => None,
                };
            }
            i = i + 1;
        }
        None
    }

    /// The confirmed transcript hash.
    pub fn confirmed_transcript_hash(&self) -> (h: &[u8])
        ensures
            h@ == self.spec_confirmed_transcript_hash(),
    {
        self.confirmed_transcript_hash.as_slice()
    }
}

} // verus!
