//! Group and key package extensions.

use vstd::prelude::*;

use crate::codec::{opaque32, opaque8, push_opaque, CodecError};
use crate::crypto::{push_u16, u16_bytes};

verus! {

/// The kinds of extensions.
#[derive(Clone, Copy, Debug, PartialEq, Eq, Structural)]
pub enum ExtensionType {
    Capabilities,
    Lifetime,
    KeyId,
    ParentHash,
    RatchetTree,
    RequiredCapabilities,
    ExternalKeyId,
}

/// The extension and proposal types every member of a group must support.
pub struct RequiredCapabilitiesExtension {
    pub extensions: Vec<u16>,
    pub proposals: Vec<u16>,
}

impl RequiredCapabilitiesExtension {
    pub open spec fn spec_view(&self) -> (Seq<u16>, Seq<u16>) {
        (self.extensions@, self.proposals@)
    }

    /// A copy of the extension.
    pub fn duplicate(&self) -> (r: Self)
        ensures
            r.spec_view() == self.spec_view(),
    {
        RequiredCapabilitiesExtension {
            extensions: vstd::slice::slice_to_vec(self.extensions.as_slice()),
            proposals: vstd::slice::slice_to_vec(self.proposals.as_slice()),
        }
    }
}

/// Errors of extension accessors.
#[derive(Clone, Copy, Debug, PartialEq, Eq, Structural)]
pub enum ExtensionError {
    InvalidExtensionType,
}

/// An extension: required capabilities are read by the library, the others
/// are carried as their encoded content.
pub enum Extension {
    RequiredCapabilities(RequiredCapabilitiesExtension),
    Other(ExtensionType, Vec<u8>),
}

/// An extension as plain values.
pub enum ExtensionView {
    RequiredCapabilities(Seq<u16>, Seq<u16>),
    Other(ExtensionType, Seq<u8>),
}

impl Extension {
    pub open spec fn spec_view(&self) -> ExtensionView {
        match self {
            Extension::RequiredCapabilities(r) => ExtensionView::RequiredCapabilities(
                r.extensions@,
                r.proposals@,
            ),
            Extension::Other(t, d) => ExtensionView::Other(*t, d@),
        }
    }

    pub open spec fn spec_extension_type(&self) -> ExtensionType {
        match self {
            Extension::RequiredCapabilities(_) => ExtensionType::RequiredCapabilities,
            Extension::Other(t, _) => *t,
        }
    }

    /// The type of the extension.
    pub fn extension_type(&self) -> (t: ExtensionType)
        ensures
            t == self.spec_extension_type(),
    {
        match self {
            Extension::RequiredCapabilities(_) => ExtensionType::RequiredCapabilities,
            Extension::Other(t, _) => *t,
        }
    }

    /// The required capabilities this extension holds, or an error when it is
    /// an extension of another kind.
    pub fn as_required_capabilities_extension(&self) -> (res: Result<
        &RequiredCapabilitiesExtension,
        ExtensionError,
    >)
        ensures
            match self {
                Extension::RequiredCapabilities(r) => res == Ok::<
                    &RequiredCapabilitiesExtension,
                    ExtensionError,
                >(r),
                _ => res == Err::<&RequiredCapabilitiesExtension, ExtensionError>(
                    ExtensionError::InvalidExtensionType,
                ),
            },
    {
        match self {
            Extension::RequiredCapabilities(r) => Ok(r),
            _ => Err(ExtensionError::InvalidExtensionType),
        }
    }

    /// A copy of the extension.
    pub fn duplicate(&self) -> (e: Self)
        ensures
            e.spec_view() == self.spec_view(),
    {
        match self {
            Extension::RequiredCapabilities(r) => Extension::RequiredCapabilities(r.duplicate()),
            Extension::Other(t, d) => Extension::Other(
                *t,
                vstd::slice::slice_to_vec(d.as_slice()),
            ),
        }
    }
}

/// The code of an extension type on the wire.
pub open spec fn extension_type_code(t: ExtensionType) -> u16 {
    match t {
        ExtensionType::Capabilities => 1,
        ExtensionType::Lifetime => 2,
        ExtensionType::KeyId => 3,
        ExtensionType::ParentHash => 4,
        ExtensionType::RatchetTree => 5,
        ExtensionType::RequiredCapabilities => 6,
        ExtensionType::ExternalKeyId => 7,
    }
}

/// The code of an extension type on the wire.
pub fn extension_type_to_u16(t: ExtensionType) -> (c: u16)
    ensures
        c == extension_type_code(t),
{
    match t {
        ExtensionType::Capabilities => 1,
        ExtensionType::Lifetime => 2,
        ExtensionType::KeyId => 3,
        ExtensionType::ParentHash => 4,
        ExtensionType::RatchetTree => 5,
        ExtensionType::RequiredCapabilities => 6,
        ExtensionType::ExternalKeyId => 7,
    }
}

/// A list of 16-bit values, each big-endian, one after the other.
pub open spec fn u16_list_bytes(l: Seq<u16>) -> Seq<u8>
    decreases l.len(),
{
    if l.len() == 0 {
        Seq::empty()
    } else {
        u16_list_bytes(l.drop_last()) + u16_bytes(l.last() as nat)
    }
}

/// A list of 16-bit values takes two bytes each.
pub proof fn lemma_u16_list_len(l: Seq<u16>)
    ensures
        u16_list_bytes(l).len() == 2 * l.len(),
    decreases l.len(),
{
    if l.len() > 0 {
        lemma_u16_list_len(l.drop_last());
    }
}

/// The content of an extension: for required capabilities the extension
/// and proposal types (`<0..255>` each), otherwise the encoded content it
/// carries.
pub open spec fn extension_data(e: ExtensionView) -> Seq<u8> {
    match e {
        ExtensionView::RequiredCapabilities(ex, pr) => opaque8(u16_list_bytes(ex)) + opaque8(
            u16_list_bytes(pr),
        ),
        ExtensionView::Other(_, d) => d,
    }
}

/// The type of an extension as plain values.
pub open spec fn extension_view_type(e: ExtensionView) -> ExtensionType {
    match e {
        ExtensionView::RequiredCapabilities(_, _) => ExtensionType::RequiredCapabilities,
        ExtensionView::Other(t, _) => t,
    }
}

/// The encoding of an extension: its type, then its content with a 4-byte
/// length.
pub open spec fn enc_extension(e: ExtensionView) -> Seq<u8> {
    u16_bytes(extension_type_code(extension_view_type(e)) as nat) + opaque32(extension_data(e))
}

/// Whether an extension can be encoded: the lists of required capabilities
/// fit their one-byte length, and any content its four-byte length.
pub open spec fn extension_encodable(e: ExtensionView) -> bool {
    match e {
        ExtensionView::RequiredCapabilities(ex, pr) => 2 * ex.len() <= 0xff && 2 * pr.len() <= 0xff,
        ExtensionView::Other(_, d) => d.len() <= 0xffff_ffff,
    }
}

/// The encodings of a list of extensions, one after the other.
pub open spec fn enc_extensions(es: Seq<ExtensionView>) -> Seq<u8>
    decreases es.len(),
{
    if es.len() == 0 {
        Seq::empty()
    } else {
        enc_extensions(es.drop_last()) + enc_extension(es.last())
    }
}

/// Appends a list of 16-bit values with a one-byte length prefix; fails when
/// the list takes more than 255 bytes.
fn push_u16_list(buf: &mut Vec<u8>, l: &[u16]) -> (res: Result<(), CodecError>)
    ensures
        2 * l@.len() <= 0xff ==> res is Ok && final(buf)@ == old(buf)@ + opaque8(u16_list_bytes(l@)),
        2 * l@.len() > 0xff ==> res == Err::<(), CodecError>(CodecError::EncodingError),
{
    let mut bytes: Vec<u8> = Vec::new();
    let mut i: usize = 0;
    while i < l.len()
        invariant
            i <= l@.len(),
            bytes@ == u16_list_bytes(l@.take(i as int)),
        decreases l@.len() - i,
    {
        push_u16(&mut bytes, l[i]);
        assert(l@.take(i + 1).drop_last() =~= l@.take(i as int));
        i = i + 1;
    }
    assert(l@.take(i as int) =~= l@);
    proof {
        lemma_u16_list_len(l@);
    }
    push_opaque(buf, bytes.as_slice(), 1)
}

/// Appends the encoding of an extension; fails when it cannot be encoded.
pub fn push_extension(buf: &mut Vec<u8>, e: &Extension) -> (res: Result<(), CodecError>)
    ensures
        extension_encodable(e.spec_view()) ==> res is Ok && final(buf)@ == old(buf)@ + enc_extension(
            e.spec_view(),
        ),
        !extension_encodable(e.spec_view()) ==> res == Err::<(), CodecError>(CodecError::EncodingError),
{
    let mut data: Vec<u8> = Vec::new();
    match e {
        Extension::RequiredCapabilities(r) => {
            push_u16_list(&mut data, r.extensions.as_slice())?;
            push_u16_list(&mut data, r.proposals.as_slice())?;
            proof {
                lemma_u16_list_len(r.extensions@);
                lemma_u16_list_len(r.proposals@);
            }
        },
        Extension::Other(_, d) => {
            data = vstd::slice::slice_to_vec(d.as_slice());
        },
    }
    assert(data@ =~= extension_data(e.spec_view()));
    let mut out: Vec<u8> = Vec::new();
    push_u16(&mut out, extension_type_to_u16(e.extension_type()));
    push_opaque(&mut out, data.as_slice(), 4)?;
    buf.append(&mut out);
    assert(final(buf)@ =~= old(buf)@ + enc_extension(e.spec_view()));
    Ok(())
}

/// Appends the encodings of a list of extensions; fails when one of them
/// cannot be encoded.
pub fn push_extensions(buf: &mut Vec<u8>, es: &[Extension]) -> (res: Result<(), CodecError>)
    ensures
        (forall|i: int| 0 <= i < es@.len() ==> #[trigger] extension_encodable(es@[i].spec_view()))
            ==> res is Ok && final(buf)@ == old(buf)@ + enc_extensions(extension_views(es@)),
        !(forall|i: int| 0 <= i < es@.len() ==> #[trigger] extension_encodable(es@[i].spec_view()))
            ==> res == Err::<(), CodecError>(CodecError::EncodingError),
{
    let ghost start = buf@;
    let mut i: usize = 0;
    while i < es.len()
        invariant
            i <= es@.len(),
            buf@ == start + enc_extensions(extension_views(es@.take(i as int))),
            forall|j: int| 0 <= j < i ==> #[trigger] extension_encodable(es@[j].spec_view()),
        decreases es@.len() - i,
    {
        match push_extension(buf, &es[i]) {
            Ok(()) => {},
            Err(e) => return Err(e),
        }
        assert(extension_views(es@.take(i + 1)).drop_last() =~= extension_views(es@.take(i as int)));
        assert(extension_views(es@.take(i + 1)).last() == es@[i as int].spec_view());
        i = i + 1;
    }
    assert(es@.take(i as int) =~= es@);
    Ok(())
}

/// The views of a sequence of extensions.
pub open spec fn extension_views(es: Seq<Extension>) -> Seq<ExtensionView> {
    es.map_values(|e: Extension| e.spec_view())
}

/// Copies a list of extensions.
pub fn duplicate_extensions(extensions: &[Extension]) -> (v: Vec<Extension>)
    ensures
        extension_views(v@) == extension_views(extensions@),
{
    let mut v: Vec<Extension> = Vec::new();
    let mut i: usize = 0;
    while i < extensions.len()
        invariant
            i <= extensions@.len(),
            v@.len() == i,
            forall|j: int| 0 <= j < i ==> #[trigger] v@[j].spec_view() == extensions@[j].spec_view(),
        decreases extensions@.len() - i,
    {
        v.push(extensions[i].duplicate());
        i = i + 1;
    }
    assert(extension_views(v@) =~= extension_views(extensions@));
    v
}

} // verus!
