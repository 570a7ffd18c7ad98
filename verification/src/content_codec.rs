//! The encoding of message contents: application data, proposals and
//! commits, and the padded `MLSCiphertextContent` that is encrypted.
//!
//! ```text
//! struct {
//!     select (MLSCiphertext.content_type) {
//!         case application: opaque application_data<0..2^32-1>;
//!         case proposal:    Proposal proposal;
//!         case commit:      Commit commit;
//!     }
//!     opaque signature<0..2^16-1>;
//!     optional<MAC> confirmation_tag;
//!     opaque padding<0..2^16-1>;
//! } MLSCiphertextContent;
//! ```
//!
//! A proposal is its 16-bit type and its encoded body (`opaque<0..2^32-1>`);
//! a proposal reference is `opaque<0..255>`; `ProposalOrRef` carries a tag
//! byte, 1 for a proposal and 2 for a reference. A commit is
//! `ProposalOrRef proposals<0..2^32-1>; optional<UpdatePath> path;`, an update
//! path the credential (`opaque identity<0..2^16-1>; uint16 scheme;
//! opaque signature_key<0..2^16-1>`), the rest of the key package
//! (`opaque<0..2^32-1>`) and the encrypted path secrets (`opaque<0..2^32-1>`).

use vstd::prelude::*;

use crate::codec::{
    push_opaque, read_opaque, read_u16, read_u32, read_u8, CodecError, fits, lemma_opaque_roundtrip, lemma_parse_u16_roundtrip, lemma_parse_u32_roundtrip, opaque,
    opaque16, opaque32, opaque8, parse_opaque, parse_u16, parse_u32, parse_u8,
};
use crate::crypto::{push_u16, u16_bytes, u32_bytes};
use crate::framing::{
    Commit, ContentType, ContentView, Credential, KeyPackage, MlsPlaintextContentType, Proposal,
    ProposalOrRef, ProposalOrRefView, UpdatePath, UpdatePathView, proposal_views,
};

verus! {

pub open spec fn enc_credential(c: (Seq<u8>, u16, Seq<u8>)) -> Seq<u8> {
    opaque16(c.0) + u16_bytes(c.1 as nat) + opaque16(c.2)
}

pub open spec fn enc_update_path(p: UpdatePathView) -> Seq<u8> {
    enc_credential(p.credential) + opaque32(p.payload) + opaque32(p.nodes)
}

pub open spec fn enc_proposal(t: u16, body: Seq<u8>) -> Seq<u8> {
    u16_bytes(t as nat) + opaque32(body)
}

pub open spec fn enc_proposal_or_ref(p: ProposalOrRefView) -> Seq<u8> {
    match p {
        ProposalOrRefView::Proposal(t, b) => seq![1u8] + enc_proposal(t, b),
        ProposalOrRefView::Reference(r) => seq![2u8] + opaque8(r),
    }
}

pub open spec fn enc_proposals(ps: Seq<ProposalOrRefView>) -> Seq<u8>
    decreases ps.len(),
{
    if ps.len() == 0 {
        Seq::empty()
    } else {
        enc_proposal_or_ref(ps[0]) + enc_proposals(ps.drop_first())
    }
}

pub open spec fn enc_optional_path(p: Option<UpdatePathView>) -> Seq<u8> {
    match p {
        None => seq![0u8],
        Some(u) => seq![1u8] + enc_update_path(u),
    }
}

/// The encoding of a content, without its type.
pub open spec fn enc_content(c: ContentView) -> Seq<u8> {
    match c {
        ContentView::Application(d) => opaque32(d),
        ContentView::Proposal(t, b) => enc_proposal(t, b),
        ContentView::Commit(ps, path) => opaque32(enc_proposals(ps)) + enc_optional_path(path),
    }
}

pub open spec fn enc_optional_tag(tag: Option<Seq<u8>>) -> Seq<u8> {
    match tag {
        None => seq![0u8],
        Some(m) => seq![1u8] + opaque8(m),
    }
}

/// `padding` zero bytes.
pub open spec fn zeros(padding: nat) -> Seq<u8> {
    Seq::new(padding, |i: int| 0u8)
}

/// The encoding of an `MLSCiphertextContent`.
pub open spec fn enc_ciphertext_content(
    c: ContentView,
    signature: Seq<u8>,
    tag: Option<Seq<u8>>,
    padding: nat,
) -> Seq<u8> {
    enc_content(c) + opaque16(signature) + enc_optional_tag(tag) + opaque16(zeros(padding))
}

pub open spec fn credential_encodable(c: (Seq<u8>, u16, Seq<u8>)) -> bool {
    c.0.len() <= 0xffff && c.2.len() <= 0xffff
}

pub open spec fn update_path_encodable(p: UpdatePathView) -> bool {
    &&& credential_encodable(p.credential)
    &&& p.payload.len() <= 0xffff_ffff
    &&& p.nodes.len() <= 0xffff_ffff
}

pub open spec fn proposal_or_ref_encodable(p: ProposalOrRefView) -> bool {
    match p {
        ProposalOrRefView::Proposal(t, b) => b.len() <= 0xffff_ffff,
        ProposalOrRefView::Reference(r) => r.len() <= 0xff,
    }
}

/// Whether every length in a content fits its prefix.
pub open spec fn content_encodable(c: ContentView) -> bool {
    match c {
        ContentView::Application(d) => d.len() <= 0xffff_ffff,
        ContentView::Proposal(t, b) => b.len() <= 0xffff_ffff,
        ContentView::Commit(ps, path) => {
            &&& forall|i: int| 0 <= i < ps.len() ==> #[trigger] proposal_or_ref_encodable(ps[i])
            &&& enc_proposals(ps).len() <= 0xffff_ffff
            &&& (path matches Some(u) ==> update_path_encodable(u))
        },
    }
}

/// Whether an `MLSCiphertextContent` can be encoded.
pub open spec fn ciphertext_content_encodable(
    c: ContentView,
    signature: Seq<u8>,
    tag: Option<Seq<u8>>,
    padding: nat,
) -> bool {
    &&& content_encodable(c)
    &&& signature.len() <= 0xffff
    &&& (tag matches Some(m) ==> m.len() <= 0xff)
    &&& padding <= 0xffff
}

pub open spec fn parse_credential(s: Seq<u8>) -> Option<((Seq<u8>, u16, Seq<u8>), nat)> {
    match parse_opaque(s, 2) {
        Some((id, n1)) => match parse_u16(s.skip(n1 as int)) {
            Some((scheme, n2)) => match parse_opaque(s.skip((n1 + n2) as int), 2) {
                Some((key, n3)) => Some(((id, scheme, key), n1 + n2 + n3)),
                None => None,
            },
            None => None,
        },
        None => None,
    }
}

pub open spec fn parse_update_path(s: Seq<u8>) -> Option<(UpdatePathView, nat)> {
    match parse_credential(s) {
        Some((c, n1)) => match parse_opaque(s.skip(n1 as int), 4) {
            Some((payload, n2)) => match parse_opaque(s.skip((n1 + n2) as int), 4) {
                Some((nodes, n3)) => Some(
                    (UpdatePathView { credential: c, payload, nodes }, n1 + n2 + n3),
                ),
                None => None,
            },
            None => None,
        },
        None => None,
    }
}

pub open spec fn parse_proposal(s: Seq<u8>) -> Option<((u16, Seq<u8>), nat)> {
    match parse_u16(s) {
        Some((t, n1)) => match parse_opaque(s.skip(n1 as int), 4) {
            Some((b, n2)) => Some(((t, b), n1 + n2)),
            None => None,
        },
        None => None,
    }
}

pub open spec fn parse_proposal_or_ref(s: Seq<u8>) -> Option<(ProposalOrRefView, nat)> {
    match parse_u8(s) {
        Some((tag, n1)) => if tag == 1 {
            match parse_proposal(s.skip(1)) {
                Some((p, n2)) => Some((ProposalOrRefView::Proposal(p.0, p.1), 1 + n2)),
                None => None,
            }
        } else if tag == 2 {
            match parse_opaque(s.skip(1), 1) {
                Some((r, n2)) => Some((ProposalOrRefView::Reference(r), 1 + n2)),
                None => None,
            }
        } else {
            None
        },
        None => None,
    }
}

/// Reads proposals as long as fewer than `budget` bytes were consumed, as a
/// vector with a length prefix is read.
pub open spec fn parse_proposals(s: Seq<u8>, budget: nat) -> Option<(Seq<ProposalOrRefView>, nat)>
    decreases budget,
{
    if budget == 0 {
        Some((Seq::empty(), 0))
    } else {
        match parse_proposal_or_ref(s) {
            Some((p, n)) => if n == 0 {
                None
            } else if n >= budget {
                Some((seq![p], n))
            } else {
                match parse_proposals(s.skip(n as int), (budget - n) as nat) {
                    Some((ps, m)) => Some((seq![p] + ps, n + m)),
                    None => None,
                }
            },
            None => None,
        }
    }
}

pub open spec fn parse_optional_path(s: Seq<u8>) -> Option<(Option<UpdatePathView>, nat)> {
    match parse_u8(s) {
        Some((tag, n1)) => if tag == 0 {
            Some((None, 1))
        } else if tag == 1 {
            match parse_update_path(s.skip(1)) {
                Some((p, n2)) => Some((Some(p), 1 + n2)),
                None => None,
            }
        } else {
            None
        },
        None => None,
    }
}

pub open spec fn parse_commit(s: Seq<u8>) -> Option<(ContentView, nat)> {
    match parse_u32(s) {
        Some((len, n1)) => match parse_proposals(s.skip(n1 as int), len as nat) {
            Some((ps, n2)) => match parse_optional_path(s.skip((n1 + n2) as int)) {
                Some((path, n3)) => Some((ContentView::Commit(ps, path), n1 + n2 + n3)),
                None => None,
            },
            None => None,
        },
        None => None,
    }
}

/// Reads a content of the given type.
pub open spec fn parse_content(content_type: ContentType, s: Seq<u8>) -> Option<(ContentView, nat)> {
    match content_type {
        ContentType::Application => match parse_opaque(s, 4) {
            Some((d, n)) => Some((ContentView::Application(d), n)),
            None => None,
        },
        ContentType::Proposal => match parse_proposal(s) {
            Some((p, n)) => Some((ContentView::Proposal(p.0, p.1), n)),
            None => None,
        },
        ContentType::Commit => parse_commit(s),
    }
}

pub open spec fn parse_optional_tag(s: Seq<u8>) -> Option<(Option<Seq<u8>>, nat)> {
    match parse_u8(s) {
        Some((tag, n1)) => if tag == 0 {
            Some((None, 1))
        } else if tag == 1 {
            match parse_opaque(s.skip(1), 1) {
                Some((m, n2)) => Some((Some(m), 1 + n2)),
                None => None,
            }
        } else {
            None
        },
        None => None,
    }
}

/// What an `MLSCiphertextContent` of the given content type reads as: the
/// content, the signature, the confirmation tag and the padding. Bytes after
/// the padding are not read.
pub open spec fn parse_ciphertext_content(content_type: ContentType, s: Seq<u8>) -> Option<
    (ContentView, Seq<u8>, Option<Seq<u8>>, Seq<u8>),
> {
    match parse_content(content_type, s) {
        Some((c, n1)) => match parse_opaque(s.skip(n1 as int), 2) {
            Some((sig, n2)) => match parse_optional_tag(s.skip((n1 + n2) as int)) {
                Some((tag, n3)) => match parse_opaque(s.skip((n1 + n2 + n3) as int), 2) {
                    Some((padding, n4)) => Some((c, sig, tag, padding)),
                    None => None,
                },
                None => None,
            },
            None => None,
        },
        None => None,
    }
}

/// `(a + b).skip(a.len())` is `b`.
pub proof fn lemma_skip_prefix(a: Seq<u8>, b: Seq<u8>)
    ensures
        (a + b).skip(a.len() as int) =~= b,
{
}

pub proof fn lemma_credential_roundtrip(c: (Seq<u8>, u16, Seq<u8>), rest: Seq<u8>)
    requires
        credential_encodable(c),
    ensures
        parse_credential(enc_credential(c) + rest) == Some((c, enc_credential(c).len())),
{
    let a = opaque16(c.0);
    let b = u16_bytes(c.1 as nat);
    let d = opaque16(c.2);
    let s = enc_credential(c) + rest;
    assert(s =~= a + (b + d + rest));
    lemma_opaque_roundtrip(c.0, 2, b + d + rest);
    lemma_skip_prefix(a, b + d + rest);
    assert(b + d + rest =~= b + (d + rest));
    lemma_parse_u16_roundtrip(c.1, d + rest);
    assert(s.skip((a.len() + 2) as int) =~= d + rest);
    lemma_opaque_roundtrip(c.2, 2, rest);
}

#[verifier::rlimit(60)]
pub proof fn lemma_update_path_roundtrip(p: UpdatePathView, rest: Seq<u8>)
    requires
        update_path_encodable(p),
    ensures
        parse_update_path(enc_update_path(p) + rest) == Some((p, enc_update_path(p).len())),
{
    let a = enc_credential(p.credential);
    let b = opaque32(p.payload);
    let d = opaque32(p.nodes);
    let s = enc_update_path(p) + rest;
    assert(s =~= a + (b + d + rest));
    lemma_credential_roundtrip(p.credential, b + d + rest);
    assert(parse_credential(s) == Some((p.credential, a.len())));
    let s1 = s.skip(a.len() as int);
    assert(s1 =~= b + (d + rest));
    lemma_opaque_roundtrip(p.payload, 4, d + rest);
    assert(parse_opaque(s1, 4) == Some((p.payload, b.len())));
    let s2 = s.skip((a.len() + b.len()) as int);
    assert(s2 =~= d + rest);
    lemma_opaque_roundtrip(p.nodes, 4, rest);
    assert(parse_opaque(s2, 4) == Some((p.nodes, d.len())));
    assert(enc_update_path(p).len() == a.len() + b.len() + d.len());
}

pub proof fn lemma_proposal_roundtrip(t: u16, body: Seq<u8>, rest: Seq<u8>)
    requires
        body.len() <= 0xffff_ffff,
    ensures
        parse_proposal(enc_proposal(t, body) + rest) == Some(((t, body), enc_proposal(t, body).len())),
{
    let a = u16_bytes(t as nat);
    let b = opaque32(body);
    let s = enc_proposal(t, body) + rest;
    assert(s =~= a + (b + rest));
    lemma_parse_u16_roundtrip(t, b + rest);
    assert(s.skip(2) =~= b + rest);
    lemma_opaque_roundtrip(body, 4, rest);
}

pub proof fn lemma_proposal_or_ref_roundtrip(p: ProposalOrRefView, rest: Seq<u8>)
    requires
        proposal_or_ref_encodable(p),
    ensures
        parse_proposal_or_ref(enc_proposal_or_ref(p) + rest) == Some(
            (p, enc_proposal_or_ref(p).len()),
        ),
        enc_proposal_or_ref(p).len() >= 1,
{
    let s = enc_proposal_or_ref(p) + rest;
    match p {
        ProposalOrRefView::Proposal(t, b) => {
            assert(s[0] == 1u8);
            assert(s.skip(1) =~= enc_proposal(t, b) + rest);
            lemma_proposal_roundtrip(t, b, rest);
        },
        ProposalOrRefView::Reference(r) => {
            assert(s[0] == 2u8);
            assert(s.skip(1) =~= opaque(r, 1) + rest);
            lemma_opaque_roundtrip(r, 1, rest);
        },
    }
}

pub proof fn lemma_proposals_roundtrip(ps: Seq<ProposalOrRefView>, rest: Seq<u8>)
    requires
        forall|i: int| 0 <= i < ps.len() ==> #[trigger] proposal_or_ref_encodable(ps[i]),
    ensures
        parse_proposals(enc_proposals(ps) + rest, enc_proposals(ps).len()) == Some(
            (ps, enc_proposals(ps).len()),
        ),
    decreases ps.len(),
{
    if ps.len() == 0 {
        assert(enc_proposals(ps).len() == 0);
        assert(ps =~= Seq::<ProposalOrRefView>::empty());
    } else {
        let a = enc_proposal_or_ref(ps[0]);
        let tail = ps.drop_first();
        let b = enc_proposals(tail);
        let s = enc_proposals(ps) + rest;
        assert(proposal_or_ref_encodable(ps[0]));
        assert(s =~= a + (b + rest));
        lemma_proposal_or_ref_roundtrip(ps[0], b + rest);
        assert forall|i: int| 0 <= i < tail.len() implies #[trigger] proposal_or_ref_encodable(
            tail[i],
        ) by {
            assert(tail[i] == ps[i + 1]);
        }
        lemma_proposals_roundtrip(tail, rest);
        assert(s.skip(a.len() as int) =~= b + rest);
        if b.len() == 0 {
            if tail.len() > 0 {
                lemma_proposal_or_ref_roundtrip(tail[0], Seq::empty());
                assert(false);
            }
            assert(ps =~= seq![ps[0]]);
        } else {
            assert(ps =~= seq![ps[0]] + tail);
        }
    }
}

pub proof fn lemma_optional_path_roundtrip(p: Option<UpdatePathView>, rest: Seq<u8>)
    requires
        p matches Some(u) ==> update_path_encodable(u),
    ensures
        parse_optional_path(enc_optional_path(p) + rest) == Some((p, enc_optional_path(p).len())),
{
    let s = enc_optional_path(p) + rest;
    match p {
        None => {
            assert(s[0] == 0u8);
        },
        Some(u) => {
            assert(s[0] == 1u8);
            assert(s.skip(1) =~= enc_update_path(u) + rest);
            lemma_update_path_roundtrip(u, rest);
        },
    }
}

/// A content that can be encoded reads back as itself.
pub proof fn lemma_content_roundtrip(c: ContentView, rest: Seq<u8>)
    requires
        content_encodable(c),
    ensures
        parse_content(c.content_type(), enc_content(c) + rest) == Some((c, enc_content(c).len())),
{
    match c {
        ContentView::Application(d) => {
            lemma_opaque_roundtrip(d, 4, rest);
        },
        ContentView::Proposal(t, b) => {
            lemma_proposal_roundtrip(t, b, rest);
        },
        ContentView::Commit(ps, path) => {
            lemma_commit_roundtrip(ps, path, rest);
        },
    }
}

/// A commit is read as its three parts in a row.
proof fn lemma_parse_commit_parts(
    s: Seq<u8>,
    ps: Seq<ProposalOrRefView>,
    path: Option<UpdatePathView>,
    e_len: nat,
    o_len: nat,
)
    requires
        e_len <= 0xffff_ffff,
        parse_u32(s) == Some((e_len as u32, 4nat)),
        parse_proposals(s.skip(4), e_len) == Some((ps, e_len)),
        parse_optional_path(s.skip((4 + e_len) as int)) == Some((path, o_len)),
    ensures
        parse_commit(s) == Some((ContentView::Commit(ps, path), 4 + e_len + o_len)),
{
}

/// A commit that can be encoded reads back as itself, whatever follows it.
#[verifier::spinoff_prover]
pub proof fn lemma_commit_roundtrip(
    ps: Seq<ProposalOrRefView>,
    path: Option<UpdatePathView>,
    rest: Seq<u8>,
)
    requires
        content_encodable(ContentView::Commit(ps, path)),
    ensures
        parse_commit(enc_content(ContentView::Commit(ps, path)) + rest) == Some(
            (ContentView::Commit(ps, path), enc_content(ContentView::Commit(ps, path)).len()),
        ),
{
    let e = enc_proposals(ps);
    let o = enc_optional_path(path);
    let tail = o + rest;
    let s = enc_content(ContentView::Commit(ps, path)) + rest;
    assert(forall|i: int| 0 <= i < ps.len() ==> #[trigger] proposal_or_ref_encodable(ps[i]));
    assert(e.len() <= 0xffff_ffff);
    assert(s =~= u32_bytes(e.len()) + (e + tail));
    lemma_parse_u32_roundtrip(e.len() as u32, e + tail);
    lemma_skip_prefix(u32_bytes(e.len()), e + tail);
    lemma_proposals_roundtrip(ps, tail);
    lemma_skip_prefix(e, tail);
    lemma_skip_skip(s, 4, e.len() as int);
    assert(parse_proposals(s.skip(4), e.len()) == Some((ps, e.len())));
    assert(s.skip((4 + e.len()) as int) == tail);
    assert(path matches Some(u) ==> update_path_encodable(u));
    lemma_optional_path_roundtrip(path, rest);
    assert(parse_optional_path(tail) == Some((path, o.len())));
    assert(parse_optional_path(s.skip((4 + e.len()) as int)) == Some((path, o.len())));
    assert(enc_content(ContentView::Commit(ps, path)).len() == 4 + e.len() + o.len());
    lemma_parse_commit_parts(s, ps, path, e.len(), o.len());
}

pub proof fn lemma_optional_tag_roundtrip(tag: Option<Seq<u8>>, rest: Seq<u8>)
    requires
        tag matches Some(m) ==> m.len() <= 0xff,
    ensures
        parse_optional_tag(enc_optional_tag(tag) + rest) == Some((tag, enc_optional_tag(tag).len())),
{
    let s = enc_optional_tag(tag) + rest;
    match tag {
        None => {
            assert(s[0] == 0u8);
        },
        Some(m) => {
            assert(s[0] == 1u8);
            assert(s.skip(1) =~= opaque(m, 1) + rest);
            lemma_opaque_roundtrip(m, 1, rest);
        },
    }
}

/// An `MLSCiphertextContent` reads back as its content, signature,
/// confirmation tag and zero padding, whatever follows it.
#[verifier::rlimit(60)]
pub proof fn lemma_ciphertext_content_roundtrip(
    c: ContentView,
    signature: Seq<u8>,
    tag: Option<Seq<u8>>,
    padding: nat,
    rest: Seq<u8>,
)
    requires
        ciphertext_content_encodable(c, signature, tag, padding),
    ensures
        parse_ciphertext_content(
            c.content_type(),
            enc_ciphertext_content(c, signature, tag, padding) + rest,
        ) == Some((c, signature, tag, zeros(padding))),
{
    let a = enc_content(c);
    let b = opaque16(signature);
    let t = enc_optional_tag(tag);
    let z = opaque16(zeros(padding));
    let s = enc_ciphertext_content(c, signature, tag, padding) + rest;
    assert(s =~= a + (b + (t + (z + rest))));
    lemma_content_roundtrip(c, b + (t + (z + rest)));
    assert(parse_content(c.content_type(), s) == Some((c, a.len())));
    let s1 = s.skip(a.len() as int);
    assert(s1 =~= b + (t + (z + rest)));
    lemma_opaque_roundtrip(signature, 2, t + (z + rest));
    assert(parse_opaque(s1, 2) == Some((signature, b.len())));
    let s2 = s.skip((a.len() + b.len()) as int);
    assert(s2 =~= t + (z + rest));
    lemma_optional_tag_roundtrip(tag, z + rest);
    assert(parse_optional_tag(s2) == Some((tag, t.len())));
    let s3 = s.skip((a.len() + b.len() + t.len()) as int);
    assert(s3 =~= z + rest);
    lemma_opaque_roundtrip(zeros(padding), 2, rest);
    assert(parse_opaque(s3, 2) == Some((zeros(padding), z.len())));
}

/// `s.skip(a).skip(b)` is `s.skip(a + b)`.
pub proof fn lemma_skip_skip(s: Seq<u8>, a: int, b: int)
    requires
        0 <= a,
        0 <= b,
        a + b <= s.len(),
    ensures
        s.skip(a).skip(b) =~= s.skip(a + b),
{
}

/// Appending one proposal appends its encoding.
pub proof fn lemma_enc_proposals_push(ps: Seq<ProposalOrRefView>, p: ProposalOrRefView)
    ensures
        enc_proposals(ps.push(p)) =~= enc_proposals(ps) + enc_proposal_or_ref(p),
    decreases ps.len(),
{
    if ps.len() == 0 {
        assert(ps.push(p).drop_first() =~= Seq::<ProposalOrRefView>::empty());
        assert(enc_proposals(ps.push(p).drop_first()) =~= Seq::<u8>::empty());
    } else {
        assert(ps.push(p).drop_first() =~= ps.drop_first().push(p));
        lemma_enc_proposals_push(ps.drop_first(), p);
    }
}

/// Appends the encoding of a credential; fails when a field is too long.
pub fn write_credential(buf: &mut Vec<u8>, c: &Credential) -> (res: Result<(), CodecError>)
    ensures
        res is Ok <==> credential_encodable(c.spec_view()),
        res is Ok ==> final(buf)@ == old(buf)@ + enc_credential(c.spec_view()),
{
    push_opaque(buf, c.identity.as_slice(), 2)?;
    push_u16(buf, c.signature_scheme);
    push_opaque(buf, c.signature_key.as_slice(), 2)?;
    assert(final(buf)@ =~= old(buf)@ + enc_credential(c.spec_view()));
    Ok(())
}

/// Appends the encoding of an update path; fails when a field is too long.
pub fn write_update_path(buf: &mut Vec<u8>, p: &UpdatePath) -> (res: Result<(), CodecError>)
    ensures
        res is Ok <==> update_path_encodable(p.spec_view()),
        res is Ok ==> final(buf)@ == old(buf)@ + enc_update_path(p.spec_view()),
{
    write_credential(buf, &p.leaf_key_package.credential)?;
    push_opaque(buf, p.leaf_key_package.payload.as_slice(), 4)?;
    push_opaque(buf, p.nodes.as_slice(), 4)?;
    assert(final(buf)@ =~= old(buf)@ + enc_update_path(p.spec_view()));
    Ok(())
}

/// Appends the encoding of a proposal or a proposal reference.
pub fn write_proposal_or_ref(buf: &mut Vec<u8>, p: &ProposalOrRef) -> (res: Result<(), CodecError>)
    ensures
        res is Ok <==> proposal_or_ref_encodable(p.spec_view()),
        res is Ok ==> final(buf)@ == old(buf)@ + enc_proposal_or_ref(p.spec_view()),
{
    match p {
        ProposalOrRef::Proposal(prop) => {
            buf.push(1u8);
            push_u16(buf, prop.proposal_type);
            push_opaque(buf, prop.body.as_slice(), 4)?;
        },
        ProposalOrRef::Reference(r) => {
            buf.push(2u8);
            push_opaque(buf, r.as_slice(), 1)?;
        },
    }
    assert(final(buf)@ =~= old(buf)@ + enc_proposal_or_ref(p.spec_view()));
    Ok(())
}

/// Appends the encoding of the content of a plaintext message, without its
/// type; fails when a length does not fit its prefix.
pub fn write_content(buf: &mut Vec<u8>, content: &MlsPlaintextContentType) -> (res: Result<
    (),
    CodecError,
>)
    ensures
        res is Ok <==> content_encodable(content.spec_view()),
        res is Ok ==> final(buf)@ == old(buf)@ + enc_content(content.spec_view()),
{
    match content {
        MlsPlaintextContentType::Application(d) => {
            push_opaque(buf, d.as_slice(), 4)?;
        },
        MlsPlaintextContentType::Proposal(prop) => {
            push_u16(buf, prop.proposal_type);
            push_opaque(buf, prop.body.as_slice(), 4)?;
        },
        MlsPlaintextContentType::Commit(commit) => {
            let ghost views = proposal_views(commit.proposals@);
            let mut list: Vec<u8> = Vec::new();
            let mut i: usize = 0;
            while i < commit.proposals.len()
                invariant
                    i <= commit.proposals@.len(),
                    views == proposal_views(commit.proposals@),
                    list@ == enc_proposals(views.take(i as int)),
                    forall|j: int| 0 <= j < i ==> #[trigger] proposal_or_ref_encodable(views[j]),
                    content.spec_view() matches ContentView::Commit(ps, _) && ps == views,
                decreases commit.proposals@.len() - i,
            {
                let ghost before = list@;
                match write_proposal_or_ref(&mut list, &commit.proposals[i]) {
                    Ok(()) => {},
                    Err(e) => {
                        assert(!proposal_or_ref_encodable(views[i as int]));
                        return Err(e);
                    },
                }
                proof {
                    assert(views.take(i + 1) =~= views.take(i as int).push(views[i as int]));
                    lemma_enc_proposals_push(views.take(i as int), views[i as int]);
                }
                i = i + 1;
            }
            assert(views.take(i as int) =~= views);
            match push_opaque(buf, list.as_slice(), 4) {
                Ok(()) => {},
                Err(e) => return Err(e),
            }
                    match &commit.path {
                None => {
                    buf.push(0u8);
                },
                Some(path) => {
                    buf.push(1u8);
                    write_update_path(buf, path)?;
                },
            }
        },
    }
    assert(final(buf)@ =~= old(buf)@ + enc_content(content.spec_view()));
    Ok(())
}

/// Reads a credential at position `pos`.
pub fn read_credential(bytes: &[u8], pos: usize) -> (res: Option<(Credential, usize)>)
    requires
        pos <= bytes@.len(),
    ensures
        match parse_credential(bytes@.skip(pos as int)) {
            Some((c, n)) => res matches Some((v, p)) && v.spec_view() == c && p == pos + n,
            None => res is None,
        },
        res matches Some((v, p)) ==> pos <= p <= bytes@.len(),
{
    let ghost s = bytes@.skip(pos as int);
    let (identity, p1) = match read_opaque(bytes, pos, 2) {
        Some(r) => r,
        None => return None,
    };
    proof { lemma_skip_skip(bytes@, pos as int, p1 - pos); }
    let (signature_scheme, p2) = match read_u16(bytes, p1) {
        Some(r) => r,
        None => return None,
    };
    proof { lemma_skip_skip(bytes@, pos as int, p2 - pos); }
    let (signature_key, p3) = match read_opaque(bytes, p2, 2) {
        Some(r) => r,
        None => return None,
    };
    Some((Credential { identity, signature_scheme, signature_key }, p3))
}

/// Reads an update path at position `pos`.
pub fn read_update_path(bytes: &[u8], pos: usize) -> (res: Option<(UpdatePath, usize)>)
    requires
        pos <= bytes@.len(),
    ensures
        match parse_update_path(bytes@.skip(pos as int)) {
            Some((u, n)) => res matches Some((v, p)) && v.spec_view() == u && p == pos + n,
            None => res is None,
        },
        res matches Some((v, p)) ==> pos <= p <= bytes@.len(),
{
    let (credential, p1) = match read_credential(bytes, pos) {
        Some(r) => r,
        None => return None,
    };
    proof { lemma_skip_skip(bytes@, pos as int, p1 - pos); }
    let (payload, p2) = match read_opaque(bytes, p1, 4) {
        Some(r) => r,
        None => return None,
    };
    proof { lemma_skip_skip(bytes@, pos as int, p2 - pos); }
    let (nodes, p3) = match read_opaque(bytes, p2, 4) {
        Some(r) => r,
        None => return None,
    };
    Some((UpdatePath { leaf_key_package: KeyPackage { credential, payload }, nodes }, p3))
}

/// Reads a proposal (its type and body) at position `pos`.
pub fn read_proposal(bytes: &[u8], pos: usize) -> (res: Option<(Proposal, usize)>)
    requires
        pos <= bytes@.len(),
    ensures
        match parse_proposal(bytes@.skip(pos as int)) {
            Some((pr, n)) => res matches Some((v, p)) && v.proposal_type == pr.0 && v.body@
                == pr.1 && p == pos + n,
            None => res is None,
        },
        res matches Some((v, p)) ==> pos <= p <= bytes@.len(),
{
    let (proposal_type, p1) = match read_u16(bytes, pos) {
        Some(r) => r,
        None => return None,
    };
    proof { lemma_skip_skip(bytes@, pos as int, p1 - pos); }
    let (body, p2) = match read_opaque(bytes, p1, 4) {
        Some(r) => r,
        None => return None,
    };
    Some((Proposal { proposal_type, body }, p2))
}

/// Reads a proposal or a proposal reference at position `pos`.
pub fn read_proposal_or_ref(bytes: &[u8], pos: usize) -> (res: Option<(ProposalOrRef, usize)>)
    requires
        pos <= bytes@.len(),
    ensures
        match parse_proposal_or_ref(bytes@.skip(pos as int)) {
            Some((pr, n)) => res matches Some((v, p)) && v.spec_view() == pr && p == pos + n,
            None => res is None,
        },
        res matches Some((v, p)) ==> p > pos,
        res matches Some((v, p)) ==> pos <= p <= bytes@.len(),
{
    let (tag, p1) = match read_u8(bytes, pos) {
        Some(r) => r,
        None => return None,
    };
    proof { lemma_skip_skip(bytes@, pos as int, 1); }
    if tag == 1 {
        match read_proposal(bytes, p1) {
            Some((prop, p2)) => Some((ProposalOrRef::Proposal(prop), p2)),
            None => None,
        }
    } else if tag == 2 {
        match read_opaque(bytes, p1, 1) {
            Some((r, p2)) => Some((ProposalOrRef::Reference(r), p2)),
            None => None,
        }
    } else {
        None
    }
}

/// The result of reading proposals after `acc` was read in `consumed` bytes.
pub open spec fn after_proposals(
    acc: Seq<ProposalOrRefView>,
    consumed: nat,
    r: Option<(Seq<ProposalOrRefView>, nat)>,
) -> Option<(Seq<ProposalOrRefView>, nat)> {
    match r {
        Some((ps, m)) => Some((acc + ps, consumed + m)),
        None => None,
    }
}

/// One step of reading proposals: reading the next one at `c` and going on
/// after it gives what reading from `c` gives.
pub proof fn lemma_proposals_step(
    s0: Seq<u8>,
    budget: nat,
    acc: Seq<ProposalOrRefView>,
    c: nat,
    ev: ProposalOrRefView,
    n: nat,
)
    requires
        c < budget,
        c + n <= s0.len(),
        n > 0,
        parse_proposal_or_ref(s0.skip(c as int)) == Some((ev, n)),
    ensures
        after_proposals(acc, c, parse_proposals(s0.skip(c as int), (budget - c) as nat))
            == after_proposals(
            acc.push(ev),
            c + n,
            parse_proposals(
                s0.skip((c + n) as int),
                if c + n < budget { (budget - (c + n)) as nat } else { 0 },
            ),
        ),
{
    lemma_skip_skip(s0, c as int, n as int);
    if n >= budget - c {
        assert(acc + seq![ev] =~= acc.push(ev) + Seq::<ProposalOrRefView>::empty());
    } else {
        let r = parse_proposals(s0.skip((c + n) as int), (budget - (c + n)) as nat);
        match r {
            Some((ps, m)) => {
                assert(acc + (seq![ev] + ps) =~= acc.push(ev) + ps);
            },
            None => {},
        }
    }
}

/// Reads proposals at position `pos` as long as fewer than `budget` bytes were
/// consumed.
pub fn read_proposals(bytes: &[u8], pos: usize, budget: u32) -> (res: Option<(Vec<ProposalOrRef>, usize)>)
    requires
        pos <= bytes@.len(),
    ensures
        match parse_proposals(bytes@.skip(pos as int), budget as nat) {
            Some((ps, n)) => res matches Some((v, p)) && proposal_views(v@) == ps && p == pos + n,
            None => res is None,
        },
        res matches Some((v, p)) ==> pos <= p <= bytes@.len(),
{
    let ghost s0 = bytes@.skip(pos as int);
    let limit = budget as usize;
    assert(limit as nat == budget as nat);
    let mut acc: Vec<ProposalOrRef> = Vec::new();
    let mut p = pos;
    proof {
        assert(s0.skip(0) =~= s0);
        match parse_proposals(s0, limit as nat) {
            Some((ps, m)) => {
                assert(Seq::<ProposalOrRefView>::empty() + ps =~= ps);
            },
            None => {},
        }
        assert(proposal_views(acc@) =~= Seq::<ProposalOrRefView>::empty());
    }
    while p - pos < limit
        invariant
            pos <= p <= bytes@.len(),
            s0 == bytes@.skip(pos as int),
            limit as nat == budget as nat,
            parse_proposals(s0, limit as nat) == after_proposals(
                proposal_views(acc@),
                (p - pos) as nat,
                parse_proposals(
                    s0.skip(p - pos),
                    if p - pos < limit { (limit - (p - pos)) as nat } else { 0 },
                ),
            ),
        decreases bytes@.len() - p,
    {
        let c: usize = p - pos;
        proof { lemma_skip_skip(bytes@, pos as int, c as int); }
        let ghost old_acc = proposal_views(acc@);
        let (e, q) = match read_proposal_or_ref(bytes, p) {
            Some(r) => r,
            None => {
                proof {
                    assert(bytes@.skip(p as int) == s0.skip(c as int));
                    assert(parse_proposals(s0.skip(c as int), (limit - c) as nat) is None);
                    assert(c < limit);
                    assert((if p - pos < limit { (limit - (p - pos)) as nat } else { 0 }) == (
                    limit - c) as nat);
                    assert(parse_proposals(s0, limit as nat) is None);
                }
                return None;
            },
        };
        proof {
            lemma_proposals_step(s0, limit as nat, old_acc, c as nat, e.spec_view(), (q - p) as nat);
        }
        acc.push(e);
        proof {
            assert(proposal_views(acc@) =~= old_acc.push(e.spec_view()));
        }
        p = q;
    }
    assert(proposal_views(acc@) + Seq::<ProposalOrRefView>::empty() =~= proposal_views(acc@));
    Some((acc, p))
}

/// Reads an optional update path at position `pos`.
pub fn read_optional_path(bytes: &[u8], pos: usize) -> (res: Option<(Option<UpdatePath>, usize)>)
    requires
        pos <= bytes@.len(),
    ensures
        match parse_optional_path(bytes@.skip(pos as int)) {
            Some((u, n)) => res matches Some((v, p)) && p == pos + n && match v {
                Some(path) => u == Some(path.spec_view()),
                None => u is None,
            },
            None => res is None,
        },
        res matches Some((v, p)) ==> pos <= p <= bytes@.len(),
{
    let (tag, p1) = match read_u8(bytes, pos) {
        Some(r) => r,
        None => return None,
    };
    proof { lemma_skip_skip(bytes@, pos as int, 1); }
    if tag == 0 {
        Some((None, p1))
    } else if tag == 1 {
        match read_update_path(bytes, p1) {
            Some((path, p2)) => Some((Some(path), p2)),
            None => None,
        }
    } else {
        None
    }
}

/// Reads the content of a plaintext message of the given type at position `pos`.
#[verifier::spinoff_prover]
#[verifier::rlimit(40)]
pub fn read_content(bytes: &[u8], pos: usize, content_type: ContentType) -> (res: Option<
    (MlsPlaintextContentType, usize),
>)
    requires
        pos <= bytes@.len(),
    ensures
        match parse_content(content_type, bytes@.skip(pos as int)) {
            Some((c, n)) => res matches Some((v, p)) && v.spec_view() == c && p == pos + n,
            None => res is None,
        },
        res matches Some((v, p)) ==> pos <= p <= bytes@.len(),
{
    match content_type {
        ContentType::Application => match read_opaque(bytes, pos, 4) {
            Some((d, p)) => Some((MlsPlaintextContentType::Application(d), p)),
            None => None,
        },
        ContentType::Proposal => match read_proposal(bytes, pos) {
            Some((prop, p)) => Some((MlsPlaintextContentType::Proposal(prop), p)),
            None => None,
        },
        ContentType::Commit => {
            let (len, p1) = match read_u32(bytes, pos) {
                Some(r) => r,
                None => return None,
            };
            proof { lemma_skip_skip(bytes@, pos as int, 4); }
            let (proposals, p2) = match read_proposals(bytes, p1, len) {
                Some(r) => r,
                None => return None,
            };
            proof { lemma_skip_skip(bytes@, pos as int, p2 - pos); }
            let (path, p3) = match read_optional_path(bytes, p2) {
                Some(r) => r,
                None => return None,
            };
            let commit = Commit { proposals, path };
            let content = MlsPlaintextContentType::Commit(commit);
            proof {
                assert(content.spec_view() == ContentView::Commit(
                    proposal_views(commit.proposals@),
                    match commit.path {
                        Some(u) => Some(u.spec_view()),
                        None => None,
                    },
                ));
            }
            Some((content, p3))
        },
    }
}

} // verus!
