//! The file-offer wire entity and its desktop binary encoding: a fixed
//! 4-byte magic, the protocol version, and the versioned fields of the
//! offer. A unit whose magic or version does not match is rejected whole.

use vstd::prelude::*;

use vstd::bytes::{lemma_auto_spec_u16_to_from_le_bytes, lemma_auto_spec_u64_to_from_le_bytes,
    spec_u16_from_le_bytes, spec_u16_to_le_bytes, spec_u64_from_le_bytes, spec_u64_to_le_bytes,
    u16_from_le_bytes, u16_to_le_bytes, u64_from_le_bytes, u64_to_le_bytes};

use crate::bytes::copy_bytes;

verus! {

/// The version every file-transfer unit must carry, on UDP and TCP alike.
pub const FILE_PROTOCOL_VERSION: u8 = 1;

/// What an offer points at: one file as it is, or a zip bundle built on
/// demand.
#[derive(Clone, Copy, Debug, PartialEq, Eq, Structural)]
pub enum OfferKind {
    SingleFile,
    ZipBundle,
}

/// The wire entity describing files available for pull-download. Immutable
/// once built; the offer id is 16 random bytes, never content-derived.
pub struct FileOffer {
    pub offer_id: Vec<u8>,
    pub name: Vec<u8>,
    pub size: u64,
    pub kind: OfferKind,
    pub protocol_version: u8,
    pub tcp_port: u16,
}

/// The mathematical content of a [`FileOffer`].
#[verifier::ext_equal]
pub struct FileOfferView {
    pub offer_id: Seq<u8>,
    pub name: Seq<u8>,
    pub size: u64,
    pub kind: OfferKind,
    pub protocol_version: u8,
    pub tcp_port: u16,
}

impl View for FileOffer {
    type V = FileOfferView;

    open spec fn view(&self) -> FileOfferView {
        FileOfferView {
            offer_id: self.offer_id@,
            name: self.name@,
            size: self.size,
            kind: self.kind,
            protocol_version: self.protocol_version,
            tcp_port: self.tcp_port,
        }
    }
}

impl FileOffer {
    /// A well-formed offer carries a 16-byte id and a name that fits the
    /// wire format's 16-bit length field.
    pub open spec fn wf(&self) -> bool {
        self.offer_id@.len() == 16 && self.name@.len() <= 0xFFFF
    }
}

/// The 4-byte magic that opens a desktop file-offer unit, `"FOFT"`.
pub open spec fn spec_foft_magic() -> Seq<u8> {
    seq![70u8, 79u8, 70u8, 84u8]
}

/// The wire byte for an offer kind.
pub open spec fn spec_kind_byte(k: OfferKind) -> u8 {
    match k {
        OfferKind::SingleFile => 0u8,
        OfferKind::ZipBundle => 1u8,
    }
}

/// The desktop binary encoding of a file offer: magic, version, offer id,
/// kind, size, TCP port, name length and name.
pub open spec fn spec_encode_foft(v: FileOfferView) -> Seq<u8> {
    spec_foft_magic() + seq![v.protocol_version] + v.offer_id + seq![spec_kind_byte(v.kind)]
        + spec_u64_to_le_bytes(v.size) + spec_u16_to_le_bytes(v.tcp_port) + spec_u16_to_le_bytes(
        v.name.len() as u16,
    ) + v.name
}

/// What decoding a desktop file-offer unit yields: the offer when magic,
/// version, kind and framing all check out, and nothing otherwise.
pub open spec fn spec_decode_foft(b: Seq<u8>) -> Option<FileOfferView> {
    if b.len() < 34 {
        None
    } else if b.take(4) != spec_foft_magic() {
        None
    } else if b[4] != FILE_PROTOCOL_VERSION {
        None
    } else if b[21] != 0 && b[21] != 1 {
        None
    } else if b.len() != 34 + spec_u16_from_le_bytes(b.subrange(32, 34)) {
        None
    } else {
        Some(
            FileOfferView {
                offer_id: b.subrange(5, 21),
                name: b.skip(34),
                size: spec_u64_from_le_bytes(b.subrange(22, 30)),
                kind: if b[21] == 0 {
                    OfferKind::SingleFile
                } else {
                    OfferKind::ZipBundle
                },
                protocol_version: b[4],
                tcp_port: spec_u16_from_le_bytes(b.subrange(30, 32)),
            },
        )
    }
}

/// Encode a file offer as a desktop `FOFT` unit.
pub fn encode_foft(offer: &FileOffer) -> (r: Vec<u8>)
    requires
        offer.wf(),
    ensures
        r@ == spec_encode_foft(offer@),
        r@.len() == 34 + offer.name@.len(),
{
    let mut out: Vec<u8> = Vec::new();
    out.push(70);
    out.push(79);
    out.push(70);
    out.push(84);
    out.push(offer.protocol_version);
    out.extend_from_slice(offer.offer_id.as_slice());
    out.push(
        match offer.kind {
            OfferKind::SingleFile => 0,
            OfferKind::ZipBundle => 1,
        },
    );
    let size_bytes = u64_to_le_bytes(offer.size);
    out.extend_from_slice(size_bytes.as_slice());
    let port_bytes = u16_to_le_bytes(offer.tcp_port);
    out.extend_from_slice(port_bytes.as_slice());
    let nlen_bytes = u16_to_le_bytes(offer.name.len() as u16);
    out.extend_from_slice(nlen_bytes.as_slice());
    out.extend_from_slice(offer.name.as_slice());
    proof {
        assert(out@ =~= spec_encode_foft(offer@));
    }
    out
}

/// Decode a desktop `FOFT` unit; a magic, version, kind or framing mismatch
/// rejects the unit.
pub fn decode_foft(b: &[u8]) -> (r: Option<FileOffer>)
    ensures
        r is Some <==> spec_decode_foft(b@) is Some,
        r matches Some(o) ==> spec_decode_foft(b@) == Some(o@) && o.wf() && o.protocol_version
            == FILE_PROTOCOL_VERSION,
{
    if b.len() < 34 {
        return None;
    }
    if !(b[0] == 70 && b[1] == 79 && b[2] == 70 && b[3] == 84) {
        proof {
            assert(b@.take(4) != spec_foft_magic());
        }
        return None;
    }
    proof {
        assert(b@.take(4) =~= spec_foft_magic());
    }
    if b[4] != FILE_PROTOCOL_VERSION {
        return None;
    }
    let kind_byte = b[21];
    if kind_byte != 0 && kind_byte != 1 {
        return None;
    }
    let size = u64_from_le_bytes(&b[22..30]);
    let port = u16_from_le_bytes(&b[30..32]);
    let nlen = u16_from_le_bytes(&b[32..34]);
    if b.len() != 34 + (nlen as usize) {
        return None;
    }
    let offer = FileOffer {
        offer_id: copy_bytes(&b[5..21]),
        name: copy_bytes(&b[34..b.len()]),
        size,
        kind: if kind_byte == 0 {
            OfferKind::SingleFile
        } else {
            OfferKind::ZipBundle
        },
        protocol_version: FILE_PROTOCOL_VERSION,
        tcp_port: port,
    };
    proof {
        assert(b@.subrange(34, b@.len() as int) =~= b@.skip(34));
        assert(offer@ =~= spec_decode_foft(b@).unwrap());
    }
    Some(offer)
}

/// Decoding inverts encoding: a well-formed offer that carries the
/// implementation's protocol version survives the round trip unchanged.
pub proof fn lemma_foft_round_trip(v: FileOfferView)
    requires
        v.offer_id.len() == 16,
        v.name.len() <= 0xFFFF,
        v.protocol_version == FILE_PROTOCOL_VERSION,
    ensures
        spec_decode_foft(spec_encode_foft(v)) == Some(v),
{
    lemma_auto_spec_u64_to_from_le_bytes();
    lemma_auto_spec_u16_to_from_le_bytes();
    let e = spec_encode_foft(v);
    assert(e.len() == 34 + v.name.len());
    assert(e.take(4) =~= spec_foft_magic());
    assert(e[4] == v.protocol_version);
    assert(e.subrange(5, 21) =~= v.offer_id);
    assert(e[21] == spec_kind_byte(v.kind));
    assert(e.subrange(22, 30) =~= spec_u64_to_le_bytes(v.size));
    assert(e.subrange(30, 32) =~= spec_u16_to_le_bytes(v.tcp_port));
    assert(e.subrange(32, 34) =~= spec_u16_to_le_bytes(v.name.len() as u16));
    assert(e.skip(34) =~= v.name);
    assert(spec_decode_foft(e).unwrap() =~= v);
}

/// A version other than the implementation's is rejected: decoding an
/// offer encoded with a mismatched version yields nothing.
pub proof fn lemma_foft_version_mismatch(v: FileOfferView)
    requires
        v.offer_id.len() == 16,
        v.name.len() <= 0xFFFF,
        v.protocol_version != FILE_PROTOCOL_VERSION,
    ensures
        spec_decode_foft(spec_encode_foft(v)) is None,
{
    lemma_auto_spec_u64_to_from_le_bytes();
    lemma_auto_spec_u16_to_from_le_bytes();
    let e = spec_encode_foft(v);
    assert(e.len() == 34 + v.name.len());
    assert(e.take(4) =~= spec_foft_magic());
    assert(e[4] == v.protocol_version);
}

} // verus!
