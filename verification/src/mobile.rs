//! The mobile dialect of the wire protocol: raw-framed encrypted chat
//! (`MENCM`), the JSON channel announcement (`MANCH`), and validation of a
//! mobile file offer's extracted fields.

use vstd::prelude::*;

use crate::bytes::{copy_bytes, spec_hex_to_bytes, spec_is_hex, hex_to_offer_id};
use crate::channel::{Channel, SecureMessage, encrypt_message, spec_decrypt, spec_validation_text};
use crate::codec::{FILE_PROTOCOL_VERSION, FileOffer, OfferKind};
use crate::crypto::{aead_open, aead_plain, b64_of, base64_encode};

verus! {

/// The 5-byte tag that opens a mobile encrypted chat unit, `"MENCM"`.
pub open spec fn spec_mencm_tag() -> Seq<u8> {
    seq![77u8, 69u8, 78u8, 67u8, 77u8]
}

/// Seal a chat message for the mobile dialect: the `MENCM` tag, the fresh
/// 12-byte nonce, then the ciphertext, in one raw frame.
pub fn encrypt_message_phone(key: &[u8], msg_content: &[u8]) -> (r: Vec<u8>)
    requires
        key@.len() == 32,
        msg_content@.len() < 0x1000_0000,
    ensures
        r@.len() == 17 + msg_content@.len() + 16,
        r@.take(5) == spec_mencm_tag(),
        aead_plain(key@, r@.subrange(5, 17), r@.skip(17)) == Some(msg_content@),
{
    let sealed = encrypt_message(key, msg_content);
    let mut out: Vec<u8> = Vec::new();
    out.push(77);
    out.push(69);
    out.push(78);
    out.push(67);
    out.push(77);
    out.extend_from_slice(sealed.nonce.as_slice());
    out.extend_from_slice(sealed.ciphertext.as_slice());
    proof {
        assert(out@.take(5) =~= spec_mencm_tag());
        assert(out@.subrange(5, 17) =~= sealed.nonce@);
        assert(out@.skip(17) =~= sealed.ciphertext@);
    }
    out
}

/// Split a mobile encrypted chat payload (the bytes after the tag) into
/// nonce and ciphertext; a payload too short to hold both is rejected.
pub fn parse_mencm_payload(payload: &[u8]) -> (r: Option<(Vec<u8>, Vec<u8>)>)
    ensures
        r is Some <==> payload@.len() > 12,
        r matches Some((nonce, ct)) ==> nonce@ == payload@.take(12) && ct@ == payload@.skip(12)
            && nonce@.len() == 12,
{
    if payload.len() <= 12 {
        return None;
    }
    let nonce = copy_bytes(&payload[0..12]);
    let ct = copy_bytes(&payload[12..payload.len()]);
    proof {
        assert(payload@.subrange(0, 12) =~= payload@.take(12));
        assert(payload@.subrange(12, payload@.len() as int) =~= payload@.skip(12));
    }
    Some((nonce, ct))
}

/// Open a mobile chat unit given its nonce and ciphertext; a failed
/// authentication yields nothing.
pub fn decrypt_message_phone(key: &[u8], nonce: &[u8], ciphertext: &[u8]) -> (r: Option<Vec<u8>>)
    requires
        key@.len() == 32,
        nonce@.len() == 12,
    ensures
        match r {
            Some(p) => aead_plain(key@, nonce@, ciphertext@) == Some(p@),
            None => aead_plain(key@, nonce@, ciphertext@) is None,
        },
{
    aead_open(key, nonce, ciphertext)
}

/// The fixed parts of the mobile announcement JSON object.
pub open spec fn spec_manch_salt_prefix() -> Seq<u8> {
    // `{"salt":"`
    seq![123u8, 34u8, 115u8, 97u8, 108u8, 116u8, 34u8, 58u8, 34u8]
}

pub open spec fn spec_manch_nonce_prefix() -> Seq<u8> {
    // `","validation":{"nonce":"`
    seq![
        34u8, 44u8, 34u8, 118u8, 97u8, 108u8, 105u8, 100u8, 97u8, 116u8, 105u8, 111u8, 110u8,
        34u8, 58u8, 123u8, 34u8, 110u8, 111u8, 110u8, 99u8, 101u8, 34u8, 58u8, 34u8,
    ]
}

pub open spec fn spec_manch_ciphertext_prefix() -> Seq<u8> {
    // `","ciphertext":"`
    seq![34u8, 44u8, 34u8, 99u8, 105u8, 112u8, 104u8, 101u8, 114u8, 116u8, 101u8, 120u8, 116u8,
        34u8, 58u8, 34u8]
}

pub open spec fn spec_manch_suffix() -> Seq<u8> {
    // `"}}`
    seq![34u8, 125u8, 125u8]
}

/// The mobile announcement JSON: salt, nonce and ciphertext as base64
/// strings in a fixed-shape object.
pub open spec fn spec_manch_json(salt_b64: Seq<u8>, nonce_b64: Seq<u8>, ct_b64: Seq<u8>) -> Seq<
    u8,
> {
    spec_manch_salt_prefix() + salt_b64 + spec_manch_nonce_prefix() + nonce_b64 + spec_manch_ciphertext_prefix() + ct_b64
        + spec_manch_suffix()
}

/// Render a salt and a sealed validation unit as the mobile announcement
/// JSON object, base64-encoding each byte field.
pub fn manch_json(salt: &[u8], validation: &SecureMessage) -> (r: Vec<u8>)
    ensures
        r@ == spec_manch_json(
            b64_of(salt@),
            b64_of(validation.nonce@),
            b64_of(validation.ciphertext@),
        ),
{
    let salt_b64 = base64_encode(salt);
    let nonce_b64 = base64_encode(validation.nonce.as_slice());
    let ct_b64 = base64_encode(validation.ciphertext.as_slice());
    let mut out: Vec<u8> = Vec::new();
    out.push(123);
    out.push(34);
    out.push(115);
    out.push(97);
    out.push(108);
    out.push(116);
    out.push(34);
    out.push(58);
    out.push(34);
    out.extend_from_slice(salt_b64.as_slice());
    let ghost mid1 = out@;
    out.push(34);
    out.push(44);
    out.push(34);
    out.push(118);
    out.push(97);
    out.push(108);
    out.push(105);
    out.push(100);
    out.push(97);
    out.push(116);
    out.push(105);
    out.push(111);
    out.push(110);
    out.push(34);
    out.push(58);
    out.push(123);
    out.push(34);
    out.push(110);
    out.push(111);
    out.push(110);
    out.push(99);
    out.push(101);
    out.push(34);
    out.push(58);
    out.push(34);
    out.extend_from_slice(nonce_b64.as_slice());
    let ghost mid2 = out@;
    out.push(34);
    out.push(44);
    out.push(34);
    out.push(99);
    out.push(105);
    out.push(112);
    out.push(104);
    out.push(101);
    out.push(114);
    out.push(116);
    out.push(101);
    out.push(120);
    out.push(116);
    out.push(34);
    out.push(58);
    out.push(34);
    out.extend_from_slice(ct_b64.as_slice());
    out.push(34);
    out.push(125);
    out.push(125);
    proof {
        assert(mid1 =~= spec_manch_salt_prefix() + salt_b64@);
        assert(mid2 =~= mid1 + spec_manch_nonce_prefix() + nonce_b64@);
        assert(out@ =~= spec_manch_json(b64_of(salt@), b64_of(validation.nonce@), b64_of(
            validation.ciphertext@,
        )));
    }
    out
}

/// Build the mobile announcement for a channel: the validation text is
/// sealed under the channel key, and the salt, nonce and ciphertext go out
/// base64-encoded in the JSON shape.
pub fn build_MANCH(channel: &Channel) -> (r: Vec<u8>)
    requires
        channel.wf(),
    ensures
        exists|nonce: Seq<u8>, ct: Seq<u8>|
            {
                &&& aead_plain(channel.key@, nonce, ct) == Some(spec_validation_text())
                &&& r@ == spec_manch_json(b64_of(channel.salt@), b64_of(nonce), b64_of(ct))
            },
{
    let text = crate::channel::validation_text();
    let validation = encrypt_message(channel.key.as_slice(), text.as_slice());
    let r = manch_json(channel.salt.as_slice(), &validation);
    proof {
        assert(aead_plain(channel.key@, validation.nonce@, validation.ciphertext@) == Some(
            spec_validation_text(),
        ));
    }
    r
}

/// The `"SingleFile"` kind string as bytes — the only kind a mobile offer
/// may carry.
pub open spec fn spec_single_file_str() -> Seq<u8> {
    seq![83u8, 105u8, 110u8, 103u8, 108u8, 101u8, 70u8, 105u8, 108u8, 101u8]
}

/// Validate the extracted fields of a mobile file-offer announcement:
/// the version must match exactly, the kind must read `"SingleFile"`, the
/// offer id must be 32 lowercase hex characters, and the name must fit the
/// wire format. Returns the typed offer together with its raw id bytes.
pub fn validate_mfoft(
    offer_id_hex: &[u8],
    name: &[u8],
    size: u64,
    kind: &[u8],
    protocol_version: u8,
    tcp_port: u16,
) -> (r: Option<FileOffer>)
    ensures
        r is Some <==> (protocol_version == FILE_PROTOCOL_VERSION && kind@
            == spec_single_file_str() && spec_is_hex(offer_id_hex@, 32) && name@.len() <= 0xFFFF),
        r matches Some(o) ==> {
            &&& o.wf()
            &&& o.offer_id@ == spec_hex_to_bytes(offer_id_hex@)
            &&& o.name@ == name@
            &&& o.size == size
            &&& o.kind is SingleFile
            &&& o.protocol_version == FILE_PROTOCOL_VERSION
            &&& o.tcp_port == tcp_port
        },
{
    if protocol_version != FILE_PROTOCOL_VERSION {
        return None;
    }
    let single = single_file_str();
    if !crate::bytes::bytes_eq(kind, single.as_slice()) {
        return None;
    }
    if name.len() > 0xFFFF {
        return None;
    }
    match hex_to_offer_id(offer_id_hex) {
        Some(id) => Some(
            FileOffer {
                offer_id: id,
                name: copy_bytes(name),
                size,
                kind: OfferKind::SingleFile,
                protocol_version,
                tcp_port,
            },
        ),
        None => None,
    }
}

/// The `"SingleFile"` kind string.
pub fn single_file_str() -> (r: Vec<u8>)
    ensures
        r@ == spec_single_file_str(),
{
    let mut v: Vec<u8> = Vec::new();
    v.push(83);
    v.push(105);
    v.push(110);
    v.push(103);
    v.push(108);
    v.push(101);
    v.push(70);
    v.push(105);
    v.push(108);
    v.push(101);
    proof {
        assert(v@ =~= spec_single_file_str());
    }
    v
}

} // verus!
