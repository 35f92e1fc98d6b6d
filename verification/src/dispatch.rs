//! Decisions of the UDP receive loop: datagram tag classification, the
//! per-mode dispatch table, chat display filters and sound cues, and the
//! broadcast size limit.

use vstd::prelude::*;

use crate::bytes::{contains_bytes, eq_ignore_case_bytes, spec_contains_bytes,
    spec_eq_ignore_case, spec_to_lower, starts_with_bytes, to_lower_bytes};
use crate::channel::ChannelMode;

verus! {

/// No broadcast datagram may reach this many bytes.
pub const MAX_DATAGRAM: usize = 1400;

/// Whether a message may go out as one broadcast datagram.
pub fn datagram_size_ok(len: usize) -> (r: bool)
    ensures
        r == (len < MAX_DATAGRAM),
{
    len < MAX_DATAGRAM
}

/// The tag of a UDP datagram, read from its first bytes (case-sensitive
/// ASCII).
#[derive(Clone, Copy, Debug, PartialEq, Eq, Structural)]
pub enum UdpTag {
    /// Desktop channel announce.
    Anch,
    /// Mobile channel announce, JSON body.
    Manch,
    /// Desktop encrypted chat.
    Encm,
    /// Mobile encrypted chat, raw nonce and ciphertext.
    Mencm,
    /// Request to re-announce the channel.
    Reqa,
    /// Desktop file offer.
    Foft,
    /// Mobile file offer, JSON body.
    Mfoft,
    /// Desktop file request magic seen on UDP.
    Fofr,
    /// Anything else.
    Other,
}

pub open spec fn spec_anch_tag() -> Seq<u8> {
    seq![65u8, 78u8, 67u8, 72u8]
}

pub open spec fn spec_manch_tag() -> Seq<u8> {
    seq![77u8, 65u8, 78u8, 67u8, 72u8]
}

pub open spec fn spec_encm_tag() -> Seq<u8> {
    seq![69u8, 78u8, 67u8, 77u8]
}

pub open spec fn spec_mencm_tag5() -> Seq<u8> {
    seq![77u8, 69u8, 78u8, 67u8, 77u8]
}

pub open spec fn spec_reqa_tag() -> Seq<u8> {
    seq![82u8, 69u8, 81u8, 65u8]
}

pub open spec fn spec_foft_tag() -> Seq<u8> {
    seq![70u8, 79u8, 70u8, 84u8]
}

pub open spec fn spec_mfoft_tag() -> Seq<u8> {
    seq![77u8, 70u8, 79u8, 70u8, 84u8]
}

pub open spec fn spec_fofr_tag() -> Seq<u8> {
    seq![70u8, 79u8, 70u8, 82u8]
}

/// The tag a datagram carries. The 4-byte prefixes of all tags are
/// mutually distinct, so the order of the tests does not matter.
pub open spec fn spec_classify(b: Seq<u8>) -> UdpTag {
    if b.len() >= 4 && b.take(4) == spec_anch_tag() {
        UdpTag::Anch
    } else if b.len() >= 5 && b.take(5) == spec_manch_tag() {
        UdpTag::Manch
    } else if b.len() >= 4 && b.take(4) == spec_encm_tag() {
        UdpTag::Encm
    } else if b.len() >= 5 && b.take(5) == spec_mencm_tag5() {
        UdpTag::Mencm
    } else if b.len() >= 4 && b.take(4) == spec_reqa_tag() {
        UdpTag::Reqa
    } else if b.len() >= 4 && b.take(4) == spec_foft_tag() {
        UdpTag::Foft
    } else if b.len() >= 5 && b.take(5) == spec_mfoft_tag() {
        UdpTag::Mfoft
    } else if b.len() >= 4 && b.take(4) == spec_fofr_tag() {
        UdpTag::Fofr
    } else {
        UdpTag::Other
    }
}

/// How many leading bytes the tag occupies; the payload follows them.
pub open spec fn spec_tag_len(t: UdpTag) -> int {
    match t {
        UdpTag::Manch | UdpTag::Mencm | UdpTag::Mfoft => 5,
        UdpTag::Other => 0,
        _ => 4,
    }
}

/// Classify a datagram by its leading bytes and return the tag together
/// with the offset where the payload starts.
pub fn classify_datagram(b: &[u8]) -> (r: (UdpTag, usize))
    ensures
        r.0 == spec_classify(b@),
        r.1 == spec_tag_len(r.0),
        r.1 <= b@.len() || r.0 is Other,
{
    let n = b.len();
    if n >= 4 && b[0] == 65 && b[1] == 78 && b[2] == 67 && b[3] == 72 {
        proof {
            assert(b@.take(4) =~= spec_anch_tag());
        }
        return (UdpTag::Anch, 4);
    }
    if n >= 5 && b[0] == 77 && b[1] == 65 && b[2] == 78 && b[3] == 67 && b[4] == 72 {
        proof {
            assert(b@.take(5) =~= spec_manch_tag());
            assert(b@.take(4)[0] != spec_anch_tag()[0]);
        }
        return (UdpTag::Manch, 5);
    }
    if n >= 4 && b[0] == 69 && b[1] == 78 && b[2] == 67 && b[3] == 77 {
        proof {
            assert(b@.take(4) =~= spec_encm_tag());
            if b@.len() >= 5 {
                assert(b@.take(5)[0] != spec_manch_tag()[0]);
            }
        }
        return (UdpTag::Encm, 4);
    }
    if n >= 5 && b[0] == 77 && b[1] == 69 && b[2] == 78 && b[3] == 67 && b[4] == 77 {
        proof {
            assert(b@.take(5) =~= spec_mencm_tag5());
            assert(b@.take(4)[1] != spec_anch_tag()[1]);
            assert(b@.take(5)[1] != spec_manch_tag()[1]);
            assert(b@.take(4)[0] != spec_encm_tag()[0]);
        }
        return (UdpTag::Mencm, 5);
    }
    if n >= 4 && b[0] == 82 && b[1] == 69 && b[2] == 81 && b[3] == 65 {
        proof {
            assert(b@.take(4) =~= spec_reqa_tag());
            if b@.len() >= 5 {
                assert(b@.take(5)[0] != spec_manch_tag()[0]);
                assert(b@.take(5)[0] != spec_mencm_tag5()[0]);
            }
        }
        return (UdpTag::Reqa, 4);
    }
    if n >= 4 && b[0] == 70 && b[1] == 79 && b[2] == 70 && b[3] == 84 {
        proof {
            assert(b@.take(4) =~= spec_foft_tag());
            if b@.len() >= 5 {
                assert(b@.take(5)[0] != spec_manch_tag()[0]);
                assert(b@.take(5)[0] != spec_mencm_tag5()[0]);
            }
        }
        return (UdpTag::Foft, 4);
    }
    if n >= 5 && b[0] == 77 && b[1] == 70 && b[2] == 79 && b[3] == 70 && b[4] == 84 {
        proof {
            assert(b@.take(5) =~= spec_mfoft_tag());
            assert(b@.take(4)[0] != spec_anch_tag()[0]);
            assert(b@.take(5)[1] != spec_manch_tag()[1]);
            assert(b@.take(4)[0] != spec_encm_tag()[0]);
            assert(b@.take(5)[1] != spec_mencm_tag5()[1]);
            assert(b@.take(4)[0] != spec_reqa_tag()[0]);
            assert(b@.take(4)[0] != spec_foft_tag()[0]);
        }
        return (UdpTag::Mfoft, 5);
    }
    if n >= 4 && b[0] == 70 && b[1] == 79 && b[2] == 70 && b[3] == 82 {
        proof {
            assert(b@.take(4) =~= spec_fofr_tag());
            if b@.len() >= 5 {
                assert(b@.take(5)[0] != spec_manch_tag()[0]);
                assert(b@.take(5)[0] != spec_mencm_tag5()[0]);
                assert(b@.take(5)[3] != spec_mfoft_tag()[3]);
            }
        }
        return (UdpTag::Fofr, 4);
    }
    proof {
        lemma_classify_other(b@);
    }
    (UdpTag::Other, 0)
}

proof fn lemma_classify_other(b: Seq<u8>)
    requires
        !(b.len() >= 4 && b[0] == 65 && b[1] == 78 && b[2] == 67 && b[3] == 72),
        !(b.len() >= 5 && b[0] == 77 && b[1] == 65 && b[2] == 78 && b[3] == 67 && b[4] == 72),
        !(b.len() >= 4 && b[0] == 69 && b[1] == 78 && b[2] == 67 && b[3] == 77),
        !(b.len() >= 5 && b[0] == 77 && b[1] == 69 && b[2] == 78 && b[3] == 67 && b[4] == 77),
        !(b.len() >= 4 && b[0] == 82 && b[1] == 69 && b[2] == 81 && b[3] == 65),
        !(b.len() >= 4 && b[0] == 70 && b[1] == 79 && b[2] == 70 && b[3] == 84),
        !(b.len() >= 5 && b[0] == 77 && b[1] == 70 && b[2] == 79 && b[3] == 70 && b[4] == 84),
        !(b.len() >= 4 && b[0] == 70 && b[1] == 79 && b[2] == 70 && b[3] == 82),
    ensures
        spec_classify(b) is Other,
{
    if b.len() >= 4 && b.take(4) == spec_anch_tag() {
        assert(b[0] == b.take(4)[0] && b[1] == b.take(4)[1] && b[2] == b.take(4)[2] && b[3]
            == b.take(4)[3]);
    }
    if b.len() >= 5 && b.take(5) == spec_manch_tag() {
        assert(b[0] == b.take(5)[0] && b[1] == b.take(5)[1] && b[2] == b.take(5)[2] && b[3]
            == b.take(5)[3] && b[4] == b.take(5)[4]);
    }
    if b.len() >= 4 && b.take(4) == spec_encm_tag() {
        assert(b[0] == b.take(4)[0] && b[1] == b.take(4)[1] && b[2] == b.take(4)[2] && b[3]
            == b.take(4)[3]);
    }
    if b.len() >= 5 && b.take(5) == spec_mencm_tag5() {
        assert(b[0] == b.take(5)[0] && b[1] == b.take(5)[1] && b[2] == b.take(5)[2] && b[3]
            == b.take(5)[3] && b[4] == b.take(5)[4]);
    }
    if b.len() >= 4 && b.take(4) == spec_reqa_tag() {
        assert(b[0] == b.take(4)[0] && b[1] == b.take(4)[1] && b[2] == b.take(4)[2] && b[3]
            == b.take(4)[3]);
    }
    if b.len() >= 4 && b.take(4) == spec_foft_tag() {
        assert(b[0] == b.take(4)[0] && b[1] == b.take(4)[1] && b[2] == b.take(4)[2] && b[3]
            == b.take(4)[3]);
    }
    if b.len() >= 5 && b.take(5) == spec_mfoft_tag() {
        assert(b[0] == b.take(5)[0] && b[1] == b.take(5)[1] && b[2] == b.take(5)[2] && b[3]
            == b.take(5)[3] && b[4] == b.take(5)[4]);
    }
    if b.len() >= 4 && b.take(4) == spec_fofr_tag() {
        assert(b[0] == b.take(4)[0] && b[1] == b.take(4)[1] && b[2] == b.take(4)[2] && b[3]
            == b.take(4)[3]);
    }
}

/// What the receive loop does with a classified datagram.
#[derive(Clone, Copy, Debug, PartialEq, Eq, Structural)]
pub enum UdpDecision {
    /// Drop the unit silently.
    Ignore,
    /// Decode the payload as a desktop announcement and store it.
    StoreDesktopAnnounce,
    /// Parse the payload as a mobile announcement and store it.
    StoreMobileAnnounce,
    /// Decode and decrypt the payload as desktop chat.
    DecryptDesktopChat,
    /// Split and decrypt the payload as mobile chat.
    DecryptMobileChat,
    /// Re-broadcast the channel announcements to the sender.
    ReplyAnnouncements,
    /// Decode the payload as a desktop file offer and register it.
    RegisterDesktopOffer,
    /// Parse the payload as a mobile file offer and register it.
    RegisterMobileOffer,
    /// Treat the whole datagram as a plain chat message.
    PlainText,
}

/// The dispatch table of the receive loop, as a function of the channel
/// mode, the datagram tag and whether the datagram came from this host.
pub open spec fn spec_udp_decision(mode: ChannelMode, tag: UdpTag, from_self: bool) -> UdpDecision {
    match mode {
        ChannelMode::Host | ChannelMode::Joined => match tag {
            UdpTag::Anch => if from_self {
                UdpDecision::Ignore
            } else {
                UdpDecision::StoreDesktopAnnounce
            },
            UdpTag::Manch => UdpDecision::StoreMobileAnnounce,
            UdpTag::Encm => UdpDecision::DecryptDesktopChat,
            UdpTag::Mencm => if from_self {
                UdpDecision::Ignore
            } else {
                UdpDecision::DecryptMobileChat
            },
            UdpTag::Reqa => if mode is Host {
                UdpDecision::ReplyAnnouncements
            } else {
                UdpDecision::Ignore
            },
            _ => UdpDecision::Ignore,
        },
        ChannelMode::Public => match tag {
            UdpTag::Foft => UdpDecision::RegisterDesktopOffer,
            UdpTag::Mfoft => UdpDecision::RegisterMobileOffer,
            _ => UdpDecision::PlainText,
        },
    }
}

/// Decide what to do with a datagram, given the mode, its tag and whether
/// it is a self-broadcast.
pub fn udp_decision(mode: ChannelMode, tag: UdpTag, from_self: bool) -> (r: UdpDecision)
    ensures
        r == spec_udp_decision(mode, tag, from_self),
{
    match mode {
        ChannelMode::Host | ChannelMode::Joined => match tag {
            UdpTag::Anch => if from_self {
                UdpDecision::Ignore
            } else {
                UdpDecision::StoreDesktopAnnounce
            },
            UdpTag::Manch => UdpDecision::StoreMobileAnnounce,
            UdpTag::Encm => UdpDecision::DecryptDesktopChat,
            UdpTag::Mencm => if from_self {
                UdpDecision::Ignore
            } else {
                UdpDecision::DecryptMobileChat
            },
            UdpTag::Reqa => match mode {
                ChannelMode::Host => UdpDecision::ReplyAnnouncements,
                _ => UdpDecision::Ignore,
            },
            _ => UdpDecision::Ignore,
        },
        ChannelMode::Public => match tag {
            UdpTag::Foft => UdpDecision::RegisterDesktopOffer,
            UdpTag::Mfoft => UdpDecision::RegisterMobileOffer,
            _ => UdpDecision::PlainText,
        },
    }
}

/// The sound a chat message triggers.
#[derive(Clone, Copy, Debug, PartialEq, Eq, Structural)]
pub enum SoundCue {
    Silent,
    Ping,
    Nutella,
}

pub open spec fn spec_ping_lit() -> Seq<u8> {
    seq![112u8, 105u8, 110u8, 103u8]
}

pub open spec fn spec_nutella_lit() -> Seq<u8> {
    seq![110u8, 117u8, 116u8, 101u8, 108u8, 108u8, 97u8]
}

pub open spec fn spec_exit_lit() -> Seq<u8> {
    seq![47u8, 101u8, 120u8, 105u8, 116u8]
}

pub open spec fn spec_clear_lit() -> Seq<u8> {
    seq![47u8, 99u8, 108u8, 101u8, 97u8, 114u8]
}

pub open spec fn spec_disconnect_lit() -> Seq<u8> {
    seq![47u8, 100u8, 105u8, 115u8, 99u8, 111u8, 110u8, 110u8, 101u8, 99u8, 116u8]
}

/// The sound a message triggers: a ping for the literal `"ping"` (any
/// case), the easter-egg cue when it mentions nutella, silence otherwise.
pub open spec fn spec_chat_sound(msg: Seq<u8>) -> SoundCue {
    if spec_eq_ignore_case(msg, spec_ping_lit()) {
        SoundCue::Ping
    } else if spec_contains_bytes(spec_to_lower(msg), spec_nutella_lit()) {
        SoundCue::Nutella
    } else {
        SoundCue::Silent
    }
}

/// Decide the sound cue for a chat message.
pub fn chat_sound(msg: &[u8]) -> (r: SoundCue)
    ensures
        r == spec_chat_sound(msg@),
{
    let mut ping: Vec<u8> = Vec::new();
    ping.push(112);
    ping.push(105);
    ping.push(110);
    ping.push(103);
    proof {
        assert(ping@ =~= spec_ping_lit());
    }
    if eq_ignore_case_bytes(msg, ping.as_slice()) {
        return SoundCue::Ping;
    }
    let mut nutella: Vec<u8> = Vec::new();
    nutella.push(110);
    nutella.push(117);
    nutella.push(116);
    nutella.push(101);
    nutella.push(108);
    nutella.push(108);
    nutella.push(97);
    proof {
        assert(nutella@ =~= spec_nutella_lit());
    }
    let lowered = to_lower_bytes(msg);
    if contains_bytes(lowered.as_slice(), nutella.as_slice()) {
        return SoundCue::Nutella;
    }
    SoundCue::Silent
}

/// Whether desktop encrypted chat is shown. The shipped filter passes a
/// message unless it equals all three local commands at once, which no
/// message can; it is kept as written.
pub open spec fn spec_display_desktop_chat(msg: Seq<u8>) -> bool {
    !spec_eq_ignore_case(msg, spec_exit_lit()) || !spec_eq_ignore_case(msg, spec_clear_lit())
        || !spec_eq_ignore_case(msg, spec_disconnect_lit())
}

/// Whether mobile encrypted chat is shown: local commands stay local.
pub open spec fn spec_display_mobile_chat(msg: Seq<u8>) -> bool {
    !spec_eq_ignore_case(msg, spec_exit_lit()) && !spec_eq_ignore_case(msg, spec_clear_lit())
        && !spec_eq_ignore_case(msg, spec_disconnect_lit())
}

/// Whether a public-mode plain text message is shown: local commands, the
/// re-announce keyword and mobile announce frames stay off the screen.
pub open spec fn spec_display_public_chat(msg: Seq<u8>) -> bool {
    &&& !spec_eq_ignore_case(msg, spec_exit_lit())
    &&& !spec_eq_ignore_case(msg, spec_clear_lit())
    &&& !spec_eq_ignore_case(msg, spec_disconnect_lit())
    &&& !spec_eq_ignore_case(msg, spec_reqa_tag())
    &&& !(msg.len() >= 5 && msg.take(5) == spec_manch_tag())
}

fn exit_lit() -> (r: Vec<u8>)
    ensures
        r@ == spec_exit_lit(),
{
    let mut v: Vec<u8> = Vec::new();
    v.push(47);
    v.push(101);
    v.push(120);
    v.push(105);
    v.push(116);
    proof {
        assert(v@ =~= spec_exit_lit());
    }
    v
}

fn clear_lit() -> (r: Vec<u8>)
    ensures
        r@ == spec_clear_lit(),
{
    let mut v: Vec<u8> = Vec::new();
    v.push(47);
    v.push(99);
    v.push(108);
    v.push(101);
    v.push(97);
    v.push(114);
    proof {
        assert(v@ =~= spec_clear_lit());
    }
    v
}

fn disconnect_lit() -> (r: Vec<u8>)
    ensures
        r@ == spec_disconnect_lit(),
{
    let mut v: Vec<u8> = Vec::new();
    v.push(47);
    v.push(100);
    v.push(105);
    v.push(115);
    v.push(99);
    v.push(111);
    v.push(110);
    v.push(110);
    v.push(101);
    v.push(99);
    v.push(116);
    proof {
        assert(v@ =~= spec_disconnect_lit());
    }
    v
}

/// Decide whether a desktop encrypted chat message is shown.
pub fn display_desktop_chat(msg: &[u8]) -> (r: bool)
    ensures
        r == spec_display_desktop_chat(msg@),
{
    let exit = exit_lit();
    let clear = clear_lit();
    let disconnect = disconnect_lit();
    !eq_ignore_case_bytes(msg, exit.as_slice()) || !eq_ignore_case_bytes(msg, clear.as_slice())
        || !eq_ignore_case_bytes(msg, disconnect.as_slice())
}

/// Decide whether a mobile encrypted chat message is shown.
pub fn display_mobile_chat(msg: &[u8]) -> (r: bool)
    ensures
        r == spec_display_mobile_chat(msg@),
{
    let exit = exit_lit();
    let clear = clear_lit();
    let disconnect = disconnect_lit();
    !eq_ignore_case_bytes(msg, exit.as_slice()) && !eq_ignore_case_bytes(msg, clear.as_slice())
        && !eq_ignore_case_bytes(msg, disconnect.as_slice())
}

/// Decide whether a public-mode plain text message is shown.
pub fn display_public_chat(msg: &[u8]) -> (r: bool)
    ensures
        r == spec_display_public_chat(msg@),
{
    let exit = exit_lit();
    let clear = clear_lit();
    let disconnect = disconnect_lit();
    let mut reqa: Vec<u8> = Vec::new();
    reqa.push(82);
    reqa.push(69);
    reqa.push(81);
    reqa.push(65);
    proof {
        assert(reqa@ =~= spec_reqa_tag());
    }
    let mut manch: Vec<u8> = Vec::new();
    manch.push(77);
    manch.push(65);
    manch.push(78);
    manch.push(67);
    manch.push(72);
    proof {
        assert(manch@ =~= spec_manch_tag());
    }
    !eq_ignore_case_bytes(msg, exit.as_slice()) && !eq_ignore_case_bytes(msg, clear.as_slice())
        && !eq_ignore_case_bytes(msg, disconnect.as_slice()) && !eq_ignore_case_bytes(
        msg,
        reqa.as_slice(),
    ) && !starts_with_bytes(msg, manch.as_slice())
}

} // verus!
