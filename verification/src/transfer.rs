//! The dual-dialect TCP file-transfer protocol: request and response
//! frames of the desktop binary dialect, the mobile text dialect's request
//! line and status, the byte accounting of a download with its atomic
//! publish decision, and the concurrency-bounded download manager.

use vstd::prelude::*;

use vstd::bytes::{lemma_auto_spec_u64_to_from_le_bytes, spec_u64_from_le_bytes,
    spec_u64_to_le_bytes, u64_from_le_bytes, u64_to_le_bytes};

use crate::bytes::{copy_bytes, hex_to_offer_id, spec_hex_to_bytes, spec_is_hex};
use crate::codec::FILE_PROTOCOL_VERSION;
use crate::offers::{LocalFileOffer, OfferRegistry};
use crate::slots::SlotCounter;

verus! {

/// How many downloads may run at once, over both dialects together.
pub const DOWNLOAD_SLOTS: u32 = 2;

/// The `"FOFR"` request magic of the desktop dialect.
pub open spec fn spec_fofr_magic() -> Seq<u8> {
    seq![70u8, 79u8, 70u8, 82u8]
}

/// The `"FOFS"` response magic of the desktop dialect.
pub open spec fn spec_fofs_magic() -> Seq<u8> {
    seq![70u8, 79u8, 70u8, 83u8]
}

/// The two dialects a connection can open with.
#[derive(Clone, Copy, Debug, PartialEq, Eq, Structural)]
pub enum Dialect {
    Desktop,
    Mobile,
}

/// Classify a connection by its first peeked bytes: the desktop magic
/// opens the binary dialect, anything else is treated as the mobile text
/// dialect. A mobile hex-id line that began with the four magic bytes
/// would be misclassified; the magic's uppercase letters cannot appear in
/// a lowercase hex id, so the ambiguity is only documented, not resolved.
pub fn classify_dialect(first: &[u8]) -> (r: Dialect)
    ensures
        r is Desktop <==> (first@.len() >= 4 && first@.take(4) == spec_fofr_magic()),
{
    if first.len() >= 4 && first[0] == 70 && first[1] == 79 && first[2] == 70 && first[3] == 82 {
        proof {
            assert(first@.take(4) =~= spec_fofr_magic());
        }
        Dialect::Desktop
    } else {
        proof {
            if first@.len() >= 4 && first@.take(4) == spec_fofr_magic() {
                assert(first@[0] == first@.take(4)[0] && first@[1] == first@.take(4)[1]
                    && first@[2] == first@.take(4)[2] && first@[3] == first@.take(4)[3]);
            }
        }
        Dialect::Mobile
    }
}

/// The desktop request frame: magic, version, then the 16-byte offer id.
pub open spec fn spec_desktop_request(offer_id: Seq<u8>) -> Seq<u8> {
    spec_fofr_magic() + seq![FILE_PROTOCOL_VERSION] + offer_id
}

/// Build the desktop request frame for an offer id.
pub fn desktop_request_frame(offer_id: &[u8]) -> (r: Vec<u8>)
    requires
        offer_id@.len() == 16,
    ensures
        r@ == spec_desktop_request(offer_id@),
        r@.len() == 21,
{
    let mut out: Vec<u8> = Vec::new();
    out.push(70);
    out.push(79);
    out.push(70);
    out.push(82);
    out.push(FILE_PROTOCOL_VERSION);
    out.extend_from_slice(offer_id);
    proof {
        assert(out@ =~= spec_desktop_request(offer_id@));
    }
    out
}

/// Why a desktop frame was rejected.
#[derive(Clone, Copy, Debug, PartialEq, Eq, Structural)]
pub enum FrameError {
    BadMagic,
    VersionMismatch,
    BadLength,
}

/// Parse a full desktop request frame into the offer id it asks for.
pub fn parse_desktop_request(b: &[u8]) -> (r: Result<Vec<u8>, FrameError>)
    ensures
        r is Ok <==> (b@.len() == 21 && b@.take(4) == spec_fofr_magic() && b@[4]
            == FILE_PROTOCOL_VERSION),
        r matches Ok(id) ==> id@ == b@.skip(5) && id@.len() == 16,
{
    if b.len() != 21 {
        return Err(FrameError::BadLength);
    }
    if !(b[0] == 70 && b[1] == 79 && b[2] == 70 && b[3] == 82) {
        proof {
            assert(b@.take(4) != spec_fofr_magic());
        }
        return Err(FrameError::BadMagic);
    }
    proof {
        assert(b@.take(4) =~= spec_fofr_magic());
    }
    if b[4] != FILE_PROTOCOL_VERSION {
        return Err(FrameError::VersionMismatch);
    }
    let id = copy_bytes(&b[5..21]);
    proof {
        assert(b@.subrange(5, 21) =~= b@.skip(5));
    }
    Ok(id)
}

/// The desktop response header: magic, version, then the size in
/// little-endian.
pub open spec fn spec_desktop_response_header(size: u64) -> Seq<u8> {
    spec_fofs_magic() + seq![FILE_PROTOCOL_VERSION] + spec_u64_to_le_bytes(size)
}

/// Build the desktop response header announcing the coming byte count.
pub fn desktop_response_header(size: u64) -> (r: Vec<u8>)
    ensures
        r@ == spec_desktop_response_header(size),
        r@.len() == 13,
{
    let mut out: Vec<u8> = Vec::new();
    out.push(70);
    out.push(79);
    out.push(70);
    out.push(83);
    out.push(FILE_PROTOCOL_VERSION);
    let size_bytes = u64_to_le_bytes(size);
    out.extend_from_slice(size_bytes.as_slice());
    proof {
        assert(out@ =~= spec_desktop_response_header(size));
    }
    out
}

/// Parse a 13-byte desktop response header into the declared size: the
/// receiver's only boundary signal in this dialect.
pub fn parse_desktop_response_header(b: &[u8]) -> (r: Result<u64, FrameError>)
    ensures
        r is Ok <==> (b@.len() == 13 && b@.take(4) == spec_fofs_magic() && b@[4]
            == FILE_PROTOCOL_VERSION),
        r matches Ok(size) ==> size == spec_u64_from_le_bytes(b@.skip(5)),
        forall|s: u64| b@ == spec_desktop_response_header(s) ==> r == Result::<
            u64,
            FrameError,
        >::Ok(s),
{
    proof {
        lemma_auto_spec_u64_to_from_le_bytes();
        assert forall|s: u64| b@ == spec_desktop_response_header(s) implies b@.len() == 13
            && b@.take(4) == spec_fofs_magic() && b@[4] == FILE_PROTOCOL_VERSION && b@.skip(5)
            == spec_u64_to_le_bytes(s) by {
            assert(b@.take(4) =~= spec_fofs_magic());
            assert(b@.skip(5) =~= spec_u64_to_le_bytes(s));
        }
    }
    if b.len() != 13 {
        return Err(FrameError::BadLength);
    }
    if !(b[0] == 70 && b[1] == 79 && b[2] == 70 && b[3] == 83) {
        proof {
            assert(b@.take(4) != spec_fofs_magic());
        }
        return Err(FrameError::BadMagic);
    }
    proof {
        assert(b@.take(4) =~= spec_fofs_magic());
    }
    if b[4] != FILE_PROTOCOL_VERSION {
        return Err(FrameError::VersionMismatch);
    }
    let size = u64_from_le_bytes(&b[5..13]);
    proof {
        assert(b@.subrange(5, 13) =~= b@.skip(5));
    }
    Ok(size)
}

/// What the server replies to a mobile request line: `ERR` for a line of
/// the wrong shape, a silent close for an unknown offer, or `OK` followed
/// by the file's bytes.
pub enum MobileReply {
    ReplyErr,
    Abort,
    ServeOk(LocalFileOffer),
}

/// Decide the reply to a mobile request line (without its newline): a
/// line that is not 32 lowercase hex characters draws `ERR`; an id that is
/// not registered closes the connection; a registered id is served.
pub fn handle_mobile_request(registry: &OfferRegistry, line: &[u8]) -> (r: MobileReply)
    requires
        registry.wf(),
    ensures
        r is ReplyErr <==> !spec_is_hex(line@, 32),
        spec_is_hex(line@, 32) ==> {
            &&& (r is Abort <==> !registry.spec_contains(spec_hex_to_bytes(line@)))
            &&& (r matches MobileReply::ServeOk(local) ==> exists|j: int|
                {
                    &&& 0 <= j < registry.entries@.len()
                    &&& (#[trigger] registry.entries@[j]).offer_id@ == spec_hex_to_bytes(line@)
                    &&& local.path@ == registry.entries@[j].local.path@
                    &&& local.size == registry.entries@[j].local.size
                })
        },
{
    match hex_to_offer_id(line) {
        None => MobileReply::ReplyErr,
        Some(id) => match registry.get(id.as_slice()) {
            None => MobileReply::Abort,
            Some(local) => MobileReply::ServeOk(local),
        },
    }
}

/// The `"OK\n"` status line of the mobile dialect.
pub open spec fn spec_ok_line() -> Seq<u8> {
    seq![79u8, 75u8, 10u8]
}

/// The `"ERR\n"` status line of the mobile dialect.
pub open spec fn spec_err_line() -> Seq<u8> {
    seq![69u8, 82u8, 82u8, 10u8]
}

/// The `"OK\n"` status line.
pub fn ok_line() -> (r: Vec<u8>)
    ensures
        r@ == spec_ok_line(),
{
    let mut v: Vec<u8> = Vec::new();
    v.push(79);
    v.push(75);
    v.push(10);
    proof {
        assert(v@ =~= spec_ok_line());
    }
    v
}

/// The `"ERR\n"` status line.
pub fn err_line() -> (r: Vec<u8>)
    ensures
        r@ == spec_err_line(),
{
    let mut v: Vec<u8> = Vec::new();
    v.push(69);
    v.push(82);
    v.push(82);
    v.push(10);
    proof {
        assert(v@ =~= spec_err_line());
    }
    v
}

/// The mobile request line for an offer id in hex: the 32 characters
/// followed by a newline. A hex id of any other length is rejected before
/// anything is sent.
pub fn mobile_request_line(offer_id_hex: &[u8]) -> (r: Option<Vec<u8>>)
    ensures
        r is Some <==> offer_id_hex@.len() == 32,
        r matches Some(line) ==> line@ == offer_id_hex@ + seq![10u8],
{
    if offer_id_hex.len() != 32 {
        return None;
    }
    let mut out = copy_bytes(offer_id_hex);
    out.push(10);
    Some(out)
}

/// What the first three status bytes of a mobile download mean.
#[derive(Clone, Copy, Debug, PartialEq, Eq, Structural)]
pub enum MobileStatus3 {
    Streaming,
    NeedFourth,
}

/// Classify the first three status bytes: `"OK\n"` starts the stream,
/// anything else needs the fourth byte to tell `ERR` from garbage.
pub fn classify_mobile_status3(head: &[u8]) -> (r: MobileStatus3)
    requires
        head@.len() == 3,
    ensures
        r is Streaming <==> head@ == spec_ok_line(),
{
    if head[0] == 79 && head[1] == 75 && head[2] == 10 {
        proof {
            assert(head@ =~= spec_ok_line());
        }
        MobileStatus3::Streaming
    } else {
        proof {
            if head@ == spec_ok_line() {
                assert(head@[0] == 79 && head@[1] == 75 && head@[2] == 10);
            }
        }
        MobileStatus3::NeedFourth
    }
}

/// What a full four-byte status means when it was not `OK`.
#[derive(Clone, Copy, Debug, PartialEq, Eq, Structural)]
pub enum MobileStatus4 {
    OfferNotFound,
    BadStatus,
}

/// Classify the four status bytes: the literal `"ERR\n"` means the server
/// does not know the offer; anything else is a malformed status.
pub fn classify_mobile_status4(head: &[u8]) -> (r: MobileStatus4)
    requires
        head@.len() == 4,
    ensures
        r is OfferNotFound <==> head@ == spec_err_line(),
{
    if head[0] == 69 && head[1] == 82 && head[2] == 82 && head[3] == 10 {
        proof {
            assert(head@ =~= spec_err_line());
        }
        MobileStatus4::OfferNotFound
    } else {
        proof {
            if head@ == spec_err_line() {
                assert(head@[0] == 69 && head@[1] == 82 && head@[2] == 82 && head@[3] == 10);
            }
        }
        MobileStatus4::BadStatus
    }
}

/// The byte accounting of a size-framed download: `got` of `total` bytes
/// written to the part file so far.
pub struct TransferProgress {
    pub got: u64,
    pub total: u64,
}

impl TransferProgress {
    /// Accounting never passes the declared total.
    pub open spec fn wf(&self) -> bool {
        self.got <= self.total
    }

    /// Start at zero of the declared total.
    pub fn new(total: u64) -> (r: TransferProgress)
        ensures
            r.wf(),
            r.got == 0,
            r.total == total,
    {
        TransferProgress { got: 0, total }
    }

    /// Whether every declared byte has arrived.
    pub fn is_done(&self) -> (r: bool)
        ensures
            r == (self.got == self.total),
    {
        self.got == self.total
    }

    /// How many bytes to ask for next: the remainder, capped by the
    /// buffer.
    pub fn next_want(&self, buf_len: usize) -> (r: usize)
        requires
            self.wf(),
            self.got < self.total,
        ensures
            r == (if self.total - self.got < buf_len {
                (self.total - self.got) as int
            } else {
                buf_len as int
            }),
            1 <= buf_len ==> 1 <= r,
            r <= buf_len,
    {
        let remaining = self.total - self.got;
        if remaining < buf_len as u64 {
            remaining as usize
        } else {
            buf_len
        }
    }

    /// Record a chunk that was read and written.
    pub fn record(&mut self, n: usize)
        requires
            old(self).wf(),
            n + old(self).got <= old(self).total,
        ensures
            final(self).wf(),
            final(self).got == old(self).got + n,
            final(self).total == old(self).total,
    {
        self.got = self.got + n as u64;
    }
}

/// The end of a download: publish the part file under its final name, or
/// delete it.
#[derive(Clone, Copy, Debug, PartialEq, Eq, Structural)]
pub enum FinishAction {
    PublishRename,
    DeletePart,
}

/// Decide the end of a size-framed download: the part file is renamed to
/// the final name exactly when every declared byte arrived, so no
/// partially-written file ever appears under the final name; otherwise
/// the part file is deleted.
pub fn finish_action(p: &TransferProgress) -> (r: FinishAction)
    ensures
        r is PublishRename <==> p.got == p.total,
        r is DeletePart <==> p.got != p.total,
{
    if p.got == p.total {
        FinishAction::PublishRename
    } else {
        FinishAction::DeletePart
    }
}

/// A download is published only complete: when the finish decision is to
/// rename the part file into place the byte count equals the declared
/// size exactly, and when it is not, strictly fewer bytes arrived and the
/// part file is deleted — so no partial file ever appears under the
/// final name.
pub proof fn lemma_publish_only_complete(p: TransferProgress, a: FinishAction)
    requires
        p.wf(),
        (a is PublishRename) == (p.got == p.total),
        (a is DeletePart) == (p.got != p.total),
    ensures
        a is PublishRename ==> p.got == p.total,
        a is DeletePart ==> p.got < p.total,
{
}

/// The byte accounting of an EOF-framed mobile download: no size is
/// transmitted, completion is end-of-stream, and the expected total serves
/// progress display only.
pub struct MobileProgress {
    pub got: u64,
}

impl MobileProgress {
    /// Start at zero.
    pub fn new() -> (r: MobileProgress)
        ensures
            r.got == 0,
    {
        MobileProgress { got: 0 }
    }

    /// Record a chunk that was read and written; the count saturates
    /// rather than wraps.
    pub fn record(&mut self, n: usize)
        ensures
            final(self).got == crate::bundler::spec_sat_add(old(self).got, n as u64),
    {
        self.got = if (n as u64) > u64::MAX - self.got {
            u64::MAX
        } else {
            self.got + n as u64
        };
    }
}

/// The download manager: one counting semaphore of capacity two, shared
/// by both dialects. A third concurrent attempt fails fast with a busy
/// signal; the permit is taken before the worker starts and released
/// however it exits.
pub struct DownloadManager {
    pub slots: SlotCounter,
}

impl DownloadManager {
    pub open spec fn wf(&self) -> bool {
        self.slots.wf() && self.slots.cap == DOWNLOAD_SLOTS
    }

    /// A fresh manager: both download slots free.
    pub fn new() -> (r: DownloadManager)
        ensures
            r.wf(),
            r.slots.in_flight == 0,
    {
        DownloadManager { slots: SlotCounter::new(DOWNLOAD_SLOTS) }
    }

    /// Take a download permit, or fail fast when both are in flight.
    pub fn try_begin_download(&mut self) -> (ok: bool)
        requires
            old(self).wf(),
        ensures
            final(self).wf(),
            ok == (old(self).slots.in_flight < DOWNLOAD_SLOTS),
            ok ==> final(self).slots.in_flight == old(self).slots.in_flight + 1,
            !ok ==> *final(self) == *old(self),
    {
        self.slots.try_reserve()
    }

    /// Give the permit back; called once however the download ends.
    pub fn finish_download(&mut self)
        requires
            old(self).wf(),
        ensures
            final(self).wf(),
            old(self).slots.in_flight > 0 ==> final(self).slots.in_flight == old(
                self,
            ).slots.in_flight - 1,
            old(self).slots.in_flight == 0 ==> *final(self) == *old(self),
    {
        self.slots.release()
    }
}

} // verus!
