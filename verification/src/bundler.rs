//! The file-offer builder: a single selected file becomes an offer at
//! once; several become a background zip bundle, gated by an atomic
//! reserve-or-fail counter of at most two bundling slots, whose worker
//! emits ordered progress events and exactly one terminal event.

use vstd::prelude::*;

use crate::bytes::copy_bytes;
use crate::codec::{encode_foft, spec_encode_foft, FILE_PROTOCOL_VERSION, FileOffer, OfferKind};
use crate::crypto::random_bytes;
use crate::offers::{LocalFileOffer, OfferRegistry};
use crate::slots::SlotCounter;

verus! {

/// How many bundling workers may run at once.
pub const BUNDLE_SLOTS: u32 = 2;

/// A fresh random 16-byte offer id; never derived from the content, so
/// re-offering the same files produces a new id.
pub fn new_offer_id() -> (r: Vec<u8>)
    ensures
        r@.len() == 16,
{
    random_bytes(16)
}

/// The offer builder: the bundling slot counter and the TCP port that
/// every offer it builds announces.
pub struct FileOfferBuilder {
    pub bundle_slots: SlotCounter,
    pub tcp_port: u16,
}

impl FileOfferBuilder {
    pub open spec fn wf(&self) -> bool {
        self.bundle_slots.wf() && self.bundle_slots.cap == BUNDLE_SLOTS
    }

    /// A fresh builder: both bundling slots free.
    pub fn new(tcp_port: u16) -> (r: FileOfferBuilder)
        ensures
            r.wf(),
            r.bundle_slots.in_flight == 0,
            r.tcp_port == tcp_port,
    {
        FileOfferBuilder { bundle_slots: SlotCounter::new(BUNDLE_SLOTS), tcp_port }
    }

    /// Build and register an offer for one real file: fresh id, the given
    /// name and size, and the wire packet, all in one synchronous step.
    pub fn offer_single(
        &mut self,
        registry: &mut OfferRegistry,
        name: Vec<u8>,
        size: u64,
        path: Vec<u8>,
    ) -> (r: (FileOffer, Vec<u8>))
        requires
            old(self).wf(),
            old(registry).wf(),
            name@.len() <= 0xFFFF,
        ensures
            final(self).wf(),
            *final(self) == *old(self),
            final(registry).wf(),
            r.0.wf(),
            r.0.name@ == name@,
            r.0.size == size,
            r.0.kind is SingleFile,
            r.0.protocol_version == FILE_PROTOCOL_VERSION,
            r.0.tcp_port == old(self).tcp_port,
            r.1@ == spec_encode_foft(r.0@),
            exists|j: int|
                {
                    &&& 0 <= j < final(registry).entries@.len()
                    &&& (#[trigger] final(registry).entries@[j]).offer_id@ == r.0.offer_id@
                    &&& final(registry).entries@[j].local.path@ == path@
                    &&& final(registry).entries@[j].local.kind is SingleFile
                    &&& final(registry).entries@[j].local.size == size
                    &&& final(registry).entries@[j].local.name@ == name@
                },
    {
        let offer_id = new_offer_id();
        self.build_and_register(registry, offer_id, name, size, path, OfferKind::SingleFile)
    }

    /// Build and register an offer for a finished zip bundle under the id
    /// the bundle's temporary path was derived from: the worker calls this
    /// once the archive is complete.
    pub fn offer_bundle(
        &mut self,
        registry: &mut OfferRegistry,
        offer_id: Vec<u8>,
        name: Vec<u8>,
        size: u64,
        zip_path: Vec<u8>,
    ) -> (r: (FileOffer, Vec<u8>))
        requires
            old(self).wf(),
            old(registry).wf(),
            offer_id@.len() == 16,
            name@.len() <= 0xFFFF,
        ensures
            final(self).wf(),
            *final(self) == *old(self),
            final(registry).wf(),
            r.0.wf(),
            r.0.offer_id@ == offer_id@,
            r.0.name@ == name@,
            r.0.size == size,
            r.0.kind is ZipBundle,
            r.0.protocol_version == FILE_PROTOCOL_VERSION,
            r.0.tcp_port == old(self).tcp_port,
            r.1@ == spec_encode_foft(r.0@),
            exists|j: int|
                {
                    &&& 0 <= j < final(registry).entries@.len()
                    &&& (#[trigger] final(registry).entries@[j]).offer_id@ == r.0.offer_id@
                    &&& final(registry).entries@[j].local.path@ == zip_path@
                    &&& final(registry).entries@[j].local.kind is ZipBundle
                    &&& final(registry).entries@[j].local.size == size
                    &&& final(registry).entries@[j].local.name@ == name@
                },
    {
        self.build_and_register(registry, offer_id, name, size, zip_path, OfferKind::ZipBundle)
    }

    fn build_and_register(
        &mut self,
        registry: &mut OfferRegistry,
        offer_id: Vec<u8>,
        name: Vec<u8>,
        size: u64,
        path: Vec<u8>,
        kind: OfferKind,
    ) -> (r: (FileOffer, Vec<u8>))
        requires
            old(self).wf(),
            old(registry).wf(),
            offer_id@.len() == 16,
            name@.len() <= 0xFFFF,
        ensures
            final(self).wf(),
            *final(self) == *old(self),
            final(registry).wf(),
            r.0.wf(),
            r.0.offer_id@ == offer_id@,
            r.0.name@ == name@,
            r.0.size == size,
            r.0.kind == kind,
            r.0.protocol_version == FILE_PROTOCOL_VERSION,
            r.0.tcp_port == old(self).tcp_port,
            r.1@ == spec_encode_foft(r.0@),
            exists|j: int|
                {
                    &&& 0 <= j < final(registry).entries@.len()
                    &&& (#[trigger] final(registry).entries@[j]).offer_id@ == r.0.offer_id@
                    &&& final(registry).entries@[j].local.path@ == path@
                    &&& final(registry).entries@[j].local.kind == kind
                    &&& final(registry).entries@[j].local.size == size
                    &&& final(registry).entries@[j].local.name@ == name@
                },
    {
        let offer = FileOffer {
            offer_id: copy_bytes(offer_id.as_slice()),
            name: copy_bytes(name.as_slice()),
            size,
            kind,
            protocol_version: FILE_PROTOCOL_VERSION,
            tcp_port: self.tcp_port,
        };
        let packet = encode_foft(&offer);
        let local = LocalFileOffer { path, kind, size, name };
        registry.insert(offer_id, local);
        (offer, packet)
    }

    /// Reserve one of the bundling slots, or fail immediately when both
    /// are in flight — saturation is never queued.
    pub fn try_begin_bundle(&mut self) -> (ok: bool)
        requires
            old(self).wf(),
        ensures
            final(self).wf(),
            final(self).tcp_port == old(self).tcp_port,
            ok == (old(self).bundle_slots.in_flight < BUNDLE_SLOTS),
            ok ==> final(self).bundle_slots.in_flight == old(self).bundle_slots.in_flight + 1,
            !ok ==> *final(self) == *old(self),
    {
        self.bundle_slots.try_reserve()
    }

    /// Release the bundling slot; the worker's exit guard calls this
    /// exactly once whatever the outcome.
    pub fn end_bundle(&mut self)
        requires
            old(self).wf(),
        ensures
            final(self).wf(),
            final(self).tcp_port == old(self).tcp_port,
            old(self).bundle_slots.in_flight > 0 ==> final(self).bundle_slots.in_flight
                == old(self).bundle_slots.in_flight - 1,
            old(self).bundle_slots.in_flight == 0 ==> *final(self) == *old(self),
    {
        self.bundle_slots.release()
    }
}

/// Two values added without wrapping.
pub open spec fn spec_sat_add(a: u64, b: u64) -> u64 {
    if a + b > u64::MAX {
        u64::MAX
    } else {
        (a + b) as u64
    }
}

/// The declared sizes of the inputs summed without wrapping: the progress
/// denominator.
pub open spec fn spec_sum_sat(s: Seq<u64>) -> u64
    decreases s.len(),
{
    if s.len() == 0 {
        0u64
    } else {
        spec_sat_add(spec_sum_sat(s.drop_last()), s.last())
    }
}

/// Sum the declared input sizes for the progress denominator.
pub fn sum_sizes(sizes: &[u64]) -> (r: u64)
    ensures
        r == spec_sum_sat(sizes@),
{
    let n = sizes.len();
    let mut acc: u64 = 0;
    let mut i: usize = 0;
    while i < n
        invariant
            i <= n,
            n == sizes@.len(),
            acc == spec_sum_sat(sizes@.take(i as int)),
        decreases n - i,
    {
        proof {
            assert(sizes@.take(i + 1).drop_last() =~= sizes@.take(i as int));
            assert(sizes@.take(i + 1).last() == sizes@[i as int]);
        }
        let s = sizes[i];
        acc = if s > u64::MAX - acc {
            u64::MAX
        } else {
            acc + s
        };
        i += 1;
    }
    proof {
        assert(sizes@.take(n as int) =~= sizes@);
    }
    acc
}

/// One event of a bundling worker, delivered in order to its owner.
pub enum BundleEvent {
    /// Bytes done so far, the fixed total, and the source file being read.
    Progress { done: u64, total: u64, current_path: Vec<u8> },
    /// The bundle is complete: the wire packet and the local offer record.
    Finished { packet: Vec<u8>, local: LocalFileOffer },
    /// The bundle failed; the message describes the I/O error.
    Error { message: Vec<u8> },
}

/// The accounting state of one bundling worker: progress events carry a
/// running `done` against a fixed `total`, and after the one terminal
/// event (`Finished` or `Error`) no further event can be produced.
pub struct BundleProgress {
    pub total: u64,
    pub done: u64,
    pub terminal: bool,
}

impl BundleProgress {
    /// Start a worker over inputs with the given declared sizes.
    pub fn new(sizes: &[u64]) -> (r: BundleProgress)
        ensures
            r.total == spec_sum_sat(sizes@),
            r.done == 0,
            !r.terminal,
    {
        let total = sum_sizes(sizes);
        BundleProgress { total, done: 0, terminal: false }
    }

    /// Record one read chunk and produce the progress event for it.
    pub fn on_read(&mut self, n: u64, current_path: &[u8]) -> (e: BundleEvent)
        requires
            !old(self).terminal,
        ensures
            !final(self).terminal,
            final(self).total == old(self).total,
            final(self).done == spec_sat_add(old(self).done, n),
            e matches BundleEvent::Progress { done, total, current_path: p }
                && done == final(self).done && total == final(self).total
                && p@ == current_path@,
    {
        self.done = if n > u64::MAX - self.done {
            u64::MAX
        } else {
            self.done + n
        };
        BundleEvent::Progress {
            done: self.done,
            total: self.total,
            current_path: copy_bytes(current_path),
        }
    }

    /// Produce the one successful terminal event, carrying the ready wire
    /// packet and the local offer record unchanged.
    pub fn finish(&mut self, packet: Vec<u8>, local: LocalFileOffer) -> (e: BundleEvent)
        requires
            !old(self).terminal,
        ensures
            final(self).terminal,
            final(self).total == old(self).total,
            final(self).done == old(self).done,
            e matches BundleEvent::Finished { packet: p, local: l } && p@ == packet@ && l.path@
                == local.path@ && l.kind == local.kind && l.size == local.size && l.name@
                == local.name@,
    {
        self.terminal = true;
        BundleEvent::Finished { packet, local }
    }

    /// Produce the one failing terminal event, carrying the error message
    /// unchanged.
    pub fn fail(&mut self, message: Vec<u8>) -> (e: BundleEvent)
        requires
            !old(self).terminal,
        ensures
            final(self).terminal,
            final(self).total == old(self).total,
            final(self).done == old(self).done,
            e matches BundleEvent::Error { message: m } && m@ == message@,
    {
        self.terminal = true;
        BundleEvent::Error { message }
    }
}

} // verus!
