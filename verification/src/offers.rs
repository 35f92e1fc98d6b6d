//! The sender's registry of local offers and the receiver's registries of
//! remote offers, keyed by the 16-byte offer id, with unique keys.

use vstd::prelude::*;

use crate::bytes::{bytes_eq, copy_bytes};
use crate::codec::{FileOffer, OfferKind};

verus! {

/// The sender-side record of where the offered bytes actually live: a real
/// file path or a fresh temporary zip path, held as encoded path bytes.
pub struct LocalFileOffer {
    pub path: Vec<u8>,
    pub kind: OfferKind,
    pub size: u64,
    pub name: Vec<u8>,
}

impl LocalFileOffer {
    /// An identical copy.
    pub fn duplicate(&self) -> (r: LocalFileOffer)
        ensures
            r.path@ == self.path@,
            r.kind == self.kind,
            r.size == self.size,
            r.name@ == self.name@,
    {
        LocalFileOffer {
            path: copy_bytes(self.path.as_slice()),
            kind: self.kind,
            size: self.size,
            name: copy_bytes(self.name.as_slice()),
        }
    }
}

/// One entry of the sender's registry.
pub struct OfferEntry {
    pub offer_id: Vec<u8>,
    pub local: LocalFileOffer,
}

/// The sender's mapping from offer id to local offer. An entry is created
/// when an offer is built and removed on cleanup.
pub struct OfferRegistry {
    pub entries: Vec<OfferEntry>,
}

/// The backing paths of the zip-bundle entries, in registry order.
pub open spec fn spec_zip_paths(entries: Seq<OfferEntry>) -> Seq<Seq<u8>>
    decreases entries.len(),
{
    if entries.len() == 0 {
        Seq::empty()
    } else {
        spec_zip_paths(entries.drop_last()) + (if entries.last().local.kind is ZipBundle {
            seq![entries.last().local.path@]
        } else {
            Seq::empty()
        })
    }
}

impl OfferRegistry {
    /// Keys are 16 bytes and unique.
    pub open spec fn wf(&self) -> bool {
        &&& forall|j: int| 0 <= j < self.entries@.len() ==> (
        #[trigger] self.entries@[j]).offer_id@.len() == 16
        &&& forall|j: int, l: int|
            0 <= j < l < self.entries@.len() ==> (#[trigger] self.entries@[j]).offer_id@ != (
            #[trigger] self.entries@[l]).offer_id@
    }

    /// Whether an id is present.
    pub open spec fn spec_contains(&self, id: Seq<u8>) -> bool {
        exists|j: int| 0 <= j < self.entries@.len() && (#[trigger] self.entries@[j]).offer_id@
            == id
    }

    /// An empty registry.
    pub fn new() -> (r: OfferRegistry)
        ensures
            r.wf(),
            r.entries@.len() == 0,
    {
        OfferRegistry { entries: Vec::new() }
    }

    /// Register a local offer under its id, replacing a previous entry
    /// with the same id.
    pub fn insert(&mut self, offer_id: Vec<u8>, local: LocalFileOffer)
        requires
            old(self).wf(),
            offer_id@.len() == 16,
        ensures
            final(self).wf(),
            final(self).spec_contains(offer_id@),
            exists|j: int|
                {
                    &&& 0 <= j < final(self).entries@.len()
                    &&& (#[trigger] final(self).entries@[j]).offer_id@ == offer_id@
                    &&& final(self).entries@[j].local.path@ == local.path@
                    &&& final(self).entries@[j].local.kind == local.kind
                    &&& final(self).entries@[j].local.size == local.size
                    &&& final(self).entries@[j].local.name@ == local.name@
                },
            forall|id: Seq<u8>| #[trigger]
                final(self).spec_contains(id) == (old(self).spec_contains(id) || id == offer_id@),
    {
        let n = self.entries.len();
        let mut i: usize = 0;
        while i < n
            invariant
                old(self).wf(),
                *self == *old(self),
                i <= n,
                n == self.entries@.len(),
                offer_id@.len() == 16,
                forall|j: int| 0 <= j < i ==> (#[trigger] self.entries@[j]).offer_id@
                    != offer_id@,
            decreases n - i,
        {
            if bytes_eq(self.entries[i].offer_id.as_slice(), offer_id.as_slice()) {
                self.entries.set(i, OfferEntry { offer_id, local });
                proof {
                    let fs = final(self).entries@;
                    let os = old(self).entries@;
                    assert(fs[i as int].offer_id@ == os[i as int].offer_id@);
                    assert forall|id: Seq<u8>| #[trigger]
                        final(self).spec_contains(id) == (old(self).spec_contains(id) || id
                            == fs[i as int].offer_id@) by {
                        if final(self).spec_contains(id) {
                            let j = choose|j: int|
                                0 <= j < fs.len() && (#[trigger] fs[j]).offer_id@ == id;
                            assert(os[j].offer_id@ == id);
                        }
                        if old(self).spec_contains(id) {
                            let j = choose|j: int|
                                0 <= j < os.len() && (#[trigger] os[j]).offer_id@ == id;
                            assert(fs[j].offer_id@ == id);
                        }
                    }
                }
                return ;
            }
            i += 1;
        }
        self.entries.push(OfferEntry { offer_id, local });
        proof {
            let fs = final(self).entries@;
            let os = old(self).entries@;
            assert(fs.len() == os.len() + 1);
            assert forall|id: Seq<u8>| #[trigger]
                final(self).spec_contains(id) == (old(self).spec_contains(id) || id == fs[(
                fs.len() - 1) as int].offer_id@) by {
                if final(self).spec_contains(id) {
                    let j = choose|j: int| 0 <= j < fs.len() && (#[trigger] fs[j]).offer_id@ == id;
                    if j < os.len() {
                        assert(os[j].offer_id@ == id);
                    }
                }
                if old(self).spec_contains(id) {
                    let j = choose|j: int| 0 <= j < os.len() && (#[trigger] os[j]).offer_id@ == id;
                    assert(fs[j].offer_id@ == id);
                }
            }
        }
    }

    /// Look an id up and hand back a copy of its local offer.
    pub fn get(&self, offer_id: &[u8]) -> (r: Option<LocalFileOffer>)
        requires
            self.wf(),
        ensures
            r is Some <==> self.spec_contains(offer_id@),
            r matches Some(local) ==> exists|j: int|
                {
                    &&& 0 <= j < self.entries@.len()
                    &&& (#[trigger] self.entries@[j]).offer_id@ == offer_id@
                    &&& local.path@ == self.entries@[j].local.path@
                    &&& local.kind == self.entries@[j].local.kind
                    &&& local.size == self.entries@[j].local.size
                    &&& local.name@ == self.entries@[j].local.name@
                },
    {
        let n = self.entries.len();
        let mut i: usize = 0;
        while i < n
            invariant
                self.wf(),
                i <= n,
                n == self.entries@.len(),
                forall|j: int| 0 <= j < i ==> (#[trigger] self.entries@[j]).offer_id@
                    != offer_id@,
            decreases n - i,
        {
            if bytes_eq(self.entries[i].offer_id.as_slice(), offer_id) {
                return Some(self.entries[i].local.duplicate());
            }
            i += 1;
        }
        None
    }

    /// The backing paths of every zip-bundle entry: what cleanup deletes
    /// from disk. Missing files are not an error, so deletion stays
    /// idempotent.
    pub fn zip_bundle_paths(&self) -> (r: Vec<Vec<u8>>)
        ensures
            r@.map_values(|v: Vec<u8>| v@) == spec_zip_paths(self.entries@),
    {
        let n = self.entries.len();
        let mut out: Vec<Vec<u8>> = Vec::new();
        let mut i: usize = 0;
        while i < n
            invariant
                i <= n,
                n == self.entries@.len(),
                out@.map_values(|v: Vec<u8>| v@) == spec_zip_paths(self.entries@.take(i as int)),
            decreases n - i,
        {
            proof {
                assert(self.entries@.take(i + 1).drop_last() =~= self.entries@.take(i as int));
                assert(self.entries@.take(i + 1).last() == self.entries@[i as int]);
            }
            let is_zip = match self.entries[i].local.kind {
                OfferKind::ZipBundle => true,
                OfferKind::SingleFile => false,
            };
            if is_zip {
                let p = copy_bytes(self.entries[i].local.path.as_slice());
                out.push(p);
                proof {
                    assert(out@.map_values(|v: Vec<u8>| v@) =~= spec_zip_paths(
                        self.entries@.take(i + 1),
                    ));
                }
            } else {
                proof {
                    assert(out@.map_values(|v: Vec<u8>| v@) =~= spec_zip_paths(
                        self.entries@.take(i + 1),
                    ));
                }
            }
            i += 1;
        }
        proof {
            assert(self.entries@.take(n as int) =~= self.entries@);
        }
        out
    }

    /// Drop every entry.
    pub fn clear(&mut self)
        ensures
            final(self).wf(),
            final(self).entries@.len() == 0,
    {
        self.entries.clear();
    }
}

/// One entry of a receiver-side registry: where an offer was first sighted
/// and what it announced. The sender address is held as the bytes the
/// caller uses to name it.
pub struct RemoteOfferEntry {
    pub offer_id: Vec<u8>,
    pub sender: Vec<u8>,
    pub offer: FileOffer,
}

/// A receiver's mapping from offer id to sender and offer; one registry
/// exists per peer dialect. An entry is created on first sighting and
/// resolves a later download click.
pub struct RemoteOfferRegistry {
    pub entries: Vec<RemoteOfferEntry>,
}

impl RemoteOfferRegistry {
    /// Keys are 16 bytes and unique.
    pub open spec fn wf(&self) -> bool {
        &&& forall|j: int| 0 <= j < self.entries@.len() ==> (
        #[trigger] self.entries@[j]).offer_id@.len() == 16
        &&& forall|j: int, l: int|
            0 <= j < l < self.entries@.len() ==> (#[trigger] self.entries@[j]).offer_id@ != (
            #[trigger] self.entries@[l]).offer_id@
    }

    /// Whether an id is present.
    pub open spec fn spec_contains(&self, id: Seq<u8>) -> bool {
        exists|j: int| 0 <= j < self.entries@.len() && (#[trigger] self.entries@[j]).offer_id@
            == id
    }

    /// An empty registry.
    pub fn new() -> (r: RemoteOfferRegistry)
        ensures
            r.wf(),
            r.entries@.len() == 0,
    {
        RemoteOfferRegistry { entries: Vec::new() }
    }

    /// Register an offer on first sighting: append it only when its id is
    /// new, and report whether it was.
    pub fn register(&mut self, sender: Vec<u8>, offer: FileOffer) -> (is_new: bool)
        requires
            old(self).wf(),
            offer.wf(),
        ensures
            final(self).wf(),
            is_new == !old(self).spec_contains(offer.offer_id@),
            !is_new ==> *final(self) == *old(self),
            is_new ==> {
                let fs = final(self).entries@;
                &&& fs.len() == old(self).entries@.len() + 1
                &&& fs.last().offer_id@ == offer.offer_id@
                &&& fs.last().sender@ == sender@
                &&& fs.last().offer@ == offer@
                &&& fs.take(old(self).entries@.len() as int) == old(self).entries@
            },
    {
        let n = self.entries.len();
        let mut i: usize = 0;
        while i < n
            invariant
                old(self).wf(),
                *self == *old(self),
                offer.wf(),
                i <= n,
                n == self.entries@.len(),
                forall|j: int| 0 <= j < i ==> (#[trigger] self.entries@[j]).offer_id@
                    != offer.offer_id@,
            decreases n - i,
        {
            if bytes_eq(self.entries[i].offer_id.as_slice(), offer.offer_id.as_slice()) {
                return false;
            }
            i += 1;
        }
        let id_copy = copy_bytes(offer.offer_id.as_slice());
        self.entries.push(RemoteOfferEntry { offer_id: id_copy, sender, offer });
        proof {
            assert(final(self).entries@.take(old(self).entries@.len() as int) =~= old(
                self,
            ).entries@);
        }
        true
    }

    /// Resolve a download click: the sender and offer stored under an id.
    pub fn get(&self, offer_id: &[u8]) -> (r: Option<(Vec<u8>, FileOffer)>)
        requires
            self.wf(),
        ensures
            r is Some <==> self.spec_contains(offer_id@),
            r matches Some((sender, offer)) ==> exists|j: int|
                {
                    &&& 0 <= j < self.entries@.len()
                    &&& (#[trigger] self.entries@[j]).offer_id@ == offer_id@
                    &&& sender@ == self.entries@[j].sender@
                    &&& offer@ == self.entries@[j].offer@
                },
    {
        let n = self.entries.len();
        let mut i: usize = 0;
        while i < n
            invariant
                self.wf(),
                i <= n,
                n == self.entries@.len(),
                forall|j: int| 0 <= j < i ==> (#[trigger] self.entries@[j]).offer_id@
                    != offer_id@,
            decreases n - i,
        {
            if bytes_eq(self.entries[i].offer_id.as_slice(), offer_id) {
                let e = &self.entries[i];
                let offer = FileOffer {
                    offer_id: copy_bytes(e.offer.offer_id.as_slice()),
                    name: copy_bytes(e.offer.name.as_slice()),
                    size: e.offer.size,
                    kind: e.offer.kind,
                    protocol_version: e.offer.protocol_version,
                    tcp_port: e.offer.tcp_port,
                };
                let sender = copy_bytes(e.sender.as_slice());
                proof {
                    assert(offer@ =~= self.entries@[i as int].offer@);
                }
                return Some((sender, offer));
            }
            i += 1;
        }
        None
    }
}

} // verus!
