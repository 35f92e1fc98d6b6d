use lanchgo::bundler::{sum_sizes, BundleEvent, BundleProgress, FileOfferBuilder};
use lanchgo::codec::{decode_foft, OfferKind, FILE_PROTOCOL_VERSION};
use lanchgo::helpers::progress_bucket_3;
use lanchgo::offers::{LocalFileOffer, OfferRegistry, RemoteOfferRegistry};
use lanchgo::zip::{crc32, zip_central_header, zip_end_of_central, zip_local_header};
use lanchgo::codec::FileOffer;

#[test]
fn bundle_slots_cap_at_two() {
    // A third concurrent bundle request fails immediately without
    // starting a worker; releasing one slot lets the next proceed.
    let mut builder = FileOfferBuilder::new(4040);
    assert!(builder.try_begin_bundle());
    assert!(builder.try_begin_bundle());
    assert!(!builder.try_begin_bundle());
    assert_eq!(builder.bundle_slots.in_flight, 2);
    builder.end_bundle();
    assert!(builder.try_begin_bundle());
    builder.end_bundle();
    builder.end_bundle();
    assert_eq!(builder.bundle_slots.in_flight, 0);
}

#[test]
fn single_file_offer_is_registered_and_encodable() {
    let mut builder = FileOfferBuilder::new(4040);
    let mut registry = OfferRegistry::new();
    let (offer, packet) =
        builder.offer_single(&mut registry, b"a.txt".to_vec(), 10, b"/tmp/a.txt".to_vec());

    assert_eq!(offer.name, b"a.txt".to_vec());
    assert_eq!(offer.size, 10);
    assert!(matches!(offer.kind, OfferKind::SingleFile));
    assert_eq!(offer.protocol_version, FILE_PROTOCOL_VERSION);
    assert_eq!(offer.tcp_port, 4040);
    assert_eq!(offer.offer_id.len(), 16);

    let decoded = decode_foft(&packet).expect("offer packet decodes");
    assert_eq!(decoded.offer_id, offer.offer_id);
    assert_eq!(decoded.size, 10);

    let local = registry.get(&offer.offer_id).expect("registered");
    assert_eq!(local.path, b"/tmp/a.txt".to_vec());
    assert_eq!(local.size, 10);
}

#[test]
fn re_offering_gives_a_fresh_id() {
    let mut builder = FileOfferBuilder::new(4040);
    let mut registry = OfferRegistry::new();
    let (o1, _) = builder.offer_single(&mut registry, b"a".to_vec(), 1, b"/a".to_vec());
    let (o2, _) = builder.offer_single(&mut registry, b"a".to_vec(), 1, b"/a".to_vec());
    assert_ne!(o1.offer_id, o2.offer_id);
}

#[test]
fn bundle_offer_scenario() {
    // Two files are offered: the builder reserves a slot, the worker
    // accounts the zip progress, emits Finished, and the offer carries the
    // bundle's exact reported size.
    let mut builder = FileOfferBuilder::new(4040);
    let mut registry = OfferRegistry::new();
    assert!(builder.try_begin_bundle());

    let sizes = vec![600u64, 400u64];
    let mut worker = BundleProgress::new(&sizes);
    assert_eq!(worker.total, 1000);

    let e1 = worker.on_read(600, b"/tmp/one.bin");
    match e1 {
        BundleEvent::Progress { done, total, current_path } => {
            assert_eq!(done, 600);
            assert_eq!(total, 1000);
            assert_eq!(current_path, b"/tmp/one.bin".to_vec());
        }
        _ => panic!("first event must be progress"),
    }
    let e2 = worker.on_read(400, b"/tmp/two.bin");
    assert!(matches!(e2, BundleEvent::Progress { done: 1000, total: 1000, .. }));

    // The archive is complete: register it under the id its temporary
    // path was derived from and emit the terminal event.
    let zip_size = 1042u64;
    let offer_id = lanchgo::bundler::new_offer_id();
    let (offer, packet) = builder.offer_bundle(
        &mut registry,
        offer_id.clone(),
        b"Bundle 1.zip".to_vec(),
        zip_size,
        b"/tmp/b.zip".to_vec(),
    );
    assert_eq!(offer.offer_id, offer_id);
    assert!(matches!(offer.kind, OfferKind::ZipBundle));
    let local = registry.get(&offer.offer_id).unwrap();
    let terminal = worker.finish(packet.clone(), local);
    match terminal {
        BundleEvent::Finished { packet: p, local: l } => {
            assert_eq!(p, packet);
            assert_eq!(l.path, b"/tmp/b.zip".to_vec());
            assert_eq!(l.size, zip_size);
            assert!(matches!(l.kind, OfferKind::ZipBundle));
            assert_eq!(l.name, b"Bundle 1.zip".to_vec());
        }
        _ => panic!("the terminal event must be Finished"),
    }

    // The receiver decodes the broadcast packet and sees the exact size.
    let decoded = decode_foft(&packet).unwrap();
    assert_eq!(decoded.size, zip_size);
    assert!(matches!(decoded.kind, OfferKind::ZipBundle));

    // The exit guard releases the slot whatever happened.
    builder.end_bundle();
    assert_eq!(builder.bundle_slots.in_flight, 0);
}

#[test]
fn bundle_error_is_terminal() {
    let mut worker = BundleProgress::new(&[5, 5]);
    worker.on_read(3, b"/tmp/x");
    let e = worker.fail(b"read failed".to_vec());
    match e {
        BundleEvent::Error { message } => assert_eq!(message, b"read failed".to_vec()),
        _ => panic!("the terminal event must be Error"),
    }
    assert!(worker.terminal);
}

#[test]
fn sum_sizes_saturates() {
    assert_eq!(sum_sizes(&[]), 0);
    assert_eq!(sum_sizes(&[1, 2, 3]), 6);
    assert_eq!(sum_sizes(&[u64::MAX, 1]), u64::MAX);
    assert_eq!(sum_sizes(&[u64::MAX - 1, 1]), u64::MAX);
}

#[test]
fn cleanup_deletes_only_zip_bundles_then_clears() {
    let mut registry = OfferRegistry::new();
    registry.insert(
        (0u8..16).collect(),
        LocalFileOffer {
            path: b"/tmp/plain.txt".to_vec(),
            kind: OfferKind::SingleFile,
            size: 1,
            name: b"plain.txt".to_vec(),
        },
    );
    registry.insert(
        (16u8..32).collect(),
        LocalFileOffer {
            path: b"/tmp/bundle.zip".to_vec(),
            kind: OfferKind::ZipBundle,
            size: 2,
            name: b"bundle.zip".to_vec(),
        },
    );
    let paths = registry.zip_bundle_paths();
    assert_eq!(paths, vec![b"/tmp/bundle.zip".to_vec()]);
    registry.clear();
    assert!(registry.entries.is_empty());
    // Idempotent: a second cleanup finds nothing to delete.
    assert!(registry.zip_bundle_paths().is_empty());
}

#[test]
fn offer_registry_replaces_on_same_id() {
    let mut registry = OfferRegistry::new();
    let id: Vec<u8> = (0u8..16).collect();
    registry.insert(
        id.clone(),
        LocalFileOffer {
            path: b"/old".to_vec(),
            kind: OfferKind::SingleFile,
            size: 1,
            name: b"old".to_vec(),
        },
    );
    registry.insert(
        id.clone(),
        LocalFileOffer {
            path: b"/new".to_vec(),
            kind: OfferKind::SingleFile,
            size: 2,
            name: b"new".to_vec(),
        },
    );
    assert_eq!(registry.entries.len(), 1);
    assert_eq!(registry.get(&id).unwrap().path, b"/new".to_vec());
}

#[test]
fn remote_registry_registers_first_sighting_only() {
    let mut remote = RemoteOfferRegistry::new();
    let offer = FileOffer {
        offer_id: (0u8..16).collect(),
        name: b"a.txt".to_vec(),
        size: 10,
        kind: OfferKind::SingleFile,
        protocol_version: FILE_PROTOCOL_VERSION,
        tcp_port: 4040,
    };
    let again = FileOffer { offer_id: offer.offer_id.clone(), ..clone_offer(&offer) };
    assert!(remote.register(b"192.168.1.7".to_vec(), offer));
    assert!(!remote.register(b"192.168.1.7".to_vec(), again));
    assert_eq!(remote.entries.len(), 1);

    let (sender, stored) = remote.get(&(0u8..16).collect::<Vec<u8>>()).unwrap();
    assert_eq!(sender, b"192.168.1.7".to_vec());
    assert_eq!(stored.size, 10);
    assert!(remote.get(&(1u8..17).collect::<Vec<u8>>()).is_none());
}

fn clone_offer(o: &FileOffer) -> FileOffer {
    FileOffer {
        offer_id: o.offer_id.clone(),
        name: o.name.clone(),
        size: o.size,
        kind: o.kind,
        protocol_version: o.protocol_version,
        tcp_port: o.tcp_port,
    }
}

#[test]
fn progress_buckets_are_three_point() {
    assert_eq!(progress_bucket_3(0, 0), 0);
    assert_eq!(progress_bucket_3(0, 100), 0);
    assert_eq!(progress_bucket_3(1, 3), 33);
    assert_eq!(progress_bucket_3(50, 100), 48);
    assert_eq!(progress_bucket_3(99, 100), 99);
    assert_eq!(progress_bucket_3(100, 100), 100);
    assert_eq!(progress_bucket_3(200, 100), 100);
    assert_eq!(progress_bucket_3(5, 1000), 0);
}

#[test]
fn crc32_matches_the_standard_check_value() {
    assert_eq!(crc32(b"123456789"), 0xCBF4_3926);
    assert_eq!(crc32(b""), 0);
    assert_eq!(crc32(b"a"), 0xE8B7_BE43);
}

#[test]
fn zip_records_have_their_magics_and_lengths() {
    let local = zip_local_header(b"a.txt", 0x1234_5678, 10);
    assert_eq!(local.len(), 30 + 5);
    assert_eq!(&local[0..4], &[0x50, 0x4B, 0x03, 0x04]);
    assert_eq!(&local[14..18], &0x1234_5678u32.to_le_bytes());
    assert_eq!(&local[26..28], &5u16.to_le_bytes());
    assert_eq!(&local[30..], b"a.txt");

    let central = zip_central_header(b"a.txt", 0x1234_5678, 10, 99);
    assert_eq!(central.len(), 46 + 5);
    assert_eq!(&central[0..4], &[0x50, 0x4B, 0x01, 0x02]);
    assert_eq!(&central[42..46], &99u32.to_le_bytes());
    assert_eq!(&central[46..], b"a.txt");

    let end = zip_end_of_central(2, 102, 300);
    assert_eq!(end.len(), 22);
    assert_eq!(&end[0..4], &[0x50, 0x4B, 0x05, 0x06]);
    assert_eq!(&end[8..10], &2u16.to_le_bytes());
    assert_eq!(&end[12..16], &102u32.to_le_bytes());
    assert_eq!(&end[16..20], &300u32.to_le_bytes());
}
