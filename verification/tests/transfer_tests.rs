use lanchgo::codec::FILE_PROTOCOL_VERSION;
use lanchgo::offers::{LocalFileOffer, OfferRegistry};
use lanchgo::codec::OfferKind;
use lanchgo::transfer::{
    classify_dialect, classify_mobile_status3, classify_mobile_status4, desktop_request_frame,
    desktop_response_header, err_line, finish_action, handle_mobile_request, mobile_request_line,
    ok_line, parse_desktop_request, parse_desktop_response_header, Dialect, DownloadManager,
    FinishAction, FrameError, MobileProgress, MobileReply, MobileStatus3, MobileStatus4,
    TransferProgress,
};
use lanchgo::bytes::offer_id_to_hex;

fn sample_id() -> Vec<u8> {
    (0u8..16).collect()
}

#[test]
fn dialect_classification() {
    assert!(matches!(classify_dialect(b"FOFR"), Dialect::Desktop));
    assert!(matches!(classify_dialect(b"FOFRxxxx"), Dialect::Desktop));
    assert!(matches!(classify_dialect(b"0123"), Dialect::Mobile));
    assert!(matches!(classify_dialect(b"FO"), Dialect::Mobile));
    assert!(matches!(classify_dialect(b"FOFS"), Dialect::Mobile));
}

#[test]
fn desktop_request_round_trip() {
    let id = sample_id();
    let frame = desktop_request_frame(&id);
    assert_eq!(frame.len(), 21);
    assert_eq!(&frame[0..4], b"FOFR");
    assert_eq!(frame[4], FILE_PROTOCOL_VERSION);
    let parsed = parse_desktop_request(&frame).expect("round trip");
    assert_eq!(parsed, id);
}

#[test]
fn desktop_request_rejections() {
    let id = sample_id();
    let frame = desktop_request_frame(&id);

    let mut bad_magic = frame.clone();
    bad_magic[0] = b'X';
    assert!(matches!(parse_desktop_request(&bad_magic), Err(FrameError::BadMagic)));

    let mut bad_version = frame.clone();
    bad_version[4] = FILE_PROTOCOL_VERSION.wrapping_add(1);
    assert!(matches!(parse_desktop_request(&bad_version), Err(FrameError::VersionMismatch)));

    assert!(matches!(parse_desktop_request(&frame[0..20]), Err(FrameError::BadLength)));
}

#[test]
fn desktop_response_header_round_trip() {
    let header = desktop_response_header(0xDEAD_BEEF_u64);
    assert_eq!(header.len(), 13);
    assert_eq!(&header[0..4], b"FOFS");
    assert_eq!(header[4], FILE_PROTOCOL_VERSION);
    assert_eq!(parse_desktop_response_header(&header), Ok(0xDEAD_BEEF_u64));

    let mut bad = header.clone();
    bad[3] = b'X';
    assert!(matches!(parse_desktop_response_header(&bad), Err(FrameError::BadMagic)));
    let mut bad_v = header;
    bad_v[4] = FILE_PROTOCOL_VERSION.wrapping_add(1);
    assert!(matches!(parse_desktop_response_header(&bad_v), Err(FrameError::VersionMismatch)));
}

#[test]
fn mobile_request_line_shape() {
    let id = sample_id();
    let hex = offer_id_to_hex(&id);
    let line = mobile_request_line(&hex).expect("32 chars");
    assert_eq!(line.len(), 33);
    assert_eq!(line[32], b'\n');
    assert!(mobile_request_line(b"short").is_none());
}

#[test]
fn mobile_status_lines() {
    assert_eq!(ok_line(), b"OK\n".to_vec());
    assert_eq!(err_line(), b"ERR\n".to_vec());
    assert!(matches!(classify_mobile_status3(b"OK\n"), MobileStatus3::Streaming));
    assert!(matches!(classify_mobile_status3(b"ERR"), MobileStatus3::NeedFourth));
    assert!(matches!(classify_mobile_status4(b"ERR\n"), MobileStatus4::OfferNotFound));
    assert!(matches!(classify_mobile_status4(b"XYZ\n"), MobileStatus4::BadStatus));
}

#[test]
fn mobile_server_reply_decision() {
    let mut registry = OfferRegistry::new();
    let id = sample_id();
    registry.insert(
        id.clone(),
        LocalFileOffer {
            path: b"/tmp/a.txt".to_vec(),
            kind: OfferKind::SingleFile,
            size: 10,
            name: b"a.txt".to_vec(),
        },
    );
    let hex = offer_id_to_hex(&id);

    match handle_mobile_request(&registry, &hex) {
        MobileReply::ServeOk(local) => {
            assert_eq!(local.size, 10);
            assert_eq!(local.path, b"/tmp/a.txt".to_vec());
        }
        _ => panic!("registered offer must be served"),
    }

    // Wrong shape draws ERR; an unknown but well-formed id closes silently.
    assert!(matches!(handle_mobile_request(&registry, b"zz"), MobileReply::ReplyErr));
    assert!(matches!(
        handle_mobile_request(&registry, b"0123456789ABCDEF0123456789abcdef"),
        MobileReply::ReplyErr
    ));
    let other_hex = offer_id_to_hex(&(100u8..116).collect::<Vec<u8>>());
    assert!(matches!(handle_mobile_request(&registry, &other_hex), MobileReply::Abort));
}

#[test]
fn transfer_progress_publishes_only_complete() {
    // Given a server offering size=N bytes, the client publishes exactly
    // when all N arrived, and deletes the part file otherwise.
    let mut p = TransferProgress::new(10);
    assert!(!p.is_done());
    assert_eq!(p.next_want(4), 4);
    p.record(4);
    assert_eq!(p.next_want(1024), 6);
    p.record(6);
    assert!(p.is_done());
    assert!(matches!(finish_action(&p), FinishAction::PublishRename));

    let mut q = TransferProgress::new(10);
    q.record(7);
    assert!(matches!(finish_action(&q), FinishAction::DeletePart));
}

#[test]
fn mobile_progress_counts_to_eof() {
    let mut p = MobileProgress::new();
    p.record(5);
    p.record(7);
    assert_eq!(p.got, 12);
}

#[test]
fn download_slots_cap_at_two() {
    // A third concurrent download fails immediately; finishing any
    // download frees the slot again.
    let mut mgr = DownloadManager::new();
    assert!(mgr.try_begin_download());
    assert!(mgr.try_begin_download());
    assert!(!mgr.try_begin_download());
    assert_eq!(mgr.slots.in_flight, 2);
    mgr.finish_download();
    assert!(mgr.try_begin_download());
    assert!(!mgr.try_begin_download());
    mgr.finish_download();
    mgr.finish_download();
    assert_eq!(mgr.slots.in_flight, 0);
}

#[test]
fn desktop_download_scenario_ten_bytes() {
    // Sender offers a 10-byte file named a.txt; the receiver requests it,
    // reads the framed response, and ends with a byte-identical file.
    let file_bytes: Vec<u8> = b"0123456789".to_vec();
    let mut registry = OfferRegistry::new();
    let id = sample_id();
    registry.insert(
        id.clone(),
        LocalFileOffer {
            path: b"a.txt".to_vec(),
            kind: OfferKind::SingleFile,
            size: file_bytes.len() as u64,
            name: b"a.txt".to_vec(),
        },
    );

    // Client sends the request frame; the server parses it and finds the
    // offer.
    let frame = desktop_request_frame(&id);
    let wanted = parse_desktop_request(&frame).unwrap();
    let local = registry.get(&wanted).expect("offer registered");
    assert_eq!(local.size, 10);

    // Server sends the header; the client validates it and reads exactly
    // the declared number of bytes.
    let header = desktop_response_header(local.size);
    let total = parse_desktop_response_header(&header).unwrap();
    let mut progress = TransferProgress::new(total);
    let mut saved: Vec<u8> = Vec::new();
    let mut offset = 0usize;
    while !progress.is_done() {
        let want = progress.next_want(4);
        saved.extend_from_slice(&file_bytes[offset..offset + want]);
        offset += want;
        progress.record(want);
    }
    assert!(matches!(finish_action(&progress), FinishAction::PublishRename));
    assert_eq!(saved, file_bytes);
    assert_eq!(saved.len() as u64, total);
}

#[test]
fn desktop_download_disconnect_leaves_no_file() {
    // On a mid-stream disconnect the part file is deleted and nothing is
    // published under the final name.
    let mut progress = TransferProgress::new(10);
    progress.record(4);
    // The connection closes early: only 4 of 10 bytes arrived.
    assert!(!progress.is_done());
    assert!(matches!(finish_action(&progress), FinishAction::DeletePart));
}
