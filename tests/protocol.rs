use song_sync::catalog::SongFolder;
use song_sync::dispatch::{plan_write, reader_step, DownloadTransfer, Incoming, ReaderAction, CHUNK_SIZE};
use song_sync::packets::{
    classify_header, frame_packet, header_of, strip_line_end, DisconnectPacket,
    DownloadRequestPacket, DownloadResponsePacket, MapListPacket, MapListRequestPacket, Packet,
    PacketKind,
};

fn entry(id: u64, name: &str, checksum: &str) -> SongFolder {
    SongFolder { id, name: name.to_string(), checksum: checksum.to_string(), path: None }
}

#[test]
fn headers_name_their_packets() {
    assert_eq!(MapListRequestPacket::new().get_header(), "MapListRequestPacket");
    assert_eq!(MapListPacket::new(vec![]).get_header(), "MapListPacket");
    assert_eq!(DownloadRequestPacket::new(vec![]).get_header(), "DownloadRequestPacket");
    assert_eq!(DownloadResponsePacket::new(3).get_header(), "DownloadResponsePacket");
    assert_eq!(DisconnectPacket::new().get_header(), "DisconnectPacket");
    assert_eq!(DisconnectPacket::new().kind(), PacketKind::Disconnect);
    assert_eq!(MapListRequestPacket::new().get_data(), "");
    assert_eq!(DisconnectPacket::new().get_data(), "");
}

#[test]
fn packets_keep_their_lists() {
    let p = MapListPacket::new(vec![entry(1, "A - B", "C")]);
    assert_eq!(p.map_list.len(), 1);
    assert_eq!(p.map_list[0].id, 1);
    let q = DownloadRequestPacket::new(vec![entry(4, "D - E", "")]);
    assert_eq!(q.requested_maps[0].name, "D - E");
}

#[test]
fn headers_are_recognised() {
    for k in [
        PacketKind::MapListRequest,
        PacketKind::MapList,
        PacketKind::DownloadRequest,
        PacketKind::DownloadResponse,
        PacketKind::Disconnect,
    ] {
        assert_eq!(classify_header(header_of(k)), Some(k));
    }
    assert_eq!(classify_header("ErrorPacket"), None);
    assert_eq!(classify_header(""), None);
    assert_eq!(classify_header("MapListPacket "), None);
}

#[test]
fn frames_are_two_lines() {
    assert_eq!(frame_packet("MapListPacket", "[]"), Some("MapListPacket\n[]\n".to_string()));
    assert_eq!(frame_packet("DisconnectPacket", ""), Some("DisconnectPacket\n\n".to_string()));
    assert_eq!(frame_packet("MapListPacket", "a\nb"), None);
    assert_eq!(frame_packet("Map\nList", ""), None);
}

#[test]
fn line_ends_are_stripped() {
    assert_eq!(strip_line_end("MapListPacket\n"), "MapListPacket");
    assert_eq!(strip_line_end("17795233\n"), "17795233");
    assert_eq!(strip_line_end("\n"), "");
    assert_eq!(strip_line_end("abc"), "abc");
}

#[test]
fn download_response_size_round_trip() {
    let p = DownloadResponsePacket::new(17795233);
    assert_eq!(p.get_data(), "17795233");
    assert_eq!(DownloadResponsePacket::deserialize(&p.get_data()).zip_size, 17795233);
    assert_eq!(DownloadResponsePacket::deserialize("0").zip_size, 0);
    assert_eq!(DownloadResponsePacket::deserialize(&u64::MAX.to_string()).zip_size, u64::MAX);
    // malformed sizes are turned away before a packet is made
    assert_eq!(song_sync::decimal::parse_u64(""), None);
    assert_eq!(song_sync::decimal::parse_u64("12 MB"), None);
}

#[test]
fn catalog_request_answers_with_local_catalog() {
    let local = vec![entry(3030, "A - B", "C1"), entry(1752, "D - E", "C2")];
    match reader_step(&local, Incoming::MapListRequest) {
        ReaderAction::SendMapList(p) => {
            let mut ids: Vec<u64> = p.map_list.iter().map(|e| e.id).collect();
            ids.sort();
            assert_eq!(ids, vec![1752, 3030]);
            assert_eq!(p.map_list[0].checksum, "C1");
        }
        _ => panic!("expected a catalog"),
    }
}

#[test]
fn received_catalog_replaces_remote() {
    let list = vec![entry(5, "F - G", "H")];
    match reader_step(&vec![], Incoming::MapList(list)) {
        ReaderAction::ReplaceRemote(l) => assert_eq!(l[0].id, 5),
        _ => panic!("expected a replacement"),
    }
}

#[test]
fn download_request_picks_local_folders() {
    let mut a = entry(8033, "A - B", "C1");
    a.path = Some("/s/8033 A - B".to_string());
    let local = vec![entry(7380, "X - Y", "C0"), a, entry(8284, "P - Q", "C2")];
    let req = vec![entry(8284, "P - Q", ""), entry(8033, "A - B", ""), entry(7380, "X - Y", "")];
    match reader_step(&local, Incoming::DownloadRequest(req)) {
        ReaderAction::SendArchive(found) => {
            let ids: Vec<u64> = found.iter().map(|e| e.id).collect();
            assert_eq!(ids, vec![8284, 8033, 7380]);
            assert_eq!(found[1].path, Some("/s/8033 A - B".to_string()));
        }
        _ => panic!("expected an archive"),
    }
    let missing = vec![entry(1, "No - Where", "")];
    assert!(matches!(reader_step(&local, Incoming::DownloadRequest(missing)), ReaderAction::RejectRequest(0)));
}

#[test]
fn other_packets() {
    assert!(matches!(reader_step(&vec![], Incoming::Disconnect), ReaderAction::Disconnect));
    assert!(matches!(reader_step(&vec![], Incoming::Unknown), ReaderAction::Ignore));
    match reader_step(&vec![], Incoming::DownloadResponse(2500)) {
        ReaderAction::ReceiveArchive(t) => {
            assert_eq!((t.total, t.remaining, t.reported), (2500, 2500, 0));
        }
        _ => panic!("expected a transfer"),
    }
}

#[test]
fn transfer_drains_exactly_the_announced_bytes() {
    // the stream holds the archive and then the next packet
    let zip_size: u64 = 2500;
    let mut stream: Vec<u8> = vec![7; zip_size as usize];
    stream.extend_from_slice(b"DisconnectPacket\n\n");
    let mut t = DownloadTransfer::new(zip_size);
    let mut pos: usize = 0;
    let mut reports = Vec::new();
    while !t.is_complete() {
        let n = t.next_chunk_len();
        assert!(n <= CHUNK_SIZE);
        pos += n as usize;
        if let Some(p) = t.record(n) {
            reports.push(p);
        }
    }
    assert_eq!(t.received(), zip_size);
    assert_eq!(pos, 2500);
    assert_eq!(reports, vec![41, 82, 100]);
    let rest = std::str::from_utf8(&stream[pos..]).unwrap();
    let first_line = rest.split_inclusive('\n').next().unwrap();
    assert_eq!(classify_header(&strip_line_end(first_line)), Some(PacketKind::Disconnect));
}

#[test]
fn progress_is_reported_once_per_rise() {
    let mut t = DownloadTransfer::new(1000);
    // 999 of 1000 bytes left: 100 - 99
    assert_eq!(t.record(1), Some(1));
    assert_eq!(t.record(9), None);
    assert_eq!(t.record(5), Some(2));
    assert_eq!(t.record(985), Some(100));
    assert!(t.is_complete());
}

#[test]
fn empty_transfer_is_complete_at_once() {
    let t = DownloadTransfer::new(0);
    assert!(t.is_complete());
    assert_eq!(t.next_chunk_len(), 0);
}

#[test]
fn writer_plans() {
    let p = plan_write(PacketKind::DownloadResponse, "14848656").unwrap();
    assert_eq!(p.frame, "DownloadResponsePacket\n14848656\n");
    assert!(p.stream_payload && !p.stop);
    let d = plan_write(PacketKind::Disconnect, "").unwrap();
    assert_eq!(d.frame, "DisconnectPacket\n\n");
    assert!(d.stop && !d.stream_payload);
    let m = plan_write(PacketKind::MapListRequest, "").unwrap();
    assert!(!m.stop && !m.stream_payload);
    assert!(plan_write(PacketKind::MapList, "[\n]").is_none());
}
