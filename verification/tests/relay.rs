use sfu::sfu::relay::supervisor::{RelaySupervisor, SupervisorEvent, SupervisorPhase};
use sfu::sfu::relay::cmaf::catalog::{build_catalog, hex_encode};
use sfu::sfu::relay::error::RelayError;
use base64::Engine;
use sfu::sfu::relay::cmaf::box_payload::extract_box_payload;
use sfu::sfu::relay::cmaf::cmaf_splitter::{CmafItem, CmafSplitter};
use sfu::sfu::relay::port_allocator::PortAllocator;
use sfu::sfu::relay::rtp_forwarder::{
    inspect_h264_rtp_payload, ForwardDecision, H264Info, RtpForwarderKind, RtpGate,
};

fn info(sps: bool, pps: bool, idr: bool) -> H264Info {
    H264Info { sps, pps, idr }
}

#[test]
fn h264_units_are_recognised() {
    assert_eq!(inspect_h264_rtp_payload(&[]), info(false, false, false));
    assert_eq!(inspect_h264_rtp_payload(&[0x67, 1]), info(true, false, false));
    assert_eq!(inspect_h264_rtp_payload(&[0x68]), info(false, true, false));
    assert_eq!(inspect_h264_rtp_payload(&[0x65, 0, 0]), info(false, false, true));
    // STAP-A with SPS and PPS.
    assert_eq!(inspect_h264_rtp_payload(&[0x78, 0, 2, 0x67, 0xAA, 0, 1, 0x68]), info(true, true, false));
    // STAP-A stops at a truncated unit.
    assert_eq!(inspect_h264_rtp_payload(&[0x78, 0, 1, 0x67, 0, 9, 0x68]), info(true, false, false));
    // FU-A start fragment of an IDR slice, and a continuation fragment.
    assert_eq!(inspect_h264_rtp_payload(&[0x7C, 0x85, 1]), info(false, false, true));
    assert_eq!(inspect_h264_rtp_payload(&[0x7C, 0x05, 1]), info(false, false, false));
    assert_eq!(inspect_h264_rtp_payload(&[0x7C]), info(false, false, false));
}

#[test]
fn video_gate_waits_for_parameter_sets_and_an_idr_slice() {
    let mut gate = RtpGate::new(RtpForwarderKind::Video);
    assert_eq!(gate.on_packet(&[]), ForwardDecision::Skip);
    assert_eq!(gate.on_packet(&[0x41, 0]), ForwardDecision::Skip);
    assert_eq!(gate.on_packet(&[0x65, 0]), ForwardDecision::Skip);
    assert_eq!(gate.on_packet(&[0x67, 0]), ForwardDecision::Forward);
    assert_eq!(gate.on_packet(&[0x68, 0]), ForwardDecision::Forward);
    assert!(!gate.ready);
    assert_eq!(gate.on_packet(&[0x41, 0]), ForwardDecision::Skip);
    assert_eq!(gate.on_packet(&[0x65, 0]), ForwardDecision::Forward);
    assert!(gate.ready);
    assert_eq!(gate.on_packet(&[0x41, 0]), ForwardDecision::Forward);
}

#[test]
fn audio_gate_is_open_from_the_start() {
    let mut gate = RtpGate::new(RtpForwarderKind::Audio);
    assert!(gate.ready);
    assert_eq!(gate.on_packet(&[1, 2, 3]), ForwardDecision::Forward);
    assert_eq!(gate.on_packet(&[]), ForwardDecision::Skip);
    assert_eq!(RtpForwarderKind::Audio.as_string(), "Audio-Forwarder");
    assert_eq!(RtpForwarderKind::Video.as_string(), "Video-Forwarder");
}

#[test]
fn relay_ports_are_drawn_from_the_range() {
    let mut ports = PortAllocator::new(40_000, 40_001);
    let a = ports.allocate_port(|_| true).unwrap();
    let b = ports.allocate_port(|_| true).unwrap();
    assert!((40_000..=40_001).contains(&a));
    assert_ne!(a, b);
    assert_eq!(ports.allocate_port(|_| true), None);
    ports.release_port(a);
    assert_eq!(ports.allocate_port(|p| p == a), Some(a));
    let mut closed = PortAllocator::new(40_000, 40_010);
    assert_eq!(closed.allocate_port(|_| false), None);
}

#[test]
fn box_payload_is_found_by_name() {
    let mut data = vec![0, 0, 0, 12];
    data.extend_from_slice(b"free");
    data.extend_from_slice(&[1, 2, 3, 4]);
    data.extend_from_slice(&[0, 0, 0, 10]);
    data.extend_from_slice(b"mdat");
    data.extend_from_slice(&[9, 8]);
    assert_eq!(extract_box_payload(&data, b"mdat"), Some(vec![9, 8]));
    assert_eq!(extract_box_payload(&data, b"free"), Some(vec![1, 2, 3, 4]));
    assert_eq!(extract_box_payload(&data, b"moov"), None);
}

fn mp4_box(name: &[u8; 4], body: &[u8]) -> Vec<u8> {
    let mut b = ((body.len() + 8) as u32).to_be_bytes().to_vec();
    b.extend_from_slice(name);
    b.extend_from_slice(body);
    b
}

#[test]
fn cmaf_stream_splits_into_init_and_fragments() {
    let mut splitter = CmafSplitter::new();
    let ftyp = mp4_box(b"ftyp", &[1]);
    let moov = mp4_box(b"moov", &[2, 2]);
    let moof = mp4_box(b"moof", &[3]);
    let mdat = mp4_box(b"mdat", &[4, 4, 4]);
    let mut stream = Vec::new();
    for b in [&ftyp, &moov, &moof, &mdat] {
        stream.extend_from_slice(b);
    }
    // Fed in two pieces that cut a box in half.
    let cut = ftyp.len() + 3;
    let first = splitter.push(stream[..cut].to_vec()).unwrap();
    assert!(first.is_empty());
    let rest = splitter.push(stream[cut..].to_vec()).unwrap();
    assert_eq!(rest.len(), 2);
    match &rest[0] {
        CmafItem::Init(b) => assert_eq!(b, &[ftyp.clone(), moov.clone()].concat()),
        other => panic!("expected the init segment, got {other:?}"),
    }
    match &rest[1] {
        CmafItem::Fragment(b) => assert_eq!(b, &[moof.clone(), mdat.clone()].concat()),
        other => panic!("expected a fragment, got {other:?}"),
    }
}

#[test]
fn cmaf_stream_must_start_with_ftyp() {
    let mut splitter = CmafSplitter::new();
    assert!(splitter.push(mp4_box(b"moov", &[])).is_err());
    let mut splitter = CmafSplitter::new();
    assert!(splitter.push(mp4_box(b"moof", &[])).is_err());
}

#[test]
fn hex_is_lowercase_two_digits_a_byte() {
    assert_eq!(hex_encode(&[0x01, 0xab, 0xff, 0x00]), "01abff00");
    assert_eq!(hex_encode(&[]), "");
}

#[test]
fn catalog_carries_both_inits_and_the_avcc_config() {
    let video_init = [mp4_box(b"ftyp", b"iso5"), mp4_box(b"moov", &mp4_box(b"avcC", &[0x01, 0x42, 0xc0, 0x1e]))].concat();
    let audio_init = [mp4_box(b"ftyp", b"iso5"), mp4_box(b"moov", &mp4_box(b"esds", &[0, 0, 0, 0]))].concat();
    let catalog = build_catalog(&video_init, &audio_init).unwrap();
    let b64 = base64::engine::general_purpose::STANDARD;
    let expected = format!(
        "{{\"audio\":{{\"renditions\":{{\"audio1\":{{\"bitrate\":128000,\"codec\":\"mp4a.40.2\",\"container\":{{\"init\":\"{}\",\"kind\":\"cmaf\"}},\"description\":\"1190\",\"numberOfChannels\":2,\"sampleRate\":48000}}}}}},\"video\":{{\"renditions\":{{\"video0\":{{\"bitrate\":5000000,\"codec\":\"avc1.42c020\",\"codedHeight\":360,\"codedWidth\":640,\"container\":{{\"init\":\"{}\",\"kind\":\"cmaf\"}},\"description\":\"{}\",\"framerate\":30.0,\"optimizeForLatency\":true}}}}}}}}",
        b64.encode(&audio_init),
        b64.encode(&video_init),
        "0142c01e"
    );
    assert_eq!(catalog, expected);
    // serde_json renders the same text: keys in order, compact.
    let value: serde_json::Value = serde_json::from_str(&catalog).unwrap();
    assert_eq!(value.to_string(), catalog);
    assert_eq!(value["video"]["renditions"]["video0"]["description"], "0142c01e");

    match build_catalog(&audio_init, &audio_init) {
        Err(RelayError::CmafPublisher(m)) => assert_eq!(m, "missing avcC"),
        other => panic!("unexpected {other:?}"),
    }
    match build_catalog(&video_init, &video_init) {
        Err(RelayError::CmafPublisher(m)) => assert_eq!(m, "missing esds"),
        other => panic!("unexpected {other:?}"),
    }
}

#[test]
fn relay_pipeline_shuts_down_back_to_front() {
    let mut s = RelaySupervisor::new();
    assert!(!s.handle(SupervisorEvent::PublisherStopped));
    assert_eq!(s.phase, SupervisorPhase::Monitoring);
    // asked to stop: the publisher is cancelled first; it already stopped, so the
    // encoder process is asked to stop at once
    assert!(s.handle(SupervisorEvent::ShutdownRequested));
    assert!(s.publisher);
    assert_eq!(s.phase, SupervisorPhase::AwaitStopWorker);
    assert!(!s.rest);
    assert!(!s.handle(SupervisorEvent::StopWorkerResult(true)));
    assert_eq!(s.phase, SupervisorPhase::AwaitProcessStopped);
    assert!(!s.rest && !s.is_down);
    assert!(!s.handle(SupervisorEvent::ProcessStopped));
    assert!(s.rest && s.forwarder && s.is_down);
    assert_eq!(s.phase, SupervisorPhase::Down);
}

#[test]
fn a_failing_forwarder_takes_the_relay_down_and_an_undelivered_stop_counts_as_stopped() {
    let mut s = RelaySupervisor::new();
    assert!(!s.handle(SupervisorEvent::ForwarderCancelled));
    assert!(s.shutdown && s.publisher);
    assert_eq!(s.phase, SupervisorPhase::AwaitPublisherStopped);
    assert!(s.handle(SupervisorEvent::PublisherStopped));
    assert!(!s.handle(SupervisorEvent::StopWorkerResult(false)));
    assert_eq!(s.phase, SupervisorPhase::Down);
    assert!(s.process_stopped && s.rest && s.is_down);
}

#[test]
fn a_full_port_range_gives_no_port() {
    let mut ports = PortAllocator::new(7000, 7001);
    assert!(ports.allocate_port(|_| true).is_some());
    assert!(ports.allocate_port(|_| true).is_some());
    assert_eq!(ports.allocate_port(|_| true), None);
}

#[test]
fn a_drawn_port_is_taken_only_when_free_and_bindable() {
    let mut ports = PortAllocator::new(7100, 7200);
    assert!(!ports.take_port(7150, false));
    assert!(ports.take_port(7150, true));
    assert!(!ports.take_port(7150, true));
    ports.release_port(7150);
    assert!(ports.take_port(7150, true));
}

fn item_parts(items: Vec<CmafItem>) -> Vec<(bool, Vec<u8>)> {
    items
        .into_iter()
        .map(|i| match i {
            CmafItem::Init(b) => (true, b),
            CmafItem::Fragment(b) => (false, b),
        })
        .collect()
}

#[test]
fn cmaf_chunk_boundaries_do_not_change_the_items() {
    let mut stream = Vec::new();
    for b in [
        mp4_box(b"ftyp", &[1]),
        mp4_box(b"moov", &[2, 2]),
        mp4_box(b"moof", &[3]),
        mp4_box(b"mdat", &[4, 4, 4]),
        mp4_box(b"moof", &[5]),
        mp4_box(b"mdat", &[6]),
    ] {
        stream.extend_from_slice(&b);
    }
    let whole = item_parts(CmafSplitter::new().push(stream.clone()).unwrap());
    assert_eq!(whole.len(), 3);
    assert!(whole[0].0 && !whole[1].0 && !whole[2].0);

    let mut splitter = CmafSplitter::new();
    let mut bytewise = Vec::new();
    for b in &stream {
        bytewise.extend(item_parts(splitter.push(vec![*b]).unwrap()));
    }
    assert_eq!(bytewise, whole);
}

#[test]
fn a_relay_port_range_is_empty_only_when_min_exceeds_max() {
    assert!(PortAllocator::new(5001, 5000).range_is_empty());
    assert!(!PortAllocator::new(5000, 5000).range_is_empty());
}
