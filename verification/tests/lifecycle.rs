use sfu::sfu::endpoint::RtcEndpointIdAllocator;
use sfu::sfu::lobby::{LobbyCore, LobbyError, SubscribeKind, SubscribeStep};
use sfu::sfu::endpoint::{EndpointId, EndpointKind};
use sfu::sfu::lobby::LobbyId;
use sfu::sfu::peer::PeerId;
use sfu::sfu::relay::cmaf::cmaf_splitter::CmafSplitter;
use sfu::sfu::relay::cmaf::prepared_cmaf_track::{PreparationStep, PreparedCmafTrack};
use sfu::sfu::relay::error::RelayError;
use sfu::sfu::relay::port_allocator::PortAllocator;
use sfu::sfu::relay::stream::{
    prepare_relay_start, stop_relay_stream, AttachRelaySource, DetachRelaySource, RelayShutdown,
    RelaySources, RelayStartError, RelayStream,
};
use sfu::sfu::rtc::media::control::{
    answer_message, channel_type_from_number, channel_type_from_text, control_message_kind,
    ControlKind, ControlMessage,
};
use sfu::sfu::rtc::media::engine::{LobbyRegistry, MembershipEvent, MembershipOutcome};
use sfu::sfu::rtc::media::labels::{media_label, stream_supports_nack, RtcpFeedback};
use sfu::sfu::rtc::media::lobby::RtcLobbyId;

fn endpoint(rtc_id: u64, peer: &str) -> EndpointId {
    EndpointId::new(rtc_id, LobbyId::new("lobby"), PeerId::new(peer), EndpointKind::Publish)
}

#[test]
fn join_creates_lobby_and_leave_reaps_it() {
    let lobby = RtcLobbyId::from_bytes([1; 16]);
    let mut registry = LobbyRegistry::new();
    assert_eq!(
        registry.handle_event(MembershipEvent::Join { lobby, endpoint: 1, kind: EndpointKind::Publish }),
        MembershipOutcome::Joined { created: true }
    );
    assert!(registry.contains_lobby(&lobby));
    assert_eq!(
        registry.handle_event(MembershipEvent::Join { lobby, endpoint: 2, kind: EndpointKind::Subscribe }),
        MembershipOutcome::Joined { created: false }
    );
    assert_eq!(
        registry.handle_event(MembershipEvent::Other { lobby, endpoint: 2, session_description: true }),
        MembershipOutcome::Dispatched { needs_reconcile: true }
    );
    assert_eq!(
        registry.handle_event(MembershipEvent::Other { lobby, endpoint: 9, session_description: true }),
        MembershipOutcome::Ignored
    );
    assert_eq!(registry.handle_event(MembershipEvent::Leave { lobby, endpoint: 1 }), MembershipOutcome::Left { reaped: false });
    assert_eq!(registry.handle_event(MembershipEvent::Leave { lobby, endpoint: 2 }), MembershipOutcome::Left { reaped: true });
    assert!(!registry.contains_lobby(&lobby));
    assert_eq!(registry.lobby_count(), 0);
    assert_eq!(registry.handle_event(MembershipEvent::Leave { lobby, endpoint: 2 }), MembershipOutcome::Ignored);
}

#[test]
fn relay_stream_needs_a_source_and_starts_once() {
    let mut relay = RelaySources::new();
    assert_eq!(relay.start(), Err(RelayStartError::NoSources));
    relay.attach(AttachRelaySource { endpoint_id: endpoint(1, "a") });
    relay.attach(AttachRelaySource { endpoint_id: endpoint(1, "a") });
    assert_eq!(relay.start(), Ok(()));
    assert_eq!(relay.start(), Err(RelayStartError::AlreadyStarted));
    relay.stop();
    relay.detach(DetachRelaySource { endpoint_id: endpoint(1, "a") });
    assert_eq!(relay.start(), Err(RelayStartError::NoSources));
    relay.attach(AttachRelaySource { endpoint_id: endpoint(2, "b") });
    relay.shutdown(RelayShutdown);
    assert_eq!(relay.start(), Err(RelayStartError::NoSources));
}

#[test]
fn relay_start_reserves_two_ports() {
    let mut stream = RelayStream { running: false };
    let mut ports = PortAllocator::new(30_000, 30_010);
    let p = prepare_relay_start(&mut stream, &mut ports, true, true, |_| true).unwrap();
    assert_ne!(p.audio_port, p.video_port);
    assert!(matches!(
        prepare_relay_start(&mut stream, &mut ports, true, true, |_| true),
        Err(RelayError::MediaStreamAlreadyStarted)
    ));
    assert!(stop_relay_stream(&mut stream).is_ok());
    assert!(matches!(stop_relay_stream(&mut stream), Err(RelayError::MediaStreamNotStarted)));
    match prepare_relay_start(&mut stream, &mut ports, false, true, |_| true) {
        Err(RelayError::NoInputTrack(t)) => assert_eq!(t, "video"),
        other => panic!("expected a missing track, got {other:?}"),
    }
    let mut stream = RelayStream { running: false };
    match prepare_relay_start(&mut stream, &mut ports, true, false, |_| true) {
        Err(RelayError::NoInputTrack(t)) => assert_eq!(t, "audio"),
        other => panic!("expected a missing track, got {other:?}"),
    }
    let mut stream = RelayStream { running: false };
    assert!(matches!(
        prepare_relay_start(&mut stream, &mut ports, true, true, |_| false),
        Err(RelayError::PortAllocationError)
    ));
}

fn mp4_box(name: &[u8; 4], body: &[u8]) -> Vec<u8> {
    let mut b = ((body.len() + 8) as u32).to_be_bytes().to_vec();
    b.extend_from_slice(name);
    b.extend_from_slice(body);
    b
}

#[test]
fn track_preparation_waits_for_the_init_segment() {
    let ftyp = mp4_box(b"ftyp", &[1]);
    let moov = mp4_box(b"moov", &[2]);
    let moof = mp4_box(b"moof", &[3]);
    let mdat = mp4_box(b"mdat", &[4]);
    let step = PreparedCmafTrack::feed("video0".to_owned(), CmafSplitter::new(), ftyp.clone()).unwrap();
    let splitter = match step {
        PreparationStep::Waiting(s) => s,
        other => panic!("init segment is not complete yet, got {other:?}"),
    };
    let rest = [moov.clone(), moof.clone(), mdat.clone()].concat();
    match PreparedCmafTrack::feed("video0".to_owned(), splitter, rest).unwrap() {
        PreparationStep::Ready(track) => {
            assert_eq!(track.name, "video0");
            assert_eq!(track.init, [ftyp, moov].concat());
            assert_eq!(track.pending, vec![[moof, mdat].concat()]);
        }
        other => panic!("expected a prepared track, got {other:?}"),
    }
}

#[test]
fn control_message_types() {
    assert_eq!(channel_type_from_number(3), Some(3));
    assert_eq!(channel_type_from_number(256), None);
    assert_eq!(channel_type_from_text("2"), Some(2));
    assert_eq!(channel_type_from_text("+02"), Some(2));
    assert_eq!(channel_type_from_text("300"), None);
    assert_eq!(channel_type_from_text("x"), None);
    assert_eq!(control_message_kind(2), Ok(ControlKind::Answer));
    assert_eq!(control_message_kind(3), Ok(ControlKind::Mute));
    assert_eq!(
        control_message_kind(7).unwrap_err().0,
        "unsupported control channel message type: 7"
    );
    let sdp = "v=0\r\no=- 1 2 IN IP4 127.0.0.1\r\ns=-\r\nt=0 0\r\n".to_owned();
    match answer_message(5, sdp.clone()).unwrap() {
        ControlMessage::Answer { request_id, sdp: d } => {
            assert_eq!(request_id, 5);
            assert_eq!(d.sdp, sdp);
        }
        other => panic!("expected an answer, got {other:?}"),
    }
    assert!(answer_message(5, "garbage".to_owned()).is_err());
}

#[test]
fn stream_labels() {
    assert_eq!(media_label("audio/opus"), "audio");
    assert_eq!(media_label("video/VP8"), "video");
    assert_eq!(media_label("application/x"), "unknown");
    let fb = |t: &str, p: &str| RtcpFeedback { typ: t.to_owned(), parameter: p.to_owned() };
    assert!(stream_supports_nack(&[fb("goog-remb", ""), fb("nack", "")]));
    assert!(!stream_supports_nack(&[fb("nack", "pli")]));
    assert!(!stream_supports_nack(&[]));
}

#[test]
fn lobby_admits_a_user_once_and_stops_with_its_last_peer() {

    let mut ids = RtcEndpointIdAllocator::new();
    let mut lobby = LobbyCore::new(LobbyId::new("lobby-1"), "stream-1".to_owned());

    assert!(matches!(lobby.publish(&mut ids, "alice"), Err(LobbyError::RtcCoreUnavailable(_))));
    assert!(lobby.assign_rtc_core(true));

    let plan = lobby.publish(&mut ids, "alice").unwrap();
    assert_eq!(plan.peer_id, PeerId::new("alice"));
    // the refused publish above drew endpoint numbers 1 and 2
    assert_eq!(plan.publish_endpoint.rtc_id(), 3);
    assert_eq!(plan.publish_endpoint.kind(), EndpointKind::Publish);
    assert_eq!(plan.subscribe_endpoint.rtc_id(), 4);
    assert_eq!(plan.subscribe_endpoint.kind(), EndpointKind::Subscribe);
    assert_eq!(plan.publish_endpoint.lobby_id(), &LobbyId::new("lobby-1"));
    assert_eq!(plan.add_participant.lobby_uuid, "lobby-1");
    assert_eq!(plan.add_participant.stream_uuid, "stream-1");
    assert_eq!(plan.add_participant.user_uuid, "alice");

    match lobby.publish(&mut ids, "alice") {
        Err(LobbyError::PeerAlreadyExists(p)) => assert_eq!(p, PeerId::new("alice")),
        other => panic!("unexpected {other:?}"),
    }
    let bob = lobby.publish(&mut ids, "bob").unwrap();
    assert_eq!(bob.publish_endpoint.rtc_id(), 5);

    assert!(matches!(
        lobby.subscribe("bob", SubscribeKind::Offer, None),
        Ok(SubscribeStep::CreateSubscriptionEndpoint { .. })
    ));
    assert!(matches!(
        lobby.subscribe("bob", SubscribeKind::Answer, None),
        Err(LobbyError::StreamingError(_))
    ));
    match lobby.subscribe("bob", SubscribeKind::Answer, Some("v=0".to_owned())) {
        Ok(SubscribeStep::CompleteSubscriptionEndpoint { peer_id, answer }) => {
            assert_eq!(peer_id, PeerId::new("bob"));
            assert_eq!(answer, "v=0");
        }
        other => panic!("unexpected {other:?}"),
    }
    assert!(matches!(
        lobby.subscribe("carol", SubscribeKind::Offer, None),
        Err(LobbyError::PeerNotExists(_))
    ));
    assert_eq!(lobby.leave_peer("bob").unwrap(), PeerId::new("bob"));
    assert!(matches!(lobby.leave_peer("carol"), Err(LobbyError::PeerNotExists(_))));

    let stopped = lobby.peer_stopped(&PeerId::new("alice"), plan.publish_endpoint.clone());
    assert_eq!(stopped.detach_relay_source, plan.publish_endpoint);
    assert_eq!(stopped.remove_participant.user_uuid, "alice");
    assert!(!stopped.stop);
    // alice may publish again once her peer has stopped
    assert!(lobby.publish(&mut ids, "alice").is_ok());

    let (peers, stop_now) = lobby.shutdown();
    assert_eq!(peers, vec![PeerId::new("bob"), PeerId::new("alice")]);
    assert!(!stop_now);
    assert!(!lobby.peer_stopped(&PeerId::new("bob"), bob.publish_endpoint.clone()).stop);
    assert!(lobby.peer_stopped(&PeerId::new("alice"), plan.publish_endpoint.clone()).stop);
    let (peers, stop_now) = lobby.shutdown();
    assert!(peers.is_empty());
    assert!(stop_now);
}

#[test]
fn lobby_without_a_core_stops() {
    let mut lobby = LobbyCore::new(LobbyId::new("lobby-2"), "s".to_owned());
    assert!(!lobby.assign_rtc_core(false));
}

/// The lobby id that `Uuid::from_u128(100)` spells (big-endian bytes).
fn lobby_100() -> RtcLobbyId {
    let mut bytes = [0u8; 16];
    bytes[15] = 100;
    RtcLobbyId::from_bytes(bytes)
}

const ENDPOINT: u64 = 200;

#[test]
fn join_creates_lobby_and_peer() {
    let lobby = lobby_100();
    let mut worker = LobbyRegistry::new();
    assert_eq!(worker.lobby_count(), 0);

    worker.handle_event(MembershipEvent::Join { lobby, endpoint: ENDPOINT, kind: EndpointKind::Publish });

    assert!(worker.contains_lobby(&lobby), "lobby should exist after join");
    assert!(worker.member_count(&lobby) > 0, "lobby should contain the joined endpoint");
}

#[test]
fn leave_removes_peer_and_reaps_empty_lobby() {
    let lobby = lobby_100();
    let mut worker = LobbyRegistry::new();
    worker.handle_event(MembershipEvent::Join { lobby, endpoint: ENDPOINT, kind: EndpointKind::Publish });
    assert!(worker.contains_lobby(&lobby));

    worker.handle_event(MembershipEvent::Leave { lobby, endpoint: ENDPOINT });

    // The last endpoint left, so the now-empty lobby is reaped.
    assert!(!worker.contains_lobby(&lobby), "empty lobby should be removed after the last endpoint leaves");
}

#[test]
fn relay_start_outcome_needs_both_ports_and_both_tracks() {
    let mut ports = PortAllocator::new(30_000, 30_010);
    assert!(ports.take_port(30_001, true));
    assert!(ports.take_port(30_002, true));
    // no audio port
    assert!(matches!(
        sfu::sfu::relay::stream::relay_start_outcome(&mut ports, None, None, true, true),
        Err(RelayError::PortAllocationError)
    ));
    // audio port but no video port: the audio port goes back
    assert!(matches!(
        sfu::sfu::relay::stream::relay_start_outcome(&mut ports, Some(30_001), None, true, true),
        Err(RelayError::PortAllocationError)
    ));
    assert!(ports.take_port(30_001, true));
    match sfu::sfu::relay::stream::relay_start_outcome(&mut ports, Some(30_001), Some(30_002), false, true) {
        Err(RelayError::NoInputTrack(t)) => assert_eq!(t, "video"),
        other => panic!("unexpected {other:?}"),
    }
    assert!(ports.take_port(30_001, true) && ports.take_port(30_002, true));
    match sfu::sfu::relay::stream::relay_start_outcome(&mut ports, Some(30_001), Some(30_002), true, false) {
        Err(RelayError::NoInputTrack(t)) => assert_eq!(t, "audio"),
        other => panic!("unexpected {other:?}"),
    }
    assert!(ports.take_port(30_001, true) && ports.take_port(30_002, true));
    let ok = sfu::sfu::relay::stream::relay_start_outcome(&mut ports, Some(30_001), Some(30_002), true, true).unwrap();
    assert_eq!((ok.audio_port, ok.video_port), (30_001, 30_002));
    // both still held
    assert!(!ports.take_port(30_001, true) && !ports.take_port(30_002, true));
}

#[test]
fn endpoint_ids_drawn_later_are_larger() {
    let mut ids = RtcEndpointIdAllocator::new();
    let a = EndpointId::publish(&mut ids, LobbyId::new("lobby"), PeerId::new("p"));
    let b = EndpointId::subscribe(&mut ids, LobbyId::new("lobby"), PeerId::new("p"));
    let c = EndpointId::publish(&mut ids, LobbyId::new("other"), PeerId::new("q"));
    assert_eq!((a.rtc_id(), b.rtc_id(), c.rtc_id()), (1, 2, 3));
    assert_eq!(a.kind(), EndpointKind::Publish);
    assert_eq!(b.kind(), EndpointKind::Subscribe);
    assert_eq!(a.peer_id(), b.peer_id());
}
