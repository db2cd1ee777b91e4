use sfu::sfu::endpoint::{EndpointId, EndpointKind, RtcEndpointId};
use sfu::sfu::lobby::LobbyId;
use sfu::sfu::peer::PeerId;
use sfu::sfu::rtc::media::control::{
    serialize_metadata_message, ControlMetadata, ControlOutMessage, ControlRouter, ControlSend,
};
use sfu::sfu::rtc::media::event::{SFUEvent, SessionDescription};
use sfu::sfu::rtc::media::lobby::RtcLobbyId;
use sfu::sfu::rtc::media::signaling::{
    broadcast_metadata, handle_control_answer, on_data_channel_open, on_track_open,
    send_subscription_offer, AnswerSkip,
};
use sfu::sfu::rtc::media::forward::ForwardTable;

fn endpoint(rtc_id: RtcEndpointId, peer_id: &PeerId, kind: EndpointKind) -> EndpointId {
    EndpointId::new(rtc_id, LobbyId::new("lobby"), peer_id.clone(), kind)
}

fn offer(request_id: u64) -> ControlOutMessage {
    let sdp = "v=0\r\no=- 123456789 2 IN IP4 192.168.1.1\r\ns=-\r\nt=0 0\r\nm=video 9 UDP/TLS/RTP/SAVPF 96\r\n";
    ControlOutMessage::Offer { request_id, sdp: SessionDescription::offer(sdp.to_owned()).unwrap() }
}

fn message_type(send: &ControlSend) -> u64 {
    serde_json::from_slice::<serde_json::Value>(send.payload.as_ref())
        .unwrap()
        .get("type")
        .unwrap()
        .as_u64()
        .unwrap()
}

fn message_number(send: &ControlSend) -> u64 {
    serde_json::from_slice::<serde_json::Value>(send.payload.as_ref())
        .unwrap()
        .get("data")
        .unwrap()
        .get("number")
        .unwrap()
        .as_u64()
        .unwrap()
}

#[test]
fn queues_offer_until_publish_data_channel_is_registered() {
    let mut router = ControlRouter::new();
    let peer_id = PeerId::new("peer-1");
    let publish = endpoint(1, &peer_id, EndpointKind::Publish);
    let subscribe = endpoint(2, &peer_id, EndpointKind::Subscribe);

    router.register_endpoint(&publish);
    router.register_endpoint(&subscribe);

    let queued = router.enqueue_for_peer(&peer_id, offer(7)).unwrap();
    assert!(queued.is_empty());

    let sends = router.register_data_channel(&publish, 9).unwrap();
    assert_eq!(sends.len(), 1);
    assert_eq!(sends[0].endpoint_id, publish.rtc_id());
    assert_eq!(sends[0].channel_id, 9);
    assert_eq!(message_type(&sends[0]), 1);
    assert_eq!(message_number(&sends[0]), 7);
}

#[test]
fn replaces_pending_offers_but_keeps_metadata_order() {
    let mut router = ControlRouter::new();
    let peer_id = PeerId::new("peer-1");
    let publish = endpoint(1, &peer_id, EndpointKind::Publish);

    router.register_endpoint(&publish);
    router.enqueue_for_peer(&peer_id, offer(1)).unwrap();
    router
        .enqueue_for_peer(
            &peer_id,
            ControlOutMessage::Metadata(ControlMetadata::Mute { mid: "0".to_owned(), mute: true }),
        )
        .unwrap();
    router.enqueue_for_peer(&peer_id, offer(2)).unwrap();

    let sends = router.register_data_channel(&publish, 9).unwrap();
    assert_eq!(sends.len(), 2);
    assert_eq!(message_type(&sends[0]), 3);
    assert_eq!(message_type(&sends[1]), 1);
    assert_eq!(message_number(&sends[1]), 2);
}

#[test]
fn detects_stale_answers_against_latest_offer() {
    let mut router = ControlRouter::new();
    let peer_id = PeerId::new("peer-1");

    router.enqueue_for_peer(&peer_id, offer(2)).unwrap();

    assert!(router.is_stale_answer(&peer_id, 1));
    assert!(!router.is_stale_answer(&peer_id, 2));
    assert!(!router.is_stale_answer(&peer_id, 3));
}

#[test]
fn mute_metadata_is_compact_json() {
    let payload = serialize_metadata_message(&ControlMetadata::Mute { mid: "a\"b".to_owned(), mute: false }).unwrap();
    assert_eq!(
        String::from_utf8(payload).unwrap(),
        r#"{"id":0,"type":3,"data":{"mid":"a\"b","mute":false}}"#
    );
}

#[test]
fn subscription_endpoint_is_known_after_registration() {
    let mut router = ControlRouter::new();
    let peer_id = PeerId::new("peer-1");
    assert_eq!(router.subscription_endpoint_for_peer(&peer_id), None);
    router.register_endpoint(&endpoint(5, &peer_id, EndpointKind::Subscribe));
    assert_eq!(router.subscription_endpoint_for_peer(&peer_id), Some(5));
    router.unregister_endpoint(&endpoint(5, &peer_id, EndpointKind::Subscribe));
    assert_eq!(router.subscription_endpoint_for_peer(&peer_id), None);
}

#[test]
fn invalid_sdp_is_refused() {
    assert!(SessionDescription::offer("not sdp".to_owned()).is_err());
}

fn answer_sdp() -> SessionDescription {
    let sdp = "v=0\r\no=- 123456789 2 IN IP4 192.168.1.1\r\ns=-\r\nt=0 0\r\nm=video 9 UDP/TLS/RTP/SAVPF 96\r\n";
    SessionDescription::answer(sdp.to_owned()).unwrap()
}

#[test]
fn answers_go_to_the_peers_live_subscribe_endpoint() {
    let lobby = RtcLobbyId::from_bytes([7; 16]);
    let mut router = ControlRouter::new();
    let peer_id = PeerId::new("peer-1");
    let publish = endpoint(1, &peer_id, EndpointKind::Publish);
    let subscribe = endpoint(2, &peer_id, EndpointKind::Subscribe);

    assert!(matches!(
        handle_control_answer(&router, lobby, &[1, 2], &publish, 1, answer_sdp()),
        Err(AnswerSkip::NoSubscription)
    ));

    router.register_endpoint(&publish);
    router.register_endpoint(&subscribe);
    router.enqueue_for_peer(&peer_id, offer(5)).unwrap();

    assert!(matches!(
        handle_control_answer(&router, lobby, &[1, 2], &publish, 4, answer_sdp()),
        Err(AnswerSkip::Stale)
    ));
    assert!(matches!(
        handle_control_answer(&router, lobby, &[1], &publish, 5, answer_sdp()),
        Err(AnswerSkip::MissingEndpoint(2))
    ));
    match handle_control_answer(&router, lobby, &[1, 2], &publish, 5, answer_sdp()) {
        Ok(SFUEvent::SessionDescription { request_id, rtc_lobby_id, endpoint_id, sdp }) => {
            assert_eq!(request_id, 5);
            assert!(rtc_lobby_id == lobby);
            assert_eq!(endpoint_id, 2);
            assert_eq!(sdp.sdp, answer_sdp().sdp);
        }
        other => panic!("unexpected {other:?}"),
    }
}

#[test]
fn metadata_reaches_every_other_peer_but_not_its_source() {
    let mut router = ControlRouter::new();
    let alice = PeerId::new("alice");
    let bob = PeerId::new("bob");
    let carol = PeerId::new("carol");
    let alice_pub = endpoint(1, &alice, EndpointKind::Publish);
    let alice_sub = endpoint(2, &alice, EndpointKind::Subscribe);
    let bob_pub = endpoint(3, &bob, EndpointKind::Publish);
    let bob_sub = endpoint(4, &bob, EndpointKind::Subscribe);
    let carol_sub = endpoint(6, &carol, EndpointKind::Subscribe);
    for e in [&alice_pub, &alice_sub, &bob_pub, &bob_sub, &carol_sub] {
        router.register_endpoint(e);
    }
    router.register_data_channel(&bob_pub, 9).unwrap();

    let mute = ControlMetadata::Mute { mid: "0".to_owned(), mute: true };
    let subscribers = [alice_sub.clone(), bob_sub.clone(), carol_sub.clone()];
    let (sends, error) = broadcast_metadata(&mut router, &subscribers, &alice_pub, &mute);
    assert!(error.is_none());
    // bob's control channel is open: his copy goes out at once; carol's waits.
    assert_eq!(sends.len(), 1);
    assert_eq!(sends[0].endpoint_id, 3);
    assert_eq!(sends[0].channel_id, 9);
    assert_eq!(message_type(&sends[0]), 3);

    // alice got nothing queued: opening her channel sends nothing.
    assert!(router.register_data_channel(&alice_pub, 11).unwrap().is_empty());
}

#[test]
fn only_subscribe_offers_go_over_the_control_channel() {
    let mut router = ControlRouter::new();
    let peer_id = PeerId::new("peer-1");
    let publish = endpoint(1, &peer_id, EndpointKind::Publish);
    let subscribe = endpoint(2, &peer_id, EndpointKind::Subscribe);
    router.register_endpoint(&publish);
    router.register_endpoint(&subscribe);
    router.register_data_channel(&publish, 9).unwrap();

    let ControlOutMessage::Offer { sdp, .. } = offer(3) else { unreachable!() };
    assert!(send_subscription_offer(&mut router, 3, &publish, &sdp).unwrap().is_empty());
    assert!(send_subscription_offer(&mut router, 3, &subscribe, &answer_sdp()).unwrap().is_empty());
    assert!(!router.is_stale_answer(&peer_id, 0));

    let sends = send_subscription_offer(&mut router, 3, &subscribe, &sdp).unwrap();
    assert_eq!(sends.len(), 1);
    assert_eq!(sends[0].endpoint_id, 1);
    assert_eq!(message_type(&sends[0]), 1);
    assert_eq!(message_number(&sends[0]), 3);
    assert!(router.is_stale_answer(&peer_id, 2));
}

#[test]
fn only_the_whip_channel_of_a_publish_endpoint_carries_control() {
    let mut router = ControlRouter::new();
    let peer_id = PeerId::new("peer-1");
    let publish = endpoint(1, &peer_id, EndpointKind::Publish);
    let subscribe = endpoint(2, &peer_id, EndpointKind::Subscribe);
    router.register_endpoint(&publish);
    router.register_endpoint(&subscribe);
    router.enqueue_for_peer(&peer_id, offer(4)).unwrap();

    assert!(on_data_channel_open(&mut router, &publish, 3, Some("whep")).unwrap().is_empty());
    assert!(on_data_channel_open(&mut router, &publish, 3, None).unwrap().is_empty());
    assert!(on_data_channel_open(&mut router, &subscribe, 5, Some("whip")).unwrap().is_empty());
    let sends = on_data_channel_open(&mut router, &publish, 7, Some("whip")).unwrap();
    assert_eq!(sends.len(), 1);
    assert_eq!(sends[0].channel_id, 7);
    assert_eq!(message_number(&sends[0]), 4);
}

#[test]
fn opened_tracks_of_publishers_bind_their_ssrc() {
    let mut table = ForwardTable::new();
    let peer_id = PeerId::new("alice");
    assert!(!on_track_open(&mut table, &[1], 1, &peer_id, None, 1111));
    assert!(!on_track_open(&mut table, &[1], 2, &peer_id, Some("0".to_owned()), 2222));
    assert!(on_track_open(&mut table, &[1], 1, &peer_id, Some("0".to_owned()), 1111));
    // no row yet for the key: the SSRC is bound but does not route
    assert!(table.route_by_ssrc(1111).is_none());
}
