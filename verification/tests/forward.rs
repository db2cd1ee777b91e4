use sfu::sfu::endpoint::RtcEndpointId;
use sfu::sfu::peer::PeerId;
use sfu::sfu::rtc::media::forward::{ForwardKey, ForwardTable, ForwardTarget, HeaderExtensionRewrite, RtpSenderId};
use sfu::sfu::rtc::media::reconcile::{
    bind_track_ssrcs, cell_action, reconcile_forwarding, CellAction, LiveSubscriber, PublisherTracks,
};
use sfu::sfu::rtc::media::routing::{
    keyframe_route, plan_keyframe_relay, plan_rtp_forward, KeyframeDrop, RtpDrop, RtpLeg,
};
use sfu::sfu::rtc::media::rtcp::{classify_rtcp_packet, RtcpKind, RtcpPacketInfo};
use sfu::sfu::rtc::media::labels::media_kind_label;
use sfu::sfu::media::MediaKind;

fn key(publisher: RtcEndpointId, mid: &str) -> ForwardKey {
    ForwardKey {
        publisher_peer: PeerId::new(&format!("publisher-{publisher}")),
        publish_endpoint: publisher,
        mid: mid.to_owned(),
    }
}

fn target(peer: &str, endpoint: RtcEndpointId, sender_id: usize) -> ForwardTarget {
    ForwardTarget {
        subscriber_peer: PeerId::new(peer),
        subscribe_endpoint: endpoint,
        sender_id: RtpSenderId::from(sender_id),
        payload_types: Vec::new(),
        extension_rewrites: Vec::new(),
        subscriber_mid: None,
    }
}

#[test]
fn routes_bound_ssrc_to_subscriber_senders() {
    let mut table = ForwardTable::new();
    let k = key(1, "0");
    table.insert(k.clone(), target("subscriber", 2, 7));
    table.bind_ssrc(1111, k.clone());

    let (routed_key, subscribers) = table.route_by_ssrc(1111).expect("ssrc should route");
    assert_eq!(routed_key, &k);
    assert_eq!(
        subscribers.get(&PeerId::new("subscriber")).map(|target| target.sender_id),
        Some(RtpSenderId::from(7))
    );

    // Unbound SSRC routes nowhere.
    assert!(table.route_by_ssrc(2222).is_none());
}

#[test]
fn simulcast_layers_bind_to_the_same_key() {
    let mut table = ForwardTable::new();
    let k = key(1, "0");
    table.insert(k.clone(), target("subscriber", 2, 7));
    table.bind_ssrc(1111, k.clone());
    table.bind_ssrc(1112, k.clone());

    assert!(table.route_by_ssrc(1111).is_some());
    assert!(table.route_by_ssrc(1112).is_some());
}

#[test]
fn retain_prunes_ssrc_bindings_with_their_key() {
    let mut table = ForwardTable::new();
    let k = key(1, "0");
    table.insert(k.clone(), target("subscriber", 2, 7));
    table.bind_ssrc(1111, k.clone());

    // Publisher 1 gone: entry and its SSRC binding must both go.
    let mut removed = Vec::new();
    let desired = vec![k];
    let live_publishers: Vec<RtcEndpointId> = Vec::new();
    let live_subscribers: Vec<RtcEndpointId> = vec![2];
    table.retain(&desired, &live_publishers, &live_subscribers, &mut removed);

    assert_eq!(removed, vec![(2, RtpSenderId::from(7))]);
    assert!(table.route_by_ssrc(1111).is_none());
    assert_eq!(table.route_count(), 0);
}

#[test]
fn retain_prunes_self_forwardings() {
    let mut table = ForwardTable::new();
    let k = ForwardKey {
        publisher_peer: PeerId::new("same-peer"),
        publish_endpoint: 1,
        mid: "0".to_owned(),
    };
    table.insert(k.clone(), target("same-peer", 2, 7));
    table.bind_ssrc(1111, k.clone());

    let mut removed = Vec::new();
    let desired = vec![k];
    let live_publishers: Vec<RtcEndpointId> = vec![1];
    let live_subscribers: Vec<RtcEndpointId> = vec![2];
    table.retain(&desired, &live_publishers, &live_subscribers, &mut removed);

    assert_eq!(removed, vec![(2, RtpSenderId::from(7))]);
    assert!(table.route_by_ssrc(1111).is_none());
    assert_eq!(table.route_count(), 0);
}

#[test]
fn inserting_the_same_subscriber_twice_keeps_one_target() {
    let mut table = ForwardTable::new();
    let k = key(1, "0");
    table.insert(k.clone(), target("subscriber", 2, 7));
    table.insert(k.clone(), target("subscriber", 2, 8));
    table.insert(k.clone(), target("other", 3, 9));
    assert_eq!(table.route_count(), 2);
    assert_eq!(table.subscriber_sender(&k, &PeerId::new("subscriber")), Some(RtpSenderId::from(8)));
    assert_eq!(table.subscriber_sender(&k, &PeerId::new("nobody")), None);
}

#[test]
fn reconcile_lists_cells_and_becomes_idempotent() {
    let mut table = ForwardTable::new();
    let publishers = vec![PublisherTracks {
        endpoint: 1,
        peer: PeerId::new("publisher-1"),
        mids: vec!["0".to_owned(), "1".to_owned()],
    }];
    let subscribers = vec![
        LiveSubscriber { endpoint: 2, peer: PeerId::new("alice") },
        LiveSubscriber { endpoint: 3, peer: PeerId::new("publisher-1") },
    ];
    let mut removed = Vec::new();
    let cells = reconcile_forwarding(&mut table, &publishers, &subscribers, &mut removed);
    // The publisher's own subscribe endpoint gets nothing.
    assert_eq!(cells.len(), 2);
    assert!(removed.is_empty());
    for (n, cell) in cells.iter().enumerate() {
        assert_eq!(cell.subscriber, 2);
        assert_eq!(cell_action(&table, cell), CellAction::Add);
        table.insert(cell.key.clone(), target("alice", 2, 10 + n));
    }
    let cells = reconcile_forwarding(&mut table, &publishers, &subscribers, &mut removed);
    assert_eq!(cells.len(), 2);
    assert_eq!(cell_action(&table, &cells[0]), CellAction::Refresh(RtpSenderId::from(10)));
    assert_eq!(cell_action(&table, &cells[1]), CellAction::Refresh(RtpSenderId::from(11)));
    assert!(removed.is_empty());

    // The subscriber leaves: both of its senders are removed.
    let cells = reconcile_forwarding(&mut table, &publishers, &subscribers[1..], &mut removed);
    assert!(cells.is_empty());
    assert_eq!(removed, vec![(2, RtpSenderId::from(10)), (2, RtpSenderId::from(11))]);
    assert_eq!(table.route_count(), 0);
}

#[test]
fn rtp_plan_rewrites_payload_types_per_leg() {
    let mut table = ForwardTable::new();
    let k = key(1, "0");
    let mut t = target("subscriber", 2, 7);
    t.payload_types = vec![(96, 102)];
    t.extension_rewrites = vec![HeaderExtensionRewrite { publisher_id: 1, subscriber_id: 4, rewrite_mid: true }];
    table.insert(k.clone(), t);
    table.insert(k.clone(), target("other", 3, 8));
    table.bind_ssrc(1111, k.clone());

    let legs = plan_rtp_forward(&table, true, 1, 1111, 96).unwrap();
    assert_eq!(
        legs,
        vec![
            RtpLeg { subscribe_endpoint: 2, sender_id: RtpSenderId::from(7), outbound_payload_type: Some(102) },
            RtpLeg { subscribe_endpoint: 3, sender_id: RtpSenderId::from(8), outbound_payload_type: None },
        ]
    );
    assert_eq!(plan_rtp_forward(&table, false, 1, 1111, 96), Err(RtpDrop::NonPublisher));
    assert_eq!(plan_rtp_forward(&table, true, 1, 2222, 96), Err(RtpDrop::NoRoute));
    assert_eq!(plan_rtp_forward(&table, true, 5, 1111, 96), Err(RtpDrop::WrongPublisher));
}

#[test]
fn keyframe_requests_go_to_the_publisher_of_the_first_routed_ssrc() {
    let mut table = ForwardTable::new();
    let k = key(1, "0");
    table.insert(k.clone(), target("subscriber", 2, 7));
    table.bind_ssrc(1111, k.clone());
    assert_eq!(keyframe_route(&table, 2, &[9999, 1111]), Ok((1111, 1)));
    assert_eq!(keyframe_route(&table, 1, &[1111]), Err(KeyframeDrop::FromPublisher));
    assert_eq!(keyframe_route(&table, 2, &[9999]), Err(KeyframeDrop::NoRoute));
}

fn rtcp(kind: RtcpKind, ssrcs: &[u32]) -> RtcpPacketInfo {
    RtcpPacketInfo { kind, destination_ssrcs: ssrcs.to_vec() }
}

#[test]
fn keyframe_relay_sends_only_pli_and_fir_to_a_live_publisher() {
    let mut table = ForwardTable::new();
    let k = key(1, "0");
    table.insert(k.clone(), target("subscriber", 2, 7));
    table.bind_ssrc(1111, k.clone());
    let packets = vec![
        rtcp(RtcpKind::ReceiverReport, &[9999]),
        rtcp(RtcpKind::PictureLossIndication, &[1111]),
        rtcp(RtcpKind::TransportLayerNack, &[1111]),
        rtcp(RtcpKind::FullIntraRequest, &[1111]),
    ];
    let relay = plan_keyframe_relay(&table, 2, &packets, &[1, 2]).unwrap();
    assert_eq!(relay.ssrc, 1111);
    assert_eq!(relay.publisher, 1);
    assert_eq!(relay.requests, vec![1, 3]);

    assert_eq!(
        plan_keyframe_relay(&table, 2, &packets, &[2]).map(|r| r.publisher),
        Err(KeyframeDrop::MissingPublisher)
    );
    assert_eq!(
        plan_keyframe_relay(&table, 1, &packets, &[1, 2]).map(|r| r.publisher),
        Err(KeyframeDrop::FromPublisher)
    );
    let no_keyframe = vec![rtcp(RtcpKind::TransportLayerNack, &[1111])];
    assert_eq!(
        plan_keyframe_relay(&table, 2, &no_keyframe, &[1, 2]).map(|r| r.publisher),
        Err(KeyframeDrop::NoKeyframeRequest)
    );
    let unrouted = vec![rtcp(RtcpKind::PictureLossIndication, &[4242])];
    assert_eq!(
        plan_keyframe_relay(&table, 2, &unrouted, &[1, 2]).map(|r| r.publisher),
        Err(KeyframeDrop::NoRoute)
    );
}

#[test]
fn rtcp_packets_are_labelled_by_kind() {
    assert_eq!(classify_rtcp_packet(&RtcpKind::PictureLossIndication), "pli");
    assert_eq!(classify_rtcp_packet(&RtcpKind::FullIntraRequest), "fir");
    assert_eq!(classify_rtcp_packet(&RtcpKind::TransportLayerNack), "nack");
    assert_eq!(classify_rtcp_packet(&RtcpKind::ReceiverReport), "receiver_report");
    assert_eq!(classify_rtcp_packet(&RtcpKind::SenderReport), "sender_report");
    assert_eq!(classify_rtcp_packet(&RtcpKind::Other { packet_type: 205, count: 11 }), "ccfb");
    assert_eq!(classify_rtcp_packet(&RtcpKind::Other { packet_type: 205, count: 15 }), "unknown");
    assert_eq!(classify_rtcp_packet(&RtcpKind::Other { packet_type: 202, count: 11 }), "unknown");
}

#[test]
fn media_kinds_have_labels() {
    assert_eq!(media_kind_label(MediaKind::Audio), "audio");
    assert_eq!(media_kind_label(MediaKind::Video), "video");
    assert_eq!(media_kind_label(MediaKind::Unspecified), "unknown");
}

#[test]
fn ssrcs_named_in_the_sdp_route_to_their_track() {
    let mut table = ForwardTable::new();
    let k = key(1, "0");
    table.insert(k.clone(), target("subscriber", 2, 7));
    bind_track_ssrcs(&mut table, &k, &[1111, 1112]);
    assert_eq!(table.route_by_ssrc(1111).map(|(key, _)| key.clone()), Some(k.clone()));
    assert_eq!(table.route_by_ssrc(1112).map(|(key, _)| key.clone()), Some(k.clone()));
    // re-binding follows the latest negotiation
    let k2 = key(1, "1");
    table.insert(k2.clone(), target("subscriber", 2, 8));
    bind_track_ssrcs(&mut table, &k2, &[1112]);
    assert_eq!(table.route_by_ssrc(1112).map(|(key, _)| key.clone()), Some(k2));
    assert_eq!(table.route_count(), 2);
}

#[test]
fn a_second_identical_retain_removes_nothing() {
    let mut table = ForwardTable::new();
    let kept = key(1, "0");
    let gone = key(1, "1");
    table.insert(kept.clone(), target("subscriber", 2, 7));
    table.insert(kept.clone(), target("left", 3, 8));
    table.insert(gone.clone(), target("subscriber", 2, 9));
    table.bind_ssrc(1111, kept.clone());
    table.bind_ssrc(2222, gone.clone());

    let desired = vec![kept.clone()];
    let live_publishers: Vec<RtcEndpointId> = vec![1];
    let live_subscribers: Vec<RtcEndpointId> = vec![2];
    let mut removed = Vec::new();
    table.retain(&desired, &live_publishers, &live_subscribers, &mut removed);
    assert_eq!(removed, vec![(3, RtpSenderId::from(8)), (2, RtpSenderId::from(9))]);
    assert_eq!(table.route_count(), 1);

    let mut again = Vec::new();
    table.retain(&desired, &live_publishers, &live_subscribers, &mut again);
    assert!(again.is_empty());
    assert_eq!(table.route_count(), 1);
    assert!(table.route_by_ssrc(1111).is_some());
    assert!(table.route_by_ssrc(2222).is_none());
    assert_eq!(table.subscriber_sender(&kept, &PeerId::new("subscriber")), Some(RtpSenderId::from(7)));
}

#[test]
fn a_second_reconcile_removes_nothing_and_keeps_routes() {
    let mut table = ForwardTable::new();
    let stale = key(9, "0");
    table.insert(stale.clone(), target("alice", 2, 5));
    table.bind_ssrc(9999, stale);
    let publishers = vec![PublisherTracks { endpoint: 1, peer: PeerId::new("publisher-1"), mids: vec!["0".to_owned()] }];
    let subscribers = vec![LiveSubscriber { endpoint: 2, peer: PeerId::new("alice") }];

    let mut removed = Vec::new();
    let cells = reconcile_forwarding(&mut table, &publishers, &subscribers, &mut removed);
    assert_eq!(removed, vec![(2, RtpSenderId::from(5))]);
    assert!(table.route_by_ssrc(9999).is_none());
    assert_eq!(cells.len(), 1);
    table.insert(cells[0].key.clone(), target("alice", 2, 6));
    table.bind_ssrc(1111, cells[0].key.clone());

    let mut again = Vec::new();
    let cells = reconcile_forwarding(&mut table, &publishers, &subscribers, &mut again);
    assert!(again.is_empty());
    assert_eq!(cell_action(&table, &cells[0]), CellAction::Refresh(RtpSenderId::from(6)));
    assert!(table.route_by_ssrc(1111).is_some());
    assert_eq!(table.route_count(), 1);
}

#[test]
fn rebinding_an_ssrc_follows_the_latest_call() {
    let mut table = ForwardTable::new();
    let a = key(1, "0");
    let b = key(1, "1");
    table.insert(a.clone(), target("subscriber", 2, 7));
    table.insert(b.clone(), target("subscriber", 2, 8));
    table.bind_ssrc(1111, a.clone());
    table.bind_ssrc(2222, a.clone());
    table.bind_ssrc(1111, b.clone());
    let (k, _) = table.route_by_ssrc(1111).expect("1111 should route");
    assert_eq!(k, &b);
    let (k, _) = table.route_by_ssrc(2222).expect("2222 should route");
    assert_eq!(k, &a);
    assert!(table.route_by_ssrc(3333).is_none());
}
