use sfu::sfu::rtc::timer::{TimeoutStep, TimeoutTimer};
use sfu::sfu::config::SfuConfig;
use sfu::sfu::peer::PeerId;
use sfu::sfu::rtc::endpoint::{EndpointId, EndpointKind};
use sfu::sfu::rtc::endpoint_builder::{EndpointBuildError, EndpointBuilder};
use sfu::sfu::rtc::media::codec_map::{
    build_forward_target, eq_ignore_ascii_case, header_extension_rewrites, SenderParameters, payload_type_for_codec, payload_type_map,
    translate_extensions, RtpCodec, RtpCodecParameters, RtpHeaderExtensionParameters, SDES_MID_URI,
};
use sfu::sfu::rtc::media::demuxer::{classify_rtc_payload, Demuxer, FourTuple};
use sfu::sfu::rtc::media::forward::{HeaderExtensionRewrite, RtpSenderId};
use sfu::sfu::rtc::media::lobby::{encode_local_ufrag, RtcLobbyId};
use sfu::sfu::rtc::port_allocator::PortAllocator;

fn codec(pt: u8, mime: &str, fmtp: &str) -> RtpCodecParameters {
    RtpCodecParameters {
        payload_type: pt,
        rtp_codec: RtpCodec { mime_type: mime.to_owned(), sdp_fmtp_line: fmtp.to_owned() },
    }
}

fn ext(uri: &str, id: u16) -> RtpHeaderExtensionParameters {
    RtpHeaderExtensionParameters { uri: uri.to_owned(), id }
}

#[test]
fn rtc_ports_are_leased_lowest_first() {
    let mut ports = PortAllocator::new(5000, 5002);
    assert_eq!(ports.capacity(), 3);
    assert_eq!(ports.available(), 3);
    let a = ports.acquire().unwrap();
    let b = ports.acquire().unwrap();
    assert_eq!((a.port(), b.port()), (5000, 5001));
    assert_eq!(ports.available(), 1);
    ports.release(a);
    assert_eq!(ports.available(), 2);
    assert_eq!(ports.acquire().unwrap().port(), 5000);
    assert_eq!(ports.acquire().unwrap().port(), 5002);
    assert!(ports.acquire().is_none());
}

#[test]
fn endpoint_ids_print_peer_and_kind() {
    let id = EndpointId::new(PeerId::new("p1"), EndpointKind::Subscribe);
    assert_eq!(id.as_string(), "p1:subscribe");
    assert_eq!(id.as_peer_id(), PeerId::new("p1"));
    assert!(id.as_kind().is_subscribe());
    assert!(!id.as_kind().is_publish());
    assert_eq!(EndpointKind::Publish.as_string(), "publish");
}

#[test]
fn endpoint_builder_settings() {
    let config = SfuConfig { advertised_ip: "203.0.113.7".to_owned(), ..Default::default() };
    let builder = EndpointBuilder::from_sfu_config(&config);
    assert_eq!(builder.dedicated_reactor_pool_size(), 0);
    assert_eq!(builder.data_channel_send_buffer_limit(), usize::MAX);
    assert_eq!(builder.nat_1to1_ip(), Some("203.0.113.7".to_owned()));
    let builder = builder.with_dedicated_reactor_pool_size(4).with_data_channel_send_buffer_limit(1024);
    assert_eq!(builder.dedicated_reactor_pool_size(), 4);
    assert_eq!(builder.data_channel_send_buffer_limit(), 1024);
    assert_eq!(EndpointBuilder::from_sfu_config(&SfuConfig::default()).nat_1to1_ip(), None);
}

#[test]
fn payload_types_follow_the_codec() {
    let subscriber = vec![
        codec(100, "video/VP8", ""),
        codec(102, "video/H264", "profile-level-id=42e01f"),
        codec(104, "video/H264", "profile-level-id=640032"),
    ];
    let h264 = RtpCodec { mime_type: "VIDEO/h264".to_owned(), sdp_fmtp_line: "profile-level-id=640032".to_owned() };
    assert_eq!(payload_type_for_codec(&subscriber, &h264), Some(104));
    let other = RtpCodec { mime_type: "video/h264".to_owned(), sdp_fmtp_line: "x".to_owned() };
    assert_eq!(payload_type_for_codec(&subscriber, &other), Some(102));
    let opus = RtpCodec { mime_type: "audio/opus".to_owned(), sdp_fmtp_line: String::new() };
    assert_eq!(payload_type_for_codec(&subscriber, &opus), None);
    let publisher = vec![codec(96, "video/vp8", ""), codec(111, "audio/opus", ""), codec(96, "video/H264", "x")];
    assert_eq!(payload_type_map(&publisher, &subscriber), vec![(96, 102)]);
    assert!(eq_ignore_ascii_case("aBc", "AbC"));
    assert!(!eq_ignore_ascii_case("abc", "abd"));
}

#[test]
fn extensions_follow_the_uri() {
    let publisher = vec![ext(SDES_MID_URI, 3), ext("urn:a", 5), ext("urn:b", 6)];
    let subscriber = vec![ext("urn:a", 2), ext(SDES_MID_URI, 9)];
    let rewrites = header_extension_rewrites(&publisher, &subscriber);
    assert_eq!(
        rewrites,
        vec![
            HeaderExtensionRewrite { publisher_id: 3, subscriber_id: 9, rewrite_mid: true },
            HeaderExtensionRewrite { publisher_id: 5, subscriber_id: 2, rewrite_mid: false },
        ]
    );
    let packet = vec![(3, b"pubmid".to_vec()), (5, vec![7]), (6, vec![8])];
    assert_eq!(
        translate_extensions(&packet, &rewrites, Some(&b"s1"[..])),
        vec![(9, b"s1".to_vec()), (2, vec![7])]
    );
    assert_eq!(
        translate_extensions(&packet, &rewrites, None),
        vec![(9, b"pubmid".to_vec()), (2, vec![7])]
    );
}

#[test]
fn datagrams_are_classified_by_their_first_bytes() {
    assert_eq!(classify_rtc_payload(&[]), "empty");
    assert_eq!(classify_rtc_payload(&[0, 1]), "stun");
    assert_eq!(classify_rtc_payload(&[22]), "dtls");
    assert_eq!(classify_rtc_payload(&[0x80, 96]), "rtp");
    assert_eq!(classify_rtc_payload(&[0x80, 200]), "rtcp");
    assert_eq!(classify_rtc_payload(&[0x80]), "rtp/rtcp");
    assert_eq!(classify_rtc_payload(&[100]), "unknown");
}

#[test]
fn flows_are_learned_from_stun_usernames() {
    let lobby = RtcLobbyId::from_bytes([3; 16]);
    let ufrag = encode_local_ufrag(&lobby, 42);
    let flow = FourTuple { local_ip: 1, local_port: 2, peer_ip: 3, peer_port: 4 };
    let mut demuxer = Demuxer::new();
    assert_eq!(demuxer.route_username(flow, "no-colon"), None);
    assert_eq!(demuxer.route_username(flow, &format!("{ufrag}:remote")), Some((lobby, 42)));
    // Later datagrams follow the flow whatever they carry.
    assert_eq!(demuxer.demux(flow, &[0x80, 96, 0, 0]), Some((lobby, 42)));
    let other = FourTuple { local_ip: 1, local_port: 2, peer_ip: 3, peer_port: 5 };
    assert_eq!(demuxer.demux(other, &[0x80, 96, 0, 0]), None);
}

#[test]
fn forward_targets_map_codecs_and_extensions_onto_the_sender() {
    let track_codecs = vec![codec(96, "video/VP8", ""), codec(111, "audio/opus", "minptime=10")];
    let track_exts = vec![ext(SDES_MID_URI, 1), ext("urn:example:other", 2)];
    let sender = SenderParameters {
        codecs: vec![codec(120, "VIDEO/vp8", "")],
        header_extensions: vec![ext("urn:example:other", 7), ext(SDES_MID_URI, 3)],
    };
    let t = build_forward_target(
        PeerId::new("bob"),
        4,
        RtpSenderId::from(2),
        &track_codecs,
        &track_exts,
        Some(&sender),
        Some("1".to_owned()),
    )
    .unwrap();
    assert_eq!(t.subscriber_peer, PeerId::new("bob"));
    assert_eq!(t.subscribe_endpoint, 4);
    assert_eq!(t.sender_id, RtpSenderId::from(2));
    assert_eq!(t.payload_types, vec![(96, 120)]);
    assert_eq!(
        t.extension_rewrites,
        vec![
            HeaderExtensionRewrite { publisher_id: 1, subscriber_id: 3, rewrite_mid: true },
            HeaderExtensionRewrite { publisher_id: 2, subscriber_id: 7, rewrite_mid: false },
        ]
    );
    assert_eq!(t.subscriber_mid.as_deref(), Some("1"));
    assert!(build_forward_target(
        PeerId::new("bob"),
        4,
        RtpSenderId::from(2),
        &track_codecs,
        &track_exts,
        None,
        None
    )
    .is_none());
}

#[test]
fn only_the_latest_wake_up_acts() {
    let mut timer = TimeoutTimer::new();
    let first = timer.schedule_timeout(true);
    assert_eq!(first.generation, 1);
    assert_eq!(timer.on_timeout(first), TimeoutStep::HandleTimeout);
    let second = timer.schedule_timeout(false);
    assert_eq!(timer.on_timeout(first), TimeoutStep::Stale);
    assert_eq!(timer.on_timeout(second), TimeoutStep::Reschedule);
}

#[test]
fn endpoint_setup_leases_a_port_and_announces_the_advertised_address() {
    let config = SfuConfig { advertised_ip: "203.0.113.7".to_owned(), ..Default::default() };
    let builder = EndpointBuilder::from_sfu_config(&config);
    let mut ports = PortAllocator::new(6000, 6001);
    let a = builder.setup(&mut ports).unwrap();
    assert_eq!(a.lease.port(), 6000);
    assert_eq!(a.bind_ip, [0, 0, 0, 0]);
    assert_eq!(a.nat_1to1_ip.as_deref(), Some("203.0.113.7"));
    let plain = EndpointBuilder::from_sfu_config(&SfuConfig::default());
    let b = plain.setup(&mut ports).unwrap();
    assert_eq!(b.lease.port(), 6001);
    assert_eq!(b.nat_1to1_ip, None);
    match plain.setup(&mut ports) {
        Err(EndpointBuildError::Socket(m)) => assert_eq!(m, "no free UDP ports"),
        other => panic!("unexpected {other:?}"),
    }
}

fn stun_binding_request(username: &str) -> Vec<u8> {
    let mut value = username.as_bytes().to_vec();
    let len = value.len();
    while value.len() % 4 != 0 {
        value.push(0);
    }
    let mut m = vec![0x00, 0x01];
    m.extend_from_slice(&((4 + value.len()) as u16).to_be_bytes());
    m.extend_from_slice(&[0x21, 0x12, 0xA4, 0x42]);
    m.extend_from_slice(&[7; 12]);
    m.extend_from_slice(&[0x00, 0x06]);
    m.extend_from_slice(&(len as u16).to_be_bytes());
    m.extend_from_slice(&value);
    m
}

#[test]
fn a_stun_binding_request_teaches_the_flow() {
    let lobby = RtcLobbyId::from_bytes([5; 16]);
    let ufrag = encode_local_ufrag(&lobby, 9);
    let flow = FourTuple { local_ip: 1, local_port: 2, peer_ip: 3, peer_port: 6 };
    let mut demuxer = Demuxer::new();
    let request = stun_binding_request(&format!("{ufrag}:remote"));
    // A wrong magic cookie is no STUN message: the flow stays unknown.
    let mut not_stun = request.clone();
    not_stun[4] = 0;
    assert_eq!(demuxer.demux(flow, &not_stun), None);
    assert_eq!(demuxer.demux(flow, &request), Some((lobby, 9)));
    assert_eq!(demuxer.demux(flow, &[0x80, 96, 0, 0]), Some((lobby, 9)));
}

#[test]
fn extensions_pass_untouched_when_no_rewrites_were_negotiated() {
    let packet = vec![(3, b"pubmid".to_vec()), (5, vec![7])];
    assert_eq!(translate_extensions(&packet, &[], Some(&b"s1"[..])), packet);
    assert_eq!(translate_extensions(&packet, &[], None), packet);
}
