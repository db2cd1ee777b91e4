use sfu::sfu::media::track_info::{media_for_track, OutboundTrackInfo, SendingMedia};
use sfu::sfu::media::sdp::{media_titles, set_track_info, MediaSection, SetTrackInfoError};
use sfu::sfu::media::data_channel::EventType;
use sfu::sfu::peer::{
    on_connection_state, on_data_channel_event, on_data_channel_msg, on_media_message, DataChannelStep,
    MediaMessage, PeerConnectionState, PeerDcAction,
};
use sfu::sfu::media::control_data_channel::{ControlDataChannel, ControlSendError};
use sfu::sfu::media::data_channel::{DataChannelMsg, MuteMsgData, SdpMsgData};
use sfu::sfu::media::router::Router;
use sfu::sfu::media::sdp::{
    format_muted, parse_muted, parse_offered_track_info, track_description, TrackInfoError,
};
use sfu::sfu::media::{ConnectorType, Media, MediaId, MediaKind, MediaPurpose};
use sfu::sfu::peer::PeerId;

fn peer(id: &str) -> PeerId {
    PeerId::new(id)
}

fn media(id: &str, peer_id: &PeerId, mid: &str) -> Media {
    Media {
        id: MediaId::from_str(id),
        peer_id: peer_id.clone(),
        mid: mid.to_string(),
        src_track_id: "track".into(),
        src_stream_id: "stream".into(),
        kind: Default::default(),
        muted: false,
        purpose: Default::default(),
        info: "info".into(),
        payload_type: Default::default(),
    }
}

fn router_with_medias() -> Router {
    let peer_a = peer("peer-a");
    let peer_b = peer("peer-b");
    let mut router = Router::new();
    router.insert(media("m1", &peer_a, "video-0"));
    router.insert(media("m2", &peer_a, "audio-0"));
    router.insert(media("m3", &peer_b, "video-0"));
    router
}

#[test]
fn test_media_lookup_by_id() {
    let router = router_with_medias();
    let id = MediaId::from_str("m1");
    let media = router.media(&id).expect("media should exist");
    assert_eq!(media.mid, "video-0");
}

#[test]
fn test_get_media_of_peer_by_mid() {
    let mut router = router_with_medias();
    let peer_a = peer("peer-a");
    let media = router.get_media_of_peer_by_mid(&peer_a, "audio-0").expect("media should exist");
    assert_eq!(media.mid, "audio-0");
    assert_eq!(media.peer_id, peer_a);
}

#[test]
fn test_get_media_of_peer_by_mid_and_mute() {
    let mut router = router_with_medias();
    let peer_a = peer("peer-a");
    {
        let media = router.get_media_of_peer_by_mid(&peer_a, "audio-0").expect("media should exist");
        media.set_mut(true);
    }
    let media_again = router.get_media_of_peer_by_mid(&peer_a, "audio-0").expect("media should exist");
    assert_eq!(media_again.mid, "audio-0");
    assert_eq!(media_again.peer_id, peer_a);
    assert!(media_again.muted);
}

#[test]
fn test_get_media_of_peer_by_mid_not_found() {
    let mut router = router_with_medias();
    let peer_a = peer("peer-a");
    let media = router.get_media_of_peer_by_mid(&peer_a, "does-not-exist");
    assert!(media.is_none());
}

#[test]
fn test_get_medias_without_peer() {
    let router = router_with_medias();
    let peer_a = peer("peer-a");
    let medias = router.get_medias_without_peer(&peer_a);
    assert_eq!(medias.len(), 1);
    assert_eq!(medias[0].peer_id, peer("peer-b"));
}

#[test]
fn test_remove_medias_of_peer() {
    let mut router = router_with_medias();
    let peer_a = peer("peer-a");
    router.remove_medias_of_peer(&peer_a);
    assert!(router.medias.iter().all(|m| m.peer_id != peer_a));
    assert_eq!(router.len(), 1);
}

#[test]
fn media_stream_takes_the_stream_tracks() {
    let mut router = router_with_medias();
    let mut audio = media("s1", &peer("peer-c"), "0");
    audio.kind = MediaKind::Audio;
    audio.purpose = MediaPurpose::STREAM;
    let mut video = media("s2", &peer("peer-c"), "1");
    video.kind = MediaKind::Video;
    video.purpose = MediaPurpose::STREAM;
    router.insert(audio);
    router.insert(video);
    assert_eq!(router.get_medias_of_peer(&peer("peer-c")).len(), 2);
    let stream = router.get_media_stream();
    assert_eq!(stream.audio.unwrap().id, MediaId::from_str("s1"));
    assert_eq!(stream.video.unwrap().id, MediaId::from_str("s2"));
    assert!(router_with_medias().get_media_stream().audio.is_none());
}

#[test]
fn media_ids_carry_the_peer() {
    let id = MediaId::from(peer("peer-a"));
    let text = id.as_str();
    assert_eq!(text.len(), 13);
    assert!(text[..6].chars().all(|c| c.is_ascii_alphanumeric()));
    assert_eq!(&text[6..], "-peer-a");
}

#[test]
fn purposes_and_labels() {
    assert_eq!(MediaPurpose::from_option_str(Some("2")), MediaPurpose::STREAM);
    assert_eq!(MediaPurpose::from_option_str(Some("1")), MediaPurpose::PARTICIPANT);
    assert_eq!(MediaPurpose::from_option_str(Some("x")), MediaPurpose::PARTICIPANT);
    assert_eq!(MediaPurpose::from_option_str(None), MediaPurpose::PARTICIPANT);
    assert_eq!(MediaPurpose::STREAM.to_string(), "2");
    assert_eq!(MediaPurpose::default(), MediaPurpose::PARTICIPANT);
    assert_eq!(ConnectorType::Sender.channel_label(), "whep");
    assert_eq!(ConnectorType::Receiver.channel_label(), "whip");
    assert!(parse_muted(Some("1")));
    assert!(!parse_muted(Some("2")));
    assert!(!parse_muted(None));
    assert_eq!(format_muted(true), "1");
    assert_eq!(format_muted(false), "2");
}

#[test]
fn offered_tracks_are_read_from_media_titles() {
    let sdp = "v=0\r\n\
               m=audio 9 UDP/TLS/RTP/SAVPF 111\r\n\
               a=mid:0\r\n\
               i=2 1 mic of the stage\r\n\
               m=video 9 UDP/TLS/RTP/SAVPF 96\r\n\
               i=1 2\r\n\
               a=mid:a=mid:1 \r\n\
               m=application 9 UDP/DTLS/SCTP webrtc-datachannel\r\n\
               a=mid:2\r\n";
    let tracks = parse_offered_track_info(sdp).unwrap();
    assert_eq!(tracks.len(), 2);
    assert_eq!(tracks[0].mid, "0");
    assert_eq!(tracks[0].kind, MediaKind::Audio);
    assert_eq!(tracks[0].purpose, MediaPurpose::STREAM);
    assert!(tracks[0].muted);
    assert_eq!(tracks[0].info, "mic of the stage");
    assert_eq!(tracks[1].mid, "1");
    assert_eq!(tracks[1].kind, MediaKind::Video);
    assert_eq!(tracks[1].purpose, MediaPurpose::PARTICIPANT);
    assert!(!tracks[1].muted);
    assert_eq!(tracks[1].info, "");
    assert_eq!(parse_offered_track_info("v=0\nm=audio 9\na=mid:0\n").unwrap_err(), TrackInfoError::NoMids);
}

#[test]
fn written_descriptions_read_back() {
    let text = track_description(MediaPurpose::STREAM, false, "main cam");
    assert_eq!(text, "2 2 main cam");
    let sdp = format!("m=video 9\r\na=mid:v\r\ni={text}\r\n");
    let tracks = parse_offered_track_info(&sdp).unwrap();
    assert_eq!(tracks[0].purpose, MediaPurpose::STREAM);
    assert!(!tracks[0].muted);
    assert_eq!(tracks[0].info, "main cam");
}

#[test]
fn data_channel_messages_are_tagged_json() {
    let offer = DataChannelMsg::OfferMsg(SdpMsgData { number: 42, sdp: "v=0 test sdp".to_owned() });
    assert_eq!(offer.to_json().unwrap(), r#"{"type":"1","data":{"number":42,"sdp":"v=0 test sdp"}}"#);
    let mute = DataChannelMsg::MuteMsg(MuteMsgData { mid: "0".to_owned(), mute: true });
    assert_eq!(mute.to_bin().unwrap(), br#"{"type":"3","data":{"mid":"0","mute":true}}"#.to_vec());
    let answer = DataChannelMsg::AnswerMsg(SdpMsgData { number: 1, sdp: "x\ny".to_owned() });
    assert_eq!(answer.to_json().unwrap(), r#"{"type":"2","data":{"number":1,"sdp":"x\ny"}}"#);
}

#[test]
fn control_data_channel_queues_until_a_channel_opens() {
    let mut channel = ControlDataChannel::new(peer("peer-1"));
    assert_eq!(channel.send_offer("o1".to_owned(), true), Err(ControlSendError::NoChannel));
    assert_eq!(channel.send_mute("0", true, true), Err(ControlSendError::NoChannel));
    assert_eq!(channel.send_offer("o2".to_owned(), true), Err(ControlSendError::NoChannel));
    assert!(channel.is_answer_stale(1));
    assert!(!channel.is_answer_stale(2));

    // The first offer was overtaken by the second: it is dropped.
    let sent = channel.set_dc(4, true);
    let texts: Vec<String> = sent.into_iter().map(|b| String::from_utf8(b).unwrap()).collect();
    assert_eq!(
        texts,
        vec![
            r#"{"type":"3","data":{"mid":"0","mute":true}}"#.to_owned(),
            r#"{"type":"1","data":{"number":2,"sdp":"o2"}}"#.to_owned(),
        ]
    );
    // The same channel again changes nothing.
    assert!(channel.set_dc(4, true).is_empty());
    let sent = channel.send_answer("a".to_owned(), 2, true).unwrap();
    assert_eq!(String::from_utf8(sent).unwrap(), r#"{"type":"1","data":{"number":2,"sdp":"a"}}"#);
    assert_eq!(channel.send_mute("1", false, false), Err(ControlSendError::NotOpen));
    channel.detach_channel(4);
    assert_eq!(channel.send_mute("1", false, true), Err(ControlSendError::NoChannel));
    assert_eq!(channel.id(), &peer("peer-1"));
}

#[test]
fn peers_apply_fresh_answers_and_forward_mutes() {

    let me = peer("peer-1");
    let mut channel = ControlDataChannel::new(me.clone());
    let _ = channel.send_offer("o1".to_owned(), false);
    let _ = channel.send_offer("o2".to_owned(), false);

    let answer = |n: u64| DataChannelMsg::AnswerMsg(SdpMsgData { number: n, sdp: "a".to_owned() });
    assert!(matches!(on_data_channel_msg(&me, false, &channel, answer(2)), PeerDcAction::NoSender));
    assert!(matches!(on_data_channel_msg(&me, true, &channel, answer(1)), PeerDcAction::IgnoreStaleAnswer));
    match on_data_channel_msg(&me, true, &channel, answer(2)) {
        PeerDcAction::ApplyAnswer(d) => {
            assert_eq!(d.number, 2);
            assert_eq!(d.sdp, "a");
        }
        other => panic!("unexpected {other:?}"),
    }
    let offer = DataChannelMsg::OfferMsg(SdpMsgData { number: 9, sdp: "o".to_owned() });
    assert!(matches!(on_data_channel_msg(&me, true, &channel, offer), PeerDcAction::IgnoreOffer { number: 9 }));
    let mute = DataChannelMsg::MuteMsg(MuteMsgData { mid: "3".to_owned(), mute: true });
    match on_data_channel_msg(&me, false, &channel, mute) {
        PeerDcAction::MuteMedia(m) => {
            assert_eq!(m.peer_id, me);
            assert_eq!(m.mid, "3");
            assert!(m.mute);
        }
        other => panic!("unexpected {other:?}"),
    }

    assert_eq!(on_data_channel_event(ConnectorType::Sender, EventType::Open), DataChannelStep::Ignore);
    assert_eq!(on_data_channel_event(ConnectorType::Receiver, EventType::Open), DataChannelStep::AttachControl);
    assert_eq!(on_data_channel_event(ConnectorType::Receiver, EventType::Closed), DataChannelStep::DetachControl);
}

#[test]
fn sending_media_reports_mids_and_records_mutes() {
    let mut sending = SendingMedia::new();
    let a = MediaId::from_str("media-a");
    let b = MediaId::from_str("media-b");
    sending.insert(a.clone(), OutboundTrackInfo::new("s a".to_owned(), Some("0".to_owned()), MediaPurpose::PARTICIPANT, false, "cam".to_owned()));
    sending.insert(b.clone(), OutboundTrackInfo::new("s b".to_owned(), None, MediaPurpose::STREAM, false, "".to_owned()));
    assert_eq!(sending.get_mid_and_mute(&a, true), Some("0".to_owned()));
    assert_eq!(sending.get_mid_and_mute(&b, true), None);
    assert_eq!(sending.get_mid_and_mute(&MediaId::from_str("nope"), true), None);
    let infos = sending.infos();
    assert_eq!(infos.len(), 2);
    assert!(infos[0].muted && infos[1].muted);
    sending.remove(&a);
    assert_eq!(sending.infos().len(), 1);
    assert_eq!(sending.get_mid_and_mute(&a, false), None);
    // a second insert of the same media replaces its track
    sending.insert(b.clone(), OutboundTrackInfo::new("s b".to_owned(), Some("4".to_owned()), MediaPurpose::STREAM, false, "".to_owned()));
    assert_eq!(sending.infos().len(), 1);
    assert_eq!(sending.get_mid_and_mute(&b, false), Some("4".to_owned()));
}

#[test]
fn outbound_tracks_are_sent_under_stream_and_media_id() {
    let media = Media::new(
        PeerId::new("p1"),
        "0".to_owned(),
        "track".to_owned(),
        "stream-1".to_owned(),
        MediaKind::Video,
        true,
        MediaPurpose::STREAM,
        "screen".to_owned(),
        96,
    );
    let t = OutboundTrackInfo::for_media(&media, Some("2".to_owned()));
    assert_eq!(t.msid, format!("stream-1 {}", media.id.as_str()));
    assert_eq!(t.purpose, MediaPurpose::STREAM);
    assert!(t.muted);
    assert_eq!(t.info, "screen");
    assert_eq!(t.mid.as_deref(), Some("2"));
}

#[test]
fn titles_describe_the_tracks_by_msid() {
    let sections = vec![
        MediaSection { media: "audio".to_owned(), msid: Some(Some("s a".to_owned())), title: None },
        MediaSection { media: "video".to_owned(), msid: Some(Some("s x".to_owned())), title: Some("old".to_owned()) },
        MediaSection { media: "video".to_owned(), msid: Some(None), title: None },
        MediaSection { media: "APPLICATION".to_owned(), msid: Some(Some("s a".to_owned())), title: Some("dc".to_owned()) },
    ];
    let tracks = vec![OutboundTrackInfo::new("s a".to_owned(), None, MediaPurpose::STREAM, true, "cam one".to_owned())];
    assert_eq!(
        media_titles(&sections, &tracks),
        vec![Some("2 1 cam one".to_owned()), Some("old".to_owned()), None, Some("dc".to_owned())]
    );
}

#[test]
fn set_track_info_writes_media_titles_into_the_sdp() {
    let sdp = "v=0\r\no=- 123 2 IN IP4 127.0.0.1\r\ns=-\r\nt=0 0\r\nm=audio 9 UDP/TLS/RTP/SAVPF 111\r\nc=IN IP4 0.0.0.0\r\na=msid:stream1 media-a\r\nm=video 9 UDP/TLS/RTP/SAVPF 96\r\nc=IN IP4 0.0.0.0\r\na=msid:stream1 media-b\r\n";
    let tracks = vec![OutboundTrackInfo::new(
        "stream1 media-a".to_owned(),
        Some("0".to_owned()),
        MediaPurpose::PARTICIPANT,
        false,
        "mic".to_owned(),
    )];
    let out = set_track_info(sdp, &tracks).unwrap();
    assert!(out.contains("i=1 2 mic\r\n"), "{out}");
    assert_eq!(out.matches("i=").count(), 1, "{out}");
    assert!(out.contains("a=msid:stream1 media-b"));
    assert_eq!(set_track_info("not sdp", &tracks), Err(SetTrackInfoError::Unparsable));
}

#[test]
fn remote_tracks_take_their_description_from_the_offer() {
    let offer = "v=0\r\nm=audio 9 UDP 111\r\na=mid:0\r\ni=1 2 mic\r\nm=video 9 UDP 96\r\na=mid:1\r\ni=2 1 screen share\r\n";
    let offered = sfu::sfu::media::sdp::parse_offered_track_info(offer).unwrap();
    let media = media_for_track(
        PeerId::new("p1"),
        &offered,
        1,
        "track-7".to_owned(),
        "stream-7".to_owned(),
        MediaKind::Video,
        96,
    );
    assert_eq!(media.peer_id, PeerId::new("p1"));
    assert_eq!(media.mid, "1");
    assert_eq!(media.purpose, MediaPurpose::STREAM);
    assert!(media.muted);
    assert_eq!(media.info, "screen share");
    assert_eq!(media.src_track_id, "track-7");
    assert_eq!(media.src_stream_id, "stream-7");
    assert_eq!(media.kind, MediaKind::Video);
    assert_eq!(media.payload_type, 96);
    assert!(media.id.as_str().ends_with("p1"));
}

#[test]
fn a_failed_connection_makes_the_peer_leave() {
    assert_eq!(
        on_connection_state(ConnectorType::Receiver, PeerConnectionState::Connected),
        Some(MediaMessage::Connected(ConnectorType::Receiver))
    );
    assert_eq!(
        on_connection_state(ConnectorType::Sender, PeerConnectionState::Failed),
        Some(MediaMessage::Disconnected(ConnectorType::Sender))
    );
    assert_eq!(on_connection_state(ConnectorType::Sender, PeerConnectionState::Disconnected), None);
    assert_eq!(on_connection_state(ConnectorType::Sender, PeerConnectionState::Closed), None);
    let me = peer("peer-9");
    assert!(on_media_message(&me, MediaMessage::Connected(ConnectorType::Sender)).is_none());
    assert_eq!(on_media_message(&me, MediaMessage::Disconnected(ConnectorType::Sender)).unwrap().user_uuid, "peer-9");
}

#[test]
fn sdp_text_is_escaped_as_serde_json_escapes_it() {
    let sdp = "a\"b\\c\u{1}d\u{8}\u{c}\t\r\n\u{7f}é".to_owned();
    let msg = DataChannelMsg::OfferMsg(SdpMsgData { number: 3, sdp: sdp.clone() });
    let expected = format!(r#"{{"type":"1","data":{{"number":3,"sdp":{}}}}}"#, serde_json::to_string(&sdp).unwrap());
    assert_eq!(msg.to_json().unwrap(), expected);
    assert_eq!(
        msg.to_json().unwrap(),
        "{\"type\":\"1\",\"data\":{\"number\":3,\"sdp\":\"a\\\"b\\\\c\\u0001d\\b\\f\\t\\r\\n\u{7f}é\"}}"
    );
}
