use sfu::sfu::endpoint::RtcEndpointId;
use sfu::sfu::rtc::media::lobby::{
    decode_local_ufrag, decode_rtc_lobby_id, encode_local_ufrag, encode_rtc_lobby_id, RtcLobbyId,
};
use uuid::Uuid;

/// A lobby id whose base64 contains both ufrag separators.
const ADVERSARIAL: &str = "7736b1e2-a376-feaf-c87d-558a96171cfb";

fn uuid(text: &str) -> RtcLobbyId {
    RtcLobbyId::from_bytes(*Uuid::parse_str(text).expect("test uuid").as_bytes())
}

fn from_uuid(u: Uuid) -> RtcLobbyId {
    RtcLobbyId::from_bytes(*u.as_bytes())
}

#[test]
fn round_trips_every_uuid_shape() {
    let ids = [
        from_uuid(Uuid::nil()),
        from_uuid(Uuid::max()),
        from_uuid(Uuid::from_u128(42)),
        from_uuid(Uuid::from_u128(u64::MAX as u128)),
        uuid(ADVERSARIAL),
        uuid("a2b40a86-cc37-fc72-37d5-4940fc52c41e"),
        RtcLobbyId::from_bytes([0x7f; 16]),
        RtcLobbyId::from_bytes([
            0x00, 0xff, 0x10, 0xef, 0x20, 0xdf, 0x30, 0xcf, 0x40, 0xbf, 0x50, 0xaf, 0x60, 0x9f, 0x70, 0x8f,
        ]),
    ];
    for id in ids {
        let token = encode_rtc_lobby_id(&id);
        assert_eq!(token.len(), 22, "16 bytes is always 22 unpadded characters");
        assert_eq!(decode_rtc_lobby_id(&token), Some(id), "round trip failed for {id:?}");
    }
}

#[test]
fn decodes_only_sixteen_byte_payloads() {
    let token = encode_rtc_lobby_id(&uuid(ADVERSARIAL));
    for invalid in [
        "",
        "AAAA",
        &token[..token.len() - 1],
        &format!("{token}AA"),
        &format!("{token}{token}"),
    ] {
        assert_eq!(decode_rtc_lobby_id(invalid), None, "accepted {invalid:?}");
    }
}

#[test]
fn decodes_only_the_canonical_spelling() {
    let id = uuid(ADVERSARIAL);
    let token = encode_rtc_lobby_id(&id);
    let alphabet: Vec<char> = "ABCDEFGHIJKLMNOPQRSTUVWXYZabcdefghijklmnopqrstuvwxyz0123456789+/"
        .chars()
        .collect();
    let last = alphabet
        .iter()
        .position(|c| *c == token.chars().last().unwrap())
        .expect("final character is in the alphabet");
    let mut twins = 0;
    for bump in 1..16 {
        let twin: String = token[..token.len() - 1]
            .chars()
            .chain(std::iter::once(alphabet[last + bump]))
            .collect();
        assert_ne!(twin, token);
        assert_eq!(decode_rtc_lobby_id(&twin), None, "accepted twin {twin:?}");
        twins += 1;
    }
    assert_eq!(twins, 15, "every non-canonical trailing-bit spelling was tested");
}

#[test]
fn decodes_only_the_standard_alphabet() {
    let id = uuid(ADVERSARIAL);
    let url_safe = encode_rtc_lobby_id(&id).replace('+', "-").replace('/', "_");
    assert_ne!(url_safe, encode_rtc_lobby_id(&id));
    assert_eq!(decode_rtc_lobby_id(&url_safe), None);
    assert_eq!(decode_rtc_lobby_id(&format!("{}==", encode_rtc_lobby_id(&id))), None);
    assert_eq!(decode_rtc_lobby_id("not base64!!!!!!!!!!!!"), None);
}

#[test]
fn local_ufrag_round_trips_through_both_separators() {
    for id in [
        uuid(ADVERSARIAL),
        uuid("a2b40a86-cc37-fc72-37d5-4940fc52c41e"),
        from_uuid(Uuid::nil()),
        from_uuid(Uuid::max()),
        from_uuid(Uuid::from_u128(42)),
    ] {
        for endpoint_id in [0 as RtcEndpointId, 1, 537_821_252, RtcEndpointId::MAX] {
            let local_ufrag = encode_local_ufrag(&id, endpoint_id);
            assert_eq!(
                decode_local_ufrag(&local_ufrag),
                Some((id, endpoint_id)),
                "round trip failed for {local_ufrag}"
            );
            assert!((4..=256).contains(&local_ufrag.len()));
            assert!(
                local_ufrag.chars().all(|c| c.is_ascii_alphanumeric() || c == '+' || c == '/'),
                "ufrag has a character ICE does not allow: {local_ufrag}"
            );
        }
    }
    let token = encode_rtc_lobby_id(&uuid(ADVERSARIAL));
    assert!(
        token.contains('+') && token.contains('/'),
        "the fixture no longer exercises both separators: {token}"
    );
}

#[test]
fn local_ufrag_decoding_rejects_malformed_input() {
    let token = encode_rtc_lobby_id(&uuid(ADVERSARIAL));
    for invalid in [
        String::new(),
        token.clone(),
        format!("{token}/7"),
        format!("{token}+abc"),
        format!("{token}/notdigits+abc"),
        format!("{token}/-1+abc"),
        "zzzz/7+abc".to_string(),
    ] {
        assert_eq!(decode_local_ufrag(&invalid), None, "accepted {invalid:?}");
    }
}

#[test]
fn local_ufrag_is_unique_per_peer() {
    let id = uuid(ADVERSARIAL);
    let first = encode_local_ufrag(&id, 7);
    let second = encode_local_ufrag(&id, 7);
    assert_ne!(first, second);
    assert_eq!(decode_local_ufrag(&first), decode_local_ufrag(&second));
}

#[test]
fn local_ufrag_decoding_accepts_only_what_the_encoder_builds() {
    let id = uuid(ADVERSARIAL);
    let token = encode_rtc_lobby_id(&id);
    for invalid in [
        format!("{token}/7+"),      // empty letter suffix
        format!("{token}/+7+abc"),  // signed peer id
        format!("{token}/07+abc"),  // leading zero
        format!("{token}/7+ab1"),   // suffix is not all letters
        format!("{token}/7+ab/c"),  // suffix is not all letters
    ] {
        assert_eq!(decode_local_ufrag(&invalid), None, "accepted {invalid:?}");
    }
    assert_eq!(decode_local_ufrag(&format!("{token}/0+abc")), Some((id, 0)));
    assert_eq!(decode_local_ufrag(&format!("{token}/70+Z")), Some((id, 70)));
}
