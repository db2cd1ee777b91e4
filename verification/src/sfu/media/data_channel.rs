//! Messages on a peer's data channel, and how they are written as JSON.
//!
//! A message is an object with a `type` tag (`"1"` offer, `"2"` answer, `"3"` mute)
//! and its content under `data`.
use vstd::prelude::*;
use vstd::utf8::encode_utf8;
use crate::sfu::rtc::media::control::{json_bool, json_bool_text, json_string, json_string_literal};
use crate::util::text::{decimal, u64_to_decimal};

verus! {

/// A session description in a data channel message, numbered by its offer.
#[derive(Debug, Clone)]
pub struct SdpMsgData {
    pub number: u64,
    pub sdp: String,
}

/// A track (un)muted, named by its mid.
#[derive(Debug, Clone)]
pub struct MuteMsgData {
    pub mid: String,
    pub mute: bool,
}

/// A message on a peer's data channel.
#[derive(Debug, Clone)]
pub enum DataChannelMsg {
    OfferMsg(SdpMsgData),
    AnswerMsg(SdpMsgData),
    MuteMsg(MuteMsgData),
}

/// A message as plain values.
pub enum DcMsgView {
    Offer { number: u64, sdp: Seq<char> },
    Answer { number: u64, sdp: Seq<char> },
    Mute { mid: Seq<char>, mute: bool },
}

impl View for DataChannelMsg {
    type V = DcMsgView;

    open spec fn view(&self) -> DcMsgView {
        match self {
            DataChannelMsg::OfferMsg(d) => DcMsgView::Offer { number: d.number, sdp: d.sdp@ },
            DataChannelMsg::AnswerMsg(d) => DcMsgView::Answer { number: d.number, sdp: d.sdp@ },
            DataChannelMsg::MuteMsg(d) => DcMsgView::Mute { mid: d.mid@, mute: d.mute },
        }
    }
}

impl DataChannelMsg {
    /// A copy of this message.
    pub fn duplicate(&self) -> (m: DataChannelMsg)
        ensures
            m@ == self@,
    {
        match self {
            DataChannelMsg::OfferMsg(d) => DataChannelMsg::OfferMsg(SdpMsgData { number: d.number, sdp: d.sdp.clone() }),
            DataChannelMsg::AnswerMsg(d) => DataChannelMsg::AnswerMsg(SdpMsgData { number: d.number, sdp: d.sdp.clone() }),
            DataChannelMsg::MuteMsg(d) => DataChannelMsg::MuteMsg(MuteMsgData { mid: d.mid.clone(), mute: d.mute }),
        }
    }
}

/// Whether a data channel opened or closed.
#[derive(Debug, Clone, Copy, PartialEq, Eq, Structural)]
pub enum EventType {
    Open,
    Closed,
}

/// The JSON text of a session description message with tag `tag`, given the JSON
/// literal of its SDP.
pub open spec fn sdp_msg_text(tag: char, number: u64, sdp_literal: Seq<char>) -> Seq<char> {
    "{\"type\":\""@ + seq![tag] + "\",\"data\":{\"number\":"@ + decimal(number as nat) + ",\"sdp\":"@
        + sdp_literal + "}}"@
}

/// The JSON text of a mute message, given the JSON literal of its mid.
pub open spec fn mute_msg_text(mid_literal: Seq<char>, mute: bool) -> Seq<char> {
    "{\"type\":\"3\",\"data\":{\"mid\":"@ + mid_literal + ",\"mute\":"@ + json_bool(mute) + "}}"@
}

/// The JSON text of a message, or `None` where a string of it cannot be written.
pub open spec fn dc_msg_json(m: DcMsgView) -> Option<Seq<char>> {
    match m {
        DcMsgView::Offer { number, sdp } => match json_string(sdp) {
            Some(lit) => Some(sdp_msg_text('1', number, lit)),
            None => None,
        },
        DcMsgView::Answer { number, sdp } => match json_string(sdp) {
            Some(lit) => Some(sdp_msg_text('2', number, lit)),
            None => None,
        },
        DcMsgView::Mute { mid, mute } => match json_string(mid) {
            Some(lit) => Some(mute_msg_text(lit, mute)),
            None => None,
        },
    }
}

/// Why a data channel message could not be written.
#[derive(Debug, Clone, Copy, PartialEq, Eq, Structural)]
pub enum DataChannelError {
    Serialize,
}

fn sdp_msg_json(tag: &str, d: &SdpMsgData) -> (r: Option<String>)
    requires
        tag@.len() == 1,
    ensures
        match r {
            Some(s) => json_string(d.sdp@) is Some && s@ == sdp_msg_text(tag@[0], d.number, json_string(d.sdp@)->0),
            None => json_string(d.sdp@) is None,
        },
{
    let literal = json_string_literal(d.sdp.as_str())?;
    let s = String::from_str("{\"type\":\"");
    let s = s.concat(tag);
    let s = s.concat("\",\"data\":{\"number\":");
    let number = u64_to_decimal(d.number);
    let s = s.concat(number.as_str());
    let s = s.concat(",\"sdp\":");
    let s = s.concat(literal.as_str());
    let s = s.concat("}}");
    assert(tag@ =~= seq![tag@[0]]);
    Some(s)
}

impl DataChannelMsg {
    /// The message as JSON text.
    pub fn to_json(&self) -> (r: Result<String, DataChannelError>)
        ensures
            match dc_msg_json(self@) {
                Some(t) => r is Ok && r->Ok_0@ == t,
                None => r == Err::<String, DataChannelError>(DataChannelError::Serialize),
            },
    {
        let r = match self {
            DataChannelMsg::OfferMsg(d) => {
                proof {
                    reveal_strlit("1");
                }
                sdp_msg_json("1", d)
            },
            DataChannelMsg::AnswerMsg(d) => {
                proof {
                    reveal_strlit("2");
                }
                sdp_msg_json("2", d)
            },
            DataChannelMsg::MuteMsg(d) => match json_string_literal(d.mid.as_str()) {
                Some(literal) => {
                    let s = String::from_str("{\"type\":\"3\",\"data\":{\"mid\":");
                    let s = s.concat(literal.as_str());
                    let s = s.concat(",\"mute\":");
                    let flag = json_bool_text(d.mute);
                    let s = s.concat(flag.as_str());
                    Some(s.concat("}}"))
                },
                None => None,
            },
        };
        match r {
            Some(s) => Ok(s),
            None => Err(DataChannelError::Serialize),
        }
    }

    /// The message as the UTF-8 bytes of its JSON text.
    pub fn to_bin(&self) -> (r: Result<Vec<u8>, DataChannelError>)
        ensures
            match dc_msg_json(self@) {
                Some(t) => r is Ok && r->Ok_0@ == encode_utf8(t),
                None => r == Err::<Vec<u8>, DataChannelError>(DataChannelError::Serialize),
            },
    {
        match self.to_json() {
            Ok(s) => Ok(s.as_str().as_bytes_vec()),
            Err(e) => Err(e),
        }
    }
}

} // verus!
