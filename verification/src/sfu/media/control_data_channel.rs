//! The signaling channel of a peer's sender: offers, answers and mute messages go out
//! on the peer's data channel, and wait in a queue while there is no open channel.
//!
//! Offers are numbered; an answer to any offer but the latest is stale. When a channel
//! arrives, the queue is flushed, and queued offers that a newer offer has overtaken are
//! dropped.
use vstd::prelude::*;
use vstd::utf8::encode_utf8;
use crate::sfu::media::data_channel::{dc_msg_json, DataChannelMsg, DcMsgView, MuteMsgData, SdpMsgData};
use crate::sfu::peer::PeerId;

verus! {

/// Identity of a data channel.
pub type DataChannelHandle = u16;

/// Why a message did not go out.
#[derive(Debug, Clone, Copy, PartialEq, Eq, Structural)]
pub enum ControlSendError {
    /// There is no data channel; the message waits in the queue.
    NoChannel,
    /// The data channel is not open; the message waits in the queue.
    NotOpen,
    /// The message could not be written as JSON; it is dropped.
    Serialize,
}

/// An offer that is not numbered `current`.
pub open spec fn is_overtaken_offer(m: DcMsgView, current: u64) -> bool {
    m matches DcMsgView::Offer { number, .. } && number != current
}

/// The views of a list of messages.
pub open spec fn msgs_view(v: Seq<DataChannelMsg>) -> Seq<DcMsgView> {
    v.map_values(|m: DataChannelMsg| m@)
}

/// The queued messages that still go out when a channel arrives: all but the offers
/// that a newer offer has overtaken, in order.
pub open spec fn flushable(q: Seq<DcMsgView>, current: u64) -> Seq<DcMsgView>
    decreases q.len(),
{
    if q.len() == 0 {
        Seq::empty()
    } else {
        let rest = flushable(q.drop_last(), current);
        if is_overtaken_offer(q.last(), current) {
            rest
        } else {
            rest.push(q.last())
        }
    }
}

/// The payload a message goes out as, if it can be written.
pub open spec fn payload_of(m: DcMsgView) -> Option<Seq<u8>> {
    match dc_msg_json(m) {
        Some(t) => Some(encode_utf8(t)),
        None => None,
    }
}

/// The payloads of the messages that can be written, in order.
pub open spec fn payloads_of(ms: Seq<DcMsgView>) -> Seq<Seq<u8>>
    decreases ms.len(),
{
    if ms.len() == 0 {
        Seq::empty()
    } else {
        let rest = payloads_of(ms.drop_last());
        match payload_of(ms.last()) {
            Some(p) => rest.push(p),
            None => rest,
        }
    }
}

/// The views of a list of payloads.
pub open spec fn payloads_view(v: Seq<Vec<u8>>) -> Seq<Seq<u8>> {
    v.map_values(|p: Vec<u8>| p@)
}

/// The signaling channel of one peer.
pub struct ControlDataChannel {
    id: PeerId,
    channel: Option<DataChannelHandle>,
    queue: Vec<DataChannelMsg>,
    last_offer_number: u64,
}

impl ControlDataChannel {
    /// The peer the channel signals to.
    pub closed spec fn spec_id(&self) -> Seq<char> {
        self.id@
    }

    /// The peer the channel signals to.
    pub fn id(&self) -> (p: &PeerId)
        ensures
            p@ == self.spec_id(),
    {
        &self.id
    }

    /// The channel in use, if any.
    pub closed spec fn spec_channel(&self) -> Option<DataChannelHandle> {
        self.channel
    }

    /// The messages waiting for a channel, oldest first.
    pub closed spec fn spec_queue(&self) -> Seq<DcMsgView> {
        msgs_view(self.queue@)
    }

    /// The number of the latest offer (zero before the first).
    pub closed spec fn spec_last_offer(&self) -> u64 {
        self.last_offer_number
    }

    /// A channel with no data channel, nothing queued and no offer yet.
    pub fn new(id: PeerId) -> (c: Self)
        ensures
            c.spec_id() == id@,
            c.spec_channel() is None,
            c.spec_queue() == Seq::<DcMsgView>::empty(),
            c.spec_last_offer() == 0,
    {
        ControlDataChannel { id, channel: None, queue: Vec::new(), last_offer_number: 0 }
    }

    /// Numbers a new offer.
    fn next_offer_id(&mut self) -> (n: u64)
        requires
            old(self).spec_last_offer() < u64::MAX,
        ensures
            n == old(self).spec_last_offer() + 1,
            final(self).spec_last_offer() == n,
            final(self).spec_channel() == old(self).spec_channel(),
            final(self).spec_queue() == old(self).spec_queue(),
            final(self).spec_id() == old(self).spec_id(),
    {
        self.last_offer_number = self.last_offer_number + 1;
        self.last_offer_number
    }

    /// Whether an answer answers an offer that a newer one has overtaken.
    pub fn is_answer_stale(&self, answer_id: u64) -> (b: bool)
        ensures
            b == (answer_id < self.spec_last_offer()),
    {
        answer_id < self.last_offer_number
    }

    /// Sends one message: the payload to write to the channel, or why it does not go
    /// out. Without an open channel the message is queued.
    fn send_dcm_bin(&mut self, msg: DataChannelMsg, channel_open: bool) -> (r: Result<Vec<u8>, ControlSendError>)
        ensures
            final(self).spec_channel() == old(self).spec_channel(),
            final(self).spec_last_offer() == old(self).spec_last_offer(),
            final(self).spec_id() == old(self).spec_id(),
            old(self).spec_channel() is None ==> r == Err::<Vec<u8>, ControlSendError>(ControlSendError::NoChannel)
                && final(self).spec_queue() == old(self).spec_queue().push(msg@),
            old(self).spec_channel() is Some && !channel_open ==> r == Err::<Vec<u8>, ControlSendError>(ControlSendError::NotOpen)
                && final(self).spec_queue() == old(self).spec_queue().push(msg@),
            old(self).spec_channel() is Some && channel_open ==> final(self).spec_queue() == old(self).spec_queue()
                && match payload_of(msg@) {
                    Some(p) => r is Ok && r->Ok_0@ == p,
                    None => r == Err::<Vec<u8>, ControlSendError>(ControlSendError::Serialize),
                },
    {
        if self.channel.is_none() {
            self.queue.push(msg);
            assert(self.spec_queue() =~= old(self).spec_queue().push(msg@));
            return Err(ControlSendError::NoChannel);
        }
        if !channel_open {
            self.queue.push(msg);
            assert(self.spec_queue() =~= old(self).spec_queue().push(msg@));
            return Err(ControlSendError::NotOpen);
        }
        match msg.to_bin() {
            Ok(bytes) => Ok(bytes),
            Err(_) => Err(ControlSendError::Serialize),
        }
    }

    /// Signals an offer under the next number. `channel_open` is whether the data
    /// channel in use is open now.
    pub fn send_offer(&mut self, offer: String, channel_open: bool) -> (r: Result<Vec<u8>, ControlSendError>)
        requires
            old(self).spec_last_offer() < u64::MAX,
        ensures
            final(self).spec_last_offer() == old(self).spec_last_offer() + 1,
            final(self).spec_channel() == old(self).spec_channel(),
            send_outcome(
                old(self).spec_channel(),
                channel_open,
                old(self).spec_queue(),
                DcMsgView::Offer { number: final(self).spec_last_offer(), sdp: offer@ },
                final(self).spec_queue(),
                r,
            ),
    {
        let number = self.next_offer_id();
        self.send_dcm_bin(DataChannelMsg::OfferMsg(SdpMsgData { number, sdp: offer }), channel_open)
    }

    /// Signals an answer to the peer's offer numbered `number` (sent, as the peer
    /// expects it, with the offer tag).
    pub fn send_answer(&mut self, answer: String, number: u64, channel_open: bool) -> (r: Result<Vec<u8>, ControlSendError>)
        ensures
            final(self).spec_last_offer() == old(self).spec_last_offer(),
            final(self).spec_channel() == old(self).spec_channel(),
            send_outcome(
                old(self).spec_channel(),
                channel_open,
                old(self).spec_queue(),
                DcMsgView::Offer { number, sdp: answer@ },
                final(self).spec_queue(),
                r,
            ),
    {
        self.send_dcm_bin(DataChannelMsg::OfferMsg(SdpMsgData { number, sdp: answer }), channel_open)
    }

    /// Signals that the track `mid` is (un)muted.
    pub fn send_mute(&mut self, mid: &str, mute: bool, channel_open: bool) -> (r: Result<Vec<u8>, ControlSendError>)
        ensures
            final(self).spec_last_offer() == old(self).spec_last_offer(),
            final(self).spec_channel() == old(self).spec_channel(),
            send_outcome(
                old(self).spec_channel(),
                channel_open,
                old(self).spec_queue(),
                DcMsgView::Mute { mid: mid@, mute },
                final(self).spec_queue(),
                r,
            ),
    {
        self.send_dcm_bin(DataChannelMsg::MuteMsg(MuteMsgData { mid: mid.to_owned(), mute }), channel_open)
    }

    /// Uses data channel `dc`, unless it is the one in use already, and flushes the
    /// queue: the payloads to write, in order. Offers that a newer offer has overtaken
    /// are dropped; the rest go out, or wait again if the channel is not open.
    pub fn set_dc(&mut self, dc: DataChannelHandle, channel_open: bool) -> (sent: Vec<Vec<u8>>)
        ensures
            final(self).spec_last_offer() == old(self).spec_last_offer(),
            old(self).spec_channel() == Some(dc) ==> *final(self) == *old(self) && sent@.len() == 0,
            old(self).spec_channel() != Some(dc) ==> {
                &&& final(self).spec_channel() == Some(dc)
                &&& channel_open ==> final(self).spec_queue() == Seq::<DcMsgView>::empty()
                    && payloads_view(sent@) == payloads_of(flushable(old(self).spec_queue(), old(self).spec_last_offer()))
                &&& !channel_open ==> final(self).spec_queue() == flushable(old(self).spec_queue(), old(self).spec_last_offer())
                    && sent@.len() == 0
            },
    {
        if let Some(current) = self.channel {
            if current == dc {
                return Vec::new();
            }
        }
        self.channel = Some(dc);
        self.send_queue_messages(channel_open)
    }

    /// Flushes the queue into payloads, dropping overtaken offers.
    fn send_queue_messages(&mut self, channel_open: bool) -> (sent: Vec<Vec<u8>>)
        requires
            old(self).spec_channel() is Some,
        ensures
            final(self).spec_last_offer() == old(self).spec_last_offer(),
            final(self).spec_channel() == old(self).spec_channel(),
            final(self).spec_id() == old(self).spec_id(),
            channel_open ==> final(self).spec_queue() == Seq::<DcMsgView>::empty()
                && payloads_view(sent@) == payloads_of(flushable(old(self).spec_queue(), old(self).spec_last_offer())),
            !channel_open ==> final(self).spec_queue() == flushable(old(self).spec_queue(), old(self).spec_last_offer())
                && sent@.len() == 0,
    {
        let mut messages: Vec<DataChannelMsg> = Vec::new();
        std::mem::swap(&mut messages, &mut self.queue);
        assert(self.spec_queue() =~= Seq::<DcMsgView>::empty());
        let ghost q = msgs_view(messages@);
        let current = self.last_offer_number;
        let mut sent: Vec<Vec<u8>> = Vec::new();
        let ghost mut i: int = 0;
        assert(payloads_view(sent@) =~= Seq::<Seq<u8>>::empty());
        assert(q.subrange(0, 0) =~= Seq::<DcMsgView>::empty());
        while messages.len() > 0
            invariant
                0 <= i <= q.len(),
                msgs_view(messages@) == q.subrange(i, q.len() as int),
                self.channel is Some,
                self.last_offer_number == current,
                self.channel == old(self).channel,
                self.id@ == old(self).id@,
                current == old(self).spec_last_offer(),
                q == old(self).spec_queue(),
                channel_open ==> self.spec_queue() == Seq::<DcMsgView>::empty()
                    && payloads_view(sent@) == payloads_of(flushable(q.subrange(0, i), current)),
                !channel_open ==> self.spec_queue() == flushable(q.subrange(0, i), current) && sent@.len() == 0,
            decreases messages@.len(),
        {
            assert(msgs_view(messages@).len() == messages@.len());
            assert(i < q.len());
            let ghost pre = q.subrange(0, i);
            assert(q.subrange(0, i + 1).drop_last() =~= pre);
            assert(q.subrange(0, i + 1).last() == q[i]);
            let ghost ms = messages@;
            assert(msgs_view(ms)[0] == q.subrange(i, q.len() as int)[0]);
            assert(msgs_view(ms)[0] == ms[0]@);
            let msg = messages.remove(0);
            assert(msg@ == q[i]);
            assert(msgs_view(messages@) =~= msgs_view(ms).subrange(1, msgs_view(ms).len() as int));
            assert(msgs_view(messages@) =~= q.subrange(i + 1, q.len() as int));
            let overtaken = match &msg {
                DataChannelMsg::OfferMsg(offer) => offer.number != current,
                _ => false,
            };
            assert(overtaken == is_overtaken_offer(q[i], current));
            proof {
                let nxt = q.subrange(0, i + 1);
                if !overtaken {
                    let f = flushable(pre, current).push(q[i]);
                    assert(flushable(nxt, current) == f);
                    assert(f.drop_last() =~= flushable(pre, current));
                    assert(f.last() == q[i]);
                } else {
                    assert(flushable(nxt, current) == flushable(pre, current));
                }
            }
            if !overtaken {
                let ghost before = sent@;
                let r = self.send_dcm_bin(msg, channel_open);
                match r {
                    Ok(bytes) => {
                        let ghost b = bytes@;
                        sent.push(bytes);
                        assert(payloads_view(sent@) =~= payloads_view(before).push(b));
                    },
                    Err(_) => {},
                }
            }
            proof {
                i = i + 1;
            }
        }
        assert(q.subrange(0, q.len() as int) =~= q);
        sent
    }

    /// Stops using data channel `dc` if it is the one in use.
    pub fn detach_channel(&mut self, dc: DataChannelHandle)
        ensures
            final(self).spec_queue() == old(self).spec_queue(),
            final(self).spec_last_offer() == old(self).spec_last_offer(),
            final(self).spec_channel() == if old(self).spec_channel() == Some(dc) {
                None
            } else {
                old(self).spec_channel()
            },
    {
        if let Some(current) = self.channel {
            if current == dc {
                self.channel = None;
            }
        }
    }
}

/// What sending `msg` did: queued it without a channel or with a closed one, else
/// produced its payload (or failed to write it) and left the queue alone.
pub open spec fn send_outcome(
    channel: Option<DataChannelHandle>,
    channel_open: bool,
    q: Seq<DcMsgView>,
    msg: DcMsgView,
    q2: Seq<DcMsgView>,
    r: Result<Vec<u8>, ControlSendError>,
) -> bool {
    if channel is None {
        r == Err::<Vec<u8>, ControlSendError>(ControlSendError::NoChannel) && q2 == q.push(msg)
    } else if !channel_open {
        r == Err::<Vec<u8>, ControlSendError>(ControlSendError::NotOpen) && q2 == q.push(msg)
    } else {
        q2 == q && match payload_of(msg) {
            Some(p) => r is Ok && r->Ok_0@ == p,
            None => r == Err::<Vec<u8>, ControlSendError>(ControlSendError::Serialize),
        }
    }
}

/// A flushed queue holds no offer but the latest: every offer that goes out when a
/// channel arrives carries the current offer number, and every other message keeps its
/// place.
pub proof fn lemma_flush_keeps_only_latest_offer(q: Seq<DcMsgView>, current: u64)
    ensures
        forall|i: int| 0 <= i < flushable(q, current).len() ==> !is_overtaken_offer(
            #[trigger] flushable(q, current)[i],
            current,
        ),
        flushable(q, current).len() <= q.len(),
    decreases q.len(),
{
    if q.len() > 0 {
        lemma_flush_keeps_only_latest_offer(q.drop_last(), current);
    }
}

} // verus!
