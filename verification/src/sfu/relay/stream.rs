//! The relay of a lobby: which endpoints feed it, and starting and stopping its media
//! stream.
use vstd::prelude::*;
use crate::sfu::endpoint::{EndpointId, EndpointKey};
use crate::sfu::relay::error::RelayError;
use crate::sfu::relay::port_allocator::PortAllocator;

verus! {

/// Stops the relay for good.
#[derive(Debug)]
pub struct RelayShutdown;

/// An endpoint starts sending to the relay.
#[derive(Debug)]
pub struct AttachRelaySource {
    pub endpoint_id: EndpointId,
}

/// An endpoint stops sending to the relay.
#[derive(Debug)]
pub struct DetachRelaySource {
    pub endpoint_id: EndpointId,
}

/// Stops the relay's media stream.
#[derive(Debug)]
pub struct StopRelayMediaStream;

/// A part of the relay pipeline failed; the relay stops its stream.
#[derive(Debug)]
pub struct RelayFailed {
    pub source: &'static str,
    pub error: String,
}

/// Why a relay stream does not start.
#[derive(Debug, Clone, Copy, PartialEq, Eq, Structural)]
pub enum RelayStartError {
    AlreadyStarted,
    NoSources,
}

/// The relay's sources (a set of endpoints) and whether it streams.
#[derive(Debug)]
pub struct RelaySources {
    sources: Vec<EndpointId>,
    streaming: bool,
}

/// The keys of a list of endpoints.
pub open spec fn endpoint_keys(v: Seq<EndpointId>) -> Seq<EndpointKey> {
    v.map_values(|e: EndpointId| e.key())
}

impl RelaySources {
    /// The sources.
    pub closed spec fn spec_sources(&self) -> Set<EndpointKey> {
        endpoint_keys(self.sources@).to_set()
    }

    pub closed spec fn spec_streaming(&self) -> bool {
        self.streaming
    }

    /// A relay with no source, not streaming.
    pub fn new() -> (r: Self)
        ensures
            r.spec_sources() == Set::<EndpointKey>::empty(),
            !r.spec_streaming(),
    {
        let r = RelaySources { sources: Vec::new(), streaming: false };
        assert(r.spec_sources() =~= Set::<EndpointKey>::empty());
        r
    }

    fn position(&self, e: &EndpointId) -> (r: Option<usize>)
        ensures
            match r {
                Some(i) => i < self.sources@.len() && endpoint_keys(self.sources@)[i as int] == e.key(),
                None => !self.spec_sources().contains(e.key()),
            },
    {
        let mut i: usize = 0;
        while i < self.sources.len()
            invariant
                i <= self.sources@.len(),
                forall|j: int| 0 <= j < i ==> endpoint_keys(self.sources@)[j] != e.key(),
            decreases self.sources@.len() - i,
        {
            if self.sources[i].same_as(e) {
                return Some(i);
            }
            i = i + 1;
        }
        proof {
            if self.spec_sources().contains(e.key()) {
                let k = choose|k: int| 0 <= k < endpoint_keys(self.sources@).len() && endpoint_keys(self.sources@)[k] == e.key();
                assert(endpoint_keys(self.sources@)[k] != e.key());
            }
        }
        None
    }

    /// An endpoint starts sending to the relay.
    pub fn attach(&mut self, message: AttachRelaySource)
        ensures
            final(self).spec_sources() == old(self).spec_sources().insert(message.endpoint_id.key()),
            final(self).spec_streaming() == old(self).spec_streaming(),
    {
        let e = message.endpoint_id;
        match self.position(&e) {
            Some(i) => {
                assert(self.spec_sources().contains(e.key()));
                assert(self.spec_sources() =~= old(self).spec_sources().insert(e.key()));
            },
            None => {
                let ghost k = e.key();
                self.sources.push(e);
                assert(endpoint_keys(self.sources@) =~= endpoint_keys(old(self).sources@).push(k));
                proof {
                    endpoint_keys(old(self).sources@).lemma_push_to_set_commute(k);
                }
                assert(self.spec_sources() =~= old(self).spec_sources().insert(k));
            },
        }
    }

    /// An endpoint stops sending to the relay.
    pub fn detach(&mut self, message: DetachRelaySource)
        ensures
            final(self).spec_sources() == old(self).spec_sources().remove(message.endpoint_id.key()),
            final(self).spec_streaming() == old(self).spec_streaming(),
    {
        let e = message.endpoint_id;
        let ghost k = e.key();
        let mut kept: Vec<EndpointId> = Vec::new();
        let mut i: usize = 0;
        while i < self.sources.len()
            invariant
                i <= self.sources@.len(),
                self.sources@ == old(self).sources@,
                self.streaming == old(self).streaming,
                k == e.key(),
                endpoint_keys(kept@).to_set() == endpoint_keys(self.sources@.subrange(0, i as int)).to_set().remove(k),
            decreases self.sources@.len() - i,
        {
            let ghost before = endpoint_keys(kept@);
            let ghost pre = endpoint_keys(self.sources@.subrange(0, i as int));
            assert(endpoint_keys(self.sources@.subrange(0, i + 1)) =~= pre.push(self.sources@[i as int].key()));
            proof {
                pre.lemma_push_to_set_commute(self.sources@[i as int].key());
                before.lemma_push_to_set_commute(self.sources@[i as int].key());
            }
            if !self.sources[i].same_as(&e) {
                let d = self.sources[i].duplicate();
                kept.push(d);
                assert(endpoint_keys(kept@) =~= before.push(self.sources@[i as int].key()));
                assert(endpoint_keys(kept@).to_set() =~= pre.push(self.sources@[i as int].key()).to_set().remove(k));
            } else {
                assert(endpoint_keys(kept@).to_set() =~= pre.push(self.sources@[i as int].key()).to_set().remove(k));
            }
            i = i + 1;
        }
        assert(self.sources@.subrange(0, self.sources@.len() as int) =~= self.sources@);
        self.sources = kept;
    }

    /// Starts the media stream: only once, and only with a source.
    pub fn start(&mut self) -> (r: Result<(), RelayStartError>)
        ensures
            final(self).spec_sources() == old(self).spec_sources(),
            old(self).spec_streaming() ==> r == Err::<(), RelayStartError>(RelayStartError::AlreadyStarted)
                && final(self).spec_streaming(),
            !old(self).spec_streaming() && old(self).spec_sources().len() == 0 ==> r == Err::<(), RelayStartError>(
                RelayStartError::NoSources,
            ) && !final(self).spec_streaming(),
            !old(self).spec_streaming() && old(self).spec_sources().len() > 0 ==> r is Ok && final(self).spec_streaming(),
    {
        if self.streaming {
            return Err(RelayStartError::AlreadyStarted);
        }
        proof {
            vstd::seq_lib::seq_to_set_is_finite(endpoint_keys(self.sources@));
            vstd::set_lib::lemma_set_empty_equivalency_len(self.spec_sources());
            if self.sources@.len() > 0 {
                assert(self.spec_sources().contains(endpoint_keys(self.sources@)[0]));
            } else {
                assert(self.spec_sources() =~= Set::<EndpointKey>::empty());
            }
        }
        if self.sources.len() == 0 {
            return Err(RelayStartError::NoSources);
        }
        self.streaming = true;
        Ok(())
    }

    /// Stops the media stream.
    pub fn stop(&mut self)
        ensures
            final(self).spec_sources() == old(self).spec_sources(),
            !final(self).spec_streaming(),
    {
        self.streaming = false;
    }

    /// Shuts the relay down: no stream, no source.
    pub fn shutdown(&mut self, message: RelayShutdown)
        ensures
            final(self).spec_sources() == Set::<EndpointKey>::empty(),
            !final(self).spec_streaming(),
    {
        self.streaming = false;
        self.sources = Vec::new();
        assert(self.spec_sources() =~= Set::<EndpointKey>::empty());
    }
}

/// The ports of a relay stream: where the encoder listens for audio and for video.
#[derive(Debug, Clone, Copy, PartialEq, Eq, Structural)]
pub struct RelayPorts {
    pub audio_port: u16,
    pub video_port: u16,
}

/// Whether a relay stream runs, and the ports of its relays.
pub struct RelayStream {
    pub running: bool,
}

/// The first steps of starting a relay stream, before the encoder and publisher are
/// launched: a running stream refuses, else the stream counts as running from here on,
/// an audio and a video port are allocated, and both tracks must be there. On a
/// failure after allocation the ports are given back.
pub fn prepare_relay_start<F: Fn(u16) -> bool>(
    stream: &mut RelayStream,
    ports: &mut PortAllocator,
    has_audio: bool,
    has_video: bool,
    port_is_bindable: F,
) -> (r: Result<RelayPorts, RelayError>)
    requires
        !old(stream).running ==> old(ports).spec_min() <= old(ports).spec_max(),
        forall|p: u16| call_requires(port_is_bindable, (p,)),
    ensures
        old(stream).running ==> (r matches Err(RelayError::MediaStreamAlreadyStarted)) && final(ports).used()
            == old(ports).used(),
        final(stream).running,
        final(ports).spec_min() == old(ports).spec_min(),
        final(ports).spec_max() == old(ports).spec_max(),
        !old(stream).running ==> match r {
            Ok(p) => {
                &&& has_audio && has_video
                &&& p.audio_port != p.video_port
                &&& !old(ports).used().contains(p.audio_port) && !old(ports).used().contains(p.video_port)
                &&& final(ports).used() == old(ports).used().insert(p.audio_port).insert(p.video_port)
            },
            Err(RelayError::PortAllocationError) => final(ports).used() == old(ports).used(),
            Err(RelayError::NoInputTrack(t)) => {
                &&& final(ports).used() == old(ports).used()
                &&& !has_audio ==> t@ == "video"@
                &&& has_audio && !has_video ==> t@ == "audio"@
            },
            _ => false,
        },
{
    if stream.running {
        return Err(RelayError::MediaStreamAlreadyStarted);
    }
    stream.running = true;
    let audio = ports.allocate_port(&port_is_bindable);
    let video = match audio {
        Some(_) => ports.allocate_port(&port_is_bindable),
        None => None,
    };
    relay_start_outcome(ports, audio, video, has_audio, has_video)
}

/// The outcome of starting a relay stream once its two ports were asked for: the audio
/// port (`None`: none could be had) and, if there was one, the video port. Without both
/// ports the start fails with a port allocation error; without an audio track it fails
/// naming the video track, and without a video track naming the audio track: the error
/// names the other track than the one that is missing. On every failure the ports taken
/// are given back.
pub fn relay_start_outcome(
    ports: &mut PortAllocator,
    audio: Option<u16>,
    video: Option<u16>,
    has_audio: bool,
    has_video: bool,
) -> (r: Result<RelayPorts, RelayError>)
    requires
        audio is None ==> video is None,
        audio matches Some(a) ==> old(ports).used().contains(a),
        video matches Some(v) ==> old(ports).used().contains(v) && audio != Some(v),
    ensures
        final(ports).spec_min() == old(ports).spec_min(),
        final(ports).spec_max() == old(ports).spec_max(),
        match (audio, video) {
            (Some(a), Some(v)) => if !has_audio {
                &&& r matches Err(RelayError::NoInputTrack(t)) && t@ == "video"@
                &&& final(ports).used() == old(ports).used().remove(v).remove(a)
            } else if !has_video {
                &&& r matches Err(RelayError::NoInputTrack(t)) && t@ == "audio"@
                &&& final(ports).used() == old(ports).used().remove(v).remove(a)
            } else {
                &&& r matches Ok(p) && p.audio_port == a && p.video_port == v
                &&& final(ports).used() == old(ports).used()
            },
            (Some(a), None) => {
                &&& r matches Err(RelayError::PortAllocationError)
                &&& final(ports).used() == old(ports).used().remove(a)
            },
            _ => {
                &&& r matches Err(RelayError::PortAllocationError)
                &&& final(ports).used() == old(ports).used()
            },
        },
{
    let audio_port = match audio {
        Some(p) => p,
        None => return Err(RelayError::PortAllocationError),
    };
    let video_port = match video {
        Some(p) => p,
        None => {
            ports.release_port(audio_port);
            return Err(RelayError::PortAllocationError);
        },
    };
    if !has_audio {
        ports.release_port(video_port);
        ports.release_port(audio_port);
        return Err(RelayError::NoInputTrack(String::from_str("video")));
    }
    if !has_video {
        ports.release_port(video_port);
        ports.release_port(audio_port);
        return Err(RelayError::NoInputTrack(String::from_str("audio")));
    }
    Ok(RelayPorts { audio_port, video_port })
}

/// Stops a running relay stream; a stream that does not run is an error. A stream whose
/// start was refused after it was marked running (no ports, or a missing track) counts
/// as running, so stopping it answers `Ok` and clears the mark.
pub fn stop_relay_stream(stream: &mut RelayStream) -> (r: Result<(), RelayError>)
    ensures
        !final(stream).running,
        old(stream).running ==> r is Ok,
        !old(stream).running ==> (r matches Err(RelayError::MediaStreamNotStarted)),
{
    if !stream.running {
        return Err(RelayError::MediaStreamNotStarted);
    }
    stream.running = false;
    Ok(())
}

} // verus!
