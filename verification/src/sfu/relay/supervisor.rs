//! The supervisor of a relay stream's pipeline: RTP forwarders feed the encoder process,
//! whose output the publisher sends on.
//!
//! The pipeline is shut down when asked to, or when one of its stages stops on its own.
//! It is taken down back to front: the publisher is cancelled first; once it has
//! stopped, the encoder process is asked to stop; once that has stopped, the forwarders
//! are cancelled and the stream is down. Each signal is a flag that, once raised, stays
//! raised.
use vstd::prelude::*;

verus! {

/// Where the shutdown sequence stands.
#[derive(Debug, Clone, Copy, PartialEq, Eq, Structural)]
pub enum SupervisorPhase {
    /// The pipeline runs; the supervisor watches its stages.
    Monitoring,
    /// The publisher was cancelled; waiting for it to stop.
    AwaitPublisherStopped,
    /// The encoder process was asked to stop; waiting for the answer.
    AwaitStopWorker,
    /// Waiting for the encoder process to stop.
    AwaitProcessStopped,
    /// The forwarders were cancelled; the stream is down.
    Down,
}

/// What happens to a relay stream's pipeline.
#[derive(Debug, Clone, Copy, PartialEq, Eq, Structural)]
pub enum SupervisorEvent {
    /// The stream is asked to stop.
    ShutdownRequested,
    /// The publisher failed and cancelled itself.
    PublisherCancelled,
    /// The publisher has stopped.
    PublisherStopped,
    /// The encoder process has stopped.
    ProcessStopped,
    /// A forwarder failed and cancelled itself.
    ForwarderCancelled,
    /// The answer to the request to stop the encoder process: whether it was delivered.
    StopWorkerResult(bool),
}

/// The signals of a relay stream's pipeline and where its shutdown stands.
#[derive(Debug, Clone, Copy, PartialEq, Eq, Structural)]
pub struct RelaySupervisor {
    /// The stream is to shut down.
    pub shutdown: bool,
    /// The publisher is cancelled.
    pub publisher: bool,
    /// The publisher has stopped.
    pub publisher_stopped: bool,
    /// The encoder process has stopped.
    pub process_stopped: bool,
    /// The forwarders are cancelled by the supervisor.
    pub rest: bool,
    /// A forwarder is cancelled (by the supervisor, or by itself on failure).
    pub forwarder: bool,
    /// The stream is down.
    pub is_down: bool,
    pub phase: SupervisorPhase,
}

/// The supervisor with the event's flag raised.
pub open spec fn raise(s: RelaySupervisor, ev: SupervisorEvent) -> RelaySupervisor {
    match ev {
        SupervisorEvent::ShutdownRequested => RelaySupervisor { shutdown: true, ..s },
        SupervisorEvent::PublisherCancelled => RelaySupervisor { publisher: true, ..s },
        SupervisorEvent::PublisherStopped => RelaySupervisor { publisher_stopped: true, ..s },
        SupervisorEvent::ProcessStopped => RelaySupervisor { process_stopped: true, ..s },
        SupervisorEvent::ForwarderCancelled => RelaySupervisor { forwarder: true, ..s },
        SupervisorEvent::StopWorkerResult(delivered) => if s.phase == SupervisorPhase::AwaitStopWorker {
            RelaySupervisor {
                phase: SupervisorPhase::AwaitProcessStopped,
                process_stopped: s.process_stopped || !delivered,
                ..s
            }
        } else {
            s
        },
    }
}

/// While monitoring: shut down once asked to, or once a stage stopped on its own; the
/// sequence then starts by cancelling the publisher.
pub open spec fn start_sequence(s: RelaySupervisor) -> RelaySupervisor {
    if s.phase == SupervisorPhase::Monitoring && (s.shutdown || s.publisher || s.process_stopped
        || s.forwarder || s.rest) {
        RelaySupervisor { shutdown: true, publisher: true, phase: SupervisorPhase::AwaitPublisherStopped, ..s }
    } else {
        s
    }
}

/// Once the publisher has stopped, the encoder process is asked to stop.
pub open spec fn after_publisher(s: RelaySupervisor) -> RelaySupervisor {
    if s.phase == SupervisorPhase::AwaitPublisherStopped && s.publisher_stopped {
        RelaySupervisor { phase: SupervisorPhase::AwaitStopWorker, ..s }
    } else {
        s
    }
}

/// Once the encoder process has stopped, the forwarders are cancelled and the stream is
/// down.
pub open spec fn after_process(s: RelaySupervisor) -> RelaySupervisor {
    if s.phase == SupervisorPhase::AwaitProcessStopped && s.process_stopped {
        RelaySupervisor { rest: true, forwarder: true, is_down: true, phase: SupervisorPhase::Down, ..s }
    } else {
        s
    }
}

/// The supervisor after an event, and whether it now asks the encoder process to stop.
pub open spec fn supervisor_step(s: RelaySupervisor, ev: SupervisorEvent) -> (RelaySupervisor, bool) {
    let r = raise(s, ev);
    let a = start_sequence(r);
    let b = after_publisher(a);
    (after_process(b), a.phase != SupervisorPhase::AwaitStopWorker && b.phase == SupervisorPhase::AwaitStopWorker)
}

/// What holds in every state the supervisor reaches: the sequence runs back to front.
pub open spec fn supervisor_inv(s: RelaySupervisor) -> bool {
    &&& s.phase != SupervisorPhase::Monitoring ==> s.shutdown && s.publisher
    &&& (s.phase == SupervisorPhase::AwaitStopWorker || s.phase == SupervisorPhase::AwaitProcessStopped
        || s.phase == SupervisorPhase::Down) ==> s.publisher_stopped
    &&& s.rest ==> s.phase == SupervisorPhase::Down
    &&& s.is_down <==> s.phase == SupervisorPhase::Down
    &&& s.phase == SupervisorPhase::Down ==> s.process_stopped && s.rest
    &&& s.phase == SupervisorPhase::Monitoring ==> !(s.shutdown || s.publisher || s.process_stopped
        || s.forwarder)
}

impl RelaySupervisor {
    /// A running pipeline: no signal raised.
    pub fn new() -> (s: RelaySupervisor)
        ensures
            supervisor_inv(s),
            s == (RelaySupervisor {
                shutdown: false,
                publisher: false,
                publisher_stopped: false,
                process_stopped: false,
                rest: false,
                forwarder: false,
                is_down: false,
                phase: SupervisorPhase::Monitoring,
            }),
    {
        RelaySupervisor {
            shutdown: false,
            publisher: false,
            publisher_stopped: false,
            process_stopped: false,
            rest: false,
            forwarder: false,
            is_down: false,
            phase: SupervisorPhase::Monitoring,
        }
    }

    /// Takes an event in and moves the shutdown sequence on as far as it can go. Returns
    /// whether the encoder process is now to be asked to stop; the answer comes back as
    /// [`SupervisorEvent::StopWorkerResult`].
    pub fn handle(&mut self, ev: SupervisorEvent) -> (stop_worker: bool)
        ensures
            (*final(self), stop_worker) == supervisor_step(*old(self), ev),
    {
        match ev {
            SupervisorEvent::ShutdownRequested => self.shutdown = true,
            SupervisorEvent::PublisherCancelled => self.publisher = true,
            SupervisorEvent::PublisherStopped => self.publisher_stopped = true,
            SupervisorEvent::ProcessStopped => self.process_stopped = true,
            SupervisorEvent::ForwarderCancelled => self.forwarder = true,
            SupervisorEvent::StopWorkerResult(delivered) => {
                if self.phase == SupervisorPhase::AwaitStopWorker {
                    self.phase = SupervisorPhase::AwaitProcessStopped;
                    if !delivered {
                        self.process_stopped = true;
                    }
                }
            },
        }
        if self.phase == SupervisorPhase::Monitoring && (self.shutdown || self.publisher
            || self.process_stopped || self.forwarder || self.rest) {
            self.shutdown = true;
            self.publisher = true;
            self.phase = SupervisorPhase::AwaitPublisherStopped;
        }
        let mut stop_worker = false;
        if self.phase == SupervisorPhase::AwaitPublisherStopped && self.publisher_stopped {
            self.phase = SupervisorPhase::AwaitStopWorker;
            stop_worker = true;
        }
        if self.phase == SupervisorPhase::AwaitProcessStopped && self.process_stopped {
            self.rest = true;
            self.forwarder = true;
            self.is_down = true;
            self.phase = SupervisorPhase::Down;
        }
        stop_worker
    }
}

/// The shutdown runs back to front in every reachable state: every step keeps the
/// invariant; the encoder process is asked to stop only once the publisher was
/// cancelled and has stopped; and the forwarders are cancelled only once the encoder
/// process has stopped, at which point the stream is down.
pub proof fn lemma_shutdown_runs_back_to_front(s: RelaySupervisor, ev: SupervisorEvent)
    requires
        supervisor_inv(s),
    ensures
        supervisor_inv(supervisor_step(s, ev).0),
        supervisor_step(s, ev).1 ==> {
            let n = supervisor_step(s, ev).0;
            n.shutdown && n.publisher && n.publisher_stopped && !n.rest
        },
        supervisor_step(s, ev).0.rest ==> {
            let n = supervisor_step(s, ev).0;
            n.process_stopped && n.publisher_stopped && n.is_down
        },
{
}

} // verus!
