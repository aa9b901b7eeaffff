use vstd::prelude::*;
use crate::envelope::{encode, envelope_text};
use crate::text::{trim_line, trimmed};

verus! {

// The vehicle-side gateway: one hardware serial channel, at most one
// network session wired to it at a time. The decisions live here as a state
// machine from event to actions; the loop around it performs the serial
// and network work and reports what happened. Teardown is cooperative: a
// failing pump raises the stop signal, the others observe it within the
// polling interval, and only after all of them have exited is the serial
// channel released and acceptance resumed.

/// How often an idle pump wakes to check the stop signal, in milliseconds.
/// Worst-case teardown latency equals this interval.
pub const GATEWAY_POLL_MS: u64 = 100;

/// How many uplink lines the hand-off toward the sender stage may buffer.
pub const HANDOFF_CAPACITY: usize = 100;

#[derive(Clone, Copy, PartialEq, Eq, Structural, Debug)]
pub enum GatewayPhase {
    /// No session: waiting to accept one.
    Listening,
    /// One session wired to the serial channel, pumps running.
    Active,
    /// Stop signal raised; waiting for the session tasks to exit.
    Draining,
}

/// The gateway's session-lifecycle state.
#[derive(Clone, Copy, PartialEq, Eq, Structural, Debug)]
pub struct Gateway {
    pub phase: GatewayPhase,
    /// Whether this gateway currently owns the serial channel.
    pub serial_owned: bool,
    /// The cooperative cancellation flag scoped to the current session.
    pub stop_signal: bool,
}

/// What the gateway loop observes.
#[derive(Debug)]
pub enum GatewayEvent {
    /// The listener accepted a network session.
    SessionRequested,
    /// The session handshake or the serial open failed.
    SessionOpenFailed,
    /// The uplink pump read one line from the serial channel.
    SerialLine(String),
    /// Serial end-of-stream, or a serial read or write failed.
    SerialClosed,
    /// The downlink pump received one text frame.
    NetText(String),
    /// The session sent a close frame or a network read failed.
    NetClosed,
    /// The sender stage could not write to the network.
    NetSendFailed,
    /// Every session task observed the stop signal and exited.
    PumpsJoined,
}

/// What the gateway loop is told to do.
#[derive(Debug)]
pub enum GatewayAction {
    /// Open the serial channel and spawn the session pumps.
    OpenSession,
    /// Put one enveloped uplink line on the network session.
    SendEnvelope(String),
    /// Write these bytes verbatim to the serial channel.
    WriteSerial(String),
    /// Raise the shared stop flag for the session tasks.
    SignalStop,
    /// Give up the serial channel and resume accepting.
    ReleaseSerial,
}

/// The auxiliary tag set the uplink attaches to every line until auxiliary
/// sensing provides real identifiers.
pub open spec fn aux_placeholder() -> Seq<u32> {
    seq![1u32, 2u32, 3u32, 4u32, 5u32]
}

/// The exec value of `aux_placeholder`.
pub fn aux_placeholder_tags() -> (r: Vec<u32>)
    ensures
        r@ == aux_placeholder(),
{
    let mut v: Vec<u32> = Vec::new();
    v.push(1);
    v.push(2);
    v.push(3);
    v.push(4);
    v.push(5);
    proof {
        assert(v@ =~= aux_placeholder());
    }
    v
}

/// Phase, ownership and stop flag always agree: the serial channel is held
/// exactly while a session is wired or draining, and the stop signal is up
/// exactly while draining.
pub open spec fn gateway_inv(g: Gateway) -> bool {
    &&& g.phase is Listening ==> !g.serial_owned && !g.stop_signal
    &&& g.phase is Active ==> g.serial_owned && !g.stop_signal
    &&& g.phase is Draining ==> g.serial_owned && g.stop_signal
}

/// A session end event: either pump or the sender stage is gone.
pub open spec fn is_session_fatal(ev: GatewayEvent) -> bool {
    ev is SerialClosed || ev is NetClosed || ev is NetSendFailed
}

impl Gateway {
    /// A gateway that has not accepted anything yet.
    pub fn new() -> (r: Gateway)
        ensures
            r.phase is Listening,
            !r.serial_owned,
            !r.stop_signal,
            gateway_inv(r),
    {
        Gateway { phase: GatewayPhase::Listening, serial_owned: false, stop_signal: false }
    }

    /// One lifecycle step. At most one session is ever wired: a session is
    /// opened only from Listening, and a request that arrives while one is
    /// active or draining changes nothing — the listener simply asks again
    /// once teardown has finished.
    pub fn step(&mut self, ev: GatewayEvent) -> (acts: Vec<GatewayAction>)
        ensures
            gateway_inv(*old(self)) ==> gateway_inv(*final(self)),
            forall|i: int|
                0 <= i < acts@.len() && acts@[i] is OpenSession ==> old(self).phase is Listening,
            ev is SessionRequested && old(self).phase is Listening ==> *final(self) == (Gateway {
                phase: GatewayPhase::Active,
                serial_owned: true,
                stop_signal: false,
            }) && acts@.len() == 1 && acts@[0] is OpenSession,
            ev is SessionRequested && !(old(self).phase is Listening) ==> *final(self) == *old(
                self,
            ) && acts@.len() == 0,
            ev is SessionOpenFailed ==> acts@.len() == 0 && (if old(self).phase is Active {
                *final(self) == (Gateway {
                    phase: GatewayPhase::Listening,
                    serial_owned: false,
                    stop_signal: false,
                })
            } else {
                *final(self) == *old(self)
            }),
            ev matches GatewayEvent::SerialLine(l) ==> *final(self) == *old(self) && (if old(
                self,
            ).phase is Active {
                acts@.len() == 1 && (acts@[0] matches GatewayAction::SendEnvelope(w) && w@
                    == envelope_text(aux_placeholder(), trimmed(l@)))
            } else {
                acts@.len() == 0
            }),
            ev matches GatewayEvent::NetText(x) ==> *final(self) == *old(self) && (if old(
                self,
            ).phase is Active {
                acts@.len() == 1 && (acts@[0] matches GatewayAction::WriteSerial(w) && w@ == x@)
            } else {
                acts@.len() == 0
            }),
            is_session_fatal(ev) ==> (if old(self).phase is Active {
                *final(self) == (Gateway {
                    phase: GatewayPhase::Draining,
                    serial_owned: old(self).serial_owned,
                    stop_signal: true,
                }) && acts@.len() == 1 && acts@[0] is SignalStop
            } else {
                *final(self) == *old(self) && acts@.len() == 0
            }),
            ev is PumpsJoined ==> (if old(self).phase is Draining {
                *final(self) == (Gateway {
                    phase: GatewayPhase::Listening,
                    serial_owned: false,
                    stop_signal: false,
                }) && acts@.len() == 1 && acts@[0] is ReleaseSerial
            } else {
                *final(self) == *old(self) && acts@.len() == 0
            }),
    {
        let mut acts: Vec<GatewayAction> = Vec::new();
        match ev {
            GatewayEvent::SessionRequested => {
                if matches!(self.phase, GatewayPhase::Listening) {
                    self.phase = GatewayPhase::Active;
                    self.serial_owned = true;
                    self.stop_signal = false;
                    acts.push(GatewayAction::OpenSession);
                }
            },
            GatewayEvent::SessionOpenFailed => {
                if matches!(self.phase, GatewayPhase::Active) {
                    self.phase = GatewayPhase::Listening;
                    self.serial_owned = false;
                    self.stop_signal = false;
                }
            },
            GatewayEvent::SerialLine(line) => {
                if matches!(self.phase, GatewayPhase::Active) {
                    let tags = aux_placeholder_tags();
                    let trimmed_line = trim_line(line.as_str());
                    let wire = encode(&tags, trimmed_line.as_str());
                    acts.push(GatewayAction::SendEnvelope(wire));
                }
            },
            GatewayEvent::NetText(t) => {
                if matches!(self.phase, GatewayPhase::Active) {
                    acts.push(GatewayAction::WriteSerial(t));
                }
            },
            GatewayEvent::SerialClosed | GatewayEvent::NetClosed | GatewayEvent::NetSendFailed => {
                if matches!(self.phase, GatewayPhase::Active) {
                    self.phase = GatewayPhase::Draining;
                    self.stop_signal = true;
                    acts.push(GatewayAction::SignalStop);
                }
            },
            GatewayEvent::PumpsJoined => {
                if matches!(self.phase, GatewayPhase::Draining) {
                    self.phase = GatewayPhase::Listening;
                    self.serial_owned = false;
                    self.stop_signal = false;
                    acts.push(GatewayAction::ReleaseSerial);
                }
            },
        }
        acts
    }
}

} // verus!
