//! The per-connection lifecycle state machine: liveness bookkeeping,
//! inbound-frame handling and teardown. The machine decides; the transport
//! layer around it performs the sends, timers and registry calls the
//! returned actions ask for.

use vstd::prelude::*;
use vstd::string::*;

use crate::socket_io_packet_codec::default_packet_codec::{spec_decode, DefaultPacketCodec};
use crate::socket_io_packet_codec::packet_type::SocketIoPacketType;

verus! {

/// How often, in time units, a liveness probe is sent to the peer.
pub const HEARTBEAT_INTERVAL: u64 = 5;

/// How long, in time units, the peer may stay silent before the
/// connection is torn down; strictly greater than the probe interval so
/// at least one probe round-trip is tolerated.
pub const CLIENT_TIMEOUT: u64 = 10;

/// The states of a connection, in order of its life; `Closed` is
/// terminal.
#[derive(Debug, PartialEq, Eq, Structural, Copy, Clone)]
pub enum ConnectionState {
    Connecting,
    Active,
    Closing,
    Closed,
}

/// One frame arriving from the transport.
pub enum InboundFrame {
    /// A liveness probe from the peer, carrying bytes to echo back.
    Ping(Vec<u8>),
    /// The peer's answer to a probe of ours.
    Pong,
    /// A text frame holding one Socket.IO packet.
    Text(String),
    /// A binary frame; unsupported, the connection is torn down.
    Binary,
    /// The peer asked to close.
    Close,
}

/// What the transport layer must do after handing a frame in.
pub enum FrameAction {
    /// Nothing.
    Ignore,
    /// Answer the probe with these bytes.
    ReplyPong(Vec<u8>),
    /// Broadcast this payload text to every connection of the owning
    /// namespace.
    BroadcastAll(String),
    /// Tear the connection down: deregister it and stop its timer.
    Teardown,
}

/// What the transport layer must do after a heartbeat tick.
#[derive(Debug, PartialEq, Eq, Structural, Copy, Clone)]
pub enum HeartbeatAction {
    /// Send a liveness probe to the peer.
    SendPing,
    /// Tear the connection down; no further probes.
    Stop,
}

/// Whether a decoded packet asks for a broadcast: an Event packet
/// carrying a payload.
pub open spec fn broadcasts(p: crate::socket_io_packet_codec::socket_io_packet::PacketV) -> bool {
    p.packet_type is Event && p.data is Some
}

/// The lifecycle of one connection.
pub struct ConnectionLifecycle {
    state: ConnectionState,
    id: String,
    namespace: String,
    last_signal: u64,
}

impl ConnectionLifecycle {
    pub closed spec fn state_of(self) -> ConnectionState {
        self.state
    }

    pub closed spec fn id_view(self) -> Seq<char> {
        self.id@
    }

    pub closed spec fn namespace_view(self) -> Seq<char> {
        self.namespace@
    }

    /// When the last liveness signal from the peer was seen.
    pub closed spec fn last_signal_of(self) -> u64 {
        self.last_signal
    }

    pub fn new(id: &str, namespace: &str) -> (r: Self)
        ensures
            r.state_of() is Connecting,
            r.id_view() == id@,
            r.namespace_view() == namespace@,
    {
        ConnectionLifecycle {
            state: ConnectionState::Connecting,
            id: id.to_owned(),
            namespace: namespace.to_owned(),
            last_signal: 0,
        }
    }

    pub fn state(&self) -> (r: ConnectionState)
        ensures
            r == self.state_of(),
    {
        self.state
    }

    pub fn id(&self) -> (r: &str)
        ensures
            r@ == self.id_view(),
    {
        self.id.as_str()
    }

    pub fn namespace(&self) -> (r: &str)
        ensures
            r@ == self.namespace_view(),
    {
        self.namespace.as_str()
    }

    /// The transport opened: the connection becomes `Active` and the
    /// peer counts as alive now. The caller registers the connection into
    /// its namespace and starts the heartbeat timer.
    pub fn on_open(&mut self, now: u64)
        requires
            old(self).state_of() is Connecting,
        ensures
            final(self).state_of() is Active,
            final(self).last_signal_of() == now,
            final(self).id_view() == old(self).id_view(),
            final(self).namespace_view() == old(self).namespace_view(),
    {
        self.state = ConnectionState::Active;
        self.last_signal = now;
    }

    /// A heartbeat tick at time `now`: when the peer has stayed silent
    /// longer than the timeout, the connection moves to `Closing` and no
    /// probe is sent any more; otherwise a probe goes out.
    pub fn heartbeat_tick(&mut self, now: u64) -> (r: HeartbeatAction)
        ensures
            final(self).id_view() == old(self).id_view(),
            final(self).namespace_view() == old(self).namespace_view(),
            final(self).last_signal_of() == old(self).last_signal_of(),
            ({
                let alive = old(self).state_of() is Active && (now < old(self).last_signal_of()
                    || now - old(self).last_signal_of() <= CLIENT_TIMEOUT);
                if alive {
                    final(self).state_of() == old(self).state_of() && r
                        == HeartbeatAction::SendPing
                } else {
                    r == HeartbeatAction::Stop && (old(self).state_of() is Active
                        ==> final(self).state_of() is Closing) && (!(old(self).state_of()
                        is Active) ==> final(self).state_of() == old(self).state_of())
                }
            }),
    {
        if !(self.state == ConnectionState::Active) {
            return HeartbeatAction::Stop;
        }
        let elapsed: u64 = if now >= self.last_signal {
            now - self.last_signal
        } else {
            0
        };
        if elapsed > CLIENT_TIMEOUT {
            self.state = ConnectionState::Closing;
            return HeartbeatAction::Stop;
        }
        HeartbeatAction::SendPing
    }

    /// One inbound frame while `Active`: probes refresh the peer's
    /// liveness and are answered; a text frame is decoded, a decoded
    /// Event packet with a payload is broadcast, and an undecodable frame
    /// tears the connection down; binary frames and close frames tear it
    /// down too. Frames in any other state are ignored.
    pub fn handle(&mut self, frame: InboundFrame, now: u64) -> (r: FrameAction)
        ensures
            final(self).id_view() == old(self).id_view(),
            final(self).namespace_view() == old(self).namespace_view(),
            !(old(self).state_of() is Active) ==> (*final(self) == *old(self) && r is Ignore),
            old(self).state_of() is Active ==> match frame {
                InboundFrame::Ping(bytes) => final(self).state_of() is Active
                    && final(self).last_signal_of() == now
                    && (r matches FrameAction::ReplyPong(b) && b@ == bytes@),
                InboundFrame::Pong => final(self).state_of() is Active
                    && final(self).last_signal_of() == now && r is Ignore,
                InboundFrame::Text(t) => ({
                    let d = spec_decode(t@);
                    &&& final(self).last_signal_of() == old(self).last_signal_of()
                    &&& match d {
                        Ok(p) => final(self).state_of() is Active && (if broadcasts(p) {
                            r matches FrameAction::BroadcastAll(c) && Some(c@) == p.data
                        } else {
                            r is Ignore
                        }),
                        Err(_) => final(self).state_of() is Closing && r is Teardown,
                    }
                }),
                InboundFrame::Binary => final(self).state_of() is Closing && r is Teardown
                    && final(self).last_signal_of() == old(self).last_signal_of(),
                InboundFrame::Close => final(self).state_of() is Closing && r is Teardown
                    && final(self).last_signal_of() == old(self).last_signal_of(),
            },
    {
        if !(self.state == ConnectionState::Active) {
            return FrameAction::Ignore;
        }
        match frame {
            InboundFrame::Ping(bytes) => {
                self.last_signal = now;
                FrameAction::ReplyPong(bytes)
            },
            InboundFrame::Pong => {
                self.last_signal = now;
                FrameAction::Ignore
            },
            InboundFrame::Text(t) => {
                match DefaultPacketCodec.decode(t.as_str()) {
                    Ok(p) => {
                        if p.packet_type == SocketIoPacketType::Event {
                            match p.data {
                                Some(payload) => FrameAction::BroadcastAll(
                                    payload.as_str().to_owned(),
                                ),
                                None => FrameAction::Ignore,
                            }
                        } else {
                            FrameAction::Ignore
                        }
                    },
                    Err(_) => {
                        self.state = ConnectionState::Closing;
                        FrameAction::Teardown
                    },
                }
            },
            InboundFrame::Binary => {
                self.state = ConnectionState::Closing;
                FrameAction::Teardown
            },
            InboundFrame::Close => {
                self.state = ConnectionState::Closing;
                FrameAction::Teardown
            },
        }
    }

    /// Teardown has run: the connection is `Closed`, terminally. The
    /// caller deregisters the connection from its namespace exactly once
    /// before or at this point; the registry removal itself is idempotent.
    pub fn on_teardown_complete(&mut self)
        ensures
            final(self).state_of() is Closed,
            final(self).id_view() == old(self).id_view(),
            final(self).namespace_view() == old(self).namespace_view(),
    {
        self.state = ConnectionState::Closed;
    }
}

} // verus!
