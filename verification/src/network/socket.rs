//! Decisions of the user-interface websocket actor.
//!
//! The transport — accepting the connection, timers, the actual sends —
//! belongs to the application shell.  What the actor decides is here: when
//! the heartbeat timer fires, whether to ping or drop the client, and what
//! to do with each incoming websocket message.

use vstd::prelude::*;

verus! {

/// How often the heartbeat timer fires, in milliseconds.
pub const HEARTBEAT_INTERVAL_MS: u64 = 10000;

/// How long a silent client is tolerated, in milliseconds.
pub const CLIENT_TIMEOUT_MS: u64 = 20000;

/// What the actor does when the heartbeat timer fires.
#[derive(Clone, Copy, Debug, PartialEq, Eq, Structural)]
pub enum HeartbeatAction {
    /// The client answered recently: ping it again.
    Ping,
    /// The client missed its heartbeat window: disconnect it.
    Disconnect,
}

/// A websocket message from the client, reduced to what the decision
/// depends on.
pub enum UiMessage {
    /// A ping with its payload, to be answered.
    Ping(Vec<u8>),
    /// A pong answering our ping.
    Pong,
    /// A text frame, echoed back.
    Text(Vec<u8>),
    /// A binary frame, echoed back.
    Binary(Vec<u8>),
    /// An orderly close.
    Close,
    /// Anything else, protocol errors included.
    Other,
}

/// What the actor answers.
pub enum UiAction {
    /// Answer a ping with this payload.
    Pong(Vec<u8>),
    /// Echo this text frame.
    Text(Vec<u8>),
    /// Echo this binary frame.
    Binary(Vec<u8>),
    /// Acknowledge the close and stop the actor.
    CloseAndStop,
    /// Stop the actor without a close handshake.
    Stop,
}

/// Milliseconds elapsed from `earlier` to `now`, zero if time seems to run
/// backwards.
pub open spec fn spec_elapsed(earlier: u64, now: u64) -> u64 {
    if now >= earlier {
        (now - earlier) as u64
    } else {
        0
    }
}

/// State of one user-interface websocket connection.
pub struct UISocket {
    pub id: u64,
    /// When the client last answered, in milliseconds.
    pub last_heartbeat: u64,
}

impl UISocket {
    /// A connection that just answered.
    pub fn new(id: u64, now: u64) -> (r: UISocket)
        ensures
            r.id == id,
            r.last_heartbeat == now,
    {
        UISocket { id, last_heartbeat: now }
    }

    /// The heartbeat-timer decision: drop a client that has been silent
    /// beyond the timeout, ping it otherwise.
    pub fn heartbeat(&self, now: u64) -> (r: HeartbeatAction)
        ensures
            r == (if spec_elapsed(self.last_heartbeat, now) > CLIENT_TIMEOUT_MS {
                HeartbeatAction::Disconnect
            } else {
                HeartbeatAction::Ping
            }),
    {
        let elapsed: u64 = if now >= self.last_heartbeat {
            now - self.last_heartbeat
        } else {
            0
        };
        if elapsed > CLIENT_TIMEOUT_MS {
            HeartbeatAction::Disconnect
        } else {
            HeartbeatAction::Ping
        }
    }

    /// The per-message decision: pings and pongs refresh the heartbeat (a
    /// ping is answered), text and binary frames are echoed, a close is
    /// acknowledged and stops the actor, anything else stops it outright.
    pub fn handle(&mut self, msg: UiMessage, now: u64) -> (r: UiAction)
        ensures
            ({
                match msg {
                    UiMessage::Ping(p) => final(self).last_heartbeat == now && r == UiAction::Pong(
                        p,
                    ),
                    UiMessage::Pong => final(self).last_heartbeat == now && (r matches
                        UiAction::Pong(e) && e@ == Seq::<u8>::empty()),
                    UiMessage::Text(t) => final(self).last_heartbeat == old(
                        self,
                    ).last_heartbeat && r == UiAction::Text(t),
                    UiMessage::Binary(b) => final(self).last_heartbeat == old(
                        self,
                    ).last_heartbeat && r == UiAction::Binary(b),
                    UiMessage::Close => final(self).last_heartbeat == old(self).last_heartbeat
                        && r == UiAction::CloseAndStop,
                    UiMessage::Other => final(self).last_heartbeat == old(self).last_heartbeat
                        && r == UiAction::Stop,
                }
            }),
            final(self).id == old(self).id,
    {
        match msg {
            UiMessage::Ping(p) => {
                self.last_heartbeat = now;
                UiAction::Pong(p)
            },
            UiMessage::Pong => {
                self.last_heartbeat = now;
                UiAction::Pong(Vec::new())
            },
            UiMessage::Text(t) => UiAction::Text(t),
            UiMessage::Binary(b) => UiAction::Binary(b),
            UiMessage::Close => UiAction::CloseAndStop,
            UiMessage::Other => UiAction::Stop,
        }
    }
}

} // verus!
