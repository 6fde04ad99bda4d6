use uuid::Uuid;
use vstd::prelude::*;

verus! {

/// How often a connection pings its client, in milliseconds: every second.
pub const HEARTBEAT_INTERVAL_MS: u64 = 1000;

/// How long a client may stay silent before its connection is dropped, in
/// milliseconds.
pub const CLIENT_TIMEOUT_MS: u64 = 10000;

/// What a client sent over its websocket.
#[derive(Debug)]
pub enum ClientFrame {
    Ping(Vec<u8>),
    Pong,
    Text(String),
    Binary,
    Close,
    Continuation,
    Nop,
    /// The frame could not be read.
    Failed,
}

/// What the connection does about a frame.
#[derive(Debug)]
pub enum Reply {
    /// Answer with a pong that carries the bytes of the ping.
    Pong(Vec<u8>),
    /// Pass the text on to every client of the world, the sender included.
    Forward { world_id: Uuid, text: String },
    /// Close the websocket, then stop the connection.
    CloseAndStop,
    /// Stop the connection.
    Stop,
    /// Nothing.
    Nothing,
}

/// What the connection does at a heartbeat.
#[derive(Debug)]
pub enum Beat {
    /// Ping the client.
    Ping,
    /// The client was silent too long: tell the manager that the client with
    /// the id left the world, and stop.
    Disconnect { id: usize, world_id: Uuid },
}

/// The connection of one client to the clients of its world.
#[derive(Debug)]
pub struct WsConnection {
    id: Option<usize>,
    hb: u64,
    world_id: Uuid,
}

/// The time that passed from `since` to `now`; none where `now` comes first.
pub open spec fn elapsed(now: u64, since: u64) -> int {
    if now >= since {
        now - since
    } else {
        0
    }
}

impl WsConnection {
    /// The id the manager gave the connection, if it gave one yet.
    pub closed spec fn spec_id(&self) -> Option<usize> {
        self.id
    }

    /// When the client was last heard of.
    pub closed spec fn spec_hb(&self) -> u64 {
        self.hb
    }

    /// The world of the client.
    pub closed spec fn spec_world_id(&self) -> Uuid {
        self.world_id
    }

    /// A connection to a world, with the client last heard of at `hb`.
    pub fn new(hb: u64, world_id: Uuid) -> (r: WsConnection)
        ensures
            r.spec_id() == None::<usize>,
            r.spec_hb() == hb,
            r.spec_world_id() == world_id,
    {
        WsConnection { id: None, hb, world_id }
    }

    /// The world of the client.
    pub fn world_id(&self) -> (r: Uuid)
        ensures
            r == self.spec_world_id(),
    {
        self.world_id
    }

    /// The id the manager gave the connection, if it gave one yet.
    pub fn id(&self) -> (r: Option<usize>)
        ensures
            r == self.spec_id(),
    {
        self.id
    }

    /// Takes what came of registering with the manager: the id it gave, or
    /// nothing where the manager could not be reached. Tells whether the
    /// connection goes on.
    pub fn started(&mut self, registered: Option<usize>) -> (r: bool)
        ensures
            r == registered is Some,
            final(self).spec_id() == (if r { registered } else { old(self).spec_id() }),
            final(self).spec_hb() == old(self).spec_hb(),
            final(self).spec_world_id() == old(self).spec_world_id(),
    {
        match registered {
            Some(id) => {
                self.id = Some(id);
                true
            },
            None => false,
        }
    }

    /// Handles a frame that came at time `now`: pings and pongs show the
    /// client is alive, texts go to the world, and closing or a broken frame
    /// ends the connection.
    pub fn handle(&mut self, frame: ClientFrame, now: u64) -> (r: Reply)
        ensures
            final(self).spec_id() == old(self).spec_id(),
            final(self).spec_world_id() == old(self).spec_world_id(),
            final(self).spec_hb() == (match frame {
                ClientFrame::Ping(_) | ClientFrame::Pong => now,
                _ => old(self).spec_hb(),
            }),
            match frame {
                ClientFrame::Ping(bytes) => r == Reply::Pong(bytes),
                ClientFrame::Pong => r is Nothing,
                ClientFrame::Text(text) => r == (Reply::Forward { world_id: old(self).spec_world_id(), text }),
                ClientFrame::Close => r is CloseAndStop,
                ClientFrame::Continuation | ClientFrame::Failed => r is Stop,
                ClientFrame::Binary | ClientFrame::Nop => r is Nothing,
            },
    {
        match frame {
            ClientFrame::Ping(bytes) => {
                self.hb = now;
                Reply::Pong(bytes)
            },
            ClientFrame::Pong => {
                self.hb = now;
                Reply::Nothing
            },
            ClientFrame::Text(text) => Reply::Forward { world_id: self.world_id, text },
            ClientFrame::Close => Reply::CloseAndStop,
            ClientFrame::Continuation => Reply::Stop,
            ClientFrame::Failed => Reply::Stop,
            ClientFrame::Binary => Reply::Nothing,
            ClientFrame::Nop => Reply::Nothing,
        }
    }

    /// At a heartbeat at time `now`: a client silent for longer than the
    /// timeout is let go (under id 0 where it never got one), any other one
    /// is pinged.
    pub fn heartbeat(&self, now: u64) -> (r: Beat)
        ensures
            elapsed(now, self.spec_hb()) > CLIENT_TIMEOUT_MS ==> r == (Beat::Disconnect {
                id: match self.spec_id() {
                    Some(id) => id,
                    None => 0,
                },
                world_id: self.spec_world_id(),
            }),
            elapsed(now, self.spec_hb()) <= CLIENT_TIMEOUT_MS ==> r is Ping,
    {
        let silent = if now >= self.hb {
            now - self.hb
        } else {
            0
        };
        if silent > CLIENT_TIMEOUT_MS {
            Beat::Disconnect {
                id: match self.id {
                    Some(id) => id,
                    None => 0,
                },
                world_id: self.world_id,
            }
        } else {
            Beat::Ping
        }
    }

    /// What the manager is told when the connection stops: the id of the
    /// client (0 where it never got one) and its world.
    pub fn stopping(&self) -> (r: (usize, Uuid))
        ensures
            r.0 == (match self.spec_id() {
                Some(id) => id,
                None => 0,
            }),
            r.1 == self.spec_world_id(),
    {
        (
            match self.id {
                Some(id) => id,
                None => 0,
            },
            self.world_id,
        )
    }
}

} // verus!
