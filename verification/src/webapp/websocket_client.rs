use uuid::Uuid;
use vstd::prelude::*;

verus! {

broadcast use vstd::std_specs::vec::group_vec_axioms;

/// The state of a player's connection to the other players of a world: the
/// world it is for, whether the connection can send now, and the texts that
/// wait until it can.
pub struct WsClientState {
    pub world_id: Option<Uuid>,
    pub connected: bool,
    pub queued: Vec<String>,
}

/// What happens to the connection: it is to connect to a world (at an
/// address), it became able to send (and whether that is news), it broke,
/// it is to be closed, or a text is to be sent.
pub enum WsClientMsg {
    Connect(Uuid, String),
    SetSender(bool),
    Disconnected,
    Disconnect,
    SendMessage(String),
}

/// What the connection asks of the browser: to close the current connection
/// first, to tell that it connects, to open the address, to try again later,
/// to tell that it is connected, to send a waiting text again, to stop
/// trying again, to tell that it is disconnected, and to send a text.
pub enum WsClientAction {
    Disconnect,
    Connecting,
    Open(String),
    PlanReconnect(Uuid),
    Connected,
    Resend(String),
    CancelReconnect,
    Disconnected,
    Transmit(String),
}

/// One step of the connection: its next state, its actions, and whether it
/// is drawn again. A text is sent where the connection can send, which it
/// cannot again until the sending is done; otherwise the text waits, and
/// every waiting text is sent again, in order, once the connection can send.
/// A broken connection is tried again later; one closed on purpose is not.
pub fn ws_client_step(state: WsClientState, msg: WsClientMsg) -> (r: (WsClientState, Vec<WsClientAction>, bool))
    ensures
        match msg {
            WsClientMsg::Connect(id, url) => {
                &&& r.0.world_id == Some(id)
                &&& r.0.connected == state.connected
                &&& r.0.queued == state.queued
                &&& r.2
                &&& r.1@ =~= (if state.world_id is Some {
                    seq![WsClientAction::Disconnect, WsClientAction::Connecting, WsClientAction::Open(url)]
                } else {
                    seq![WsClientAction::Connecting, WsClientAction::Open(url)]
                })
            },
            WsClientMsg::SetSender(emit) => {
                let e = if emit { 1int } else { 0int };
                let q = state.queued@;
                &&& r.0.world_id == state.world_id
                &&& r.0.connected
                &&& r.0.queued@.len() == 0
                &&& r.2
                &&& r.1@.len() == e + q.len() + 1
                &&& emit ==> r.1@[0] is Connected
                &&& forall|i: int| 0 <= i < q.len() ==> r.1@[e + i] == WsClientAction::Resend(#[trigger] q[i])
                &&& r.1@[e + q.len()] is CancelReconnect
            },
            WsClientMsg::Disconnected => {
                &&& r.0.world_id == state.world_id
                &&& !r.0.connected
                &&& r.0.queued == state.queued
                &&& r.2 == state.connected
                &&& r.1@[0] is Disconnected
                &&& match state.world_id {
                    Some(id) => r.1@.len() == 2 && r.1@[1] == WsClientAction::PlanReconnect(id),
                    None => r.1@.len() == 1,
                }
            },
            WsClientMsg::Disconnect => {
                &&& r.0.queued == state.queued
                &&& if state.world_id is Some {
                    &&& r.0.world_id is None
                    &&& !r.0.connected
                    &&& r.2 == state.connected
                    &&& r.1@.len() == 1 && r.1@[0] is Disconnected
                } else {
                    &&& r.0.world_id is None
                    &&& r.0.connected == state.connected
                    &&& !r.2
                    &&& r.1@.len() == 0
                }
            },
            WsClientMsg::SendMessage(text) => {
                &&& r.0.world_id == state.world_id
                &&& !r.0.connected
                &&& !r.2
                &&& if state.connected {
                    r.0.queued == state.queued && r.1@ == seq![WsClientAction::Transmit(text)]
                } else {
                    r.0.queued@ == state.queued@.push(text) && r.1@.len() == 0
                }
            },
        },
{
    let WsClientState { world_id, connected, queued } = state;
    let mut acts: Vec<WsClientAction> = Vec::new();
    match msg {
        WsClientMsg::Connect(id, url) => {
            if world_id.is_some() {
                acts.push(WsClientAction::Disconnect);
            }
            acts.push(WsClientAction::Connecting);
            acts.push(WsClientAction::Open(url));
            (WsClientState { world_id: Some(id), connected, queued }, acts, true)
        },
        WsClientMsg::SetSender(emit) => {
            if emit {
                acts.push(WsClientAction::Connected);
            }
            let ghost start = acts@;
            let ghost q = queued@;
            let mut queued = queued;
            let mut i: usize = 0;
            let n = queued.len();
            while queued.len() > 0
                invariant
                    i + queued@.len() == n,
                    n == q.len(),
                    queued@ == q.skip(i as int),
                    acts@.len() == start.len() + i,
                    acts@.take(start.len() as int) == start,
                    forall|k: int| 0 <= k < i ==> acts@[start.len() + k] == WsClientAction::Resend(#[trigger] q[k]),
                decreases queued.len(),
            {
                let t = queued.remove(0);
                assert(t == q[i as int]);
                acts.push(WsClientAction::Resend(t));
                proof {
                    assert(queued@ =~= q.skip(i + 1));
                    assert(acts@.take(start.len() as int) =~= start);
                }
                i += 1;
            }
            acts.push(WsClientAction::CancelReconnect);
            proof {
                assert(acts@.take(start.len() as int) =~= start);
                if emit {
                    assert(acts@.take(start.len() as int)[0] == acts@[0]);
                }
            }
            (WsClientState { world_id, connected: true, queued }, acts, true)
        },
        WsClientMsg::Disconnected => {
            acts.push(WsClientAction::Disconnected);
            match world_id {
                Some(id) => acts.push(WsClientAction::PlanReconnect(id)),
                None => {},
            }
            (WsClientState { world_id, connected: false, queued }, acts, connected)
        },
        WsClientMsg::Disconnect => {
            if world_id.is_some() {
                acts.push(WsClientAction::Disconnected);
                (WsClientState { world_id: None, connected: false, queued }, acts, connected)
            } else {
                (WsClientState { world_id: None, connected, queued }, acts, false)
            }
        },
        WsClientMsg::SendMessage(text) => {
            if connected {
                acts.push(WsClientAction::Transmit(text));
                (WsClientState { world_id, connected: false, queued }, acts, false)
            } else {
                let mut queued = queued;
                queued.push(text);
                (WsClientState { world_id, connected: false, queued }, acts, false)
            }
        },
    }
}

} // verus!
