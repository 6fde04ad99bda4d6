use uuid::Uuid;
use vstd::prelude::*;

use crate::assoc::{as_map, keys_distinct};
use crate::conditions::{condition_value, CheckError};
use crate::data::with_initiator;
use crate::events::{event_json, msg_base, triggered, Event, EventView};
use crate::json::{Json, JsonView};
use crate::narrator::event_views;
use crate::text::texts;
use crate::webapp::intro::FailedLoadState;
use crate::webapp::status::WsStatus;
use crate::world::{character_json, clone_opt, opt_eq, opt_text, scene_long, world_from_json, world_json_of, World, WorldView};
use crate::{Character, Description};

verus! {

broadcast use {vstd::std_specs::vec::group_vec_axioms, vstd::seq_lib::group_seq_properties};

/// The text a player hears of the world: the long text of the scene where
/// the player's character is (of its current dialog, for a scene with
/// dialogs), none where the character is in no scene or no character is
/// chosen.
pub fn screen_text(world: Option<&World>, character: &Option<String>) -> (r: Option<String>)
    requires
        world matches Some(w) ==> w.wf(),
        world matches Some(w) ==> (character matches Some(c) ==> {
            &&& w@.characters.contains_key(c@)
            &&& (w@.characters[c@].scene matches Some(s) ==> w@.scenes.contains_key(s))
        }),
    ensures
        match (world, character) {
            (Some(w), Some(c)) => match w@.characters[c@].scene {
                Some(s) => r is Some && r->0@ == scene_long(w@.name, w@.scenes[s]),
                None => r is None,
            },
            _ => r is None,
        },
{
    let world = match world {
        Some(w) => w,
        None => {
            return None;
        },
    };
    match character {
        Some(name) => {
            let c = match world.character(name) {
                Some(c) => c,
                None => {
                    return None;
                },
            };
            match c.scene() {
                Some(scene_name) => match world.scene(scene_name) {
                    Some(scene) => Some(scene.long(world)),
                    None => None,
                },
                None => None,
            }
        },
        None => None,
    }
}

// ------------------------------------------------------------ events by value

/// The event writes exactly the value: an object with the event's fields and
/// values, in whatever order.
pub open spec fn event_matches(e: EventView, v: JsonView) -> bool {
    v is Object && keys_distinct(v->Object_0) && as_map(v->Object_0) == as_map(event_json(e)->Object_0)
}

/// `i` is the place of the first event of the list that writes the value.
pub open spec fn is_first_match(s: Seq<EventView>, v: JsonView, i: int) -> bool {
    &&& 0 <= i < s.len()
    &&& event_matches(s[i], v)
    &&& forall|j: int| 0 <= j < i ==> !event_matches(#[trigger] s[j], v)
}

/// The place of the first event of the list that writes the value; none
/// where no event does.
pub open spec fn first_match(s: Seq<EventView>, v: JsonView) -> Option<int> {
    if exists|i: int| is_first_match(s, v, i) {
        Some(choose|i: int| is_first_match(s, v, i))
    } else {
        None
    }
}

/// There is at most one first match.
pub proof fn lemma_first_match_unique(s: Seq<EventView>, v: JsonView, i: int, k: int)
    requires
        is_first_match(s, v, i),
        is_first_match(s, v, k),
    ensures
        i == k,
{
    if i < k {
        assert(!event_matches(s[i], v));
    } else if k < i {
        assert(!event_matches(s[k], v));
    }
}

/// The place of the first of the events that writes the value: the event
/// that a value received from another player stands for.
pub fn find_event(events: &Vec<Event>, value: &Json) -> (r: Option<usize>)
    ensures
        match r {
            Some(k) => k < events.len() && first_match(event_views(events@), value@) == Some(k as int),
            None => first_match(event_views(events@), value@) is None,
        },
{
    let ghost s = event_views(events@);
    let mut i: usize = 0;
    while i < events.len()
        invariant
            i <= events.len(),
            s == event_views(events@),
            forall|j: int| 0 <= j < i ==> !event_matches(#[trigger] s[j], value@),
        decreases events.len() - i,
    {
        if events[i].matches(value) {
            proof {
                assert(s[i as int] == events@[i as int]@);
                assert(is_first_match(s, value@, i as int));
                let k = choose|k: int| is_first_match(s, value@, k);
                lemma_first_match_unique(s, value@, i as int, k);
            }
            return Some(i);
        }
        proof {
            assert(s[i as int] == events@[i as int]@);
        }
        i += 1;
    }
    proof {
        assert(!exists|k: int| is_first_match(s, value@, k));
    }
    None
}

/// What the owner of a world answers to another player's request to trigger
/// an event: from the stored world (loaded into the story's world), the
/// first event that the requested value stands for, where its condition
/// holds and all its changes go through, the world after it, the event as
/// written down and the new event count; none in every other case.
pub open spec fn trigger_answer(stored: Option<JsonView>, w: WorldView, v: JsonView, evs: Seq<EventView>) -> Option<
    (WorldView, JsonView, usize),
> {
    match stored {
        None => None,
        Some(d) => match world_from_json(w, d) {
            Err(_) => None,
            Ok(lw) => match first_match(evs, v) {
                None => None,
                Some(i) => if condition_value(evs[i].condition, lw) == Ok::<bool, CheckError>(true) {
                    match triggered(evs[i], lw) {
                        Some(nw) => Some((nw, event_json(evs[i]), nw.event_count)),
                        None => None,
                    }
                } else {
                    None
                },
            },
        },
    }
}

/// Answers another player's request to trigger an event in a world this
/// player owns. `stored` is the world as it was stored, `world` a new world
/// of the story and `world_id` the world's identifier. Where the stored
/// world loads, an event of `events` stands for the requested value, its
/// condition holds and its changes go through, the answer is the world
/// after the event (to be stored), the event as written down and the new
/// event count, which the other players are told; otherwise there is no
/// answer but a refusal. A stored world that does not load, and an event
/// whose condition cannot be checked or whose changes fail, are refused too.
pub fn answer_trigger_request(stored: Option<Json>, world: World, world_id: Uuid, event: Json, events: Vec<Event>) -> (r:
    Option<(World, Json, usize)>)
    requires
        world.wf(),
    ensures
        match trigger_answer(opt_json(stored), world@, event@, event_views(events@)) {
            Some((nw, j, n)) => r matches Some((w2, j2, n2)) && w2@ == nw && w2.wf() && w2.spec_id() == world_id
                && j2@ == j && n2 == n,
            None => r is None,
        },
{
    let data = match stored {
        Some(d) => d,
        None => {
            return None;
        },
    };
    let mut world = world;
    match world.load(data) {
        Ok(()) => {},
        Err(_) => {
            return None;
        },
    }
    world.set_id(world_id);
    let i = match find_event(&events, &event) {
        Some(i) => i,
        None => {
            return None;
        },
    };
    let mut events = events;
    let ghost evs = event_views(events@);
    let mut e = events.remove(i);
    assert(e@ == evs[i as int]);
    match e.get_condition().check(&world) {
        Ok(true) => {},
        _ => {
            return None;
        },
    }
    if !e.try_trigger(&mut world) {
        return None;
    }
    let dump = e.dump();
    let count = world.event_count();
    Some((world, dump, count))
}

/// The value of an optional document.
pub open spec fn opt_json(j: Option<Json>) -> Option<JsonView> {
    match j {
        Some(j) => Some(j@),
        None => None,
    }
}

// ------------------------------------------------------------ the application

/// The state of a player's application: the world played (and its
/// identifier), the language, whether this player owns the world (unknown
/// until it is loaded), the request waiting for an answer, the character
/// played and whether the player is held to it, and what the page shows.
pub struct AppState {
    pub world_id: Option<Uuid>,
    pub world: Option<World>,
    pub lang: String,
    pub owned: Option<bool>,
    pub request_id: Option<u128>,
    pub character: Option<String>,
    pub fixed_character: bool,
    pub loading: bool,
    pub show_print: bool,
    pub event_count: usize,
    pub ws_status: WsStatus,
    pub ws_request_failed: bool,
    pub load_failed: Option<FailedLoadState>,
    pub show_editor: bool,
}

impl AppState {
    /// A world that is played is well formed and its identifier is known.
    pub open spec fn wf(&self) -> bool {
        &&& self.world matches Some(w) ==> w.wf()
        &&& self.world is Some ==> self.world_id is Some
    }
}

/// What happens to the application: the messages of the page, and those
/// that came from the other players of the world (already read from the
/// wire). Message ids are the numbers of the request identifiers.
pub enum AppMsg {
    UpdateCharacter(Option<String>),
    TriggerEventData(Json),
    TriggerRestoreCharacter(Option<String>, bool, Uuid, World),
    PlayText(String),
    Leave,
    Reset,
    CreateNewWorld,
    WorldUpdateFetched(World, bool),
    RefreshWorld,
    EventNotification(Json, usize),
    JoinedNotification,
    WorldUpdateNotification,
    GetWorldRequest(u128, Uuid),
    TriggerEventRequest(u128, Uuid, Json),
    GetWorldResponse(u128, Option<Json>),
    TriggerEventResponse(u128),
    WsGetWorld(Uuid, u128),
    WsNotifyUpdateWorld,
    WsTriggerEvent(Uuid, Json, u128),
    WsFailed,
    WsConnect(Uuid),
    WsStatusUpdate(WsStatus),
    WsDisconnect,
    ShowPrint(bool),
    SetLanguage(String),
    LoadWorld(Json, World),
    SetFailedLoadState(FailedLoadState),
    ShowEditor(bool),
}

/// What the application asks of the browser around it: to read a text
/// aloud, to remember or forget things, to show messages, to load, store or
/// fetch worlds, to talk to the other players, and to send itself a message.
pub enum AppAction {
    PlayText(String),
    StoreCharacter(Option<String>),
    StoreFixedCharacter(bool),
    StoreWorldId(Uuid),
    StoreLang(String),
    ClearStorage,
    ClearMessages,
    Warn(String),
    Notify(String),
    HideQr,
    StoreEvent(Uuid, usize, Json),
    LoadOwnedWorld(Uuid),
    LookUpWorld(Uuid),
    GetWorldWs(Uuid),
    TriggerWs(Uuid, Json),
    StartTimeout,
    CancelTimeout,
    QueueGetWorld(u128, Uuid),
    QueueTrigger(u128, Uuid, Json),
    QueueWorldUpdate,
    QueueJoined(Json),
    Flush,
    Connect(Uuid),
    Disconnect,
    AnswerGetWorld(u128, Uuid),
    AnswerTrigger(u128, Uuid, Json),
    LoadFetchedWorld(Option<Uuid>, Json, String, bool),
    ResetWorld(Json),
    CreateWorld,
    StoreNewWorld(World),
    Leave,
    RefreshWorld,
}

/// The text a player hears of the world, as [`screen_text`] gives it.
pub open spec fn screen(world: Option<World>, character: Option<String>) -> Option<Seq<char>> {
    match (world, character) {
        (Some(w), Some(c)) => match w@.characters[c@].scene {
            Some(s) => Some(scene_long(w@.name, w@.scenes[s])),
            None => None,
        },
        _ => None,
    }
}

/// The text a player hears can be told: the character played is in the
/// world, and so is its scene.
pub open spec fn screen_ready(world: Option<World>, character: Option<String>) -> bool {
    world matches Some(w) ==> (character matches Some(c) ==> {
        &&& w@.characters.contains_key(c@)
        &&& (w@.characters[c@].scene matches Some(s) ==> w@.scenes.contains_key(s))
    })
}

/// The action that reads a text aloud.
pub open spec fn plays(a: AppAction, text: Seq<char>) -> bool {
    a matches AppAction::PlayText(t) && t@ == text
}

/// How a world is fetched: from the local store where it is owned, from
/// its owner where it is not, and from the local store after a look whether
/// it is there where that is not known.
pub open spec fn fetch(owned: Option<bool>, id: Uuid) -> AppAction {
    match owned {
        Some(true) => AppAction::LoadOwnedWorld(id),
        Some(false) => AppAction::GetWorldWs(id),
        None => AppAction::LookUpWorld(id),
    }
}

/// The event that a value stands for, made by the character played.
pub open spec fn parsed(evs: Seq<EventView>, i: int, character: Option<String>) -> EventView {
    match character {
        Some(c) => EventView { data: with_initiator(evs[i].data, c@), ..evs[i] },
        None => evs[i],
    }
}

/// What one step of the application does: from state `s` and message `m`
/// (with `evs`, the events of the story) to state `t`, the actions `acts`
/// and whether the page is drawn again.
pub open spec fn app_step_spec(
    s: AppState,
    m: AppMsg,
    evs: Seq<EventView>,
    t: AppState,
    acts: Seq<AppAction>,
    render: bool,
) -> bool {
    match m {
        AppMsg::UpdateCharacter(c) => {
            &&& t == AppState { character: c, ..s }
            &&& render == (s.world is Some)
            &&& acts[0] matches AppAction::StoreCharacter(c2) && opt_text(c2) == opt_text(c)
            &&& match screen(s.world, c) {
                Some(x) => acts.len() == 2 && plays(acts[1], x),
                None => acts.len() == 1,
            }
        },
        AppMsg::TriggerEventData(v) => {
            &&& !render
            &&& match (s.world, first_match(evs, v@)) {
                (Some(w), Some(i)) => {
                    let e = parsed(evs, i, s.character);
                    let warn = condition_value(e.condition, w@) != Ok::<bool, CheckError>(true);
                    &&& t == AppState { loading: true, ..s }
                    &&& acts.len() == (if warn { 2int } else { 1int })
                    &&& warn ==> (acts[0] matches AppAction::Warn(x) && x@ == msg_base(w@.name, e) + "-fail"@)
                    &&& acts.last() matches AppAction::TriggerWs(id, j) && s.world_id == Some(id) && j@
                        == event_json(e)
                },
                _ => t == s && acts.len() == 0,
            }
        },
        AppMsg::TriggerRestoreCharacter(c, fixed, id, fresh) => {
            let base = AppState { load_failed: None, fixed_character: fixed, ..s };
            &&& acts[0] == AppAction::StoreFixedCharacter(fixed)
            &&& match c {
                Some(name) => {
                    &&& acts[1] matches AppAction::StoreCharacter(c2) && opt_text(c2) == Some(name@)
                    &&& if fresh@.characters.contains_key(name@) {
                        &&& t == AppState { character: Some(name), world_id: Some(id), loading: true, ..base }
                        &&& render
                        &&& acts.len() == 6
                        &&& acts[2] == AppAction::StoreWorldId(id)
                        &&& acts[3] == AppAction::Connect(id)
                        &&& acts[4] == fetch(s.owned, id)
                        &&& acts[5] matches AppAction::QueueJoined(j) && j@ == character_json(
                            fresh@.characters[name@],
                        )
                    } else {
                        &&& t == AppState { character: Some(name), ..base }
                        &&& !render
                        &&& acts.len() == 2
                    }
                },
                None => {
                    &&& t == AppState { character: None, world_id: Some(id), loading: true, ..base }
                    &&& render
                    &&& acts =~= seq![
                        AppAction::StoreFixedCharacter(fixed),
                        AppAction::StoreWorldId(id),
                        AppAction::StoreCharacter(None),
                        AppAction::Connect(id),
                        fetch(s.owned, id),
                    ]
                },
            }
        },
        AppMsg::PlayText(x) => t == s && !render && acts =~= seq![AppAction::PlayText(x)],
        AppMsg::Leave => {
            &&& t == AppState {
                world: None,
                character: None,
                owned: None,
                loading: false,
                ws_request_failed: false,
                ..s
            }
            &&& render
            &&& acts =~= seq![AppAction::ClearStorage, AppAction::ClearMessages, AppAction::Disconnect]
        },
        AppMsg::Reset => {
            &&& t == s
            &&& match s.world {
                Some(w) => if s.owned == Some(true) {
                    render && acts.len() == 1 && (acts[0] matches AppAction::ResetWorld(j) && world_json_of(j@, w@))
                } else {
                    !render && acts.len() == 0
                },
                None => !render && acts.len() == 0,
            }
        },
        AppMsg::CreateNewWorld => {
            &&& t == AppState { fixed_character: false, load_failed: None, ..s }
            &&& render
            &&& acts =~= seq![AppAction::CreateWorld]
        },
        AppMsg::WorldUpdateFetched(nw, owned) => {
            &&& t == AppState {
                owned: Some(owned),
                event_count: nw@.event_count,
                world_id: Some(nw.spec_id()),
                world: Some(nw),
                loading: false,
                ws_request_failed: false,
                ..s
            }
            &&& render
            &&& match screen(Some(nw), s.character) {
                Some(x) => if screen(s.world, s.character) != Some(x) {
                    acts.len() == 1 && plays(acts[0], x)
                } else {
                    acts.len() == 0
                },
                None => acts.len() == 0,
            }
        },
        AppMsg::RefreshWorld => {
            &&& render
            &&& match s.world_id {
                Some(id) => t == AppState { loading: true, ..s } && acts =~= seq![fetch(s.owned, id)],
                None => t == s && acts.len() == 0,
            }
        },
        AppMsg::EventNotification(v, count) => {
            &&& !render
            &&& match (s.world, first_match(evs, v@)) {
                (Some(w), Some(i)) => {
                    let e = evs[i];
                    let id = s.world_id->0;
                    let ok = condition_value(e.condition, w@) == Ok::<bool, CheckError>(true);
                    let read = ok && !e.tags.contains("no_read"@);
                    &&& t == AppState { event_count: count, loading: true, ..s }
                    &&& acts.len() == 3 + (if ok { 1int } else { 0int }) + (if read { 1int } else { 0int })
                    &&& acts[0] matches AppAction::StoreEvent(id2, n, j) && id2 == id && n == count && j@
                        == event_json(e)
                    &&& acts[1] == AppAction::HideQr
                    &&& acts[2] == fetch(s.owned, id)
                    &&& ok ==> (acts[3] matches AppAction::Notify(x) && x@ == msg_base(w@.name, e) + "-success"@)
                    &&& read ==> plays(acts[4], msg_base(w@.name, e) + "-success"@)
                },
                _ => t == s && acts.len() == 0,
            }
        },
        AppMsg::JoinedNotification => t == s && !render && acts =~= seq![AppAction::HideQr],
        AppMsg::WorldUpdateNotification => {
            &&& t == s
            &&& !render
            &&& match s.world {
                Some(w) => if s.owned != Some(true) {
                    acts =~= seq![AppAction::GetWorldWs(w.spec_id())]
                } else {
                    acts.len() == 0
                },
                None => acts.len() == 0,
            }
        },
        AppMsg::GetWorldRequest(msg_id, id) => {
            &&& t == s
            &&& !render
            &&& acts =~= (if s.owned == Some(true) {
                seq![AppAction::AnswerGetWorld(msg_id, id)]
            } else {
                Seq::empty()
            })
        },
        AppMsg::TriggerEventRequest(msg_id, id, v) => {
            &&& t == s
            &&& !render
            &&& acts =~= (if s.owned == Some(true) {
                seq![AppAction::AnswerTrigger(msg_id, id, v)]
            } else {
                Seq::empty()
            })
        },
        AppMsg::GetWorldResponse(msg_id, data) => {
            &&& !render
            &&& if s.request_id == Some(msg_id) {
                &&& t == AppState { request_id: None, loading: false, ..s }
                &&& acts[0] == AppAction::CancelTimeout
                &&& match data {
                    Some(d) => acts.len() == 2 && (acts[1] matches AppAction::LoadFetchedWorld(id, d2, c, f) && id
                        == s.world_id && d2 == d && f == s.fixed_character && c@ == (match s.character {
                        Some(c) => c@,
                        None => "narrator"@,
                    })),
                    None => acts =~= seq![AppAction::CancelTimeout, AppAction::Leave],
                }
            } else {
                t == s && acts.len() == 0
            }
        },
        AppMsg::TriggerEventResponse(msg_id) => {
            &&& !render
            &&& if s.request_id == Some(msg_id) {
                &&& t == AppState { request_id: None, loading: false, ..s }
                &&& acts =~= seq![AppAction::CancelTimeout, AppAction::RefreshWorld]
            } else {
                t == s && acts.len() == 0
            }
        },
        AppMsg::WsGetWorld(id, msg_id) => {
            &&& t == AppState { loading: true, world_id: Some(id), request_id: Some(msg_id), ..s }
            &&& render
            &&& acts =~= seq![AppAction::StartTimeout, AppAction::QueueGetWorld(msg_id, id), AppAction::Flush]
        },
        AppMsg::WsNotifyUpdateWorld => t == s && render && acts =~= seq![
            AppAction::QueueWorldUpdate,
            AppAction::Flush,
        ],
        AppMsg::WsTriggerEvent(id, v, msg_id) => {
            &&& t == AppState { loading: true, request_id: Some(msg_id), ..s }
            &&& render
            &&& acts =~= seq![AppAction::StartTimeout, AppAction::QueueTrigger(msg_id, id, v), AppAction::Flush]
        },
        AppMsg::WsFailed => t == AppState { loading: false, ws_request_failed: true, ..s } && render && acts.len()
            == 0,
        AppMsg::WsConnect(id) => t == s && render && acts =~= seq![AppAction::Connect(id)],
        AppMsg::WsStatusUpdate(st) => {
            &&& t == AppState { ws_status: st, ..s }
            &&& render
            &&& acts =~= (if st == WsStatus::CONNECTED && s.owned == Some(false) && s.world_id is Some {
                seq![AppAction::GetWorldWs(s.world_id->0)]
            } else {
                Seq::empty()
            })
        },
        AppMsg::WsDisconnect => t == s && !render && acts =~= seq![AppAction::Disconnect],
        AppMsg::ShowPrint(b) => t == AppState { show_print: b, ..s } && render == (s.show_print != b) && acts.len()
            == 0,
        AppMsg::SetLanguage(l) => {
            &&& render
            &&& acts.len() == 1
            &&& acts[0] matches AppAction::StoreLang(l2) && l2@ == l@
            &&& t.lang == l
            &&& match s.world {
                Some(w) => t.world matches Some(w2) && w2.wf() == w.wf() && w2.spec_id() == w.spec_id() && w2@ == (
                if w@.languages.contains(l@) {
                    WorldView { lang: l@, ..w@ }
                } else {
                    w@
                }),
                None => t.world is None,
            }
            &&& t == AppState { lang: t.lang, world: t.world, ..s }
        },
        AppMsg::LoadWorld(v, fresh) => {
            &&& render
            &&& match world_from_json(fresh@, v@) {
                Ok(nw) => {
                    &&& t == AppState { fixed_character: false, load_failed: None, ..s }
                    &&& acts.len() == 1
                    &&& acts[0] matches AppAction::StoreNewWorld(w2) && w2@ == nw && w2.wf()
                        && w2.spec_id() == fresh.spec_id()
                },
                Err(_) => {
                    &&& t == AppState {
                        fixed_character: false,
                        load_failed: Some(FailedLoadState::WrongJson),
                        ..s
                    }
                    &&& acts.len() == 0
                },
            }
        },
        AppMsg::SetFailedLoadState(st) => t == AppState { load_failed: Some(st), ..s } && render && acts.len() == 0,
        AppMsg::ShowEditor(b) => if s.owned == Some(true) {
            t == AppState { show_editor: b, ..s } && render && acts.len() == 0
        } else {
            t == s && !render && acts.len() == 0
        },
    }
}

/// What a message needs of the state: the world received, or the one kept
/// for a new game, is well formed; and where the text a player hears is
/// compared or told, it can be told.
pub open spec fn app_step_ready(s: AppState, m: AppMsg) -> bool {
    match m {
        AppMsg::UpdateCharacter(c) => screen_ready(s.world, c),
        AppMsg::TriggerRestoreCharacter(_, _, _, fresh) => fresh.wf(),
        AppMsg::WorldUpdateFetched(nw, _) => nw.wf() && screen_ready(s.world, s.character) && screen_ready(
            Some(nw),
            s.character,
        ),
        AppMsg::LoadWorld(_, fresh) => fresh.wf(),
        _ => true,
    }
}

/// How a world is fetched, as [`fetch`] says.
fn fetch_action(owned: Option<bool>, id: Uuid) -> (r: AppAction)
    ensures
        r == fetch(owned, id),
{
    match owned {
        Some(true) => AppAction::LoadOwnedWorld(id),
        Some(false) => AppAction::GetWorldWs(id),
        None => AppAction::LookUpWorld(id),
    }
}

fn is_owned(owned: Option<bool>) -> (r: bool)
    ensures
        r == (owned == Some(true)),
{
    match owned {
        Some(b) => b,
        None => false,
    }
}

fn step_update_character(s: AppState, c: Option<String>) -> (r: (AppState, Vec<AppAction>, bool))
    requires
        s.wf(),
        screen_ready(s.world, c),
    ensures
        app_step_spec(s, AppMsg::UpdateCharacter(c), Seq::empty(), r.0, r.1@, r.2),
{
    let mut s = s;
    let text = screen_text(s.world.as_ref(), &c);
    let stored = clone_opt(&c);
    let render = s.world.is_some();
    s.character = c;
    let mut acts: Vec<AppAction> = Vec::new();
    acts.push(AppAction::StoreCharacter(stored));
    match text {
        Some(x) => acts.push(AppAction::PlayText(x)),
        None => {},
    }
    (s, acts, render)
}

fn step_trigger_event_data(s: AppState, v: Json, events: Vec<Event>) -> (r: (AppState, Vec<AppAction>, bool))
    requires
        s.wf(),
    ensures
        app_step_spec(s, AppMsg::TriggerEventData(v), event_views(events@), r.0, r.1@, r.2),
{
    let ghost evs = event_views(events@);
    let mut s = s;
    let mut acts: Vec<AppAction> = Vec::new();
    if s.world.is_none() {
        return (s, acts, false);
    }
    let i = match find_event(&events, &v) {
        Some(i) => i,
        None => {
            return (s, acts, false);
        },
    };
    let mut events = events;
    let mut e = events.remove(i);
    assert(e@ == evs[i as int]);
    match &s.character {
        Some(c) => e.set_initiator(c.clone()),
        None => {},
    }
    assert(e@ == parsed(evs, i as int, s.character));
    match &s.world {
        Some(w) => {
            let ok = match e.get_condition().check(w) {
                Ok(b) => b,
                Err(_) => false,
            };
            if !ok {
                acts.push(AppAction::Warn(e.fail_text(w)));
            }
        },
        None => {},
    }
    let id = s.world_id.unwrap();
    acts.push(AppAction::TriggerWs(id, e.dump()));
    s.loading = true;
    (s, acts, false)
}

fn step_restore_character(s: AppState, c: Option<String>, fixed: bool, id: Uuid, fresh: World) -> (r: (
    AppState,
    Vec<AppAction>,
    bool,
))
    requires
        s.wf(),
        fresh.wf(),
    ensures
        app_step_spec(s, AppMsg::TriggerRestoreCharacter(c, fixed, id, fresh), Seq::empty(), r.0, r.1@, r.2),
        r.0.wf(),
{
    let mut s = s;
    let mut acts: Vec<AppAction> = Vec::new();
    s.load_failed = None;
    s.fixed_character = fixed;
    acts.push(AppAction::StoreFixedCharacter(fixed));
    match c {
        Some(name) => {
            acts.push(AppAction::StoreCharacter(Some(name.clone())));
            let joined = match fresh.character(&name) {
                Some(ch) => Some(ch.dump()),
                None => None,
            };
            s.character = Some(name);
            match joined {
                Some(j) => {
                    acts.push(AppAction::StoreWorldId(id));
                    s.world_id = Some(id);
                    acts.push(AppAction::Connect(id));
                    s.loading = true;
                    acts.push(fetch_action(s.owned, id));
                    acts.push(AppAction::QueueJoined(j));
                    (s, acts, true)
                },
                None => (s, acts, false),
            }
        },
        None => {
            s.world_id = Some(id);
            acts.push(AppAction::StoreWorldId(id));
            acts.push(AppAction::StoreCharacter(None));
            s.character = None;
            acts.push(AppAction::Connect(id));
            s.loading = true;
            acts.push(fetch_action(s.owned, id));
            (s, acts, true)
        },
    }
}

fn step_world_fetched(s: AppState, nw: World, owned: bool) -> (r: (AppState, Vec<AppAction>, bool))
    requires
        s.wf(),
        nw.wf(),
        screen_ready(s.world, s.character),
        screen_ready(Some(nw), s.character),
    ensures
        app_step_spec(s, AppMsg::WorldUpdateFetched(nw, owned), Seq::empty(), r.0, r.1@, r.2),
        r.0.wf(),
{
    let mut s = s;
    let mut acts: Vec<AppAction> = Vec::new();
    let old_text = screen_text(s.world.as_ref(), &s.character);
    s.owned = Some(owned);
    s.event_count = nw.event_count();
    s.world_id = Some(*nw.id());
    s.world = Some(nw);
    let new_text = screen_text(s.world.as_ref(), &s.character);
    if !opt_eq(&new_text, &old_text) {
        match new_text {
            Some(x) => acts.push(AppAction::PlayText(x)),
            None => {},
        }
    }
    s.loading = false;
    s.ws_request_failed = false;
    (s, acts, true)
}

fn step_event_notification(s: AppState, v: Json, count: usize, events: Vec<Event>) -> (r: (
    AppState,
    Vec<AppAction>,
    bool,
))
    requires
        s.wf(),
    ensures
        app_step_spec(s, AppMsg::EventNotification(v, count), event_views(events@), r.0, r.1@, r.2),
        r.0.wf(),
{
    let ghost evs = event_views(events@);
    let mut s = s;
    let mut acts: Vec<AppAction> = Vec::new();
    if s.world.is_none() {
        return (s, acts, false);
    }
    let i = match find_event(&events, &v) {
        Some(i) => i,
        None => {
            return (s, acts, false);
        },
    };
    let mut events = events;
    let e = events.remove(i);
    assert(e@ == evs[i as int]);
    s.event_count = count;
    let id = s.world_id.unwrap();
    acts.push(AppAction::StoreEvent(id, count, e.dump()));
    acts.push(AppAction::HideQr);
    s.loading = true;
    acts.push(fetch_action(s.owned, id));
    match &s.world {
        Some(w) => {
            let ok = match e.get_condition().check(w) {
                Ok(b) => b,
                Err(_) => false,
            };
            if ok {
                acts.push(AppAction::Notify(e.success_text(w)));
                let tags = e.get_tags();
                let no_read = String::from_str("no_read");
                proof {
                    reveal_strlit("no_read");
                }
                if !crate::text::contains_string(&tags, &no_read) {
                    acts.push(AppAction::PlayText(e.success_text(w)));
                }
            }
        },
        None => {},
    }
    (s, acts, false)
}

fn step_get_world_response(s: AppState, msg_id: u128, data: Option<Json>) -> (r: (AppState, Vec<AppAction>, bool))
    requires
        s.wf(),
    ensures
        app_step_spec(s, AppMsg::GetWorldResponse(msg_id, data), Seq::empty(), r.0, r.1@, r.2),
        r.0.wf(),
{
    let mut s = s;
    let mut acts: Vec<AppAction> = Vec::new();
    match s.request_id {
        Some(id) => {
            if id == msg_id {
                s.request_id = None;
                acts.push(AppAction::CancelTimeout);
                s.loading = false;
                match data {
                    Some(d) => {
                        let c = match &s.character {
                            Some(c) => c.clone(),
                            None => {
                                proof {
                                    reveal_strlit("narrator");
                                }
                                String::from_str("narrator")
                            },
                        };
                        acts.push(AppAction::LoadFetchedWorld(s.world_id, d, c, s.fixed_character));
                    },
                    None => acts.push(AppAction::Leave),
                }
            }
        },
        None => {},
    }
    (s, acts, false)
}

fn step_set_language(s: AppState, l: String) -> (r: (AppState, Vec<AppAction>, bool))
    requires
        s.wf(),
    ensures
        app_step_spec(s, AppMsg::SetLanguage(l), Seq::empty(), r.0, r.1@, r.2),
        r.0.wf(),
{
    let AppState {
        world_id,
        world,
        lang: _,
        owned,
        request_id,
        character,
        fixed_character,
        loading,
        show_print,
        event_count,
        ws_status,
        ws_request_failed,
        load_failed,
        show_editor,
    } = s;
    let mut acts: Vec<AppAction> = Vec::new();
    acts.push(AppAction::StoreLang(l.clone()));
    let world = match world {
        Some(w) => {
            let mut w = w;
            w.set_lang(l.as_str());
            Some(w)
        },
        None => None,
    };
    let t = AppState {
        world_id,
        world,
        lang: l,
        owned,
        request_id,
        character,
        fixed_character,
        loading,
        show_print,
        event_count,
        ws_status,
        ws_request_failed,
        load_failed,
        show_editor,
    };
    (t, acts, true)
}

fn step_load_world(s: AppState, v: Json, fresh: World) -> (r: (AppState, Vec<AppAction>, bool))
    requires
        s.wf(),
        fresh.wf(),
    ensures
        app_step_spec(s, AppMsg::LoadWorld(v, fresh), Seq::empty(), r.0, r.1@, r.2),
        r.0.wf(),
{
    let mut s = s;
    let mut acts: Vec<AppAction> = Vec::new();
    s.fixed_character = false;
    s.load_failed = None;
    let mut fresh = fresh;
    match fresh.load(v) {
        Ok(()) => acts.push(AppAction::StoreNewWorld(fresh)),
        Err(_) => {
            s.load_failed = Some(FailedLoadState::WrongJson);
        },
    }
    (s, acts, true)
}

/// One step of a player's application: from its state and a message (and
/// the events of the story, by which values received are read) to the next
/// state, the actions to perform, and whether the page is drawn again, as
/// [`app_step_spec`] says. Among others: only the owner of a world resets
/// it, opens its editor and answers the other players' requests; an answer
/// is taken only where it answers the request that waits, and is put aside
/// otherwise; a world received is told aloud where what the player hears of
/// it changed. An event whose condition cannot be checked in the world is
/// taken as one whose condition does not hold.
pub fn app_step(state: AppState, msg: AppMsg, events: Vec<Event>) -> (r: (AppState, Vec<AppAction>, bool))
    requires
        state.wf(),
        app_step_ready(state, msg),
    ensures
        app_step_spec(state, msg, event_views(events@), r.0, r.1@, r.2),
        r.0.wf(),
{
    let mut s = state;
    let mut acts: Vec<AppAction> = Vec::new();
    match msg {
        AppMsg::UpdateCharacter(c) => step_update_character(s, c),
        AppMsg::TriggerEventData(v) => step_trigger_event_data(s, v, events),
        AppMsg::TriggerRestoreCharacter(c, fixed, id, fresh) => step_restore_character(s, c, fixed, id, fresh),
        AppMsg::PlayText(x) => {
            acts.push(AppAction::PlayText(x));
            (s, acts, false)
        },
        AppMsg::Leave => {
            s.world = None;
            acts.push(AppAction::ClearStorage);
            acts.push(AppAction::ClearMessages);
            acts.push(AppAction::Disconnect);
            s.character = None;
            s.owned = None;
            s.loading = false;
            s.ws_request_failed = false;
            (s, acts, true)
        },
        AppMsg::Reset => {
            let mut render = false;
            if is_owned(s.owned) {
                match &s.world {
                    Some(w) => {
                        acts.push(AppAction::ResetWorld(w.dump()));
                        render = true;
                    },
                    None => {},
                }
            }
            (s, acts, render)
        },
        AppMsg::CreateNewWorld => {
            s.fixed_character = false;
            s.load_failed = None;
            acts.push(AppAction::CreateWorld);
            (s, acts, true)
        },
        AppMsg::WorldUpdateFetched(nw, owned) => step_world_fetched(s, nw, owned),
        AppMsg::RefreshWorld => {
            match s.world_id {
                Some(id) => {
                    s.loading = true;
                    acts.push(fetch_action(s.owned, id));
                },
                None => {},
            }
            (s, acts, true)
        },
        AppMsg::EventNotification(v, count) => step_event_notification(s, v, count, events),
        AppMsg::JoinedNotification => {
            acts.push(AppAction::HideQr);
            (s, acts, false)
        },
        AppMsg::WorldUpdateNotification => {
            if !is_owned(s.owned) {
                match &s.world {
                    Some(w) => acts.push(AppAction::GetWorldWs(*w.id())),
                    None => {},
                }
            }
            (s, acts, false)
        },
        AppMsg::GetWorldRequest(msg_id, id) => {
            if is_owned(s.owned) {
                acts.push(AppAction::AnswerGetWorld(msg_id, id));
            }
            (s, acts, false)
        },
        AppMsg::TriggerEventRequest(msg_id, id, v) => {
            if is_owned(s.owned) {
                acts.push(AppAction::AnswerTrigger(msg_id, id, v));
            }
            (s, acts, false)
        },
        AppMsg::GetWorldResponse(msg_id, data) => step_get_world_response(s, msg_id, data),
        AppMsg::TriggerEventResponse(msg_id) => {
            match s.request_id {
                Some(id) => {
                    if id == msg_id {
                        s.request_id = None;
                        s.loading = false;
                        acts.push(AppAction::CancelTimeout);
                        acts.push(AppAction::RefreshWorld);
                    }
                },
                None => {},
            }
            (s, acts, false)
        },
        AppMsg::WsGetWorld(id, msg_id) => {
            s.loading = true;
            s.world_id = Some(id);
            s.request_id = Some(msg_id);
            acts.push(AppAction::StartTimeout);
            acts.push(AppAction::QueueGetWorld(msg_id, id));
            acts.push(AppAction::Flush);
            (s, acts, true)
        },
        AppMsg::WsNotifyUpdateWorld => {
            acts.push(AppAction::QueueWorldUpdate);
            acts.push(AppAction::Flush);
            (s, acts, true)
        },
        AppMsg::WsTriggerEvent(id, v, msg_id) => {
            s.loading = true;
            s.request_id = Some(msg_id);
            acts.push(AppAction::StartTimeout);
            acts.push(AppAction::QueueTrigger(msg_id, id, v));
            acts.push(AppAction::Flush);
            (s, acts, true)
        },
        AppMsg::WsFailed => {
            s.loading = false;
            s.ws_request_failed = true;
            (s, acts, true)
        },
        AppMsg::WsConnect(id) => {
            acts.push(AppAction::Connect(id));
            (s, acts, true)
        },
        AppMsg::WsStatusUpdate(st) => {
            let not_owned = match s.owned {
                Some(b) => !b,
                None => false,
            };
            if st == WsStatus::CONNECTED && not_owned {
                match s.world_id {
                    Some(id) => acts.push(AppAction::GetWorldWs(id)),
                    None => {},
                }
            }
            s.ws_status = st;
            (s, acts, true)
        },
        AppMsg::WsDisconnect => {
            acts.push(AppAction::Disconnect);
            (s, acts, false)
        },
        AppMsg::ShowPrint(b) => {
            let render = s.show_print != b;
            s.show_print = b;
            (s, acts, render)
        },
        AppMsg::SetLanguage(l) => step_set_language(s, l),
        AppMsg::LoadWorld(v, fresh) => step_load_world(s, v, fresh),
        AppMsg::SetFailedLoadState(st) => {
            s.load_failed = Some(st);
            (s, acts, true)
        },
        AppMsg::ShowEditor(b) => {
            if is_owned(s.owned) {
                s.show_editor = b;
                (s, acts, true)
            } else {
                (s, acts, false)
            }
        },
    }
}

} // verus!
