use std::collections::VecDeque;
use pabitell::conditions::{CharacterInSceneCheck, HasItemCheck};
use pabitell::data::{GiveData, MoveData, PickData};
use pabitell::events::{Event, Give, Move, Pick};
use pabitell::json::Json;
use pabitell::updates::{AssignItemChange, Change, MoveCharacterChange};
use pabitell::webapp::app::{answer_trigger_request, app_step, find_event, AppAction, AppMsg, AppState};
use pabitell::webapp::characters::CharacterQRJson;
use pabitell::webapp::intro::{intro_step, pick_camera, picked_character, scanned_join, FailedLoadState, IntroAction, IntroMsg, ScanOutcome};
use pabitell::webapp::speech::{speech_step, speech_text, SpeechAction, SpeechMsg, SpeechState};
use pabitell::webapp::status::WsStatus;
use pabitell::websocket::{ManagerMsg, WsManager};
use pabitell::world::{SimpleCharacter, SimpleItem, SimpleScene, World, WorldBuilder};
use pabitell::{Item, ItemState};
use uuid::Uuid;

fn story() -> World {
    let mut world = WorldBuilder::new("story")
        .language("en-US")
        .character(SimpleCharacter::new("doggie", vec![]))
        .character(SimpleCharacter::new("kitie", vec![]))
        .item(SimpleItem::new("cake", vec![]))
        .scene(SimpleScene::new("kitchen", vec![]))
        .scene(SimpleScene::new("garden", vec![]))
        .build()
        .unwrap();
    assert!(world.set_character_scene(&"doggie".to_string(), Some("kitchen".to_string())));
    assert!(world.set_character_scene(&"kitie".to_string(), Some("kitchen".to_string())));
    assert!(world.set_item_state(&"cake".to_string(), ItemState::InScene("kitchen".to_string())));
    world
}

fn pick_cake() -> Event {
    let mut pick = Pick::new("pick_cake", PickData::new("doggie", "cake"));
    pick.set_condition(CharacterInSceneCheck::cond("doggie".to_string(), Some("kitchen".to_string())));
    pick.set_world_updates(vec![Change::AssignItem(AssignItemChange::new(
        "cake".to_string(),
        ItemState::Owned("doggie".to_string()),
    ))]);
    Event::Pick(pick)
}

fn go_garden() -> Event {
    let mut go = Move::new("go_garden", MoveData::new("kitie", "garden"));
    go.set_world_updates(vec![Change::MoveCharacter(MoveCharacterChange::new(
        "kitie".to_string(),
        Some("garden".to_string()),
    ))]);
    Event::Move(go)
}

fn give_cake() -> Event {
    let mut give = Give::new("give_cake", GiveData::new("doggie", "kitie", "cake"));
    give.set_condition(HasItemCheck::cond("doggie".to_string(), "cake".to_string()));
    Event::Give(give)
}

fn events() -> Vec<Event> {
    vec![go_garden(), pick_cake(), give_cake()]
}

fn state() -> AppState {
    AppState {
        world_id: None,
        world: None,
        lang: "en-US".to_string(),
        owned: None,
        request_id: None,
        character: None,
        fixed_character: false,
        loading: false,
        show_print: false,
        event_count: 0,
        ws_status: WsStatus::DISCONNECTED,
        ws_request_failed: false,
        load_failed: None,
        show_editor: false,
    }
}

fn playing(owned: bool) -> AppState {
    let world = story();
    let mut s = state();
    s.world_id = Some(*world.id());
    s.world = Some(world);
    s.owned = Some(owned);
    s.character = Some("doggie".to_string());
    s
}

#[test]
fn speech_text_cleans_for_reading() {
    assert_eq!(speech_text("Hello.\n\"Hi\" „yes“"), "Hello.\n Hi yes");
    assert_eq!(speech_text(""), "");
    assert_eq!(speech_text("a.b."), "a.\nb.\n");
}

#[test]
fn speech_queue_plays_in_order() {
    let s = SpeechState { playing: false, queue: VecDeque::new(), retry: vec![] };
    let (s, a) = speech_step(s, SpeechMsg::Play { text: "one.".to_string(), voice: true, stored_voice: true });
    assert!(matches!(a, SpeechAction::Speak(ref t) if t == "one.\n"));
    assert!(s.playing);
    let (s, a) = speech_step(s, SpeechMsg::Play { text: "two".to_string(), voice: true, stored_voice: true });
    assert!(matches!(a, SpeechAction::Nothing));
    assert_eq!(s.queue, VecDeque::from(vec!["two".to_string()]));
    let (s, a) = speech_step(s, SpeechMsg::End);
    assert!(matches!(a, SpeechAction::Speak(ref t) if t == "two"));
    assert!(s.queue.is_empty());
    let (s, a) = speech_step(s, SpeechMsg::End);
    assert!(matches!(a, SpeechAction::Nothing));
    assert!(!s.playing);
}

#[test]
fn speech_without_voice_keeps_text_only_for_a_chosen_voice() {
    let s = SpeechState { playing: false, queue: VecDeque::new(), retry: vec![] };
    let (s, _) = speech_step(s, SpeechMsg::Play { text: "\"x\"".to_string(), voice: false, stored_voice: true });
    assert_eq!(s.retry, vec!["x".to_string()]);
    let (s, _) = speech_step(s, SpeechMsg::Play { text: "y".to_string(), voice: false, stored_voice: false });
    assert_eq!(s.retry, vec!["x".to_string()]);
    assert!(!s.playing);
}

#[test]
fn narrator_is_no_character() {
    assert_eq!(picked_character("narrator".to_string()), None);
    assert_eq!(picked_character("doggie".to_string()), Some("doggie".to_string()));
}

#[test]
fn scanned_code_joins_world() {
    let id = Uuid::from_u128(7);
    assert_eq!(scanned_join(CharacterQRJson::new(Some("kitie".to_string()), id)), (Some("kitie".to_string()), true, id));
    assert_eq!(scanned_join(CharacterQRJson::new(None, id)), (None, false, id));
}

#[test]
fn intro_steps() {
    let (a, r) = intro_step(IntroMsg::QRCodeScanned(ScanOutcome::NotBase64));
    assert!(!r);
    assert!(matches!(a.as_slice(), [IntroAction::ActivateScanner]));
    let (a, _) = intro_step(IntroMsg::QRCodeScanned(ScanOutcome::NotDataUrl));
    assert!(a.is_empty());
    let id = Uuid::from_u128(3);
    let (a, r) = intro_step(IntroMsg::WorldPicked(id, "narrator".to_string(), false));
    assert!(r);
    assert!(matches!(a.as_slice(), [IntroAction::CharacterScanned(None, false, i)] if *i == id));
    let (a, r) = intro_step(IntroMsg::FileReadFailed);
    assert!(r);
    assert!(matches!(a.as_slice(), [IntroAction::LoadFailed(FailedLoadState::NotJson)]));
}

#[test]
fn camera_choice() {
    let devices = vec!["front".to_string(), "back".to_string()];
    assert_eq!(pick_camera(Some("back".to_string()), &devices), Some("back".to_string()));
    assert_eq!(pick_camera(Some("gone".to_string()), &devices), Some("front".to_string()));
    assert_eq!(pick_camera(None, &devices), Some("front".to_string()));
    assert_eq!(pick_camera(Some("back".to_string()), &vec![]), None);
}

#[test]
fn find_event_by_value() {
    let evs = events();
    assert_eq!(find_event(&evs, &pick_cake().dump()), Some(1));
    assert_eq!(find_event(&evs, &Json::Null), None);
}

#[test]
fn owner_triggers_requested_event() {
    let stored = story().dump();
    let id = Uuid::from_u128(42);
    let answer = answer_trigger_request(Some(stored), story(), id, pick_cake().dump(), events());
    let (world, dump, count) = answer.expect("the event can be triggered");
    assert_eq!(count, 1);
    assert_eq!(*world.id(), id);
    assert!(pick_cake().matches(&dump));
    let cake = world.item(&"cake".to_string()).unwrap();
    assert_eq!(cake.state(), &ItemState::Owned("doggie".to_string()));
}

#[test]
fn owner_refuses_what_cannot_be_triggered() {
    let id = Uuid::from_u128(42);
    assert!(answer_trigger_request(None, story(), id, pick_cake().dump(), events()).is_none());
    assert!(answer_trigger_request(Some(story().dump()), story(), id, give_cake().dump(), events()).is_none());
    assert!(answer_trigger_request(Some(story().dump()), story(), id, Json::Null, events()).is_none());
    assert!(answer_trigger_request(Some(Json::Null), story(), id, pick_cake().dump(), events()).is_none());
}

#[test]
fn only_owner_resets_and_edits() {
    let (s, a, r) = app_step(playing(false), AppMsg::Reset, events());
    assert!(!r && a.is_empty());
    let (s, a, r) = app_step(s, AppMsg::ShowEditor(true), events());
    assert!(!r && a.is_empty() && !s.show_editor);
    let (s, a, r) = app_step(playing(true), AppMsg::Reset, events());
    assert!(r && matches!(a.as_slice(), [AppAction::ResetWorld(_)]));
    let (s, _, r) = app_step(s, AppMsg::ShowEditor(true), events());
    assert!(r && s.show_editor);
}

#[test]
fn answers_matched_by_message_id() {
    let mut s = playing(false);
    s.request_id = Some(5);
    let (s, a, _) = app_step(s, AppMsg::GetWorldResponse(6, Some(story().dump())), events());
    assert!(a.is_empty());
    assert_eq!(s.request_id, Some(5));
    let (s, a, _) = app_step(s, AppMsg::GetWorldResponse(5, Some(story().dump())), events());
    assert_eq!(s.request_id, None);
    assert!(!s.loading);
    assert!(matches!(a.as_slice(), [AppAction::CancelTimeout, AppAction::LoadFetchedWorld(_, _, c, false)] if c == "doggie"));
    let mut s = s;
    s.request_id = Some(9);
    let (s, a, _) = app_step(s, AppMsg::GetWorldResponse(9, None), events());
    assert!(matches!(a.as_slice(), [AppAction::CancelTimeout, AppAction::Leave]));
    assert_eq!(s.request_id, None);
}

#[test]
fn requests_answered_only_by_owner() {
    let id = Uuid::from_u128(1);
    let (_, a, _) = app_step(playing(false), AppMsg::GetWorldRequest(3, id), events());
    assert!(a.is_empty());
    let (_, a, _) = app_step(playing(true), AppMsg::TriggerEventRequest(3, id, Json::Null), events());
    assert!(matches!(a.as_slice(), [AppAction::AnswerTrigger(3, i, Json::Null)] if *i == id));
}

#[test]
fn trigger_event_data_asks_the_owner() {
    let (s, a, r) = app_step(playing(false), AppMsg::TriggerEventData(pick_cake().dump()), events());
    assert!(!r && s.loading);
    assert!(matches!(a.as_slice(), [AppAction::TriggerWs(_, _)]));
    let (_, a, _) = app_step(playing(false), AppMsg::TriggerEventData(give_cake().dump()), events());
    assert!(matches!(a.as_slice(), [AppAction::Warn(_), AppAction::TriggerWs(_, _)]));
    let (s, a, _) = app_step(state(), AppMsg::TriggerEventData(pick_cake().dump()), events());
    assert!(a.is_empty() && !s.loading);
}

#[test]
fn world_update_read_aloud_when_changed() {
    let mut s = state();
    s.character = Some("doggie".to_string());
    let (s, a, r) = app_step(s, AppMsg::WorldUpdateFetched(story(), false), events());
    assert!(r);
    assert_eq!(s.owned, Some(false));
    assert!(matches!(a.as_slice(), [AppAction::PlayText(_)]));
    let (_, a, _) = app_step(s, AppMsg::WorldUpdateFetched(story(), false), events());
    assert!(a.is_empty());
}

#[test]
fn ws_get_world_waits_for_answer() {
    let id = Uuid::from_u128(11);
    let (s, a, r) = app_step(state(), AppMsg::WsGetWorld(id, 12), events());
    assert!(r && s.loading);
    assert_eq!(s.request_id, Some(12));
    assert_eq!(s.world_id, Some(id));
    assert!(matches!(a.as_slice(), [AppAction::StartTimeout, AppAction::QueueGetWorld(12, _), AppAction::Flush]));
    let (s, _, _) = app_step(s, AppMsg::WsFailed, events());
    assert!(!s.loading && s.ws_request_failed);
}

#[test]
fn leave_forgets_the_world() {
    let (s, a, r) = app_step(playing(true), AppMsg::Leave, events());
    assert!(r);
    assert!(s.world.is_none() && s.character.is_none() && s.owned.is_none());
    assert!(matches!(a.as_slice(), [AppAction::ClearStorage, AppAction::ClearMessages, AppAction::Disconnect]));
}

#[test]
fn restore_character_joins_world() {
    let id = Uuid::from_u128(21);
    let (s, a, r) = app_step(state(), AppMsg::TriggerRestoreCharacter(Some("kitie".to_string()), true, id, story()), events());
    assert!(r && s.fixed_character && s.loading);
    assert_eq!(s.world_id, Some(id));
    assert_eq!(a.len(), 6);
    assert!(matches!(a[4], AppAction::LookUpWorld(i) if i == id));
    let (s, a, r) = app_step(state(), AppMsg::TriggerRestoreCharacter(Some("nobody".to_string()), false, id, story()), events());
    assert!(!r && s.world_id.is_none());
    assert_eq!(a.len(), 2);
}

#[test]
fn event_notification_read_unless_no_read() {
    let (s, a, r) = app_step(playing(false), AppMsg::EventNotification(pick_cake().dump(), 4), events());
    assert!(!r);
    assert_eq!(s.event_count, 4);
    assert!(matches!(a.as_slice(), [AppAction::StoreEvent(_, 4, _), AppAction::HideQr, AppAction::GetWorldWs(_), AppAction::Notify(_), AppAction::PlayText(_)]));
    let (_, a, _) = app_step(playing(false), AppMsg::EventNotification(give_cake().dump(), 5), events());
    assert_eq!(a.len(), 3);
}

#[test]
fn load_world_from_file() {
    let (s, a, r) = app_step(state(), AppMsg::LoadWorld(story().dump(), story()), events());
    assert!(r && s.load_failed.is_none());
    assert!(matches!(a.as_slice(), [AppAction::StoreNewWorld(_)]));
    let (s, a, _) = app_step(state(), AppMsg::LoadWorld(Json::Null, story()), events());
    assert_eq!(s.load_failed, Some(FailedLoadState::WrongJson));
    assert!(a.is_empty());
}

#[test]
fn manager_handle_keeps_worlds_with_clients() {
    let mut m: WsManager<u8> = WsManager::new();
    let id = m.handle(ManagerMsg::Connect { world_id: 1, addr: 9 }).unwrap();
    assert_eq!(m.recipient(1, id), Some(&9));
    assert_eq!(m.handle(ManagerMsg::Disconnect { world_id: 1, id }), None);
    assert!(m.recipients(1).is_empty());
    assert_eq!(m.recipient(1, id), None);
}
