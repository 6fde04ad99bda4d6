use pabitell::connection::HEARTBEAT_INTERVAL_MS;
use pabitell::data::{MoveData, PickData, TalkData, VoidData};
use pabitell::events::{Event, Move, Pick, Talk, Void};
use pabitell::json::Json;
use pabitell::webapp::actions::{event_card, event_picture, item_used, with_item};
use pabitell::webapp::messages::{MessageItem, MessageKind, MessageList, MessagesMsg};
use pabitell::webapp::qrscanner::{scanner_step, ScannerAction, ScannerMsg, ScannerState};
use pabitell::webapp::speech::{set_voice, starts_with, update_voices, Voice};
use pabitell::webapp::websocket_client::{ws_client_step, WsClientAction, WsClientMsg, WsClientState};
use pabitell::world::{SimpleCharacter, SimpleScene, WorldBuilder};
use uuid::Uuid;

#[test]
fn heartbeat_every_second() {
    assert_eq!(HEARTBEAT_INTERVAL_MS, 1000);
}

#[test]
fn pictures_of_events() {
    let pick = Event::Pick(Pick::new("pick", PickData::new("doggie", "cake")));
    assert_eq!(event_picture(&pick), Some("images/cake.svg".to_string()));
    let go = Event::Move(Move::new("go", MoveData::new("doggie", "garden")));
    assert_eq!(event_picture(&go), Some("images/garden.svg".to_string()));
    let talk = Event::Talk(Talk::new("talk", TalkData::new("doggie", "garden", 0)));
    assert_eq!(event_picture(&talk), Some("images/comment.svg".to_string()));
    let void = Event::Void(Void::new("void", VoidData::new("doggie", None)));
    assert_eq!(event_picture(&void), None);
}

#[test]
fn event_cards() {
    let world = WorldBuilder::new("story")
        .character(SimpleCharacter::new("doggie", vec![]))
        .scene(SimpleScene::new("garden", vec![]))
        .build()
        .unwrap();
    let talk = Event::Talk(Talk::new("talk", TalkData::new("doggie", "garden", 0)));
    let card = event_card(3, &talk, &world, true);
    assert_eq!(card.idx, 3);
    assert!(card.self_triggering);
    assert!(card.show_qr);
    assert_eq!(card.initiator, "doggie");
    assert!(card.geo_location.is_none());
    assert!(talk.matches(&card.data));
    let go = Event::Move(Move::new("go", MoveData::new("doggie", "garden")));
    let card = event_card(0, &go, &world, false);
    assert!(!card.self_triggering && !card.show_qr);
    assert!(card.geo_location.is_none());
}

#[test]
fn scanned_item_is_set() {
    let data = Json::Object(vec![("item".to_string(), Json::Str("old".to_string())), ("name".to_string(), Json::Str("use".to_string()))]);
    let expected = Json::Object(vec![("name".to_string(), Json::Str("use".to_string())), ("item".to_string(), Json::Str("key".to_string()))]);
    assert!(with_item(data, "key".to_string()).same(&expected));
    let alone = Json::Object(vec![("item".to_string(), Json::Str("key".to_string()))]);
    assert!(with_item(Json::Null, "key".to_string()).same(&alone));
    assert!(item_used("key".to_string(), None).is_none());
}

fn message(text: &str) -> MessageItem {
    MessageItem::new("event".to_string(), text.to_string(), MessageKind::Success, None)
}

#[test]
fn message_list() {
    let mut list = MessageList::new(true);
    let (render, note) = list.step(MessagesMsg::AddMessage(message("hello")));
    assert!(render);
    assert_eq!(note, Some(("event".to_string(), "hello".to_string())));
    assert_eq!(list.idx, 1);
    assert!(list.messages.contains_key(&1));
    let (render, _) = list.step(MessagesMsg::Close(7));
    assert!(!render);
    let (render, _) = list.step(MessagesMsg::Close(1));
    assert!(render);
    assert!(list.messages.is_empty());
    let mut quiet = MessageList::new(false);
    let (_, note) = quiet.step(MessagesMsg::AddMessage(message("x")));
    assert_eq!(note, None);
    let (render, _) = quiet.step(MessagesMsg::NotificationsGranted);
    assert!(!render && quiet.notifications_allowed);
    let (render, _) = quiet.step(MessagesMsg::Clear);
    assert!(render && quiet.messages.is_empty());
}

#[test]
fn websocket_client_queues_until_connected() {
    let s = WsClientState { world_id: None, connected: false, queued: vec![] };
    let id = Uuid::from_u128(5);
    let (s, a, r) = ws_client_step(s, WsClientMsg::Connect(id, "ws://x/".to_string()));
    assert!(r && s.world_id == Some(id));
    assert!(matches!(a.as_slice(), [WsClientAction::Connecting, WsClientAction::Open(u)] if u == "ws://x/"));
    let (s, a, _) = ws_client_step(s, WsClientMsg::SendMessage("one".to_string()));
    assert!(a.is_empty());
    let (s, _, _) = ws_client_step(s, WsClientMsg::SendMessage("two".to_string()));
    assert_eq!(s.queued, vec!["one".to_string(), "two".to_string()]);
    let (s, a, r) = ws_client_step(s, WsClientMsg::SetSender(true));
    assert!(r && s.connected && s.queued.is_empty());
    assert!(matches!(a.as_slice(), [WsClientAction::Connected, WsClientAction::Resend(x), WsClientAction::Resend(y), WsClientAction::CancelReconnect] if x == "one" && y == "two"));
    let (s, a, _) = ws_client_step(s, WsClientMsg::SendMessage("three".to_string()));
    assert!(!s.connected);
    assert!(matches!(a.as_slice(), [WsClientAction::Transmit(t)] if t == "three"));
    let (s, a, _) = ws_client_step(s, WsClientMsg::Disconnected);
    assert!(matches!(a.as_slice(), [WsClientAction::Disconnected, WsClientAction::PlanReconnect(i)] if *i == id));
    let (s, a, r) = ws_client_step(s, WsClientMsg::Disconnect);
    assert!(!r && s.world_id.is_none());
    assert!(matches!(a.as_slice(), [WsClientAction::Disconnected]));
}

fn scanner() -> ScannerState {
    ScannerState {
        cameras_loaded: false,
        cameras: vec![],
        active: false,
        current_device_id: None,
        scanning: false,
        camera_available: true,
        show_text_input: false,
    }
}

#[test]
fn scanner_steps() {
    let (s, a, _) = scanner_step(scanner(), ScannerMsg::CamerasLoaded(vec!["front".to_string(), "back".to_string()], Some("back".to_string())));
    assert!(s.cameras_loaded);
    assert!(matches!(a.as_slice(), [ScannerAction::SwitchCamera(Some(d))] if d == "back"));
    let (s, a, _) = scanner_step(s, ScannerMsg::SwitchCamera(Some("back".to_string())));
    assert_eq!(s.current_device_id, Some("back".to_string()));
    assert!(matches!(a.as_slice(), [ScannerAction::StoreDevice(Some(_)), ScannerAction::TurnOffCamera, ScannerAction::TurnOnCamera(_)]));
    let (s, _, r) = scanner_step(s, ScannerMsg::CameraSwitched);
    assert!(!r && s.scanning);
    let (s, a, r) = scanner_step(s, ScannerMsg::Picture(None));
    assert!(!r && a.is_empty() && s.scanning);
    let (s, a, r) = scanner_step(s, ScannerMsg::Picture(Some("code".to_string())));
    assert!(r && !s.active && !s.scanning);
    assert!(matches!(a.as_slice(), [ScannerAction::Found(c), ScannerAction::StopScanning] if c == "code"));
    let (s, a, _) = scanner_step(s, ScannerMsg::Active(true));
    assert!(matches!(a.as_slice(), [ScannerAction::SwitchCamera(Some(d))] if d == "back"));
    let (s, _, _) = scanner_step(s, ScannerMsg::ToggleTextInput);
    let (s, a, _) = scanner_step(s, ScannerMsg::TextInput("typed".to_string()));
    assert!(!s.show_text_input);
    assert!(matches!(a.as_slice(), [ScannerAction::Found(_), ScannerAction::ClearInput]));
    let (s, _, _) = scanner_step(s, ScannerMsg::CameraNotAvailable);
    assert!(!s.camera_available);
}

fn voice(name: &str, lang: &str) -> Voice {
    Voice { name: name.to_string(), lang: lang.to_string() }
}

#[test]
fn voices_of_the_language() {
    assert!(starts_with("cs-CZ", "cs"));
    assert!(!starts_with("cs", "cs-CZ"));
    assert!(starts_with("anything", ""));
    let all = vec![voice("Zuzana", "cs-CZ"), voice("Alex", "en-US"), voice("Iveta", "cs-CZ")];
    let (kept, chosen, held, replay) = update_voices(all, "cs", Some("Iveta".to_string()), None, vec!["wait".to_string()]);
    assert_eq!(kept.len(), 2);
    assert_eq!(kept[1].name, "Iveta");
    assert_eq!(chosen, Some(1));
    assert!(held.is_empty());
    assert_eq!(replay, vec!["wait".to_string()]);
    let (_, chosen, held, replay) = update_voices(vec![voice("Alex", "en-US")], "cs", Some("Iveta".to_string()), None, vec!["wait".to_string()]);
    assert_eq!(chosen, None);
    assert_eq!(held, vec!["wait".to_string()]);
    assert!(replay.is_empty());
    let voices = vec![voice("Zuzana", "cs-CZ")];
    assert_eq!(set_voice(&voices, Some(0)), (Some(0), Some("Zuzana".to_string())));
    assert_eq!(set_voice(&voices, None), (None, None));
}
