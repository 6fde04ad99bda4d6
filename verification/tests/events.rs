use pabitell::conditions::{CharacterInSceneCheck, Condition, HasItemCheck};
use pabitell::data::{GiveData, MoveData, PickData, TalkData, UseItemData, VoidData};
use pabitell::events::{Event, Give, Move, Pick, Talk, UseItem, Void};
use pabitell::json::Json;
use pabitell::narrator::{available_events, available_events_sorted};
use pabitell::updates::{AssignItemChange, Change, MoveCharacterChange};
use pabitell::world::{GeoLocation, SimpleCharacter, SimpleItem, SimpleScene, World, WorldBuilder};
use pabitell::{Character, Item, ItemState};

#[test]
fn kinds() {
    let pick = Pick::new("pick", PickData::new("character", "item"));
    assert_eq!(pick.kind(), "Pick");

    let give = Give::new("give", GiveData::new("from_character", "to_character", "item"));
    assert_eq!(give.kind(), "Give");

    let move_event = Move::new("move", MoveData::new("character", "to_scene"));
    assert_eq!(move_event.kind(), "Move");

    let use_item = UseItem::new("use_item", UseItemData::new("character", "item"));
    assert_eq!(use_item.kind(), "UseItem");

    let void = Void::new("void", VoidData::new("character", None));
    assert_eq!(void.kind(), "Void");

    let talk = Talk::new("talk", TalkData::new("character", "scene", 0));
    assert_eq!(talk.kind(), "Talk");
}

fn story() -> World {
    let mut world = WorldBuilder::new("story")
        .language("en-US")
        .character(SimpleCharacter::new("doggie", vec![]))
        .character(SimpleCharacter::new("kitie", vec![]))
        .item(SimpleItem::new("cake", vec!["food".to_string()]))
        .item(SimpleItem::new("milk", vec!["food".to_string()]))
        .scene(SimpleScene::new("kitchen", vec![]))
        .scene(SimpleScene::with_dialog("garden", vec![]))
        .build()
        .unwrap();
    assert!(world.set_character_scene(&"doggie".to_string(), Some("kitchen".to_string())));
    assert!(world.set_character_scene(&"kitie".to_string(), Some("kitchen".to_string())));
    assert!(world.set_item_state(&"cake".to_string(), ItemState::InScene("kitchen".to_string())));
    assert!(world.set_item_state(&"milk".to_string(), ItemState::InScene("garden".to_string())));
    world
}

fn pick_cake() -> Event {
    let mut pick = Pick::new("pick_cake", PickData::new("doggie", "cake"));
    pick.set_condition(CharacterInSceneCheck::cond("doggie".to_string(), Some("kitchen".to_string())));
    pick.set_world_updates(vec![Change::AssignItem(AssignItemChange::new(
        "cake".to_string(),
        ItemState::Owned("doggie".to_string()),
    ))]);
    Event::Pick(pick)
}

fn go_garden() -> Event {
    let mut go = Move::new("go_garden", MoveData::new("kitie", "garden"));
    go.set_world_updates(vec![Change::MoveCharacter(MoveCharacterChange::new(
        "kitie".to_string(),
        Some("garden".to_string()),
    ))]);
    Event::Move(go)
}

fn give_cake() -> Event {
    let mut give = Give::new("give_cake", GiveData::new("doggie", "kitie", "cake"));
    give.set_condition(HasItemCheck::cond("doggie".to_string(), "cake".to_string()));
    Event::Give(give)
}

#[test]
fn set_initiator_then_initiator() {
    let mut event = give_cake();
    assert_eq!(event.initiator(), "kitie");
    event.set_initiator("doggie".to_string());
    assert_eq!(event.initiator(), "doggie");
    let mut talk = Event::Talk(Talk::new("talk", TalkData::new("kitie", "garden", 1)));
    talk.set_initiator("doggie".to_string());
    assert_eq!(talk.initiator(), "doggie");
}

#[test]
fn items_and_characters_of_events() {
    assert_eq!(give_cake().items(), vec!["cake".to_string()]);
    assert_eq!(give_cake().characters(), vec!["doggie".to_string(), "kitie".to_string()]);
    assert_eq!(go_garden().items(), Vec::<String>::new());
    let void = Event::Void(Void::new("void", VoidData::new("kitie", Some("milk"))));
    assert_eq!(void.items(), vec!["milk".to_string()]);
}

#[test]
fn perform_changes_world_and_counts() {
    let mut world = story();
    let mut event = pick_cake();
    assert!(event.can_be_triggered(&world));
    assert!(event.perform(&mut world));
    assert_eq!(world.event_count(), 1);
    let cake = world.item(&"cake".to_string()).unwrap();
    assert_eq!(cake.state(), &ItemState::Owned("doggie".to_string()));
    assert_eq!(cake.last_event(), Some(0));
}

#[test]
fn perform_refused_keeps_world() {
    let mut world = story();
    let mut event = give_cake();
    assert!(!event.can_be_triggered(&world));
    assert!(!event.perform(&mut world));
    assert_eq!(world.event_count(), 0);
    let cake = world.item(&"cake".to_string()).unwrap();
    assert_eq!(cake.state(), &ItemState::InScene("kitchen".to_string()));
}

#[test]
fn try_trigger_failing_change_keeps_world() {
    let mut world = story();
    let mut pick = Pick::new("pick_plate", PickData::new("doggie", "plate"));
    pick.set_world_updates(vec![
        Change::MoveCharacter(MoveCharacterChange::new("doggie".to_string(), Some("garden".to_string()))),
        Change::AssignItem(AssignItemChange::new("plate".to_string(), ItemState::Unassigned)),
    ]);
    let mut event = Event::Pick(pick);
    assert!(!event.try_trigger(&mut world));
    assert_eq!(world.event_count(), 0);
    assert_eq!(world.character(&"doggie".to_string()).unwrap().scene(), &Some("kitchen".to_string()));

    let mut ok = go_garden();
    assert!(ok.try_trigger(&mut world));
    assert_eq!(world.event_count(), 1);
    assert_eq!(world.character(&"kitie".to_string()).unwrap().scene(), &Some("garden".to_string()));
}

#[test]
fn dump_and_matches() {
    let event = pick_cake();
    let dumped = event.dump();
    assert!(event.matches(&dumped));
    assert!(!give_cake().matches(&dumped));
    assert!(!event.matches(&Json::Null));
    let reordered = Json::Object(vec![
        ("name".to_string(), Json::Str("pick_cake".to_string())),
        ("item".to_string(), Json::Str("cake".to_string())),
        ("character".to_string(), Json::Str("doggie".to_string())),
    ]);
    assert!(event.matches(&reordered));
    let extra = Json::Object(vec![
        ("name".to_string(), Json::Str("pick_cake".to_string())),
        ("item".to_string(), Json::Str("cake".to_string())),
        ("character".to_string(), Json::Str("doggie".to_string())),
        ("scene".to_string(), Json::Null),
    ]);
    assert!(!event.matches(&extra));
    let twice = Json::Object(vec![
        ("name".to_string(), Json::Str("pick_cake".to_string())),
        ("name".to_string(), Json::Str("pick_cake".to_string())),
        ("item".to_string(), Json::Str("cake".to_string())),
        ("character".to_string(), Json::Str("doggie".to_string())),
    ]);
    assert!(!event.matches(&twice));
    assert!(dumped.same(&Json::Object(vec![
        ("character".to_string(), Json::Str("doggie".to_string())),
        ("item".to_string(), Json::Str("cake".to_string())),
        ("name".to_string(), Json::Str("pick_cake".to_string())),
    ])));
}

#[test]
fn texts_of_events() {
    let world = story();
    let event = pick_cake();
    assert_eq!(event.msg_base(&world), "story-doggie_pick_cake");
    assert_eq!(event.action_text(&world), "story-doggie_pick_cake-action");
    assert_eq!(event.success_text(&world), "story-doggie_pick_cake-success");
    assert_eq!(event.fail_text(&world), "story-doggie_pick_cake-fail");
    let give = give_cake();
    assert_eq!(give.msg_base(&world), "story-doggie_give_cake_to_kitie");
    let talk = Event::Talk(Talk::new("talk", TalkData::new("kitie", "garden", 12)));
    assert_eq!(talk.msg_base(&world), "story-garden_kitie_says-12");
    let void = Event::Void(Void::new("void", VoidData::new("kitie", None)));
    assert_eq!(void.msg_base(&world), "story-kitie_void_");
}

#[test]
fn available_events_keep_order() {
    let world = story();
    let events = vec![give_cake(), go_garden(), pick_cake()];
    let available = available_events(events, &world);
    let names: Vec<&str> = available.iter().map(|e| e.name()).collect();
    assert_eq!(names, vec!["go_garden", "pick_cake"]);
}

#[test]
fn sort_key_of_event() {
    let mut world = story();
    let mut event = pick_cake();
    assert_eq!(event.sort_key(&world), (0, "cake".to_string(), "doggie".to_string(), "pick_cake".to_string()));
    assert!(event.perform(&mut world));
    let mut again = pick_cake();
    again.set_condition(Condition::default());
    assert!(again.perform(&mut world));
    assert_eq!(again.sort_key(&world).0, 1);
    assert_eq!(give_cake().sort_key(&world), (1, "cake".to_string(), "kitie".to_string(), "give_cake".to_string()));
}

#[test]
fn available_events_sorted_by_key() {
    let mut world = story();
    let mut first = pick_cake();
    assert!(first.perform(&mut world));
    // cake was in event 0; go_garden has no items; give_cake is now possible
    let events = vec![give_cake(), go_garden(), pick_cake()];
    let sorted = available_events_sorted(events, &world);
    let names: Vec<&str> = sorted.iter().map(|e| e.name()).collect();
    assert_eq!(names, vec!["go_garden", "pick_cake", "give_cake"]);
}


#[test]
fn geo_location_of_moves() {
    let mut world = story();
    assert!(go_garden().geo_location(&world).is_none());
    assert!(pick_cake().geo_location(&world).is_none());
    let place = GeoLocation::new(Json::Number(50), Json::Number(14)).unwrap();
    let mut garden = SimpleScene::with_dialog("garden", vec![]);
    garden.set_geo_location(Some(place));
    let dumped = Json::Object(vec![(
        "scenes".to_string(),
        Json::Object(vec![("garden".to_string(), garden.dump())]),
    )]);
    assert_eq!(world.load(dumped), Ok(()));
    let (character, scene, loc) = go_garden().geo_location(&world).unwrap();
    assert_eq!(character, "kitie");
    assert_eq!(scene, Some("garden".to_string()));
    assert!(loc.x().same(&Json::Number(50)));
}
