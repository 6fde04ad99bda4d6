use pabitell::json::Json;
use pabitell::world::{GeoLocation, SimpleCharacter, SimpleItem, SimpleScene, WorldBuilder};
use pabitell::{Character, Clean, Item, ItemState, LoadError, Named, Tagged};

fn s(text: &str) -> String {
    text.to_string()
}

#[test]
fn linear() {
    let world = WorldBuilder::new("test_world")
        .character(SimpleCharacter::new("test_character", vec![]))
        .character(SimpleCharacter::new("test_character", vec![]))
        .item(SimpleItem::new("test_item", vec![]))
        .item(SimpleItem::new("test_item", vec![]))
        .item(SimpleItem::new("test_item", vec![]))
        .item(SimpleItem::new("test_item", vec![]))
        .scene(SimpleScene::new("test_scene", vec![]))
        .scene(SimpleScene::new("test_scene", vec![]))
        .scene(SimpleScene::new("test_scene", vec![]));

    assert!(world.build().is_ok());
}

#[test]
fn build_without_language_is_told_in_english() {
    let world = WorldBuilder::new("test_world").character(SimpleCharacter::new("a", vec![])).build().unwrap();
    assert_eq!(world.lang(), "en-US");
    assert_eq!(world.available_languages(), vec!["en-US".to_string()]);
}

#[test]
fn build_keeps_last_of_same_name_and_first_language() {
    let world = WorldBuilder::new("story")
        .language("cs")
        .language("en-US")
        .character(SimpleCharacter::new("a", vec![s("first")]))
        .character(SimpleCharacter::new("a", vec![s("second")]))
        .build()
        .unwrap();
    assert_eq!(world.lang(), "cs");
    assert_eq!(world.available_languages(), vec![s("cs"), s("en-US")]);
    assert_eq!(world.characters().len(), 1);
    assert_eq!(world.character(&s("a")).unwrap().get_tags(), vec![s("second")]);
    assert_eq!(world.name(), "story");
    assert_eq!(world.version(), 1);
}

#[test]
fn set_lang_only_to_available() {
    let mut world = WorldBuilder::new("story").language("en-US").language("cs").build().unwrap();
    assert!(world.set_lang("cs"));
    assert_eq!(world.lang(), "cs");
    assert!(!world.set_lang("de"));
    assert_eq!(world.lang(), "cs");
    assert_eq!(world.get_message("story-title"), "story-title");
}

#[test]
fn setters_on_missing_parts_fail() {
    let mut world = WorldBuilder::new("story")
        .language("en-US")
        .item(SimpleItem::new("cake", vec![]))
        .scene(SimpleScene::new("kitchen", vec![]))
        .build()
        .unwrap();
    assert!(!world.set_item_state(&s("plate"), ItemState::Unassigned));
    assert!(!world.set_character_scene(&s("nobody"), None));
    assert!(!world.set_item_last_event(&s("plate"), 3));
    assert!(!world.next_scene_dialog(&s("garden")));
    assert!(world.set_item_last_event(&s("cake"), 3));
    assert_eq!(world.item(&s("cake")).unwrap().last_event(), Some(3));
    // a scene without dialogs stays without
    assert!(world.next_scene_dialog(&s("kitchen")));
    assert_eq!(world.scene(&s("kitchen")).unwrap().dialog(), None);
}

#[test]
fn clean_world_resets_items_scenes_and_count() {
    let mut world = WorldBuilder::new("story")
        .language("en-US")
        .character(SimpleCharacter::new("doggie", vec![]))
        .item(SimpleItem::new("cake", vec![]))
        .scene(SimpleScene::with_dialog("garden", vec![]))
        .build()
        .unwrap();
    assert!(world.set_item_state(&s("cake"), ItemState::Owned(s("doggie"))));
    assert!(world.set_item_last_event(&s("cake"), 0));
    assert!(world.next_scene_dialog(&s("garden")));
    assert!(world.set_character_scene(&s("doggie"), Some(s("garden"))));
    world.event_inc();
    assert_eq!(world.event_count(), 1);
    assert_eq!(world.scene(&s("garden")).unwrap().dialog(), Some(1));

    world.clean_world();
    assert_eq!(world.event_count(), 0);
    assert_eq!(world.item(&s("cake")).unwrap().state(), &ItemState::Unassigned);
    assert_eq!(world.item(&s("cake")).unwrap().last_event(), None);
    assert_eq!(world.scene(&s("garden")).unwrap().dialog(), Some(0));
    assert_eq!(world.character(&s("doggie")).unwrap().scene(), &Some(s("garden")));

    // a second clean changes nothing more
    world.clean_world();
    assert_eq!(world.scene(&s("garden")).unwrap().dialog(), Some(0));
    assert_eq!(world.event_count(), 0);
}

#[test]
fn ids_can_be_set_and_randomized() {
    let mut world = WorldBuilder::new("story").language("en").build().unwrap();
    let id = uuid::Uuid::from_u128(7);
    world.set_id(id);
    assert_eq!(world.id(), &id);
    world.randomize_id();
    assert_ne!(world.id(), &id);
}

#[test]
fn duplicate_is_equal_copy() {
    let mut world = WorldBuilder::new("story")
        .language("en")
        .item(SimpleItem::new("cake", vec![s("food")]))
        .build()
        .unwrap();
    assert!(world.set_item_last_event(&s("cake"), 5));
    let copy = world.duplicate();
    assert_eq!(copy.id(), world.id());
    assert_eq!(copy.item(&s("cake")).unwrap().last_event(), Some(5));
    assert_eq!(copy.item(&s("cake")).unwrap().name(), "cake");
}

#[test]
fn item_state_dump_load_roundtrip() {
    for state in [ItemState::Owned(s("doggie")), ItemState::InScene(s("kitchen")), ItemState::Unassigned] {
        let mut loaded = ItemState::Unassigned;
        assert_eq!(loaded.load(state.dump()), Ok(()));
        assert_eq!(loaded, state);
    }
}

#[test]
fn item_state_dump_format() {
    let json = ItemState::Owned(s("doggie")).dump();
    assert!(json.same(&Json::Object(vec![
        (s("kind"), Json::Str(s("character"))),
        (s("value"), Json::Str(s("doggie"))),
    ])));
    assert!(ItemState::Unassigned.dump().same(&Json::Null));
}

#[test]
fn item_state_load_errors() {
    let mut state = ItemState::Unassigned;
    assert_eq!(state.load(Json::Object(vec![(s("kind"), Json::Str(s("scene")))])), Err(LoadError::MissingValue));
    assert_eq!(
        state.load(Json::Object(vec![(s("value"), Json::Number(1)), (s("kind"), Json::Str(s("scene")))])),
        Err(LoadError::MismatchedValue)
    );
    assert_eq!(state.load(Json::Object(vec![(s("value"), Json::Str(s("x")))])), Err(LoadError::MissingKind));
    assert_eq!(
        state.load(Json::Object(vec![(s("value"), Json::Str(s("x"))), (s("kind"), Json::Str(s("box")))])),
        Err(LoadError::UnknownKind)
    );
    assert_eq!(state.load(Json::Bool(true)), Err(LoadError::NotItemState));
    assert_eq!(state, ItemState::Unassigned);
}

#[test]
fn item_dump_load_roundtrip() {
    let mut world = WorldBuilder::new("story")
        .language("en")
        .character(SimpleCharacter::new("doggie", vec![]))
        .item(SimpleItem::new("cake", vec![]))
        .build()
        .unwrap();
    assert!(world.set_item_state(&s("cake"), ItemState::Owned(s("doggie"))));
    assert!(world.set_item_last_event(&s("cake"), 4));
    let dumped = world.item(&s("cake")).unwrap().dump();
    let mut fresh = SimpleItem::new("cake", vec![]);
    assert_eq!(fresh.load(dumped), Ok(()));
    assert_eq!(fresh.state(), &ItemState::Owned(s("doggie")));
    assert_eq!(fresh.last_event(), Some(4));
}

#[test]
fn item_load_errors() {
    let mut item = SimpleItem::new("cake", vec![]);
    assert_eq!(item.load(Json::Null), Err(LoadError::WrongItemFormat));
    assert_eq!(item.load(Json::Object(vec![(s("state"), Json::Null)])), Err(LoadError::WrongItemFormat));
    assert_eq!(
        item.load(Json::Object(vec![(s("state"), Json::Null), (s("last_event"), Json::Str(s("x")))])),
        Err(LoadError::WrongItemFormat)
    );
    assert_eq!(item.load(Json::Object(vec![(s("last_event"), Json::Null)])), Err(LoadError::WrongItemFormat));
}

#[test]
fn item_clean() {
    let mut item = SimpleItem::new("cake", vec![]);
    item.set_state(ItemState::InScene(s("kitchen")));
    item.set_last_event(2);
    item.clean();
    assert_eq!(item.state(), &ItemState::Unassigned);
    assert_eq!(item.last_event(), None);
}

#[test]
fn scene_dump_load_roundtrip() {
    let mut scene = SimpleScene::with_dialog("garden", vec![]);
    scene.next_dialog();
    scene.next_dialog();
    let dumped = scene.dump();
    let mut fresh = SimpleScene::with_dialog("garden", vec![]);
    assert_eq!(fresh.load(dumped), Ok(()));
    assert_eq!(fresh.dialog(), Some(2));

    let plain = SimpleScene::new("kitchen", vec![]);
    let mut fresh = SimpleScene::new("kitchen", vec![]);
    assert_eq!(fresh.load(plain.dump()), Ok(()));
    assert_eq!(fresh.dialog(), None);
}

#[test]
fn scene_load_errors() {
    let mut scene = SimpleScene::with_dialog("garden", vec![]);
    assert_eq!(scene.load(Json::Object(vec![])), Err(LoadError::WrongSceneFormat));
    assert_eq!(scene.load(Json::Object(vec![(s("dialog"), Json::OtherNumber(s("-1")))])), Err(LoadError::WrongDialog));
    assert_eq!(
        scene.load(Json::Object(vec![(s("dialog"), Json::Number(3)), (s("location"), Json::Str(s("here")))])),
        Err(LoadError::WrongLocation)
    );
    assert_eq!(scene.dialog(), Some(3));
    assert_eq!(
        scene.load(Json::Object(vec![
            (s("dialog"), Json::Number(1)),
            (s("location"), Json::Array(vec![Json::OtherNumber(s("50.1")), Json::OtherNumber(s("14.5"))])),
        ])),
        Ok(())
    );
    assert_eq!(scene.dialog(), Some(1));
}

#[test]
fn scene_clean_goes_back_to_first_dialog() {
    let mut scene = SimpleScene::with_dialog("garden", vec![]);
    scene.next_dialog();
    scene.clean();
    assert_eq!(scene.dialog(), Some(0));
    let mut plain = SimpleScene::new("kitchen", vec![s("inside")]);
    plain.clean();
    assert_eq!(plain.dialog(), None);
    assert_eq!(plain.get_tags(), vec![s("inside")]);
}

fn garden_world() -> pabitell::world::World {
    WorldBuilder::new("story")
        .language("en")
        .character(SimpleCharacter::new("doggie", vec![]))
        .character(SimpleCharacter::new("kitie", vec![]))
        .item(SimpleItem::new("cake", vec![s("food")]))
        .scene(SimpleScene::with_dialog("garden", vec![]))
        .scene(SimpleScene::new("kitchen", vec![]))
        .build()
        .unwrap()
}

#[test]
fn character_dump_load() {
    let mut c = SimpleCharacter::new("doggie", vec![]);
    c.set_scene(Some(s("garden")));
    let dumped = c.dump();
    assert!(dumped.same(&Json::Object(vec![(s("name"), Json::Str(s("doggie"))), (s("scene"), Json::Str(s("garden")))])));
    let mut fresh = SimpleCharacter::new("doggie", vec![]);
    assert_eq!(fresh.load(dumped), Ok(()));
    assert_eq!(fresh.scene(), &Some(s("garden")));
    assert_eq!(fresh.load(Json::Object(vec![(s("scene"), Json::Null)])), Ok(()));
    assert_eq!(fresh.scene(), &None);
    assert_eq!(fresh.load(Json::Object(vec![])), Err(LoadError::WrongCharacterFormat));
    assert_eq!(fresh.load(Json::Null), Err(LoadError::WrongCharacterFormat));
}

#[test]
fn world_dump_load_roundtrip() {
    let mut world = garden_world();
    assert!(world.set_character_scene(&s("doggie"), Some(s("garden"))));
    assert!(world.set_item_state(&s("cake"), ItemState::Owned(s("kitie"))));
    assert!(world.set_item_last_event(&s("cake"), 2));
    assert!(world.next_scene_dialog(&s("garden")));
    world.event_inc();
    world.event_inc();
    world.event_inc();
    let dumped = world.dump();

    let mut fresh = garden_world();
    assert_eq!(fresh.load(dumped), Ok(()));
    assert_eq!(fresh.event_count(), 3);
    assert_eq!(fresh.character(&s("doggie")).unwrap().scene(), &Some(s("garden")));
    assert_eq!(fresh.character(&s("kitie")).unwrap().scene(), &None);
    assert_eq!(fresh.item(&s("cake")).unwrap().state(), &ItemState::Owned(s("kitie")));
    assert_eq!(fresh.item(&s("cake")).unwrap().last_event(), Some(2));
    assert_eq!(fresh.scene(&s("garden")).unwrap().dialog(), Some(1));
    assert_eq!(fresh.scene(&s("kitchen")).unwrap().dialog(), None);
}

#[test]
fn world_load_errors_keep_world() {
    let mut world = garden_world();
    assert_eq!(world.load(Json::Null), Err(LoadError::WrongWorldFormat));
    assert_eq!(world.load(Json::Object(vec![(s("weather"), Json::Null)])), Err(LoadError::WrongWorldFormat));
    assert_eq!(world.load(Json::Object(vec![(s("items"), Json::Null)])), Err(LoadError::WrongWorldFormat));
    assert_eq!(world.load(Json::Object(vec![(s("event_count"), Json::Str(s("x")))])), Err(LoadError::WrongWorldFormat));
    assert_eq!(
        world.load(Json::Object(vec![
            (s("event_count"), Json::Number(9)),
            (s("characters"), Json::Object(vec![(s("nobody"), Json::Null)])),
        ])),
        Err(LoadError::UnknownName)
    );
    assert_eq!(world.event_count(), 0);
    assert_eq!(
        world.load(Json::Object(vec![(s("scenes"), Json::Object(vec![(s("garden"), Json::Object(vec![]))]))])),
        Err(LoadError::WrongSceneFormat)
    );
    assert_eq!(world.load(Json::Object(vec![(s("event_count"), Json::Number(9))])), Ok(()));
    assert_eq!(world.event_count(), 9);
}

#[test]
fn scene_location_dump_load() {
    assert!(GeoLocation::new(Json::Str(s("north")), Json::Number(1)).is_none());
    let place = GeoLocation::new(Json::OtherNumber(s("50.0824")), Json::OtherNumber(s("14.5"))).unwrap();
    let mut scene = SimpleScene::with_dialog("garden", vec![]);
    scene.set_geo_location(Some(place));
    let dumped = scene.dump();
    assert!(dumped.same(&Json::Object(vec![
        (s("dialog"), Json::Number(0)),
        (s("location"), Json::Array(vec![Json::OtherNumber(s("50.0824")), Json::OtherNumber(s("14.5"))])),
        (s("name"), Json::Str(s("garden"))),
    ])));
    let mut fresh = SimpleScene::with_dialog("garden", vec![]);
    assert_eq!(fresh.load(dumped), Ok(()));
    let loc = fresh.geo_location().unwrap();
    assert!(loc.x().same(&Json::OtherNumber(s("50.0824"))));
    assert!(loc.y().same(&Json::OtherNumber(s("14.5"))));
    assert_eq!(fresh.load(Json::Object(vec![(s("dialog"), Json::Number(0)), (s("location"), Json::Null)])), Ok(()));
    assert!(fresh.geo_location().is_none());
    assert!(SimpleScene::new("kitchen", vec![]).dump().same(&Json::Object(vec![
        (s("location"), Json::Null),
        (s("name"), Json::Str(s("kitchen"))),
    ])));
}
