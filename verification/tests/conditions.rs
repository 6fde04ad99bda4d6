use pabitell::conditions::{
    AllItemsWithTagInStateCheck, AlwaysCheck, CanGiveCheck, CharacterInSceneCheck, Check, CheckError, Condition,
    HasItemCheck, SameSceneCheck, SceneDialogCheck,
};
use pabitell::updates::{AssignItemChange, ChangeError, MoveCharacterChange, NextSceneDialogChange};
use pabitell::world::{SimpleCharacter, SimpleItem, SimpleScene, World, WorldBuilder};
use pabitell::{Character, Item, ItemState};

fn s(text: &str) -> String {
    text.to_string()
}

fn world() -> World {
    let mut world = WorldBuilder::new("story")
        .language("en")
        .character(SimpleCharacter::new("doggie", vec![]))
        .character(SimpleCharacter::new("kitie", vec![]))
        .item(SimpleItem::new("cake", vec![s("food")]))
        .item(SimpleItem::new("milk", vec![s("food")]))
        .item(SimpleItem::new("ball", vec![s("toy")]))
        .scene(SimpleScene::new("kitchen", vec![]))
        .scene(SimpleScene::with_dialog("garden", vec![]))
        .build()
        .unwrap();
    assert!(world.set_character_scene(&s("doggie"), Some(s("kitchen"))));
    assert!(world.set_character_scene(&s("kitie"), Some(s("kitchen"))));
    assert!(world.set_item_state(&s("cake"), ItemState::Owned(s("doggie"))));
    assert!(world.set_item_state(&s("milk"), ItemState::InScene(s("kitchen"))));
    world
}

#[test]
fn always_holds() {
    assert_eq!(AlwaysCheck::cond().check(&world()), Ok(true));
    assert_eq!(Condition::default().check(&world()), Ok(true));
}

#[test]
fn same_scene() {
    let w = world();
    assert_eq!(SameSceneCheck::cond(vec![s("doggie"), s("kitie")], vec![s("milk")]).check(&w), Ok(true));
    assert_eq!(SameSceneCheck::cond(vec![s("doggie")], vec![s("ball")]).check(&w), Ok(false));
    assert_eq!(SameSceneCheck::cond(vec![s("doggie"), s("nobody")], vec![]).check(&w), Ok(false));
    assert_eq!(SameSceneCheck::cond(vec![], vec![]).check(&w), Ok(true));
}

#[test]
fn has_item_and_can_give() {
    let w = world();
    assert_eq!(HasItemCheck::cond(s("doggie"), s("cake")).check(&w), Ok(true));
    assert_eq!(HasItemCheck::cond(s("kitie"), s("cake")).check(&w), Ok(false));
    assert_eq!(HasItemCheck::cond(s("kitie"), s("plate")).check(&w), Ok(false));
    assert_eq!(CanGiveCheck::cond(s("doggie"), s("kitie"), s("cake")).check(&w), Ok(true));
    assert_eq!(CanGiveCheck::cond(s("kitie"), s("doggie"), s("cake")).check(&w), Ok(false));
}

#[test]
fn character_in_scene() {
    let w = world();
    assert_eq!(CharacterInSceneCheck::cond(s("doggie"), Some(s("kitchen"))).check(&w), Ok(true));
    assert_eq!(CharacterInSceneCheck::cond(s("doggie"), None).check(&w), Ok(false));
    assert_eq!(CharacterInSceneCheck::cond(s("nobody"), None).check(&w), Ok(false));
}

#[test]
fn all_items_with_tag_in_state() {
    let w = world();
    let food_owned = AllItemsWithTagInStateCheck::cond(vec![s("food")], ItemState::Owned(s("doggie")));
    assert_eq!(food_owned.check(&w), Ok(false));
    let toys_nowhere = AllItemsWithTagInStateCheck::cond(vec![s("toy")], ItemState::Unassigned);
    assert_eq!(toys_nowhere.check(&w), Ok(true));
    let none_tagged = AllItemsWithTagInStateCheck::cond(vec![s("tool")], ItemState::Unassigned);
    assert_eq!(none_tagged.check(&w), Ok(true));
}

#[test]
fn scene_dialog_and_its_errors() {
    let mut w = world();
    assert_eq!(SceneDialogCheck::cond(s("garden"), 0).check(&w), Ok(true));
    assert_eq!(SceneDialogCheck::cond(s("garden"), 1).check(&w), Ok(false));
    assert_eq!(SceneDialogCheck::cond(s("kitchen"), 0).check(&w), Err(CheckError::SceneWithoutDialogs));
    assert_eq!(SceneDialogCheck::cond(s("attic"), 0).check(&w), Err(CheckError::SceneNotFound));
    assert_eq!(NextSceneDialogChange::new(s("garden")).change(&mut w), Ok(()));
    assert_eq!(SceneDialogCheck::cond(s("garden"), 1).check(&w), Ok(true));
    assert_eq!(SceneDialogCheck::cond(s("garden"), 0).check(&w), Ok(false));
}

#[test]
fn negation_and_combinations() {
    let w = world();
    let yes = || HasItemCheck::cond(s("doggie"), s("cake"));
    let no = || HasItemCheck::cond(s("kitie"), s("cake"));
    let err = || SceneDialogCheck::cond(s("attic"), 0);
    assert_eq!(yes().negate().check(&w), Ok(false));
    assert_eq!(yes().negate().negate().check(&w), Ok(true));
    assert_eq!(yes().and(no()).check(&w), Ok(false));
    assert_eq!(no().or(yes()).check(&w), Ok(true));
    assert_eq!((!no()).check(&w), Ok(true));
    assert_eq!((yes() & yes()).check(&w), Ok(true));
    assert_eq!((no() | no()).check(&w), Ok(false));
    // the right part is not looked at once the left decides
    assert_eq!(no().and(err()).check(&w), Ok(false));
    assert_eq!(yes().or(err()).check(&w), Ok(true));
    assert_eq!(yes().and(err()).check(&w), Err(CheckError::SceneNotFound));
    assert_eq!(err().negate().check(&w), Err(CheckError::SceneNotFound));
    assert_eq!(Condition::new(Check::Always(AlwaysCheck)).check(&w), Ok(true));
}

#[test]
fn changes_and_their_errors() {
    let mut w = world();
    assert_eq!(AssignItemChange::new(s("ball"), ItemState::Owned(s("kitie"))).change(&mut w), Ok(()));
    assert_eq!(w.item(&s("ball")).unwrap().state(), &ItemState::Owned(s("kitie")));
    assert_eq!(HasItemCheck::cond(s("kitie"), s("ball")).check(&w), Ok(true));
    assert_eq!(
        AssignItemChange::new(s("ball"), ItemState::Owned(s("nobody"))).change(&mut w),
        Err(ChangeError::CharacterNotFound)
    );
    assert_eq!(
        AssignItemChange::new(s("ball"), ItemState::InScene(s("attic"))).change(&mut w),
        Err(ChangeError::SceneNotFound)
    );
    assert_eq!(
        AssignItemChange::new(s("plate"), ItemState::Unassigned).change(&mut w),
        Err(ChangeError::ItemNotFound)
    );
    assert_eq!(w.item(&s("ball")).unwrap().state(), &ItemState::Owned(s("kitie")));

    assert_eq!(MoveCharacterChange::new(s("kitie"), Some(s("garden"))).change(&mut w), Ok(()));
    assert_eq!(w.character(&s("kitie")).unwrap().scene(), &Some(s("garden")));
    assert_eq!(CharacterInSceneCheck::cond(s("kitie"), Some(s("garden"))).check(&w), Ok(true));
    assert_eq!(
        MoveCharacterChange::new(s("kitie"), Some(s("attic"))).change(&mut w),
        Err(ChangeError::SceneNotFound)
    );
    assert_eq!(
        MoveCharacterChange::new(s("nobody"), None).change(&mut w),
        Err(ChangeError::CharacterNotFound)
    );
    assert_eq!(MoveCharacterChange::new(s("kitie"), None).change(&mut w), Ok(()));
    assert_eq!(w.character(&s("kitie")).unwrap().scene(), &None);
    assert_eq!(NextSceneDialogChange::new(s("attic")).change(&mut w), Err(ChangeError::SceneNotFound));
}

#[test]
fn order_of_checkable_parts_does_not_matter() {
    let w = world();
    let yes = || HasItemCheck::cond(s("doggie"), s("cake"));
    let no = || HasItemCheck::cond(s("kitie"), s("cake"));
    assert_eq!(yes().and(no()).check(&w), no().and(yes()).check(&w));
    assert_eq!(yes().or(no()).check(&w), no().or(yes()).check(&w));
    // de Morgan
    assert_eq!(yes().and(no()).negate().check(&w), yes().negate().or(no().negate()).check(&w));
    assert_eq!(yes().or(no()).negate().check(&w), yes().negate().and(no().negate()).check(&w));
}
