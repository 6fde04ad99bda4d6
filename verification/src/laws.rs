use vstd::prelude::*;

use crate::conditions::{check_value, condition_value, CheckView, ConditionView};
use crate::events::{
    all_present, event_items, event_json, key_lt, lemma_event_json_keys, max_last_event, run_updates, sort_key, stamp,
    triggered, EventKey, EventView,
};
use crate::narrator::sorted_by_key;
use crate::json::{field, JsonView};
use crate::updates::{change_value, ChangeView};
use crate::assoc::{as_map, holds_key, keys_distinct, lemma_as_map_index};
use crate::world::{
    character_from_json, character_json, cleaned, index_json, item_from_json, item_json, load_characters, load_items,
    location_json, location_of, location_valid,
    load_scenes, load_section, load_sections, scene_from_json, scene_json, world_from_json, world_json_of,
    CharacterView, ItemView, SceneView, WorldView,
};
use crate::data::{initiator_of, with_initiator, EventDataView};
use crate::websocket::{add_client, clients_of, no_empty_world, remove_client};
use crate::{lemma_item_state_roundtrip, ItemStateView, LoadError};

verus! {

/// What an item writes, read back into an item of the same name and tags,
/// gives the item that wrote it.
pub proof fn lemma_item_dump_load(a: ItemView, b: ItemView)
    requires
        a.name == b.name,
        a.tags == b.tags,
    ensures
        item_from_json(b, item_json(a)) == (a, Ok::<(), LoadError>(())),
{
    reveal_strlit("last_event");
    reveal_strlit("name");
    reveal_strlit("state");
    reveal_with_fuel(field, 4);
    lemma_item_state_roundtrip(a.state);
    let fields = item_json(a)->Object_0;
    assert(fields.drop_first()[0].0 == "name"@);
    assert(fields.drop_first().drop_first()[0].0 == "state"@);
    assert("last_event"@.len() != "state"@.len());
    assert("name"@.len() != "state"@.len());
    assert("last_event"@ != "name"@) by {
        assert("last_event"@[0] != "name"@[0]);
    }
}

/// What a scene writes, read back into a scene of the same name and tags that
/// also has (or also lacks) dialogs, gives the scene that wrote it.
pub proof fn lemma_scene_dump_load(a: SceneView, b: SceneView)
    requires
        a.name == b.name,
        a.tags == b.tags,
        a.dialog is Some <==> b.dialog is Some,
        location_valid(a.location),
    ensures
        scene_from_json(b, scene_json(a)) == (a, Ok::<(), LoadError>(())),
{
    reveal_strlit("dialog");
    reveal_strlit("name");
    reveal_strlit("location");
    reveal_with_fuel(field, 3);
    assert("location"@ != "name"@) by {
        assert("location"@[0] != "name"@[0]);
    }
    assert("location"@ != "dialog"@) by {
        assert("location"@[0] != "dialog"@[0]);
    }
    assert("name"@ != "dialog"@) by {
        assert("name"@[0] != "dialog"@[0]);
    }
    let f = scene_json(a)->Object_0;
    if a.dialog is Some {
        assert(f.drop_first()[0].0 == "location"@);
        assert(index_json(scene_json(a), "dialog"@) == JsonView::Number((a.dialog->0) as u64));
    } else {
        assert(f[0].0 == "location"@);
    }
    assert(index_json(scene_json(a), "location"@) == location_json(a.location));
    assert(location_of(location_json(a.location)) == a.location);
}

/// Negating a condition twice gives back its value.
pub proof fn lemma_not_not(c: ConditionView, w: WorldView)
    ensures
        condition_value(ConditionView::Not(Box::new(ConditionView::Not(Box::new(c)))), w) == condition_value(c, w),
{
    reveal_with_fuel(condition_value, 3);
}

/// The negation of an `and` is the `or` of the negations.
pub proof fn lemma_not_and(a: ConditionView, b: ConditionView, w: WorldView)
    ensures
        condition_value(ConditionView::Not(Box::new(ConditionView::And(Box::new(a), Box::new(b)))), w)
            == condition_value(
            ConditionView::Or(
                Box::new(ConditionView::Not(Box::new(a))),
                Box::new(ConditionView::Not(Box::new(b))),
            ),
            w,
        ),
{
    reveal_with_fuel(condition_value, 3);
}

/// The negation of an `or` is the `and` of the negations.
pub proof fn lemma_not_or(a: ConditionView, b: ConditionView, w: WorldView)
    ensures
        condition_value(ConditionView::Not(Box::new(ConditionView::Or(Box::new(a), Box::new(b)))), w)
            == condition_value(
            ConditionView::And(
                Box::new(ConditionView::Not(Box::new(a))),
                Box::new(ConditionView::Not(Box::new(b))),
            ),
            w,
        ),
{
    reveal_with_fuel(condition_value, 3);
}

/// Where both parts can be checked, their order in an `and` or an `or` does
/// not matter.
pub proof fn lemma_and_or_commute(a: ConditionView, b: ConditionView, w: WorldView)
    requires
        condition_value(a, w) is Ok,
        condition_value(b, w) is Ok,
    ensures
        condition_value(ConditionView::And(Box::new(a), Box::new(b)), w) == condition_value(
            ConditionView::And(Box::new(b), Box::new(a)),
            w,
        ),
        condition_value(ConditionView::Or(Box::new(a), Box::new(b)), w) == condition_value(
            ConditionView::Or(Box::new(b), Box::new(a)),
            w,
        ),
{
}

/// After an item is given to a character, the character has it.
pub proof fn lemma_assign_then_has_item(w: WorldView, item: Seq<char>, character: Seq<char>)
    requires
        change_value(ChangeView::AssignItem { item, state: ItemStateView::Owned(character) }, w) is Ok,
    ensures
        check_value(
            CheckView::HasItem { character, item },
            change_value(ChangeView::AssignItem { item, state: ItemStateView::Owned(character) }, w)->Ok_0,
        ) == Ok::<bool, crate::conditions::CheckError>(true),
{
}

/// Giving an item to a character fails exactly where the character or the
/// item does not exist.
pub proof fn lemma_assign_fails(w: WorldView, item: Seq<char>, character: Seq<char>)
    ensures
        change_value(ChangeView::AssignItem { item, state: ItemStateView::Owned(character) }, w) is Err
            <==> !w.characters.contains_key(character) || !w.items.contains_key(item),
{
}

/// After a character moves to a scene, it is in that scene.
pub proof fn lemma_move_then_in_scene(w: WorldView, character: Seq<char>, scene: Option<Seq<char>>)
    requires
        change_value(ChangeView::MoveCharacter { character, scene }, w) is Ok,
    ensures
        check_value(
            CheckView::CharacterInScene { character, scene },
            change_value(ChangeView::MoveCharacter { character, scene }, w)->Ok_0,
        ) == Ok::<bool, crate::conditions::CheckError>(true),
{
}

/// After a scene moves on to its next dialog, the check for that next dialog
/// holds and the check for the one before does not.
pub proof fn lemma_next_dialog_then_dialog(w: WorldView, scene: Seq<char>, d: usize)
    requires
        w.scenes.contains_key(scene),
        w.scenes[scene].dialog == Some(d),
        d < usize::MAX,
    ensures
        check_value(
            CheckView::SceneDialog { scene, dialog: (d + 1) as usize },
            change_value(ChangeView::NextSceneDialog { scene }, w)->Ok_0,
        ) == Ok::<bool, crate::conditions::CheckError>(true),
        check_value(
            CheckView::SceneDialog { scene, dialog: d },
            change_value(ChangeView::NextSceneDialog { scene }, w)->Ok_0,
        ) == Ok::<bool, crate::conditions::CheckError>(false),
{
}

/// Putting a world back to its original state twice is the same as once.
pub proof fn lemma_clean_idempotent(w: WorldView)
    ensures
        cleaned(cleaned(w)) == cleaned(w),
{
    assert(cleaned(cleaned(w)).items =~= cleaned(w).items);
    assert(cleaned(cleaned(w)).scenes =~= cleaned(w).scenes);
}

proof fn lemma_run_updates_keeps_count(updates: Seq<ChangeView>, items: Seq<Seq<char>>, w: WorldView, n: usize)
    requires
        run_updates(updates, items, w, n) is Some,
    ensures
        run_updates(updates, items, w, n)->Some_0.event_count == w.event_count,
    decreases updates.len(),
{
    if updates.len() > 0 {
        let w1 = change_value(updates[0], w)->Ok_0;
        assert(w1.event_count == w.event_count);
        lemma_stamp_keeps_count(w1, items, n);
        lemma_run_updates_keeps_count(updates.drop_first(), items, stamp(w1, items, n), n);
    }
}

proof fn lemma_stamp_keeps_count(w: WorldView, items: Seq<Seq<char>>, n: usize)
    ensures
        stamp(w, items, n).event_count == w.event_count,
    decreases items.len(),
{
    if items.len() > 0 {
        let name = items[0];
        lemma_stamp_keeps_count(
            WorldView { items: w.items.insert(name, ItemView { last_event: Some(n), ..w.items[name] }), ..w },
            items.drop_first(),
            n,
        );
    }
}

/// Triggering an event counts exactly one more event.
pub proof fn lemma_trigger_counts_one(e: EventView, w: WorldView)
    requires
        triggered(e, w) is Some,
    ensures
        triggered(e, w)->Some_0.event_count == w.event_count + 1,
{
    lemma_run_updates_keeps_count(e.updates, event_items(e.data), w, w.event_count);
}

/// The initiator of an event is the one it was last set to, and setting it
/// to what it is changes nothing.
pub proof fn lemma_initiator_set_get(d: EventDataView, initiator: Seq<char>)
    ensures
        initiator_of(with_initiator(d, initiator)) == initiator,
        with_initiator(d, initiator_of(d)) == d,
        with_initiator(with_initiator(d, initiator), initiator) == with_initiator(d, initiator),
{
}

/// A client that joined a world is among its recipients, under the address it
/// joined with.
pub proof fn lemma_register_then_recipient<T>(m: Map<u128, Map<usize, T>>, world: u128, id: usize, addr: T)
    ensures
        clients_of(add_client(m, world, id, addr), world).contains(id),
        add_client(m, world, id, addr)[world][id] == addr,
{
}

/// Whatever client joins or leaves, no world is kept without clients.
pub proof fn lemma_clients_never_empty<T>(m: Map<u128, Map<usize, T>>, world: u128, id: usize, addr: T)
    requires
        no_empty_world(m),
    ensures
        no_empty_world(add_client(m, world, id, addr)),
        no_empty_world(remove_client(m, world, id)),
{
    let a = add_client(m, world, id, addr);
    assert forall|w: u128| #[trigger] a.contains_key(w) implies a[w] != Map::<usize, T>::empty() by {
        if w == world {
            assert(a[w].contains_key(id));
        }
    }
    let r = remove_client(m, world, id);
    assert forall|w: u128| #[trigger] r.contains_key(w) implies r[w] != Map::<usize, T>::empty() by {
        if w != world {
            assert(r[w] == m[w]);
        }
    }
}

/// A client that left a world is no longer among its recipients; the other
/// clients of the world, and the other worlds, stay as they were.
pub proof fn lemma_disconnect_then_gone<T>(m: Map<u128, Map<usize, T>>, world: u128, id: usize)
    ensures
        !clients_of(remove_client(m, world, id), world).contains(id),
        forall|other: usize|
            other != id ==> (#[trigger] clients_of(remove_client(m, world, id), world).contains(other)
                <==> clients_of(m, world).contains(other)),
        forall|w: u128| w != world ==> #[trigger] clients_of(remove_client(m, world, id), w) == clients_of(m, w),
{
    if m.contains_key(world) && m[world].remove(id) == Map::<usize, T>::empty() {
        assert forall|other: usize| other != id implies !m[world].contains_key(other) by {
            assert(!m[world].remove(id).contains_key(other));
        }
    }
}

/// A client that joins a world under a new id and then leaves it leaves the
/// clients as they were.
pub proof fn lemma_register_disconnect_undo<T>(m: Map<u128, Map<usize, T>>, world: u128, id: usize, addr: T)
    requires
        no_empty_world(m),
        !clients_of(m, world).contains(id),
    ensures
        remove_client(add_client(m, world, id, addr), world, id) == m,
{
    let a = add_client(m, world, id, addr);
    if m.contains_key(world) {
        assert(a[world].remove(id) =~= m[world]);
        assert(remove_client(a, world, id) =~= m);
    } else {
        assert(a[world].remove(id) =~= Map::<usize, T>::empty());
        assert(remove_client(a, world, id) =~= m);
    }
}

/// Two characters of the same name and tags.
pub open spec fn same_character_shape(a: CharacterView, b: CharacterView) -> bool {
    a.name == b.name && a.tags == b.tags
}

/// Two items of the same name and tags.
pub open spec fn same_item_shape(a: ItemView, b: ItemView) -> bool {
    a.name == b.name && a.tags == b.tags
}

/// Two scenes of the same name and tags, both with dialogs or both without,
/// the first at a place whose coordinates are numbers, if at any.
pub open spec fn same_scene_shape(a: SceneView, b: SceneView) -> bool {
    &&& a.name == b.name
    &&& a.tags == b.tags
    &&& (a.dialog is Some <==> b.dialog is Some)
    &&& location_valid(a.location)
}

/// Two worlds of the same story: the same name and languages, and parts of
/// the same shapes under the same names.
pub open spec fn same_world_shape(a: WorldView, b: WorldView) -> bool {
    &&& a.name == b.name
    &&& a.lang == b.lang
    &&& a.languages == b.languages
    &&& a.characters.dom() == b.characters.dom()
    &&& a.items.dom() == b.items.dom()
    &&& a.scenes.dom() == b.scenes.dom()
    &&& forall|k: Seq<char>| #[trigger] a.characters.contains_key(k) ==> same_character_shape(a.characters[k], b.characters[k])
    &&& forall|k: Seq<char>| #[trigger] a.items.contains_key(k) ==> same_item_shape(a.items[k], b.items[k])
    &&& forall|k: Seq<char>| #[trigger] a.scenes.contains_key(k) ==> same_scene_shape(a.scenes[k], b.scenes[k])
}

/// What a character writes, read back into a character of the same name and
/// tags, gives the character that wrote it.
pub proof fn lemma_character_dump_load(a: CharacterView, b: CharacterView)
    requires
        same_character_shape(a, b),
    ensures
        character_from_json(b, character_json(a)) == (a, Ok::<(), LoadError>(())),
{
    reveal_strlit("name");
    reveal_strlit("scene");
    reveal_with_fuel(field, 3);
    assert("name"@ != "scene"@) by {
        assert("name"@[0] != "scene"@[0]);
    }
    let fields = character_json(a)->Object_0;
    assert(fields.drop_first()[0].0 == "scene"@);
}

/// Reading stored characters, each the stored form of the part of `a` of that name,
/// into parts of the same shape puts `a`'s parts in their place.
proof fn lemma_load_characters_all(w: WorldView, e: Seq<(Seq<char>, JsonView)>, a: WorldView)
    requires
        keys_distinct(e),
        forall|i: int|
            0 <= i < e.len() ==> {
                &&& w.characters.contains_key(#[trigger] e[i].0)
                &&& a.characters.contains_key(e[i].0)
                &&& e[i].1 == character_json(a.characters[e[i].0])
                &&& same_character_shape(a.characters[e[i].0], w.characters[e[i].0])
            },
    ensures
        load_characters(w, e) == Ok::<WorldView, LoadError>(
            WorldView {
                characters: Map::new(
                    |k: Seq<char>| w.characters.contains_key(k),
                    |k: Seq<char>| if holds_key(e, k) { a.characters[k] } else { w.characters[k] },
                ),
                ..w
            },
        ),
    decreases e.len(),
{
    let m = Map::new(
        |k: Seq<char>| w.characters.contains_key(k),
        |k: Seq<char>| if holds_key(e, k) { a.characters[k] } else { w.characters[k] },
    );
    if e.len() == 0 {
        assert(m =~= w.characters);
        assert((WorldView { characters: m, ..w }) == w);
    } else {
        let k0 = e[0].0;
        assert(w.characters.contains_key(e[0].0));
        lemma_character_dump_load(a.characters[k0], w.characters[k0]);
        let w1 = WorldView { characters: w.characters.insert(k0, a.characters[k0]), ..w };
        let rest = e.drop_first();
        assert forall|a1: int, b1: int| 0 <= a1 < rest.len() && 0 <= b1 < rest.len() && a1 != b1 implies #[trigger] rest[a1].0
            != #[trigger] rest[b1].0 by {
            assert(rest[a1] == e[a1 + 1] && rest[b1] == e[b1 + 1]);
        }
        assert forall|i: int| 0 <= i < rest.len() implies {
            &&& w1.characters.contains_key(#[trigger] rest[i].0)
            &&& a.characters.contains_key(rest[i].0)
            &&& rest[i].1 == character_json(a.characters[rest[i].0])
            &&& same_character_shape(a.characters[rest[i].0], w1.characters[rest[i].0])
        } by {
            assert(rest[i] == e[i + 1]);
            assert(e[i + 1].0 != e[0].0);
        }
        lemma_load_characters_all(w1, rest, a);
        let m1 = Map::new(
            |k: Seq<char>| w1.characters.contains_key(k),
            |k: Seq<char>| if holds_key(rest, k) { a.characters[k] } else { w1.characters[k] },
        );
        assert forall|k: Seq<char>| holds_key(e, k) <==> (k == k0 || holds_key(rest, k)) by {
            if holds_key(e, k) {
                let i = choose|i: int| 0 <= i < e.len() && #[trigger] e[i].0 == k;
                if i > 0 {
                    assert(rest[i - 1].0 == k);
                }
            }
            if holds_key(rest, k) {
                let i = choose|i: int| 0 <= i < rest.len() && #[trigger] rest[i].0 == k;
                assert(e[i + 1].0 == k);
            }
            if k == k0 {
                assert(e[0].0 == k);
            }
        }
        assert(m1 =~= m);
    }
}

/// Reading stored items, each the stored form of the part of `a` of that name,
/// into parts of the same shape puts `a`'s parts in their place.
proof fn lemma_load_items_all(w: WorldView, e: Seq<(Seq<char>, JsonView)>, a: WorldView)
    requires
        keys_distinct(e),
        forall|i: int|
            0 <= i < e.len() ==> {
                &&& w.items.contains_key(#[trigger] e[i].0)
                &&& a.items.contains_key(e[i].0)
                &&& e[i].1 == item_json(a.items[e[i].0])
                &&& same_item_shape(a.items[e[i].0], w.items[e[i].0])
            },
    ensures
        load_items(w, e) == Ok::<WorldView, LoadError>(
            WorldView {
                items: Map::new(
                    |k: Seq<char>| w.items.contains_key(k),
                    |k: Seq<char>| if holds_key(e, k) { a.items[k] } else { w.items[k] },
                ),
                ..w
            },
        ),
    decreases e.len(),
{
    let m = Map::new(
        |k: Seq<char>| w.items.contains_key(k),
        |k: Seq<char>| if holds_key(e, k) { a.items[k] } else { w.items[k] },
    );
    if e.len() == 0 {
        assert(m =~= w.items);
        assert((WorldView { items: m, ..w }) == w);
    } else {
        let k0 = e[0].0;
        assert(w.items.contains_key(e[0].0));
        lemma_item_dump_load(a.items[k0], w.items[k0]);
        let w1 = WorldView { items: w.items.insert(k0, a.items[k0]), ..w };
        let rest = e.drop_first();
        assert forall|a1: int, b1: int| 0 <= a1 < rest.len() && 0 <= b1 < rest.len() && a1 != b1 implies #[trigger] rest[a1].0
            != #[trigger] rest[b1].0 by {
            assert(rest[a1] == e[a1 + 1] && rest[b1] == e[b1 + 1]);
        }
        assert forall|i: int| 0 <= i < rest.len() implies {
            &&& w1.items.contains_key(#[trigger] rest[i].0)
            &&& a.items.contains_key(rest[i].0)
            &&& rest[i].1 == item_json(a.items[rest[i].0])
            &&& same_item_shape(a.items[rest[i].0], w1.items[rest[i].0])
        } by {
            assert(rest[i] == e[i + 1]);
            assert(e[i + 1].0 != e[0].0);
        }
        lemma_load_items_all(w1, rest, a);
        let m1 = Map::new(
            |k: Seq<char>| w1.items.contains_key(k),
            |k: Seq<char>| if holds_key(rest, k) { a.items[k] } else { w1.items[k] },
        );
        assert forall|k: Seq<char>| holds_key(e, k) <==> (k == k0 || holds_key(rest, k)) by {
            if holds_key(e, k) {
                let i = choose|i: int| 0 <= i < e.len() && #[trigger] e[i].0 == k;
                if i > 0 {
                    assert(rest[i - 1].0 == k);
                }
            }
            if holds_key(rest, k) {
                let i = choose|i: int| 0 <= i < rest.len() && #[trigger] rest[i].0 == k;
                assert(e[i + 1].0 == k);
            }
            if k == k0 {
                assert(e[0].0 == k);
            }
        }
        assert(m1 =~= m);
    }
}

/// Reading stored scenes, each the stored form of the part of `a` of that name,
/// into parts of the same shape puts `a`'s parts in their place.
proof fn lemma_load_scenes_all(w: WorldView, e: Seq<(Seq<char>, JsonView)>, a: WorldView)
    requires
        keys_distinct(e),
        forall|i: int|
            0 <= i < e.len() ==> {
                &&& w.scenes.contains_key(#[trigger] e[i].0)
                &&& a.scenes.contains_key(e[i].0)
                &&& e[i].1 == scene_json(a.scenes[e[i].0])
                &&& same_scene_shape(a.scenes[e[i].0], w.scenes[e[i].0])
            },
    ensures
        load_scenes(w, e) == Ok::<WorldView, LoadError>(
            WorldView {
                scenes: Map::new(
                    |k: Seq<char>| w.scenes.contains_key(k),
                    |k: Seq<char>| if holds_key(e, k) { a.scenes[k] } else { w.scenes[k] },
                ),
                ..w
            },
        ),
    decreases e.len(),
{
    let m = Map::new(
        |k: Seq<char>| w.scenes.contains_key(k),
        |k: Seq<char>| if holds_key(e, k) { a.scenes[k] } else { w.scenes[k] },
    );
    if e.len() == 0 {
        assert(m =~= w.scenes);
        assert((WorldView { scenes: m, ..w }) == w);
    } else {
        let k0 = e[0].0;
        assert(w.scenes.contains_key(e[0].0));
        lemma_scene_dump_load(a.scenes[k0], w.scenes[k0]);
        let w1 = WorldView { scenes: w.scenes.insert(k0, a.scenes[k0]), ..w };
        let rest = e.drop_first();
        assert forall|a1: int, b1: int| 0 <= a1 < rest.len() && 0 <= b1 < rest.len() && a1 != b1 implies #[trigger] rest[a1].0
            != #[trigger] rest[b1].0 by {
            assert(rest[a1] == e[a1 + 1] && rest[b1] == e[b1 + 1]);
        }
        assert forall|i: int| 0 <= i < rest.len() implies {
            &&& w1.scenes.contains_key(#[trigger] rest[i].0)
            &&& a.scenes.contains_key(rest[i].0)
            &&& rest[i].1 == scene_json(a.scenes[rest[i].0])
            &&& same_scene_shape(a.scenes[rest[i].0], w1.scenes[rest[i].0])
        } by {
            assert(rest[i] == e[i + 1]);
            assert(e[i + 1].0 != e[0].0);
        }
        lemma_load_scenes_all(w1, rest, a);
        let m1 = Map::new(
            |k: Seq<char>| w1.scenes.contains_key(k),
            |k: Seq<char>| if holds_key(rest, k) { a.scenes[k] } else { w1.scenes[k] },
        );
        assert forall|k: Seq<char>| holds_key(e, k) <==> (k == k0 || holds_key(rest, k)) by {
            if holds_key(e, k) {
                let i = choose|i: int| 0 <= i < e.len() && #[trigger] e[i].0 == k;
                if i > 0 {
                    assert(rest[i - 1].0 == k);
                }
            }
            if holds_key(rest, k) {
                let i = choose|i: int| 0 <= i < rest.len() && #[trigger] rest[i].0 == k;
                assert(e[i + 1].0 == k);
            }
            if k == k0 {
                assert(e[0].0 == k);
            }
        }
        assert(m1 =~= m);
    }
}

/// Reading back what a world writes, into a world of the same story, gives
/// the world that wrote it.
pub proof fn lemma_world_dump_load(a: WorldView, b: WorldView, j: JsonView)
    requires
        world_json_of(j, a),
        same_world_shape(a, b),
    ensures
        world_from_json(b, j) == Ok::<WorldView, LoadError>(a),
{
    reveal_strlit("characters");
    reveal_strlit("items");
    reveal_strlit("scenes");
    reveal_strlit("event_count");
    assert("items"@ != "characters"@) by {
        assert("items"@[0] != "characters"@[0]);
    }
    assert("scenes"@ != "characters"@) by {
        assert("scenes"@[0] != "characters"@[0]);
    }
    assert("scenes"@ != "items"@) by {
        assert("scenes"@[0] != "items"@[0]);
    }
    assert("event_count"@ != "characters"@) by {
        assert("event_count"@[0] != "characters"@[0]);
    }
    assert("event_count"@ != "items"@) by {
        assert("event_count"@[0] != "items"@[0]);
    }
    assert("event_count"@ != "scenes"@) by {
        assert("event_count"@[0] != "scenes"@[0]);
    }
    let f = j->Object_0;
    let ec = f[0].1->Object_0;
    let ei = f[1].1->Object_0;
    let es = f[2].1->Object_0;
    // the characters
    assert forall|i: int| 0 <= i < ec.len() implies {
        &&& b.characters.contains_key(#[trigger] ec[i].0)
        &&& a.characters.contains_key(ec[i].0)
        &&& ec[i].1 == character_json(a.characters[ec[i].0])
        &&& same_character_shape(a.characters[ec[i].0], b.characters[ec[i].0])
    } by {
        lemma_as_map_index(ec, i);
    }
    lemma_load_characters_all(b, ec, a);
    let w1 = WorldView {
        characters: Map::new(
            |k: Seq<char>| b.characters.contains_key(k),
            |k: Seq<char>| if holds_key(ec, k) { a.characters[k] } else { b.characters[k] },
        ),
        ..b
    };
    assert(w1.characters =~= a.characters) by {
        assert forall|k: Seq<char>| b.characters.contains_key(k) implies holds_key(ec, k) by {
            assert(as_map(ec).contains_key(k));
        }
    }
    assert(load_section(b, f[0].0, f[0].1) == Ok::<WorldView, LoadError>(w1));
    // the items
    assert forall|i: int| 0 <= i < ei.len() implies {
        &&& w1.items.contains_key(#[trigger] ei[i].0)
        &&& a.items.contains_key(ei[i].0)
        &&& ei[i].1 == item_json(a.items[ei[i].0])
        &&& same_item_shape(a.items[ei[i].0], w1.items[ei[i].0])
    } by {
        lemma_as_map_index(ei, i);
    }
    lemma_load_items_all(w1, ei, a);
    let w2 = WorldView {
        items: Map::new(
            |k: Seq<char>| w1.items.contains_key(k),
            |k: Seq<char>| if holds_key(ei, k) { a.items[k] } else { w1.items[k] },
        ),
        ..w1
    };
    assert(w2.items =~= a.items) by {
        assert forall|k: Seq<char>| w1.items.contains_key(k) implies holds_key(ei, k) by {
            assert(as_map(ei).contains_key(k));
        }
    }
    assert(load_section(w1, f[1].0, f[1].1) == Ok::<WorldView, LoadError>(w2));
    // the scenes
    assert forall|i: int| 0 <= i < es.len() implies {
        &&& w2.scenes.contains_key(#[trigger] es[i].0)
        &&& a.scenes.contains_key(es[i].0)
        &&& es[i].1 == scene_json(a.scenes[es[i].0])
        &&& same_scene_shape(a.scenes[es[i].0], w2.scenes[es[i].0])
    } by {
        lemma_as_map_index(es, i);
    }
    lemma_load_scenes_all(w2, es, a);
    let w3 = WorldView {
        scenes: Map::new(
            |k: Seq<char>| w2.scenes.contains_key(k),
            |k: Seq<char>| if holds_key(es, k) { a.scenes[k] } else { w2.scenes[k] },
        ),
        ..w2
    };
    assert(w3.scenes =~= a.scenes) by {
        assert forall|k: Seq<char>| w2.scenes.contains_key(k) implies holds_key(es, k) by {
            assert(as_map(es).contains_key(k));
        }
    }
    assert(load_section(w2, f[2].0, f[2].1) == Ok::<WorldView, LoadError>(w3));
    // the event count
    let w4 = WorldView { event_count: (a.event_count as u64) as usize, ..w3 };
    assert(load_section(w3, f[3].0, f[3].1) == Ok::<WorldView, LoadError>(w4));
    assert(w4 == a);
    reveal_with_fuel(load_sections, 5);
    assert(f.drop_first().drop_first().drop_first().drop_first().len() == 0);
}

/// An event matches what it writes.
pub proof fn lemma_matches_own_dump(e: EventView)
    ensures
        event_json(e) is Object,
        keys_distinct(event_json(e)->Object_0),
{
    lemma_event_json_keys(e);
}

/// An event never matches what an event of another name writes.
pub proof fn lemma_other_name_never_matches(a: EventView, b: EventView)
    requires
        a.name != b.name,
    ensures
        as_map(event_json(b)->Object_0) != as_map(event_json(a)->Object_0),
{
    reveal_strlit("name");
    lemma_event_json_keys(a);
    lemma_event_json_keys(b);
    let fa = event_json(a)->Object_0;
    let fb = event_json(b)->Object_0;
    let ia = choose|i: int| 0 <= i < fa.len() && fa[i] == ("name"@, JsonView::Str(a.name));
    let ib = choose|i: int| 0 <= i < fb.len() && fb[i] == ("name"@, JsonView::Str(b.name));
    assert(exists|i: int| 0 <= i < fa.len() && fa[i] == ("name"@, JsonView::Str(a.name))) by {
        match a.data {
            crate::data::EventDataView::Give { .. } => assert(fa[2] == ("name"@, JsonView::Str(a.name))),
            crate::data::EventDataView::Move { .. } => assert(fa[1] == ("name"@, JsonView::Str(a.name))),
            _ => assert(fa[2] == ("name"@, JsonView::Str(a.name))),
        }
    }
    assert(exists|i: int| 0 <= i < fb.len() && fb[i] == ("name"@, JsonView::Str(b.name))) by {
        match b.data {
            crate::data::EventDataView::Give { .. } => assert(fb[2] == ("name"@, JsonView::Str(b.name))),
            crate::data::EventDataView::Move { .. } => assert(fb[1] == ("name"@, JsonView::Str(b.name))),
            _ => assert(fb[2] == ("name"@, JsonView::Str(b.name))),
        }
    }
    lemma_as_map_index(fa, ia);
    lemma_as_map_index(fb, ib);
}

proof fn lemma_stamp_sets(w: WorldView, items: Seq<Seq<char>>, n: usize)
    requires
        all_present(w, items),
    ensures
        forall|j: int| 0 <= j < items.len() ==> #[trigger] stamp(w, items, n).items.contains_key(items[j]) && stamp(
            w,
            items,
            n,
        ).items[items[j]].last_event == Some(n),
        forall|name: Seq<char>|
            #[trigger] w.items.contains_key(name) && w.items[name].last_event == Some(n) ==> stamp(
                w,
                items,
                n,
            ).items.contains_key(name) && stamp(w, items, n).items[name].last_event == Some(n),
        stamp(w, items, n).items.dom() == w.items.dom(),
    decreases items.len(),
{
    if items.len() > 0 {
        let name = items[0];
        let w1 = WorldView { items: w.items.insert(name, ItemView { last_event: Some(n), ..w.items[name] }), ..w };
        let rest = items.drop_first();
        assert forall|k: int| 0 <= k < rest.len() implies w1.items.contains_key(#[trigger] rest[k]) by {
            assert(rest[k] == items[k + 1]);
        }
        lemma_stamp_sets(w1, rest, n);
        assert(w1.items.dom() =~= w.items.dom());
        assert forall|j: int| 0 <= j < items.len() implies #[trigger] stamp(w, items, n).items.contains_key(items[j])
            && stamp(w, items, n).items[items[j]].last_event == Some(n) by {
            if j > 0 {
                assert(items[j] == rest[j - 1]);
            } else {
                assert(w1.items.contains_key(name) && w1.items[name].last_event == Some(n));
            }
        }
        assert forall|x: Seq<char>| #[trigger] w.items.contains_key(x) && w.items[x].last_event == Some(n) implies stamp(
            w,
            items,
            n,
        ).items.contains_key(x) && stamp(w, items, n).items[x].last_event == Some(n) by {
            assert(w1.items.contains_key(x) && w1.items[x].last_event == Some(n));
        }
    }
}

proof fn lemma_run_updates_stamps(updates: Seq<ChangeView>, items: Seq<Seq<char>>, w: WorldView, n: usize, j: int)
    requires
        run_updates(updates, items, w, n) is Some,
        updates.len() > 0,
        0 <= j < items.len(),
    ensures
        run_updates(updates, items, w, n)->Some_0.items.contains_key(items[j]),
        run_updates(updates, items, w, n)->Some_0.items[items[j]].last_event == Some(n),
    decreases updates.len(),
{
    let w1 = change_value(updates[0], w)->Ok_0;
    let w2 = stamp(w1, items, n);
    lemma_stamp_sets(w1, items, n);
    assert(w2.items.contains_key(items[j]) && w2.items[items[j]].last_event == Some(n));
    assert(run_updates(updates, items, w, n) == run_updates(updates.drop_first(), items, w2, n));
    if updates.len() == 1 {
        assert(updates.drop_first().len() == 0);
        assert(run_updates(updates.drop_first(), items, w2, n) == Some(w2));
    } else {
        lemma_run_updates_stamps(updates.drop_first(), items, w2, n, j);
    }
}

/// Triggering an event with changes records its number (the count of events
/// before it) as the last event of each item it is about.
pub proof fn lemma_trigger_stamps_items(e: EventView, w: WorldView)
    requires
        triggered(e, w) is Some,
        e.updates.len() > 0,
    ensures
        forall|j: int| 0 <= j < event_items(e.data).len() ==> #[trigger] triggered(e, w)->Some_0.items.contains_key(
            event_items(e.data)[j],
        ) && triggered(e, w)->Some_0.items[event_items(e.data)[j]].last_event == Some(w.event_count),
{
    let items = event_items(e.data);
    let w2 = run_updates(e.updates, items, w, w.event_count)->Some_0;
    let t = triggered(e, w)->Some_0;
    assert(t.items == w2.items);
    assert forall|j: int| 0 <= j < items.len() implies #[trigger] t.items.contains_key(items[j])
        && t.items[items[j]].last_event == Some(w.event_count) by {
        lemma_run_updates_stamps(e.updates, items, w, w.event_count, j);
    }
}

// ------------------------------------------------------------ the order of events

/// A key whose last event is earlier comes first: events are offered with
/// the least recently touched items first.
pub proof fn lemma_earlier_last_event_first(a: EventKey, b: EventKey)
    requires
        a.last_event < b.last_event,
    ensures
        key_lt(a, b),
        !key_lt(b, a),
{
}

/// In events ordered by key, the last events of their items never go down:
/// each event's items were touched no later than those of the events after it.
pub proof fn lemma_sorted_last_events_ascend(s: Seq<EventView>, w: WorldView)
    requires
        sorted_by_key(s, w),
    ensures
        forall|i: int, j: int|
            0 <= i < j < s.len() ==> #[trigger] max_last_event(w, event_items(s[i].data)) <= #[trigger] max_last_event(
                w,
                event_items(s[j].data),
            ),
{
    assert forall|i: int, j: int| 0 <= i < j < s.len() implies #[trigger] max_last_event(w, event_items(s[i].data))
        <= #[trigger] max_last_event(w, event_items(s[j].data)) by {
        let a = sort_key(s[i], w);
        let b = sort_key(s[j], w);
        if b.last_event < a.last_event {
            lemma_earlier_last_event_first(b, a);
            assert(!key_lt(sort_key(s[j], w), sort_key(s[i], w)));
        }
    }
}

// ------------------------------------------------------------ checks

/// An item can be given exactly where the giver owns it and the giver and
/// the receiver are both in a scene, the same one.
pub proof fn lemma_can_give_exactly(w: WorldView, from: Seq<char>, to: Seq<char>, item: Seq<char>)
    ensures
        check_value(CheckView::CanGive { from_character: from, to_character: to, item }, w) == Ok::<
            bool,
            crate::conditions::CheckError,
        >(
            w.items.contains_key(item) && w.items[item].state == ItemStateView::Owned(from)
                && w.characters.contains_key(from) && w.characters.contains_key(to)
                && w.characters[from].scene is Some && w.characters[to].scene == w.characters[from].scene,
        ),
{
    let cs = seq![from, to];
    let v = check_value(CheckView::CanGive { from_character: from, to_character: to, item }, w);
    assert(cs[0] == from && cs[1] == to);
    if crate::conditions::same_scene(w, cs, seq![]) {
        assert(crate::conditions::character_scene(w, cs[0]) is Some);
        assert(crate::conditions::character_scene(w, cs[1]) is Some);
        assert(crate::conditions::character_scene(w, cs[0]) == crate::conditions::character_scene(w, cs[1]));
    }
}

// ------------------------------------------------------------ changes

/// After an item is assigned, it is in exactly the state it was assigned,
/// whatever that state is (owned, lying in a scene, or unassigned); nothing
/// else of the item changes, and the other items stay as they were.
pub proof fn lemma_assign_sets_state(w: WorldView, item: Seq<char>, state: ItemStateView)
    requires
        change_value(ChangeView::AssignItem { item, state }, w) is Ok,
    ensures
        ({
            let w2 = change_value(ChangeView::AssignItem { item, state }, w)->Ok_0;
            &&& w.items.contains_key(item)
            &&& w2.items.contains_key(item)
            &&& w2.items[item].state == state
            &&& w2.items[item].name == w.items[item].name
            &&& w2.items[item].tags == w.items[item].tags
            &&& w2.items[item].last_event == w.items[item].last_event
            &&& w2.items.dom() == w.items.dom()
            &&& forall|other: Seq<char>| other != item && #[trigger] w.items.contains_key(other) ==> w2.items[other]
                == w.items[other]
            &&& w2.characters == w.characters
            &&& w2.scenes == w.scenes
            &&& (state matches ItemStateView::InScene(scene) ==> crate::conditions::item_scene(w2, item) == Some(scene))
        }),
{
    let w2 = change_value(ChangeView::AssignItem { item, state }, w)->Ok_0;
    assert(w2.items.dom() =~= w.items.dom());
}

// ------------------------------------------------------------ what events write

/// Each field of what an event writes holds the datum of that name: the
/// characters, item, scene and dialog of its data, and its name.
pub proof fn lemma_event_json_fields(e: EventView)
    ensures
        ({
            let f = event_json(e)->Object_0;
            &&& field(f, "name"@) == Some(JsonView::Str(e.name))
            &&& match e.data {
                EventDataView::Pick { character, item } => {
                    &&& field(f, "character"@) == Some(JsonView::Str(character))
                    &&& field(f, "item"@) == Some(JsonView::Str(item))
                },
                EventDataView::Give { from_character, to_character, item } => {
                    &&& field(f, "from_character"@) == Some(JsonView::Str(from_character))
                    &&& field(f, "to_character"@) == Some(JsonView::Str(to_character))
                    &&& field(f, "item"@) == Some(JsonView::Str(item))
                },
                EventDataView::UseItem { character, item } => {
                    &&& field(f, "character"@) == Some(JsonView::Str(character))
                    &&& field(f, "item"@) == Some(JsonView::Str(item))
                },
                EventDataView::Move { character, scene } => {
                    &&& field(f, "character"@) == Some(JsonView::Str(character))
                    &&& field(f, "scene"@) == Some(JsonView::Str(scene))
                },
                EventDataView::Void { character, item } => {
                    &&& field(f, "character"@) == Some(JsonView::Str(character))
                    &&& field(f, "item"@) == Some(
                        match item {
                            Some(i) => JsonView::Str(i),
                            None => JsonView::Null,
                        },
                    )
                },
                EventDataView::Talk { character, scene, dialog } => {
                    &&& field(f, "character"@) == Some(JsonView::Str(character))
                    &&& field(f, "scene"@) == Some(JsonView::Str(scene))
                    &&& field(f, "dialog"@) == Some(JsonView::Number(dialog as u64))
                },
            }
        }),
{
    reveal_strlit("character");
    reveal_strlit("item");
    reveal_strlit("name");
    reveal_strlit("from_character");
    reveal_strlit("to_character");
    reveal_strlit("scene");
    reveal_strlit("dialog");
    reveal_with_fuel(field, 5);
    assert("character"@[0] == 'c' && "item"@[0] == 'i' && "name"@[0] == 'n' && "scene"@[0] == 's');
    assert("dialog"@[0] == 'd' && "from_character"@[0] == 'f' && "to_character"@[0] == 't');
}

// ------------------------------------------------------------ what events touch

/// Triggering an event that changes the world marks the item its data names
/// (the item picked, given, used, or handled) as last touched by this event.
pub proof fn lemma_trigger_stamps_named_item(e: EventView, w: WorldView, item: Seq<char>)
    requires
        triggered(e, w) is Some,
        e.updates.len() > 0,
        match e.data {
            EventDataView::Pick { item: i, .. } => i == item,
            EventDataView::Give { item: i, .. } => i == item,
            EventDataView::UseItem { item: i, .. } => i == item,
            EventDataView::Void { item: i, .. } => i == Some(item),
            _ => false,
        },
    ensures
        triggered(e, w)->Some_0.items.contains_key(item),
        triggered(e, w)->Some_0.items[item].last_event == Some(w.event_count),
{
    lemma_trigger_stamps_items(e, w);
    let items = event_items(e.data);
    assert(items.len() >= 1 && items[0] == item);
    assert(triggered(e, w)->Some_0.items.contains_key(items[0]));
}

} // verus!
