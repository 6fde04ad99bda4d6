use vstd::prelude::*;

use crate::data::{initiator_of, EventDataView};
use crate::events::{event_json, msg_base, Event};
use crate::json::{fields_view, Json, JsonView};
use crate::world::{location_view, GeoLocation, World};

verus! {

broadcast use vstd::std_specs::vec::group_vec_axioms;

/// The picture of an image name: `images/<name>.svg`.
pub open spec fn image_of(name: Seq<char>) -> Seq<char> {
    "images/"@ + name + ".svg"@
}

/// The picture on the card of an event: that of its item, of the scene a
/// character moves to, a speech bubble for a line of dialog, and none for an
/// event without an item.
pub open spec fn event_image(d: EventDataView) -> Option<Seq<char>> {
    match d {
        EventDataView::Pick { item, .. } => Some(image_of(item)),
        EventDataView::Give { item, .. } => Some(image_of(item)),
        EventDataView::UseItem { item, .. } => Some(image_of(item)),
        EventDataView::Move { scene, .. } => Some(image_of(scene)),
        EventDataView::Void { item, .. } => match item {
            Some(i) => Some(image_of(i)),
            None => None,
        },
        EventDataView::Talk { .. } => Some("images/comment.svg"@),
    }
}

/// The card on which an event is offered to the players: its place in the
/// list, its text, the character that starts it, its picture, the event as
/// written, whether it happens as soon as it is picked (a line of dialog
/// does), whether its code is shown to scan (where no character is played),
/// and the place of the scene it leads to, if that is on the map.
pub struct EventCard {
    pub idx: usize,
    pub description: String,
    pub initiator: String,
    pub image: Option<String>,
    pub data: Json,
    pub self_triggering: bool,
    pub show_qr: bool,
    pub geo_location: Option<GeoLocation>,
}

fn image_path(name: &str) -> (r: String)
    ensures
        r@ == image_of(name@),
{
    let mut r = String::from_str("images/");
    proof {
        reveal_strlit("images/");
    }
    r.append(name);
    r.append(".svg");
    proof {
        reveal_strlit(".svg");
    }
    r
}

/// The picture on the card of the event, as [`event_image`] says.
pub fn event_picture(e: &Event) -> (r: Option<String>)
    ensures
        match event_image(e@.data) {
            Some(p) => r is Some && r->0@ == p,
            None => r is None,
        },
{
    match e {
        Event::Pick(x) => Some(image_path(x.data().item.as_str())),
        Event::Give(x) => Some(image_path(x.data().item.as_str())),
        Event::UseItem(x) => Some(image_path(x.data().item.as_str())),
        Event::Move(x) => Some(image_path(x.data().scene.as_str())),
        Event::Void(x) => match &x.data().item {
            Some(i) => Some(image_path(i.as_str())),
            None => None,
        },
        Event::Talk(x) => {
            let _d = x.data();
            proof {
                reveal_strlit("images/comment.svg");
            }
            Some(String::from_str("images/comment.svg"))
        },
    }
}

/// The card of the event at place `idx` of the list of events offered in the
/// world; `no_character` tells whether the player plays no character.
pub fn event_card(idx: usize, e: &Event, world: &World, no_character: bool) -> (r: EventCard)
    requires
        world.wf(),
        e@.data matches EventDataView::Move { scene, .. } ==> world@.scenes.contains_key(scene),
    ensures
        r.idx == idx,
        r.description@ == msg_base(world@.name, e@) + "-action"@,
        r.initiator@ == initiator_of(e@.data),
        match event_image(e@.data) {
            Some(p) => r.image is Some && r.image->0@ == p,
            None => r.image is None,
        },
        r.data@ == event_json(e@),
        r.self_triggering == (e@.data is Talk),
        r.show_qr == no_character,
        match e@.data {
            EventDataView::Move { scene, .. } => location_view(r.geo_location) == world@.scenes[scene].location,
            _ => r.geo_location is None,
        },
{
    let geo_location = match e.geo_location(world) {
        Some((_, _, g)) => Some(g),
        None => None,
    };
    let self_triggering = match e {
        Event::Talk(x) => {
            let _d = x.data();
            true
        },
        Event::Pick(x) => {
            let _d = x.data();
            false
        },
        Event::Give(x) => {
            let _d = x.data();
            false
        },
        Event::UseItem(x) => {
            let _d = x.data();
            false
        },
        Event::Move(x) => {
            let _d = x.data();
            false
        },
        Event::Void(x) => {
            let _d = x.data();
            false
        },
    };
    EventCard {
        idx,
        description: e.action_text(world),
        initiator: e.initiator(),
        image: event_picture(e),
        data: e.dump(),
        self_triggering,
        show_qr: no_character,
        geo_location,
    }
}

/// The fields without those under `key`, in their order.
pub open spec fn without_key(s: Seq<(Seq<char>, JsonView)>, key: Seq<char>) -> Seq<(Seq<char>, JsonView)>
    decreases s.len(),
{
    if s.len() == 0 {
        s
    } else if s.last().0 == key {
        without_key(s.drop_last(), key)
    } else {
        without_key(s.drop_last(), key).push(s.last())
    }
}

/// A value with its `item` key set to the item: an object keeps its other
/// fields and gets the item last; nothing becomes an object of the item
/// alone.
pub open spec fn with_item_json(v: JsonView, item: Seq<char>) -> JsonView {
    match v {
        JsonView::Object(f) => JsonView::Object(without_key(f, "item"@).push(("item"@, JsonView::Str(item)))),
        _ => JsonView::Object(seq![("item"@, JsonView::Str(item))]),
    }
}

/// Sets the `item` key of the value to the item; `null` becomes an object
/// with that key alone.
pub fn with_item(value: Json, item: String) -> (r: Json)
    requires
        value@ is Object || value@ is Null,
    ensures
        r@ == with_item_json(value@, item@),
{
    let key = String::from_str("item");
    proof {
        reveal_strlit("item");
    }
    let mut out: Vec<(String, Json)> = Vec::new();
    match value {
        Json::Object(fields) => {
            let ghost fv = fields_view(fields@);
            assert(value@->Object_0 =~= fv);
            let mut i: usize = 0;
            while i < fields.len()
                invariant
                    i <= fields.len(),
                    fv == fields_view(fields@),
                    key@ == "item"@,
                    fields_view(out@) == without_key(fv.take(i as int), "item"@),
                decreases fields.len() - i,
            {
                proof {
                    assert(fv.take(i + 1).drop_last() =~= fv.take(i as int));
                    assert(fv.take(i + 1).last() == fv[i as int]);
                }
                if !fields[i].0.eq(&key) {
                    let k = fields[i].0.clone();
                    let v = fields[i].1.copy();
                    out.push((k, v));
                    proof {
                        assert(fields_view(out@) =~= without_key(fv.take(i as int), "item"@).push(fv[i as int]));
                    }
                }
                i += 1;
            }
            assert(fv.take(fields.len() as int) =~= fv);
        },
        _ => {
            assert(fields_view(out@) =~= Seq::<(Seq<char>, JsonView)>::empty());
            assert(without_key(Seq::<(Seq<char>, JsonView)>::empty(), "item"@) =~= Seq::<(Seq<char>, JsonView)>::empty());
        },
    }
    let ghost before = fields_view(out@);
    out.push((key, Json::Str(item)));
    assert(fields_view(out@) =~= before.push(("item"@, JsonView::Str(item@))));
    crate::json::make_object(out)
}

/// What a scanned code of an event becomes when it is used with an item: the
/// event's data with the item set, to be triggered; nothing where the code
/// could not be read.
pub fn item_used(item: String, decoded: Option<Json>) -> (r: Option<Json>)
    requires
        decoded matches Some(v) ==> (v@ is Object || v@ is Null),
    ensures
        match decoded {
            Some(v) => r is Some && r->0@ == with_item_json(v@, item@),
            None => r is None,
        },
{
    match decoded {
        Some(v) => Some(with_item(v, item)),
        None => None,
    }
}

} // verus!
