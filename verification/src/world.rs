use uuid::Uuid;
use vstd::prelude::*;

use crate::ids::{nil_id, random_id};
use crate::assoc::{as_map, keys_distinct};
use crate::json::{field, fields_view, get_field, make_object, push_field, Json, JsonView};
use crate::keyed::{
    collect, has_key, keyed, keys_unique, lemma_keyed_absent, lemma_keyed_index, lemma_keyed_map,
    lemma_keyed_pairs, lemma_keyed_push, lemma_keyed_update, Keyed,
};
use crate::text::{clone_strings, decimal, decimal_string, texts};
use crate::{item_state_from_json, item_state_json, Character, Clean, Description, Item, ItemState, ItemStateView, LoadError, Music, Named, Tagged};

verus! {

// ---------------------------------------------------------------- items

/// The mathematical value of an item.
pub struct ItemView {
    pub name: Seq<char>,
    pub tags: Seq<Seq<char>>,
    pub state: ItemStateView,
    pub last_event: Option<usize>,
}

impl Keyed for ItemView {
    open spec fn key(&self) -> Seq<char> {
        self.name
    }
}

/// An item with a fixed name and tags, a state and the number of the last
/// event that involved it.
#[derive(Debug)]
pub struct SimpleItem {
    name: String,
    tags: Vec<String>,
    state: ItemState,
    last_event: Option<usize>,
}

impl View for SimpleItem {
    type V = ItemView;

    closed spec fn view(&self) -> ItemView {
        ItemView {
            name: self.name@,
            tags: texts(self.tags@),
            state: self.state@,
            last_event: self.last_event,
        }
    }
}

/// The document that [`SimpleItem::dump`] writes.
pub open spec fn item_json(item: ItemView) -> JsonView {
    JsonView::Object(
        seq![
            ("last_event"@, match item.last_event {
                Some(n) => JsonView::Number(n as u64),
                None => JsonView::Null,
            }),
            ("name"@, JsonView::Str(item.name)),
            ("state"@, item_state_json(item.state)),
        ],
    )
}

/// What [`SimpleItem::load`] makes of an item and a document: the item after
/// the call and the result.
pub open spec fn item_from_json(item: ItemView, data: JsonView) -> (ItemView, Result<(), LoadError>) {
    match data {
        JsonView::Object(fields) => match field(fields, "state"@) {
            None => (item, Err(LoadError::WrongItemFormat)),
            Some(state) => match field(fields, "last_event"@) {
                None => (item, Err(LoadError::WrongItemFormat)),
                Some(last) => {
                    let last_event = match last {
                        JsonView::Number(n) => Some(Some(n as usize)),
                        JsonView::Null => Some(None::<usize>),
                        _ => None,
                    };
                    match last_event {
                        None => (item, Err(LoadError::WrongItemFormat)),
                        Some(last_event) => match item_state_from_json(state) {
                            Ok(s) => (ItemView { state: s, last_event, ..item }, Ok(())),
                            Err(e) => (ItemView { last_event, ..item }, Err(e)),
                        },
                    }
                },
            },
        },
        _ => (item, Err(LoadError::WrongItemFormat)),
    }
}

impl SimpleItem {
    /// A new item that is nowhere and was in no event yet.
    pub fn new(name: &str, tags: Vec<String>) -> (r: SimpleItem)
        ensures
            r@ == (ItemView { name: name@, tags: texts(tags@), state: ItemStateView::Unassigned, last_event: None }),
    {
        SimpleItem { name: name.to_owned(), tags, state: ItemState::Unassigned, last_event: None }
    }

    /// Writes the item as a JSON document.
    pub fn dump(&self) -> (r: Json)
        ensures
            r@ == item_json(self@),
    {
        let last = match self.last_event {
            Some(n) => Json::Number(n as u64),
            None => Json::Null,
        };
        let mut fields: Vec<(String, Json)> = Vec::new();
        fields.push((String::from_str("last_event"), last));
        fields.push((String::from_str("name"), Json::Str(self.name.clone())));
        fields.push((String::from_str("state"), self.state.dump()));
        let r = Json::Object(fields);
        assert(fields@[0].1@ == fields@[0].1.value());
        assert(fields@[1].1@ == fields@[1].1.value());
        assert(fields@[2].1@ == fields@[2].1.value());
        assert(r@->Object_0 =~= item_json(self@)->Object_0);
        r
    }

    /// Reads the item's state and last event from a JSON document.
    pub fn load(&mut self, data: Json) -> (r: Result<(), LoadError>)
        ensures
            final(self)@ == item_from_json(old(self)@, data@).0,
            match item_from_json(old(self)@, data@).1 {
                Ok(_) => r is Ok,
                Err(e) => r == Err::<(), LoadError>(e),
            },
    {
        match data {
            Json::Object(fields) => {
                let state_json = match get_field(&fields, &String::from_str("state")) {
                    Some(v) => v,
                    None => return Err(LoadError::WrongItemFormat),
                };
                let last_json = match get_field(&fields, &String::from_str("last_event")) {
                    Some(v) => v,
                    None => return Err(LoadError::WrongItemFormat),
                };
                match last_json {
                    Json::Number(n) => {
                        self.last_event = Some(#[verifier::truncate] (*n as usize));
                    },
                    Json::Null => {
                        self.last_event = None;
                    },
                    _ => return Err(LoadError::WrongItemFormat),
                }
                let state = state_json.copy();
                self.state.load(state)
            },
            _ => Err(LoadError::WrongItemFormat),
        }
    }
}

impl Description for SimpleItem {
}

impl Named for SimpleItem {
    open spec fn name_view(&self) -> Seq<char> {
        self@.name
    }

    fn name(&self) -> (r: &str) {
        self.name.as_str()
    }
}

impl Tagged for SimpleItem {
    fn get_tags(&self) -> (r: Vec<String>)
        ensures
            texts(r@) == self@.tags,
    {
        clone_strings(&self.tags)
    }
}

impl Clean for SimpleItem {
    /// Puts the item nowhere and forgets its last event.
    fn clean(&mut self)
        ensures
            final(self)@ == (ItemView { state: ItemStateView::Unassigned, last_event: None, ..old(self)@ }),
    {
        self.state = ItemState::Unassigned;
        self.last_event = None;
    }
}

impl Item for SimpleItem {
    fn state(&self) -> (r: &ItemState)
        ensures
            r@ == self@.state,
    {
        &self.state
    }

    fn set_state(&mut self, state: ItemState)
        ensures
            final(self)@ == (ItemView { state: state@, ..old(self)@ }),
    {
        self.state = state;
    }

    fn last_event(&self) -> (r: Option<usize>)
        ensures
            r == self@.last_event,
    {
        self.last_event
    }

    fn set_last_event(&mut self, event: usize)
        ensures
            final(self)@ == (ItemView { last_event: Some(event), ..old(self)@ }),
    {
        self.last_event = Some(event);
    }
}

// ---------------------------------------------------------------- scenes

/// The mathematical value of a scene.
pub struct SceneView {
    pub name: Seq<char>,
    pub tags: Seq<Seq<char>>,
    /// The number of the current dialog, for a scene that has dialogs.
    pub dialog: Option<usize>,
    /// Where the scene is on the map, if anywhere: its two coordinates as
    /// they are written.
    pub location: Option<(JsonView, JsonView)>,
}

impl Keyed for SceneView {
    open spec fn key(&self) -> Seq<char> {
        self.name
    }
}

/// A coordinate as it is written: a number.
pub open spec fn coordinate(v: JsonView) -> bool {
    v is Number || v is OtherNumber
}

/// A place on the map, given by its two coordinates, each a number as it is
/// written.
#[derive(Debug)]
pub struct GeoLocation {
    x: Json,
    y: Json,
}

impl View for GeoLocation {
    type V = (JsonView, JsonView);

    closed spec fn view(&self) -> (JsonView, JsonView) {
        (self.x@, self.y@)
    }
}

/// Whether a document is a number.
fn is_number(v: &Json) -> (r: bool)
    ensures
        r == coordinate(v@),
{
    match v {
        Json::Number(_) => true,
        Json::OtherNumber(_) => true,
        _ => false,
    }
}

impl GeoLocation {
    /// The place with the coordinates, where both are numbers.
    pub fn new(x: Json, y: Json) -> (r: Option<GeoLocation>)
        ensures
            match r {
                Some(g) => coordinate(x@) && coordinate(y@) && g@ == (x@, y@),
                None => !(coordinate(x@) && coordinate(y@)),
            },
    {
        if is_number(&x) && is_number(&y) {
            Some(GeoLocation { x, y })
        } else {
            None
        }
    }

    /// The first coordinate.
    pub fn x(&self) -> (r: &Json)
        ensures
            r@ == self@.0,
    {
        &self.x
    }

    /// The second coordinate.
    pub fn y(&self) -> (r: &Json)
        ensures
            r@ == self@.1,
    {
        &self.y
    }

    /// A copy of the place.
    pub fn copy(&self) -> (r: GeoLocation)
        ensures
            r@ == self@,
    {
        GeoLocation { x: self.x.copy(), y: self.y.copy() }
    }
}

/// An optional place whose coordinates are numbers, as every place is.
pub open spec fn location_valid(l: Option<(JsonView, JsonView)>) -> bool {
    l matches Some(p) ==> coordinate(p.0) && coordinate(p.1)
}

/// The view of an optional place.
pub open spec fn location_view(l: Option<GeoLocation>) -> Option<(JsonView, JsonView)> {
    match l {
        Some(g) => Some(g@),
        None => None,
    }
}

/// A copy of an optional place.
fn copy_location(l: &Option<GeoLocation>) -> (r: Option<GeoLocation>)
    ensures
        location_view(r) == location_view(*l),
{
    match l {
        Some(g) => Some(g.copy()),
        None => None,
    }
}

/// A scene with a fixed name and tags, and perhaps a place on the map; a
/// scene with dialogs also counts which dialog is the current one.
#[derive(Debug)]
pub struct SimpleScene {
    name: String,
    tags: Vec<String>,
    dialog: Option<usize>,
    location: Option<GeoLocation>,
}

impl View for SimpleScene {
    type V = SceneView;

    closed spec fn view(&self) -> SceneView {
        SceneView {
            name: self.name@,
            tags: texts(self.tags@),
            dialog: self.dialog,
            location: location_view(self.location),
        }
    }
}

/// The value a JSON object holds under `key`, `null` where it holds none or
/// where the document is no object.
pub open spec fn index_json(data: JsonView, key: Seq<char>) -> JsonView {
    match data {
        JsonView::Object(fields) => match field(fields, key) {
            Some(v) => v,
            None => JsonView::Null,
        },
        _ => JsonView::Null,
    }
}

/// A stored geographic location: `null` or a pair of numbers.
pub open spec fn location_ok(v: JsonView) -> bool {
    match v {
        JsonView::Null => true,
        JsonView::Array(a) => a.len() == 2 && (a[0] is Number || a[0] is OtherNumber) && (a[1] is Number
            || a[1] is OtherNumber),
        _ => false,
    }
}

/// The stored form of an optional place: a pair of numbers, or `null`.
pub open spec fn location_json(l: Option<(JsonView, JsonView)>) -> JsonView {
    match l {
        Some((x, y)) => JsonView::Array(seq![x, y]),
        None => JsonView::Null,
    }
}

/// The place that a stored place reads as; `null` and a missing place read as
/// none.
pub open spec fn location_of(v: JsonView) -> Option<(JsonView, JsonView)> {
    match v {
        JsonView::Array(a) => Some((a[0], a[1])),
        _ => None,
    }
}

/// The document that [`SimpleScene::dump`] writes.
pub open spec fn scene_json(scene: SceneView) -> JsonView {
    match scene.dialog {
        Some(d) => JsonView::Object(
            seq![
                ("dialog"@, JsonView::Number(d as u64)),
                ("location"@, location_json(scene.location)),
                ("name"@, JsonView::Str(scene.name)),
            ],
        ),
        None => JsonView::Object(
            seq![("location"@, location_json(scene.location)), ("name"@, JsonView::Str(scene.name))],
        ),
    }
}

/// The scene after its place is read from a document, or why it cannot be.
pub open spec fn with_location(scene: SceneView, data: JsonView) -> (SceneView, Result<(), LoadError>) {
    let v = index_json(data, "location"@);
    if location_ok(v) {
        (SceneView { location: location_of(v), ..scene }, Ok(()))
    } else {
        (scene, Err(LoadError::WrongLocation))
    }
}

/// What [`SimpleScene::load`] makes of a scene and a document: the scene after
/// the call and the result.
pub open spec fn scene_from_json(scene: SceneView, data: JsonView) -> (SceneView, Result<(), LoadError>) {
    match scene.dialog {
        None => with_location(scene, data),
        Some(_) => match index_json(data, "dialog"@) {
            JsonView::Number(n) => with_location(SceneView { dialog: Some(n as usize), ..scene }, data),
            JsonView::OtherNumber(_) => (scene, Err(LoadError::WrongDialog)),
            _ => (scene, Err(LoadError::WrongSceneFormat)),
        },
    }
}

/// The value at `key` in a document, as `data[key]` reads it.
fn index_ref<'a>(data: &'a Json, key: &String) -> (r: Option<&'a Json>)
    ensures
        match r {
            Some(v) => index_json(data@, key@) == v@,
            None => index_json(data@, key@) == JsonView::Null,
        },
{
    match data {
        Json::Object(fields) => get_field(fields, key),
        _ => None,
    }
}

/// The place stored in a document: `Ok(None)` for none, `Err(())` where it is
/// neither `null` nor a pair of numbers.
fn read_location(data: &Json) -> (r: Result<Option<GeoLocation>, ()>)
    ensures
        match r {
            Ok(l) => location_ok(index_json(data@, "location"@)) && location_view(l) == location_of(
                index_json(data@, "location"@),
            ),
            Err(_) => !location_ok(index_json(data@, "location"@)),
        },
{
    match index_ref(data, &String::from_str("location")) {
        None => Ok(None),
        Some(Json::Null) => Ok(None),
        Some(Json::Array(a)) => {
            let ghost v = Json::Array(*a)@->Array_0;
            assert(v.len() == a.len());
            if a.len() != 2 {
                return Err(());
            }
            assert(v[0] == a@[0]@);
            assert(v[1] == a@[1]@);
            match GeoLocation::new(a[0].copy(), a[1].copy()) {
                Some(g) => Ok(Some(g)),
                None => Err(()),
            }
        },
        Some(_) => Err(()),
    }
}

impl SimpleScene {
    /// A new scene without dialogs.
    pub fn new(name: &str, tags: Vec<String>) -> (r: SimpleScene)
        ensures
            r@ == (SceneView { name: name@, tags: texts(tags@), dialog: None, location: None }),
    {
        SimpleScene { name: name.to_owned(), tags, dialog: None, location: None }
    }

    /// A new scene with dialogs, at its first dialog.
    pub fn with_dialog(name: &str, tags: Vec<String>) -> (r: SimpleScene)
        ensures
            r@ == (SceneView { name: name@, tags: texts(tags@), dialog: Some(0), location: None }),
    {
        SimpleScene { name: name.to_owned(), tags, dialog: Some(0), location: None }
    }

    /// Where the scene is on the map, if anywhere.
    pub fn geo_location(&self) -> (r: Option<GeoLocation>)
        ensures
            location_view(r) == self@.location,
    {
        copy_location(&self.location)
    }

    /// Puts the scene at a place on the map, or at none.
    pub fn set_geo_location(&mut self, location: Option<GeoLocation>)
        ensures
            final(self)@ == (SceneView { location: location_view(location), ..old(self)@ }),
    {
        self.location = location;
    }

    /// The current dialog, for a scene with dialogs.
    pub fn dialog(&self) -> (r: Option<usize>)
        ensures
            r == self@.dialog,
    {
        self.dialog
    }

    /// Moves on to the next dialog; a scene without dialogs stays as it is.
    pub fn next_dialog(&mut self)
        requires
            old(self)@.dialog matches Some(d) ==> d < usize::MAX,
        ensures
            final(self)@ == (SceneView { dialog: next_dialog(old(self)@.dialog), ..old(self)@ }),
    {
        match self.dialog {
            Some(d) => {
                self.dialog = Some(d + 1);
            },
            None => {},
        }
    }

    /// Writes the scene as a JSON document.
    pub fn dump(&self) -> (r: Json)
        ensures
            r@ == scene_json(self@),
    {
        let mut fields: Vec<(String, Json)> = Vec::new();
        match self.dialog {
            Some(d) => {
                fields.push((String::from_str("dialog"), Json::Number(d as u64)));
            },
            None => {},
        }
        let location = match &self.location {
            Some(g) => {
                let mut pair: Vec<Json> = Vec::new();
                pair.push(g.x().copy());
                pair.push(g.y().copy());
                let l = Json::Array(pair);
                assert(l@->Array_0 =~= seq![g@.0, g@.1]);
                l
            },
            None => Json::Null,
        };
        assert(location@ == location_json(self@.location));
        fields.push((String::from_str("location"), location));
        fields.push((String::from_str("name"), Json::Str(self.name.clone())));
        let r = Json::Object(fields);
        proof {
            let fv = r@->Object_0;
            let want = scene_json(self@)->Object_0;
            assert(fv.len() == want.len());
            assert forall|k: int| 0 <= k < fv.len() implies fv[k] == want[k] by {
                assert(fields@[k].1@ == fields@[k].1.value());
            }
            assert(fv =~= want);
        }
        r
    }

    /// Reads the scene's dialog, for a scene with dialogs, and its place from
    /// a JSON document.
    pub fn load(&mut self, data: Json) -> (r: Result<(), LoadError>)
        ensures
            final(self)@ == scene_from_json(old(self)@, data@).0,
            match scene_from_json(old(self)@, data@).1 {
                Ok(_) => r is Ok,
                Err(e) => r == Err::<(), LoadError>(e),
            },
    {
        if self.dialog.is_some() {
            match index_ref(&data, &String::from_str("dialog")) {
                Some(Json::Number(n)) => {
                    self.dialog = Some(#[verifier::truncate] (*n as usize));
                },
                Some(Json::OtherNumber(_)) => return Err(LoadError::WrongDialog),
                _ => return Err(LoadError::WrongSceneFormat),
            }
        }
        match read_location(&data) {
            Ok(location) => {
                self.location = location;
                Ok(())
            },
            Err(()) => Err(LoadError::WrongLocation),
        }
    }
}

/// The dialog after [`SimpleScene::next_dialog`].
pub open spec fn next_dialog(dialog: Option<usize>) -> Option<usize> {
    match dialog {
        Some(d) => Some((d + 1) as usize),
        None => None,
    }
}

/// The dialog after [`SimpleScene::clean`].
pub open spec fn clean_dialog(dialog: Option<usize>) -> Option<usize> {
    match dialog {
        Some(_) => Some(0),
        None => None,
    }
}

/// The long text of a scene: for a scene with dialogs, the one of its current
/// dialog.
pub open spec fn scene_long(world_name: Seq<char>, s: SceneView) -> Seq<char> {
    match s.dialog {
        Some(d) => world_name + "-"@ + s.name + "-long-"@ + decimal(d as nat),
        None => world_name + "-"@ + s.name + "-long"@,
    }
}

impl Description for SimpleScene {
    fn long(&self, world: &World) -> (r: String)
        ensures
            r@ == scene_long(world@.name, self@),
    {
        let mut id = world.name().to_owned();
        id.append("-");
        id.append(self.name.as_str());
        match self.dialog {
            Some(d) => {
                id.append("-long-");
                let n = decimal_string(d);
                id.append(n.as_str());
            },
            None => {
                id.append("-long");
            },
        }
        world.get_message(id.as_str())
    }
}

impl Named for SimpleScene {
    open spec fn name_view(&self) -> Seq<char> {
        self@.name
    }

    fn name(&self) -> (r: &str) {
        self.name.as_str()
    }
}

impl Tagged for SimpleScene {
    fn get_tags(&self) -> (r: Vec<String>)
        ensures
            texts(r@) == self@.tags,
    {
        clone_strings(&self.tags)
    }
}

impl Music for SimpleScene {
}

impl Clean for SimpleScene {
    /// Goes back to the first dialog.
    fn clean(&mut self)
        ensures
            final(self)@ == (SceneView { dialog: clean_dialog(old(self)@.dialog), ..old(self)@ }),
    {
        match self.dialog {
            Some(_) => {
                self.dialog = Some(0);
            },
            None => {},
        }
    }
}

// ---------------------------------------------------------------- characters

/// The mathematical value of a character.
pub struct CharacterView {
    pub name: Seq<char>,
    pub tags: Seq<Seq<char>>,
    pub scene: Option<Seq<char>>,
}

impl Keyed for CharacterView {
    open spec fn key(&self) -> Seq<char> {
        self.name
    }
}

/// The text of an optional string.
pub open spec fn opt_text(s: Option<String>) -> Option<Seq<char>> {
    match s {
        Some(s) => Some(s@),
        None => None,
    }
}

/// A copy of an optional string.
pub fn clone_opt(s: &Option<String>) -> (r: Option<String>)
    ensures
        opt_text(r) == opt_text(*s),
{
    match s {
        Some(s) => Some(s.clone()),
        None => None,
    }
}

/// Whether two optional strings hold the same text.
pub fn opt_eq(a: &Option<String>, b: &Option<String>) -> (r: bool)
    ensures
        r == (opt_text(*a) == opt_text(*b)),
{
    match a {
        Some(x) => match b {
            Some(y) => x.eq(y),
            None => false,
        },
        None => b.is_none(),
    }
}

/// A character with a fixed name and tags that is in some scene or in none.
#[derive(Debug)]
pub struct SimpleCharacter {
    name: String,
    tags: Vec<String>,
    scene: Option<String>,
}

impl View for SimpleCharacter {
    type V = CharacterView;

    closed spec fn view(&self) -> CharacterView {
        CharacterView { name: self.name@, tags: texts(self.tags@), scene: opt_text(self.scene) }
    }
}

impl SimpleCharacter {
    /// A new character that is in no scene.
    pub fn new(name: &str, tags: Vec<String>) -> (r: SimpleCharacter)
        ensures
            r@ == (CharacterView { name: name@, tags: texts(tags@), scene: None }),
    {
        SimpleCharacter { name: name.to_owned(), tags, scene: None }
    }
}

impl Description for SimpleCharacter {
}

impl Named for SimpleCharacter {
    open spec fn name_view(&self) -> Seq<char> {
        self@.name
    }

    fn name(&self) -> (r: &str) {
        self.name.as_str()
    }
}

impl Tagged for SimpleCharacter {
    fn get_tags(&self) -> (r: Vec<String>)
        ensures
            texts(r@) == self@.tags,
    {
        clone_strings(&self.tags)
    }
}

impl Clean for SimpleCharacter {
}

/// The document that [`SimpleCharacter::dump`] writes.
pub open spec fn character_json(c: CharacterView) -> JsonView {
    JsonView::Object(
        seq![
            ("name"@, JsonView::Str(c.name)),
            ("scene"@, match c.scene {
                Some(s) => JsonView::Str(s),
                None => JsonView::Null,
            }),
        ],
    )
}

/// What [`SimpleCharacter::load`] makes of a character and a document: the
/// character after the call and the result.
pub open spec fn character_from_json(c: CharacterView, data: JsonView) -> (CharacterView, Result<(), LoadError>) {
    match data {
        JsonView::Object(fields) => match field(fields, "scene"@) {
            Some(JsonView::Str(s)) => (CharacterView { scene: Some(s), ..c }, Ok(())),
            Some(JsonView::Null) => (CharacterView { scene: None, ..c }, Ok(())),
            _ => (c, Err(LoadError::WrongCharacterFormat)),
        },
        _ => (c, Err(LoadError::WrongCharacterFormat)),
    }
}

impl SimpleCharacter {
    /// Writes the character as a JSON document.
    pub fn dump(&self) -> (r: Json)
        ensures
            r@ == character_json(self@),
    {
        let scene = match &self.scene {
            Some(s) => Json::Str(s.clone()),
            None => Json::Null,
        };
        let mut fields: Vec<(String, Json)> = Vec::new();
        push_field(&mut fields, "name", Json::Str(self.name.clone()));
        push_field(&mut fields, "scene", scene);
        let r = make_object(fields);
        assert(r@->Object_0 =~= character_json(self@)->Object_0);
        r
    }

    /// Reads the scene of the character back from a document.
    pub fn load(&mut self, data: Json) -> (r: Result<(), LoadError>)
        ensures
            final(self)@ == character_from_json(old(self)@, data@).0,
            match character_from_json(old(self)@, data@).1 {
                Ok(_) => r is Ok,
                Err(e) => r == Err::<(), LoadError>(e),
            },
    {
        match data {
            Json::Object(fields) => {
                let key = String::from_str("scene");
                match get_field(&fields, &key) {
                    Some(Json::Str(s)) => {
                        self.scene = Some(s.clone());
                        Ok(())
                    },
                    Some(Json::Null) => {
                        self.scene = None;
                        Ok(())
                    },
                    _ => Err(LoadError::WrongCharacterFormat),
                }
            },
            _ => Err(LoadError::WrongCharacterFormat),
        }
    }
}

impl Character for SimpleCharacter {
    fn scene(&self) -> (r: &Option<String>)
        ensures
            opt_text(*r) == self@.scene,
    {
        &self.scene
    }

    fn set_scene(&mut self, scene: Option<String>)
        ensures
            final(self)@ == (CharacterView { scene: opt_text(scene), ..old(self)@ }),
    {
        self.scene = scene;
    }
}

// ---------------------------------------------------------------- the world

/// The views of a list of items.
pub open spec fn item_views(s: Seq<SimpleItem>) -> Seq<ItemView> {
    s.map_values(|x: SimpleItem| x@)
}

/// The views of a list of scenes.
pub open spec fn scene_views(s: Seq<SimpleScene>) -> Seq<SceneView> {
    s.map_values(|x: SimpleScene| x@)
}

/// The views of a list of characters.
pub open spec fn character_views(s: Seq<SimpleCharacter>) -> Seq<CharacterView> {
    s.map_values(|x: SimpleCharacter| x@)
}

/// The mathematical value of a world: its characters, items and scenes found
/// by their names, and the number of events that happened in it.
pub struct WorldView {
    pub name: Seq<char>,
    pub lang: Seq<char>,
    pub languages: Seq<Seq<char>>,
    pub characters: Map<Seq<char>, CharacterView>,
    pub items: Map<Seq<char>, ItemView>,
    pub scenes: Map<Seq<char>, SceneView>,
    pub event_count: usize,
}

/// The state of a story: its characters, items and scenes, each known by a
/// name that is unique among its kind.
#[derive(Debug)]
pub struct World {
    name: String,
    lang: String,
    languages: Vec<String>,
    id: Uuid,
    characters: Vec<SimpleCharacter>,
    items: Vec<SimpleItem>,
    scenes: Vec<SimpleScene>,
    event_count: usize,
}

impl View for World {
    type V = WorldView;

    closed spec fn view(&self) -> WorldView {
        WorldView {
            name: self.name@,
            lang: self.lang@,
            languages: texts(self.languages@),
            characters: keyed(character_views(self.characters@)),
            items: keyed(item_views(self.items@)),
            scenes: keyed(scene_views(self.scenes@)),
            event_count: self.event_count,
        }
    }
}

/// An item after [`SimpleItem::clean`].
pub open spec fn cleaned_item(i: ItemView) -> ItemView {
    ItemView { state: ItemStateView::Unassigned, last_event: None, ..i }
}

/// A scene after [`SimpleScene::clean`].
pub open spec fn cleaned_scene(s: SceneView) -> SceneView {
    SceneView { dialog: clean_dialog(s.dialog), ..s }
}

/// The world after its items and scenes are put back to their original state
/// and its event count to zero.
pub open spec fn cleaned(w: WorldView) -> WorldView {
    WorldView {
        items: w.items.map_values(|i: ItemView| cleaned_item(i)),
        scenes: w.scenes.map_values(|s: SceneView| cleaned_scene(s)),
        event_count: 0,
        ..w
    }
}

/// The characters of a list as stored: each under its name.
pub open spec fn character_entries(s: Seq<CharacterView>) -> Seq<(Seq<char>, JsonView)> {
    s.map_values(|c: CharacterView| (c.key(), character_json(c)))
}

/// The items of a list as stored: each under its name.
pub open spec fn item_entries(s: Seq<ItemView>) -> Seq<(Seq<char>, JsonView)> {
    s.map_values(|i: ItemView| (i.key(), item_json(i)))
}

/// The scenes of a list as stored: each under its name.
pub open spec fn scene_entries(s: Seq<SceneView>) -> Seq<(Seq<char>, JsonView)> {
    s.map_values(|c: SceneView| (c.key(), scene_json(c)))
}

/// An object whose entries have distinct names and, read by name, are the
/// stored characters of the world.
pub open spec fn characters_section(j: JsonView, w: WorldView) -> bool {
    match j {
        JsonView::Object(e) => {
            &&& keys_distinct(e)
            &&& as_map(e).dom() == w.characters.dom()
            &&& forall|k: Seq<char>| #[trigger] as_map(e).contains_key(k) ==> as_map(e)[k] == character_json(w.characters[k])
        },
        _ => false,
    }
}

/// An object whose entries have distinct names and, read by name, are the
/// stored items of the world.
pub open spec fn items_section(j: JsonView, w: WorldView) -> bool {
    match j {
        JsonView::Object(e) => {
            &&& keys_distinct(e)
            &&& as_map(e).dom() == w.items.dom()
            &&& forall|k: Seq<char>| #[trigger] as_map(e).contains_key(k) ==> as_map(e)[k] == item_json(w.items[k])
        },
        _ => false,
    }
}

/// An object whose entries have distinct names and, read by name, are the
/// stored scenes of the world.
pub open spec fn scenes_section(j: JsonView, w: WorldView) -> bool {
    match j {
        JsonView::Object(e) => {
            &&& keys_distinct(e)
            &&& as_map(e).dom() == w.scenes.dom()
            &&& forall|k: Seq<char>| #[trigger] as_map(e).contains_key(k) ==> as_map(e)[k] == scene_json(w.scenes[k])
        },
        _ => false,
    }
}

/// `j` is a document that [`World::dump`] writes for `w`: an object with the
/// characters, the items, the scenes (each an object of stored parts under
/// their names) and the event count, in this order.
pub open spec fn world_json_of(j: JsonView, w: WorldView) -> bool {
    match j {
        JsonView::Object(f) => {
            &&& f.len() == 4
            &&& f[0].0 == "characters"@
            &&& characters_section(f[0].1, w)
            &&& f[1].0 == "items"@
            &&& items_section(f[1].1, w)
            &&& f[2].0 == "scenes"@
            &&& scenes_section(f[2].1, w)
            &&& f[3] == ("event_count"@, JsonView::Number(w.event_count as u64))
        },
        _ => false,
    }
}

/// The world after the stored characters are read in turn into the
/// characters of the same names; the first failure ends the reading.
pub open spec fn load_characters(w: WorldView, e: Seq<(Seq<char>, JsonView)>) -> Result<WorldView, LoadError>
    decreases e.len(),
{
    if e.len() == 0 {
        Ok(w)
    } else if !w.characters.contains_key(e[0].0) {
        Err(LoadError::UnknownName)
    } else {
        match character_from_json(w.characters[e[0].0], e[0].1) {
            (c, Ok(_)) => load_characters(WorldView { characters: w.characters.insert(e[0].0, c), ..w }, e.drop_first()),
            (_, Err(x)) => Err(x),
        }
    }
}

/// The world after the stored items are read in turn into the items of the
/// same names; the first failure ends the reading.
pub open spec fn load_items(w: WorldView, e: Seq<(Seq<char>, JsonView)>) -> Result<WorldView, LoadError>
    decreases e.len(),
{
    if e.len() == 0 {
        Ok(w)
    } else if !w.items.contains_key(e[0].0) {
        Err(LoadError::UnknownName)
    } else {
        match item_from_json(w.items[e[0].0], e[0].1) {
            (i, Ok(_)) => load_items(WorldView { items: w.items.insert(e[0].0, i), ..w }, e.drop_first()),
            (_, Err(x)) => Err(x),
        }
    }
}

/// The world after the stored scenes are read in turn into the scenes of the
/// same names; the first failure ends the reading.
pub open spec fn load_scenes(w: WorldView, e: Seq<(Seq<char>, JsonView)>) -> Result<WorldView, LoadError>
    decreases e.len(),
{
    if e.len() == 0 {
        Ok(w)
    } else if !w.scenes.contains_key(e[0].0) {
        Err(LoadError::UnknownName)
    } else {
        match scene_from_json(w.scenes[e[0].0], e[0].1) {
            (c, Ok(_)) => load_scenes(WorldView { scenes: w.scenes.insert(e[0].0, c), ..w }, e.drop_first()),
            (_, Err(x)) => Err(x),
        }
    }
}

/// The world after one section of a stored world is read.
pub open spec fn load_section(w: WorldView, key: Seq<char>, v: JsonView) -> Result<WorldView, LoadError> {
    if key == "characters"@ {
        match v {
            JsonView::Object(e) => load_characters(w, e),
            _ => Err(LoadError::WrongWorldFormat),
        }
    } else if key == "items"@ {
        match v {
            JsonView::Object(e) => load_items(w, e),
            _ => Err(LoadError::WrongWorldFormat),
        }
    } else if key == "scenes"@ {
        match v {
            JsonView::Object(e) => load_scenes(w, e),
            _ => Err(LoadError::WrongWorldFormat),
        }
    } else if key == "event_count"@ {
        match v {
            JsonView::Number(n) => Ok(WorldView { event_count: n as usize, ..w }),
            _ => Err(LoadError::WrongWorldFormat),
        }
    } else {
        Err(LoadError::WrongWorldFormat)
    }
}

/// The world after the sections are read in turn; the first failure ends the
/// reading.
pub open spec fn load_sections(w: WorldView, f: Seq<(Seq<char>, JsonView)>) -> Result<WorldView, LoadError>
    decreases f.len(),
{
    if f.len() == 0 {
        Ok(w)
    } else {
        match load_section(w, f[0].0, f[0].1) {
            Ok(w1) => load_sections(w1, f.drop_first()),
            Err(e) => Err(e),
        }
    }
}

/// What [`World::load`] makes of a world and a document: the world read from
/// it, or why it cannot be read.
pub open spec fn world_from_json(w: WorldView, data: JsonView) -> Result<WorldView, LoadError> {
    match data {
        JsonView::Object(f) => load_sections(w, f),
        _ => Err(LoadError::WrongWorldFormat),
    }
}

/// Whether a key is the given text.
fn key_is(key: &String, text: &str) -> (r: bool)
    ensures
        r == (key@ == text@),
{
    key.eq(&String::from_str(text))
}

impl World {
    /// No two characters, items or scenes share a name.
    pub closed spec fn wf(&self) -> bool {
        &&& keys_unique(character_views(self.characters@))
        &&& keys_unique(item_views(self.items@))
        &&& keys_unique(scene_views(self.scenes@))
    }

    /// The identifier of the world.
    pub closed spec fn spec_id(&self) -> Uuid {
        self.id
    }

    /// The name of the story.
    pub fn name(&self) -> (r: &str)
        ensures
            r@ == self@.name,
    {
        self.name.as_str()
    }

    /// The current language.
    pub fn lang(&self) -> (r: &str)
        ensures
            r@ == self@.lang,
    {
        self.lang.as_str()
    }

    /// The languages in which the story can be told.
    pub fn available_languages(&self) -> (r: Vec<String>)
        ensures
            texts(r@) == self@.languages,
    {
        clone_strings(&self.languages)
    }

    /// Switches to `lang` where it is one of the available languages.
    pub fn set_lang(&mut self, lang: &str) -> (r: bool)
        ensures
            r == old(self)@.languages.contains(lang@),
            final(self)@ == (if r { WorldView { lang: lang@, ..old(self)@ } } else { old(self)@ }),
            final(self).wf() == old(self).wf(),
            final(self).spec_id() == old(self).spec_id(),
    {
        let lang = lang.to_owned();
        if crate::text::contains_string(&self.languages, &lang) {
            self.lang = lang;
            true
        } else {
            false
        }
    }

    /// The identifier of the world.
    pub fn id(&self) -> (r: &Uuid)
        ensures
            *r == self.spec_id(),
    {
        &self.id
    }

    /// Gives the world a new identifier.
    pub fn set_id(&mut self, id: Uuid)
        ensures
            final(self)@ == old(self)@,
            final(self).wf() == old(self).wf(),
            final(self).spec_id() == id,
    {
        self.id = id;
    }

    /// Gives the world a random identifier.
    pub fn randomize_id(&mut self)
        ensures
            final(self)@ == old(self)@,
            final(self).wf() == old(self).wf(),
    {
        self.set_id(random_id());
    }

    /// The number of events that happened in the world.
    pub fn event_count(&self) -> (r: usize)
        ensures
            r == self@.event_count,
    {
        self.event_count
    }

    /// Counts one more event.
    pub fn event_inc(&mut self)
        requires
            old(self)@.event_count < usize::MAX,
        ensures
            final(self)@ == (WorldView { event_count: (old(self)@.event_count + 1) as usize, ..old(self)@ }),
            final(self).wf() == old(self).wf(),
            final(self).spec_id() == old(self).spec_id(),
    {
        self.event_count = self.event_count + 1;
    }

    /// The text of a message: the world has no translations, so it is the
    /// message's identifier.
    pub fn get_message(&self, msgid: &str) -> (r: String)
        ensures
            r@ == msgid@,
    {
        msgid.to_owned()
    }

    /// The version of the format in which the world is stored.
    pub fn version(&self) -> (r: usize)
        ensures
            r == 1,
    {
        1
    }

    /// The characters of the world.
    pub fn characters(&self) -> (r: &Vec<SimpleCharacter>)
        requires
            self.wf(),
        ensures
            keys_unique(character_views(r@)),
            keyed(character_views(r@)) == self@.characters,
    {
        &self.characters
    }

    /// The items of the world.
    pub fn items(&self) -> (r: &Vec<SimpleItem>)
        requires
            self.wf(),
        ensures
            keys_unique(item_views(r@)),
            keyed(item_views(r@)) == self@.items,
    {
        &self.items
    }

    /// The scenes of the world.
    pub fn scenes(&self) -> (r: &Vec<SimpleScene>)
        requires
            self.wf(),
        ensures
            keys_unique(scene_views(r@)),
            keyed(scene_views(r@)) == self@.scenes,
    {
        &self.scenes
    }

    fn find_character(&self, name: &String) -> (r: Option<usize>)
        requires
            self.wf(),
        ensures
            match r {
                Some(i) => i < self.characters.len() && self.characters@[i as int]@.name == name@
                    && self@.characters.contains_key(name@) && self@.characters[name@]
                    == self.characters@[i as int]@,
                None => !self@.characters.contains_key(name@),
            },
    {
        let ghost views = character_views(self.characters@);
        let mut i: usize = 0;
        while i < self.characters.len()
            invariant
                self.wf(),
                i <= self.characters.len(),
                views == character_views(self.characters@),
                forall|j: int| 0 <= j < i ==> #[trigger] views[j].name != name@,
            decreases self.characters.len() - i,
        {
            if self.characters[i].name.eq(name) {
                proof {
                    lemma_keyed_index(views, i as int);
                }
                return Some(i);
            }
            i += 1;
        }
        proof {
            lemma_keyed_absent(views, name@);
        }
        None
    }

    fn find_item(&self, name: &String) -> (r: Option<usize>)
        requires
            self.wf(),
        ensures
            match r {
                Some(i) => i < self.items.len() && self.items@[i as int]@.name == name@
                    && self@.items.contains_key(name@) && self@.items[name@] == self.items@[i as int]@,
                None => !self@.items.contains_key(name@),
            },
    {
        let ghost views = item_views(self.items@);
        let mut i: usize = 0;
        while i < self.items.len()
            invariant
                self.wf(),
                i <= self.items.len(),
                views == item_views(self.items@),
                forall|j: int| 0 <= j < i ==> #[trigger] views[j].name != name@,
            decreases self.items.len() - i,
        {
            if self.items[i].name.eq(name) {
                proof {
                    lemma_keyed_index(views, i as int);
                }
                return Some(i);
            }
            i += 1;
        }
        proof {
            lemma_keyed_absent(views, name@);
        }
        None
    }

    fn find_scene(&self, name: &String) -> (r: Option<usize>)
        requires
            self.wf(),
        ensures
            match r {
                Some(i) => i < self.scenes.len() && self.scenes@[i as int]@.name == name@
                    && self@.scenes.contains_key(name@) && self@.scenes[name@] == self.scenes@[i as int]@,
                None => !self@.scenes.contains_key(name@),
            },
    {
        let ghost views = scene_views(self.scenes@);
        let mut i: usize = 0;
        while i < self.scenes.len()
            invariant
                self.wf(),
                i <= self.scenes.len(),
                views == scene_views(self.scenes@),
                forall|j: int| 0 <= j < i ==> #[trigger] views[j].name != name@,
            decreases self.scenes.len() - i,
        {
            if self.scenes[i].name.eq(name) {
                proof {
                    lemma_keyed_index(views, i as int);
                }
                return Some(i);
            }
            i += 1;
        }
        proof {
            lemma_keyed_absent(views, name@);
        }
        None
    }

    /// The character of the given name.
    pub fn character(&self, name: &String) -> (r: Option<&SimpleCharacter>)
        requires
            self.wf(),
        ensures
            match r {
                Some(c) => self@.characters.contains_key(name@) && self@.characters[name@] == c@ && c@.name == name@,
                None => !self@.characters.contains_key(name@),
            },
    {
        match self.find_character(name) {
            Some(i) => Some(&self.characters[i]),
            None => None,
        }
    }

    /// The item of the given name.
    pub fn item(&self, name: &String) -> (r: Option<&SimpleItem>)
        requires
            self.wf(),
        ensures
            match r {
                Some(it) => self@.items.contains_key(name@) && self@.items[name@] == it@ && it@.name == name@,
                None => !self@.items.contains_key(name@),
            },
    {
        match self.find_item(name) {
            Some(i) => Some(&self.items[i]),
            None => None,
        }
    }

    /// The scene of the given name.
    pub fn scene(&self, name: &String) -> (r: Option<&SimpleScene>)
        requires
            self.wf(),
        ensures
            match r {
                Some(sc) => self@.scenes.contains_key(name@) && self@.scenes[name@] == sc@ && sc@.name == name@,
                None => !self@.scenes.contains_key(name@),
            },
    {
        match self.find_scene(name) {
            Some(i) => Some(&self.scenes[i]),
            None => None,
        }
    }

    /// Puts the item of the given name into `state`; false where there is no
    /// such item, and then nothing changes.
    pub fn set_item_state(&mut self, name: &String, state: ItemState) -> (r: bool)
        requires
            old(self).wf(),
        ensures
            final(self).wf(),
            final(self).spec_id() == old(self).spec_id(),
            r == old(self)@.items.contains_key(name@),
            final(self)@ == (if r {
                WorldView {
                    items: old(self)@.items.insert(
                        name@,
                        ItemView { state: state@, ..old(self)@.items[name@] },
                    ),
                    ..old(self)@
                }
            } else {
                old(self)@
            }),
    {
        match self.find_item(name) {
            Some(i) => {
                let ghost before = item_views(self.items@);
                self.items[i].set_state(state);
                proof {
                    assert(item_views(self.items@) =~= before.update(i as int, self.items@[i as int]@));
                    lemma_keyed_update(before, i as int, self.items@[i as int]@);
                }
                true
            },
            None => false,
        }
    }

    /// Records `event` as the last event of the item of the given name; false
    /// where there is no such item, and then nothing changes.
    pub fn set_item_last_event(&mut self, name: &String, event: usize) -> (r: bool)
        requires
            old(self).wf(),
        ensures
            final(self).wf(),
            final(self).spec_id() == old(self).spec_id(),
            r == old(self)@.items.contains_key(name@),
            final(self)@ == (if r {
                WorldView {
                    items: old(self)@.items.insert(
                        name@,
                        ItemView { last_event: Some(event), ..old(self)@.items[name@] },
                    ),
                    ..old(self)@
                }
            } else {
                old(self)@
            }),
    {
        match self.find_item(name) {
            Some(i) => {
                let ghost before = item_views(self.items@);
                self.items[i].set_last_event(event);
                proof {
                    assert(item_views(self.items@) =~= before.update(i as int, self.items@[i as int]@));
                    lemma_keyed_update(before, i as int, self.items@[i as int]@);
                }
                true
            },
            None => false,
        }
    }

    /// Moves the character of the given name into `scene`; false where there
    /// is no such character, and then nothing changes.
    pub fn set_character_scene(&mut self, name: &String, scene: Option<String>) -> (r: bool)
        requires
            old(self).wf(),
        ensures
            final(self).wf(),
            final(self).spec_id() == old(self).spec_id(),
            r == old(self)@.characters.contains_key(name@),
            final(self)@ == (if r {
                WorldView {
                    characters: old(self)@.characters.insert(
                        name@,
                        CharacterView { scene: opt_text(scene), ..old(self)@.characters[name@] },
                    ),
                    ..old(self)@
                }
            } else {
                old(self)@
            }),
    {
        match self.find_character(name) {
            Some(i) => {
                let ghost before = character_views(self.characters@);
                self.characters[i].set_scene(scene);
                proof {
                    assert(character_views(self.characters@) =~= before.update(
                        i as int,
                        self.characters@[i as int]@,
                    ));
                    lemma_keyed_update(before, i as int, self.characters@[i as int]@);
                }
                true
            },
            None => false,
        }
    }

    /// Moves the scene of the given name on to its next dialog; false where
    /// there is no such scene, and then nothing changes.
    pub fn next_scene_dialog(&mut self, name: &String) -> (r: bool)
        requires
            old(self).wf(),
            old(self)@.scenes.contains_key(name@) ==> (old(self)@.scenes[name@].dialog matches Some(d)
                ==> d < usize::MAX),
        ensures
            final(self).wf(),
            final(self).spec_id() == old(self).spec_id(),
            r == old(self)@.scenes.contains_key(name@),
            final(self)@ == (if r {
                WorldView {
                    scenes: old(self)@.scenes.insert(
                        name@,
                        SceneView { dialog: next_dialog(old(self)@.scenes[name@].dialog), ..old(self)@.scenes[name@] },
                    ),
                    ..old(self)@
                }
            } else {
                old(self)@
            }),
    {
        match self.find_scene(name) {
            Some(i) => {
                let ghost before = scene_views(self.scenes@);
                self.scenes[i].next_dialog();
                proof {
                    assert(scene_views(self.scenes@) =~= before.update(i as int, self.scenes@[i as int]@));
                    lemma_keyed_update(before, i as int, self.scenes@[i as int]@);
                }
                true
            },
            None => false,
        }
    }


    /// A copy of the world, under the same identifier.
    pub fn duplicate(&self) -> (r: World)
        requires
            self.wf(),
        ensures
            r.wf(),
            r@ == self@,
            r.spec_id() == self.spec_id(),
    {
        let mut characters: Vec<SimpleCharacter> = Vec::new();
        let mut i: usize = 0;
        while i < self.characters.len()
            invariant
                i <= self.characters.len(),
                character_views(characters@) == character_views(self.characters@).subrange(0, i as int),
            decreases self.characters.len() - i,
        {
            let c = &self.characters[i];
            let nc = SimpleCharacter { name: c.name.clone(), tags: clone_strings(&c.tags), scene: clone_opt(&c.scene) };
            assert(nc@ == c@);
            let ghost prev = characters@;
            characters.push(nc);
            assert(characters@ == prev.push(nc));
            assert(character_views(characters@) =~= character_views(prev).push(nc@));
            assert(character_views(self.characters@).subrange(0, i + 1) =~= character_views(self.characters@).subrange(0, i as int).push(self.characters@[i as int]@));
            assert(character_views(characters@) =~= character_views(self.characters@).subrange(0, i + 1));
            i += 1;
        }
        let mut items: Vec<SimpleItem> = Vec::new();
        let mut i: usize = 0;
        while i < self.items.len()
            invariant
                i <= self.items.len(),
                item_views(items@) == item_views(self.items@).subrange(0, i as int),
            decreases self.items.len() - i,
        {
            let it = &self.items[i];
            let ni = SimpleItem {
                name: it.name.clone(),
                tags: clone_strings(&it.tags),
                state: it.state.clone(),
                last_event: it.last_event,
            };
            assert(ni@ == it@);
            let ghost prev = items@;
            items.push(ni);
            assert(items@ == prev.push(ni));
            assert(item_views(items@) =~= item_views(prev).push(ni@));
            assert(item_views(self.items@).subrange(0, i + 1) =~= item_views(self.items@).subrange(0, i as int).push(self.items@[i as int]@));
            assert(item_views(items@) =~= item_views(self.items@).subrange(0, i + 1));
            i += 1;
        }
        let mut scenes: Vec<SimpleScene> = Vec::new();
        let mut i: usize = 0;
        while i < self.scenes.len()
            invariant
                i <= self.scenes.len(),
                scene_views(scenes@) == scene_views(self.scenes@).subrange(0, i as int),
            decreases self.scenes.len() - i,
        {
            let sc = &self.scenes[i];
            let ns = SimpleScene {
                name: sc.name.clone(),
                tags: clone_strings(&sc.tags),
                dialog: sc.dialog,
                location: copy_location(&sc.location),
            };
            assert(ns@ == sc@);
            let ghost prev = scenes@;
            scenes.push(ns);
            assert(scenes@ == prev.push(ns));
            assert(scene_views(scenes@) =~= scene_views(prev).push(ns@));
            assert(scene_views(self.scenes@).subrange(0, i + 1) =~= scene_views(self.scenes@).subrange(0, i as int).push(self.scenes@[i as int]@));
            assert(scene_views(scenes@) =~= scene_views(self.scenes@).subrange(0, i + 1));
            i += 1;
        }
        proof {
            assert(character_views(characters@) =~= character_views(self.characters@));
            assert(item_views(items@) =~= item_views(self.items@));
            assert(scene_views(scenes@) =~= scene_views(self.scenes@));
        }
        World {
            name: self.name.clone(),
            lang: self.lang.clone(),
            languages: clone_strings(&self.languages),
            id: self.id,
            characters,
            items,
            scenes,
            event_count: self.event_count,
        }
    }

    /// Writes the world as a JSON document: its characters, items and scenes,
    /// each stored under its name, and the event count.
    pub fn dump(&self) -> (r: Json)
        requires
            self.wf(),
        ensures
            world_json_of(r@, self@),
    {
        let ghost cv = character_views(self.characters@);
        let ghost iv = item_views(self.items@);
        let ghost sv = scene_views(self.scenes@);
        let mut cs: Vec<(String, Json)> = Vec::new();
        let mut i: usize = 0;
        while i < self.characters.len()
            invariant
                i <= self.characters.len(),
                cv == character_views(self.characters@),
                fields_view(cs@) == character_entries(cv.subrange(0, i as int)),
            decreases self.characters.len() - i,
        {
            let c = &self.characters[i];
            let ghost prev = cs@;
            cs.push((c.name.clone(), c.dump()));
            assert(fields_view(cs@) =~= fields_view(prev).push((cv[i as int].name, character_json(cv[i as int]))));
            assert(character_entries(cv.subrange(0, i + 1)) =~= character_entries(cv.subrange(0, i as int)).push(
                (cv[i as int].name, character_json(cv[i as int])),
            ));
            i += 1;
        }
        let mut is: Vec<(String, Json)> = Vec::new();
        let mut i: usize = 0;
        while i < self.items.len()
            invariant
                i <= self.items.len(),
                iv == item_views(self.items@),
                fields_view(is@) == item_entries(iv.subrange(0, i as int)),
            decreases self.items.len() - i,
        {
            let it = &self.items[i];
            let ghost prev = is@;
            is.push((it.name.clone(), it.dump()));
            assert(fields_view(is@) =~= fields_view(prev).push((iv[i as int].name, item_json(iv[i as int]))));
            assert(item_entries(iv.subrange(0, i + 1)) =~= item_entries(iv.subrange(0, i as int)).push(
                (iv[i as int].name, item_json(iv[i as int])),
            ));
            i += 1;
        }
        let mut ss: Vec<(String, Json)> = Vec::new();
        let mut i: usize = 0;
        while i < self.scenes.len()
            invariant
                i <= self.scenes.len(),
                sv == scene_views(self.scenes@),
                fields_view(ss@) == scene_entries(sv.subrange(0, i as int)),
            decreases self.scenes.len() - i,
        {
            let sc = &self.scenes[i];
            let ghost prev = ss@;
            ss.push((sc.name.clone(), sc.dump()));
            assert(fields_view(ss@) =~= fields_view(prev).push((sv[i as int].name, scene_json(sv[i as int]))));
            assert(scene_entries(sv.subrange(0, i + 1)) =~= scene_entries(sv.subrange(0, i as int)).push(
                (sv[i as int].name, scene_json(sv[i as int])),
            ));
            i += 1;
        }
        proof {
            assert(cv.subrange(0, cv.len() as int) =~= cv);
            assert(iv.subrange(0, iv.len() as int) =~= iv);
            assert(sv.subrange(0, sv.len() as int) =~= sv);
            let fc = |c: CharacterView| character_json(c);
            let fi = |x: ItemView| item_json(x);
            let fs = |x: SceneView| scene_json(x);
            lemma_keyed_pairs(cv, fc);
            lemma_keyed_pairs(iv, fi);
            lemma_keyed_pairs(sv, fs);
            assert(character_entries(cv) =~= cv.map_values(|v: CharacterView| (v.key(), fc(v))));
            assert(item_entries(iv) =~= iv.map_values(|v: ItemView| (v.key(), fi(v))));
            assert(scene_entries(sv) =~= sv.map_values(|v: SceneView| (v.key(), fs(v))));
        }
        let characters = make_object(cs);
        let items = make_object(is);
        let scenes = make_object(ss);
        let mut f: Vec<(String, Json)> = Vec::new();
        push_field(&mut f, "characters", characters);
        push_field(&mut f, "items", items);
        push_field(&mut f, "scenes", scenes);
        push_field(&mut f, "event_count", Json::Number(self.event_count as u64));
        let r = make_object(f);
        proof {
            let rf = r@->Object_0;
            assert(rf.len() == 4);
            assert(rf[0].1 == characters@);
            assert(rf[1].1 == items@);
            assert(rf[2].1 == scenes@);
            assert(rf[0].0 == "characters"@);
            assert(rf[3] == ("event_count"@, JsonView::Number(self@.event_count as u64)));
            let ce = character_entries(cv);
            assert(characters@ == JsonView::Object(ce));
            assert(keys_distinct(ce));
            assert(self@.characters == keyed(cv));
            assert(as_map(ce).dom() =~= self@.characters.dom());
            assert(characters_section(rf[0].1, self@));
            let ie = item_entries(iv);
            assert(as_map(ie).dom() =~= self@.items.dom());
            assert(items_section(rf[1].1, self@));
            let se = scene_entries(sv);
            assert(as_map(se).dom() =~= self@.scenes.dom());
            assert(scenes_section(rf[2].1, self@));
        }
        r
    }

    fn load_characters_entries(&mut self, entries: &Vec<(String, Json)>) -> (r: Result<(), LoadError>)
        requires
            old(self).wf(),
        ensures
            final(self).wf(),
            final(self).spec_id() == old(self).spec_id(),
            match load_characters(old(self)@, fields_view(entries@)) {
                Ok(w) => r is Ok && final(self)@ == w,
                Err(e) => r == Err::<(), LoadError>(e),
            },
    {
        let ghost ev = fields_view(entries@);
        let ghost target = load_characters(self@, ev);
        let mut i: usize = 0;
        assert(ev.skip(0) =~= ev);
        while i < entries.len()
            invariant
                self.wf(),
                self.spec_id() == old(self).spec_id(),
                ev == fields_view(entries@),
                i <= entries.len(),
                load_characters(self@, ev.skip(i as int)) == target,
                target == load_characters(old(self)@, ev),
            decreases entries.len() - i,
        {
            proof {
                assert(ev.skip(i as int).len() > 0);
                assert(ev.skip(i as int)[0] == ev[i as int]);
                assert(ev[i as int] == (entries@[i as int].0@, entries@[i as int].1@));
                assert(ev.skip(i as int).drop_first() =~= ev.skip(i + 1));
            }
            match self.find_character(&entries[i].0) {
                None => {
                    return Err(LoadError::UnknownName);
                },
                Some(j) => {
                    let ghost before = character_views(self.characters@);
                    let r = self.characters[j].load(entries[i].1.copy());
                    proof {
                        assert(character_views(self.characters@) =~= before.update(j as int, self.characters@[j as int]@));
                        lemma_keyed_update(before, j as int, self.characters@[j as int]@);
                    }
                    match r {
                        Err(e) => {
                            return Err(e);
                        },
                        Ok(()) => {},
                    }
                },
            }
            i += 1;
        }
        proof {
            assert(ev.skip(i as int) =~= Seq::<(Seq<char>, JsonView)>::empty());
        }
        Ok(())
    }

    fn load_items_entries(&mut self, entries: &Vec<(String, Json)>) -> (r: Result<(), LoadError>)
        requires
            old(self).wf(),
        ensures
            final(self).wf(),
            final(self).spec_id() == old(self).spec_id(),
            match load_items(old(self)@, fields_view(entries@)) {
                Ok(w) => r is Ok && final(self)@ == w,
                Err(e) => r == Err::<(), LoadError>(e),
            },
    {
        let ghost ev = fields_view(entries@);
        let ghost target = load_items(self@, ev);
        let mut i: usize = 0;
        assert(ev.skip(0) =~= ev);
        while i < entries.len()
            invariant
                self.wf(),
                self.spec_id() == old(self).spec_id(),
                ev == fields_view(entries@),
                i <= entries.len(),
                load_items(self@, ev.skip(i as int)) == target,
                target == load_items(old(self)@, ev),
            decreases entries.len() - i,
        {
            proof {
                assert(ev.skip(i as int).len() > 0);
                assert(ev.skip(i as int)[0] == ev[i as int]);
                assert(ev[i as int] == (entries@[i as int].0@, entries@[i as int].1@));
                assert(ev.skip(i as int).drop_first() =~= ev.skip(i + 1));
            }
            match self.find_item(&entries[i].0) {
                None => {
                    return Err(LoadError::UnknownName);
                },
                Some(j) => {
                    let ghost before = item_views(self.items@);
                    let r = self.items[j].load(entries[i].1.copy());
                    proof {
                        assert(item_views(self.items@) =~= before.update(j as int, self.items@[j as int]@));
                        lemma_keyed_update(before, j as int, self.items@[j as int]@);
                    }
                    match r {
                        Err(e) => {
                            return Err(e);
                        },
                        Ok(()) => {},
                    }
                },
            }
            i += 1;
        }
        proof {
            assert(ev.skip(i as int) =~= Seq::<(Seq<char>, JsonView)>::empty());
        }
        Ok(())
    }

    fn load_scenes_entries(&mut self, entries: &Vec<(String, Json)>) -> (r: Result<(), LoadError>)
        requires
            old(self).wf(),
        ensures
            final(self).wf(),
            final(self).spec_id() == old(self).spec_id(),
            match load_scenes(old(self)@, fields_view(entries@)) {
                Ok(w) => r is Ok && final(self)@ == w,
                Err(e) => r == Err::<(), LoadError>(e),
            },
    {
        let ghost ev = fields_view(entries@);
        let ghost target = load_scenes(self@, ev);
        let mut i: usize = 0;
        assert(ev.skip(0) =~= ev);
        while i < entries.len()
            invariant
                self.wf(),
                self.spec_id() == old(self).spec_id(),
                ev == fields_view(entries@),
                i <= entries.len(),
                load_scenes(self@, ev.skip(i as int)) == target,
                target == load_scenes(old(self)@, ev),
            decreases entries.len() - i,
        {
            proof {
                assert(ev.skip(i as int).len() > 0);
                assert(ev.skip(i as int)[0] == ev[i as int]);
                assert(ev[i as int] == (entries@[i as int].0@, entries@[i as int].1@));
                assert(ev.skip(i as int).drop_first() =~= ev.skip(i + 1));
            }
            match self.find_scene(&entries[i].0) {
                None => {
                    return Err(LoadError::UnknownName);
                },
                Some(j) => {
                    let ghost before = scene_views(self.scenes@);
                    let r = self.scenes[j].load(entries[i].1.copy());
                    proof {
                        assert(scene_views(self.scenes@) =~= before.update(j as int, self.scenes@[j as int]@));
                        lemma_keyed_update(before, j as int, self.scenes@[j as int]@);
                    }
                    match r {
                        Err(e) => {
                            return Err(e);
                        },
                        Ok(()) => {},
                    }
                },
            }
            i += 1;
        }
        proof {
            assert(ev.skip(i as int) =~= Seq::<(Seq<char>, JsonView)>::empty());
        }
        Ok(())
    }

    fn load_sections_entries(&mut self, fields: &Vec<(String, Json)>) -> (r: Result<(), LoadError>)
        requires
            old(self).wf(),
        ensures
            final(self).wf(),
            final(self).spec_id() == old(self).spec_id(),
            match load_sections(old(self)@, fields_view(fields@)) {
                Ok(w) => r is Ok && final(self)@ == w,
                Err(e) => r == Err::<(), LoadError>(e),
            },
    {
        let ghost fv = fields_view(fields@);
        let ghost target = load_sections(self@, fv);
        let mut i: usize = 0;
        assert(fv.skip(0) =~= fv);
        while i < fields.len()
            invariant
                self.wf(),
                self.spec_id() == old(self).spec_id(),
                fv == fields_view(fields@),
                i <= fields.len(),
                load_sections(self@, fv.skip(i as int)) == target,
                target == load_sections(old(self)@, fv),
            decreases fields.len() - i,
        {
            proof {
                assert(fv.skip(i as int).len() > 0);
                assert(fv.skip(i as int)[0] == fv[i as int]);
                assert(fv[i as int] == (fields@[i as int].0@, fields@[i as int].1@));
                assert(fv.skip(i as int).drop_first() =~= fv.skip(i + 1));
            }
            let key = &fields[i].0;
            let value = &fields[i].1;
            let r = if key_is(key, "characters") {
                match value {
                    Json::Object(e) => {
                        assert(value@->Object_0 =~= fields_view(e@));
                        self.load_characters_entries(e)
                    },
                    _ => Err(LoadError::WrongWorldFormat),
                }
            } else if key_is(key, "items") {
                match value {
                    Json::Object(e) => {
                        assert(value@->Object_0 =~= fields_view(e@));
                        self.load_items_entries(e)
                    },
                    _ => Err(LoadError::WrongWorldFormat),
                }
            } else if key_is(key, "scenes") {
                match value {
                    Json::Object(e) => {
                        assert(value@->Object_0 =~= fields_view(e@));
                        self.load_scenes_entries(e)
                    },
                    _ => Err(LoadError::WrongWorldFormat),
                }
            } else if key_is(key, "event_count") {
                match value {
                    Json::Number(n) => {
                        self.event_count = *n as usize;
                        Ok(())
                    },
                    _ => Err(LoadError::WrongWorldFormat),
                }
            } else {
                Err(LoadError::WrongWorldFormat)
            };
            match r {
                Err(e) => {
                    return Err(e);
                },
                Ok(()) => {},
            }
            i += 1;
        }
        proof {
            assert(fv.skip(i as int) =~= Seq::<(Seq<char>, JsonView)>::empty());
        }
        Ok(())
    }

    /// Reads a world written by [`World::dump`] back into this world: every
    /// stored character, item and scene into the one of the same name, and
    /// the event count. Where that fails, the world stays as it was.
    pub fn load(&mut self, data: Json) -> (r: Result<(), LoadError>)
        requires
            old(self).wf(),
        ensures
            final(self).wf(),
            final(self).spec_id() == old(self).spec_id(),
            match world_from_json(old(self)@, data@) {
                Ok(w) => r is Ok && final(self)@ == w,
                Err(e) => r == Err::<(), LoadError>(e) && final(self)@ == old(self)@,
            },
    {
        match data {
            Json::Object(fields) => {
                assert(data@->Object_0 =~= fields_view(fields@));
                let mut copy = self.duplicate();
                match copy.load_sections_entries(&fields) {
                    Ok(()) => {
                        *self = copy;
                        Ok(())
                    },
                    Err(e) => Err(e),
                }
            },
            _ => Err(LoadError::WrongWorldFormat),
        }
    }

    /// Puts every item and scene back to its original state and the event
    /// count back to zero; characters stay where they are.
    pub fn clean_world(&mut self)
        requires
            old(self).wf(),
        ensures
            final(self).wf(),
            final(self).spec_id() == old(self).spec_id(),
            final(self)@ == cleaned(old(self)@),
    {
        self.event_count = 0;
        let ghost old_items = item_views(self.items@);
        let ghost fi = |i: ItemView| cleaned_item(i);
        let mut i: usize = 0;
        while i < self.items.len()
            invariant
                i <= self.items.len(),
                old_items.len() == self.items.len(),
                forall|j: int| 0 <= j < i ==> #[trigger] self.items@[j]@ == cleaned_item(old_items[j]),
                forall|j: int| i <= j < self.items.len() ==> #[trigger] self.items@[j]@ == old_items[j],
                self.scenes@ == old(self).scenes@,
                self.characters@ == old(self).characters@,
                self.id == old(self).id,
                self.name == old(self).name,
                self.lang == old(self).lang,
                self.languages == old(self).languages,
                self.event_count == 0,
            decreases self.items.len() - i,
        {
            self.items[i].clean();
            assert(self.items@[i as int]@ == cleaned_item(old_items[i as int]));
            i += 1;
        }
        proof {
            assert forall|j: int| 0 <= j < old_items.len() implies #[trigger] item_views(self.items@)[j] == fi(
                old_items[j],
            ) by {
                assert(self.items@[j]@ == cleaned_item(old_items[j]));
            }
            lemma_keyed_map(old_items, item_views(self.items@), fi);
        }
        let ghost items_done = self.items;
        let ghost old_scenes = scene_views(self.scenes@);
        let ghost fs = |s: SceneView| cleaned_scene(s);
        let mut i: usize = 0;
        while i < self.scenes.len()
            invariant
                i <= self.scenes.len(),
                old_scenes.len() == self.scenes.len(),
                forall|j: int| 0 <= j < i ==> #[trigger] self.scenes@[j]@ == cleaned_scene(old_scenes[j]),
                forall|j: int| i <= j < self.scenes.len() ==> #[trigger] self.scenes@[j]@ == old_scenes[j],
                item_views(self.items@) == item_views(items_done@),
                self.characters@ == old(self).characters@,
                self.id == old(self).id,
                self.name == old(self).name,
                self.lang == old(self).lang,
                self.languages == old(self).languages,
                self.event_count == 0,
            decreases self.scenes.len() - i,
        {
            self.scenes[i].clean();
            assert(self.scenes@[i as int]@ == cleaned_scene(old_scenes[i as int]));
            i += 1;
        }
        proof {
            assert forall|j: int| 0 <= j < old_scenes.len() implies #[trigger] scene_views(self.scenes@)[j] == fs(
                old_scenes[j],
            ) by {
                assert(self.scenes@[j]@ == cleaned_scene(old_scenes[j]));
            }
            lemma_keyed_map(old_scenes, scene_views(self.scenes@), fs);
            assert(self@.items =~= cleaned(old(self)@).items);
            assert(self@.scenes =~= cleaned(old(self)@).scenes);
        }
    }

}

// ---------------------------------------------------------------- building

/// The parts a world is built from, in the order they were given.
pub struct BuilderView {
    pub name: Seq<char>,
    pub languages: Seq<Seq<char>>,
    pub characters: Seq<CharacterView>,
    pub items: Seq<ItemView>,
    pub scenes: Seq<SceneView>,
}

/// Collects the parts of a world.
#[derive(Debug)]
pub struct WorldBuilder {
    name: String,
    languages: Vec<String>,
    characters: Vec<SimpleCharacter>,
    items: Vec<SimpleItem>,
    scenes: Vec<SimpleScene>,
}

impl View for WorldBuilder {
    type V = BuilderView;

    closed spec fn view(&self) -> BuilderView {
        BuilderView {
            name: self.name@,
            languages: texts(self.languages@),
            characters: character_views(self.characters@),
            items: item_views(self.items@),
            scenes: scene_views(self.scenes@),
        }
    }
}

/// The error of building a world, which [`WorldBuilder::build`] never
/// returns: every builder gives a world.
#[derive(Debug, Clone, Copy, PartialEq, Eq)]
pub struct BuildError;

/// The languages a new world can be told in: those given, or `en-US` where
/// none was given.
pub open spec fn told_in(languages: Seq<Seq<char>>) -> Seq<Seq<char>> {
    if languages.len() == 0 {
        seq!["en-US"@]
    } else {
        languages
    }
}

/// The language a new world starts in: the first one it can be told in.
pub open spec fn first_language(languages: Seq<Seq<char>>) -> Seq<char> {
    told_in(languages)[0]
}

fn put_character(v: &mut Vec<SimpleCharacter>, x: SimpleCharacter)
    requires
        keys_unique(character_views(old(v)@)),
    ensures
        keys_unique(character_views(final(v)@)),
        keyed(character_views(final(v)@)) == keyed(character_views(old(v)@)).insert(x@.name, x@),
{
    let ghost before = character_views(v@);
    let mut i: usize = 0;
    while i < v.len()
        invariant
            i <= v.len(),
            before == character_views(v@),
            before == character_views(old(v)@),
            keys_unique(before),
            forall|j: int| 0 <= j < i ==> #[trigger] before[j].name != x@.name,
        decreases v.len() - i,
    {
        if v[i].name.eq(&x.name) {
            v.set(i, x);
            proof {
                assert(character_views(v@) =~= before.update(i as int, x@));
                lemma_keyed_update(before, i as int, x@);
            }
            return;
        }
        i += 1;
    }
    proof {
        lemma_keyed_absent(before, x@.name);
        lemma_keyed_push(before, x@);
    }
    v.push(x);
    assert(character_views(v@) =~= before.push(x@));
}

fn put_item(v: &mut Vec<SimpleItem>, x: SimpleItem)
    requires
        keys_unique(item_views(old(v)@)),
    ensures
        keys_unique(item_views(final(v)@)),
        keyed(item_views(final(v)@)) == keyed(item_views(old(v)@)).insert(x@.name, x@),
{
    let ghost before = item_views(v@);
    let mut i: usize = 0;
    while i < v.len()
        invariant
            i <= v.len(),
            before == item_views(v@),
            before == item_views(old(v)@),
            keys_unique(before),
            forall|j: int| 0 <= j < i ==> #[trigger] before[j].name != x@.name,
        decreases v.len() - i,
    {
        if v[i].name.eq(&x.name) {
            v.set(i, x);
            proof {
                assert(item_views(v@) =~= before.update(i as int, x@));
                lemma_keyed_update(before, i as int, x@);
            }
            return;
        }
        i += 1;
    }
    proof {
        lemma_keyed_absent(before, x@.name);
        lemma_keyed_push(before, x@);
    }
    v.push(x);
    assert(item_views(v@) =~= before.push(x@));
}

fn put_scene(v: &mut Vec<SimpleScene>, x: SimpleScene)
    requires
        keys_unique(scene_views(old(v)@)),
    ensures
        keys_unique(scene_views(final(v)@)),
        keyed(scene_views(final(v)@)) == keyed(scene_views(old(v)@)).insert(x@.name, x@),
{
    let ghost before = scene_views(v@);
    let mut i: usize = 0;
    while i < v.len()
        invariant
            i <= v.len(),
            before == scene_views(v@),
            before == scene_views(old(v)@),
            keys_unique(before),
            forall|j: int| 0 <= j < i ==> #[trigger] before[j].name != x@.name,
        decreases v.len() - i,
    {
        if v[i].name.eq(&x.name) {
            v.set(i, x);
            proof {
                assert(scene_views(v@) =~= before.update(i as int, x@));
                lemma_keyed_update(before, i as int, x@);
            }
            return;
        }
        i += 1;
    }
    proof {
        lemma_keyed_absent(before, x@.name);
        lemma_keyed_push(before, x@);
    }
    v.push(x);
    assert(scene_views(v@) =~= before.push(x@));
}

impl WorldBuilder {
    /// A builder for a world of the story `name`, with no parts yet.
    pub fn new(name: &str) -> (r: WorldBuilder)
        ensures
            r@ == (BuilderView {
                name: name@,
                languages: Seq::empty(),
                characters: Seq::empty(),
                items: Seq::empty(),
                scenes: Seq::empty(),
            }),
    {
        let r = WorldBuilder {
            name: name.to_owned(),
            languages: Vec::new(),
            characters: Vec::new(),
            items: Vec::new(),
            scenes: Vec::new(),
        };
        assert(r@.languages =~= Seq::empty());
        assert(r@.characters =~= Seq::empty());
        assert(r@.items =~= Seq::empty());
        assert(r@.scenes =~= Seq::empty());
        r
    }

    /// Adds a language in which the story can be told.
    pub fn language(self, lang: &str) -> (r: WorldBuilder)
        ensures
            r@ == (BuilderView { languages: self@.languages.push(lang@), ..self@ }),
    {
        let mut r = self;
        r.languages.push(lang.to_owned());
        assert(texts(r.languages@) =~= self@.languages.push(lang@));
        r
    }

    /// Adds a character.
    pub fn character(self, character: SimpleCharacter) -> (r: WorldBuilder)
        ensures
            r@ == (BuilderView { characters: self@.characters.push(character@), ..self@ }),
    {
        let mut r = self;
        r.characters.push(character);
        assert(character_views(r.characters@) =~= self@.characters.push(character@));
        r
    }

    /// Adds an item.
    pub fn item(self, item: SimpleItem) -> (r: WorldBuilder)
        ensures
            r@ == (BuilderView { items: self@.items.push(item@), ..self@ }),
    {
        let mut r = self;
        r.items.push(item);
        assert(item_views(r.items@) =~= self@.items.push(item@));
        r
    }

    /// Adds a scene.
    pub fn scene(self, scene: SimpleScene) -> (r: WorldBuilder)
        ensures
            r@ == (BuilderView { scenes: self@.scenes.push(scene@), ..self@ }),
    {
        let mut r = self;
        r.scenes.push(scene);
        assert(scene_views(r.scenes@) =~= self@.scenes.push(scene@));
        r
    }

    /// Builds the world: a later part of the same name replaces an earlier
    /// one, the world starts in the first language given (`en-US` where none
    /// was given), with no event counted.
    pub fn build(self) -> (r: Result<World, BuildError>)
        ensures
            r is Ok,
            r matches Ok(w) ==> w.wf() && w@ == (WorldView {
                name: self@.name,
                lang: first_language(self@.languages),
                languages: told_in(self@.languages),
                characters: collect(self@.characters),
                items: collect(self@.items),
                scenes: collect(self@.scenes),
                event_count: 0,
            }),
    {
        let ghost bv = self@;
        let WorldBuilder { name, mut languages, characters, items, scenes } = self;
        if languages.len() == 0 {
            proof {
                reveal_strlit("en-US");
            }
            languages.push(String::from_str("en-US"));
            assert(texts(languages@) =~= told_in(bv.languages));
        }
        assert(texts(languages@) == told_in(bv.languages));
        let lang = languages[0].clone();
        let mut cs: Vec<SimpleCharacter> = Vec::new();
        let mut rest = characters;
        let ghost all = character_views(rest@);
        assert(all.len() == rest.len());
        let mut taken: usize = 0;
        proof {
            assert(keys_unique(character_views(cs@)));
            assert(keyed(character_views(cs@)) =~= collect(all.take(0)));
        }
        while rest.len() > 0
            invariant
                taken + rest.len() == all.len(),
                all.len() <= usize::MAX,
                character_views(rest@) == all.skip(taken as int),
                keys_unique(character_views(cs@)),
                keyed(character_views(cs@)) == collect(all.take(taken as int)),
            decreases rest.len(),
        {
            let ghost prev = character_views(rest@);
            assert(prev[0] == rest@[0]@);
            let x = rest.remove(0);
            assert(character_views(rest@) =~= prev.skip(1));
            assert(prev.skip(1) =~= all.skip(taken + 1));
            proof {
                assert(x@ == all[taken as int]);
                assert(all.take(taken + 1).drop_last() =~= all.take(taken as int));
            }
            put_character(&mut cs, x);
            taken += 1;
        }
        assert(all.take(all.len() as int) =~= all);
        let mut its: Vec<SimpleItem> = Vec::new();
        let mut rest = items;
        let ghost all = item_views(rest@);
        assert(all.len() == rest.len());
        let mut taken: usize = 0;
        proof {
            assert(keyed(item_views(its@)) =~= collect(all.take(0)));
        }
        while rest.len() > 0
            invariant
                taken + rest.len() == all.len(),
                all.len() <= usize::MAX,
                item_views(rest@) == all.skip(taken as int),
                keys_unique(item_views(its@)),
                keyed(item_views(its@)) == collect(all.take(taken as int)),
            decreases rest.len(),
        {
            let ghost prev = item_views(rest@);
            assert(prev[0] == rest@[0]@);
            let x = rest.remove(0);
            assert(item_views(rest@) =~= prev.skip(1));
            assert(prev.skip(1) =~= all.skip(taken + 1));
            proof {
                assert(x@ == all[taken as int]);
                assert(all.take(taken + 1).drop_last() =~= all.take(taken as int));
            }
            put_item(&mut its, x);
            taken += 1;
        }
        assert(all.take(all.len() as int) =~= all);
        let mut scs: Vec<SimpleScene> = Vec::new();
        let mut rest = scenes;
        let ghost all = scene_views(rest@);
        assert(all.len() == rest.len());
        let mut taken: usize = 0;
        proof {
            assert(keyed(scene_views(scs@)) =~= collect(all.take(0)));
        }
        while rest.len() > 0
            invariant
                taken + rest.len() == all.len(),
                all.len() <= usize::MAX,
                scene_views(rest@) == all.skip(taken as int),
                keys_unique(scene_views(scs@)),
                keyed(scene_views(scs@)) == collect(all.take(taken as int)),
            decreases rest.len(),
        {
            let ghost prev = scene_views(rest@);
            assert(prev[0] == rest@[0]@);
            let x = rest.remove(0);
            assert(scene_views(rest@) =~= prev.skip(1));
            assert(prev.skip(1) =~= all.skip(taken + 1));
            proof {
                assert(x@ == all[taken as int]);
                assert(all.take(taken + 1).drop_last() =~= all.take(taken as int));
            }
            put_scene(&mut scs, x);
            taken += 1;
        }
        assert(all.take(all.len() as int) =~= all);
        Ok(World {
            name,
            lang,
            languages,
            id: nil_id(),
            characters: cs,
            items: its,
            scenes: scs,
            event_count: 0,
        })
    }
}

} // verus!
