pub mod json;
pub mod keyed;
pub mod text;
pub mod ids;
pub mod world;
pub mod conditions;
pub mod updates;
pub mod data;
pub mod order;
pub mod events;
pub mod narrator;
pub mod laws;
pub mod assoc;
pub mod websocket;
pub mod connection;
pub mod webapp;
pub mod books;
pub mod cli;

use vstd::prelude::*;
use crate::json::{field, get_field, Json, JsonView};
use crate::world::World;

verus! {

/// Why a stored value could not be read back.
#[derive(Debug, Clone, Copy, PartialEq, Eq, Structural)]
pub enum LoadError {
    /// An item state object has no `value` field.
    MissingValue,
    /// The `value` field of an item state is not a string.
    MismatchedValue,
    /// An item state object has no `kind` field.
    MissingKind,
    /// The `kind` field of an item state is neither `character` nor `scene`.
    UnknownKind,
    /// The document is neither `null` nor an object.
    NotItemState,
    /// A stored item lacks a field or holds one of the wrong type.
    WrongItemFormat,
    /// A stored scene lacks its `dialog` number.
    WrongSceneFormat,
    /// The `dialog` field of a stored scene is a number that is not a
    /// non-negative integer.
    WrongDialog,
    /// The `location` field of a stored scene is neither `null` nor a pair of
    /// numbers.
    WrongLocation,
    /// A stored character lacks its `scene`, or holds one that is neither
    /// `null` nor a string.
    WrongCharacterFormat,
    /// A stored world is not an object, holds an unknown section, or a
    /// section of the wrong type.
    WrongWorldFormat,
    /// A stored world names a character, item or scene that the world does
    /// not have.
    UnknownName,
}

/// Where an item currently is.
#[derive(Debug)]
pub enum ItemState {
    Owned(String),
    InScene(String),
    Unassigned,
}

/// The mathematical value of an [`ItemState`].
pub enum ItemStateView {
    Owned(Seq<char>),
    InScene(Seq<char>),
    Unassigned,
}

impl View for ItemState {
    type V = ItemStateView;

    open spec fn view(&self) -> ItemStateView {
        match self {
            ItemState::Owned(c) => ItemStateView::Owned(c@),
            ItemState::InScene(s) => ItemStateView::InScene(s@),
            ItemState::Unassigned => ItemStateView::Unassigned,
        }
    }
}

impl PartialEq for ItemState {
    fn eq(&self, other: &ItemState) -> (r: bool) {
        match self {
            ItemState::Owned(a) => match other {
                ItemState::Owned(b) => a.eq(b),
                _ => false,
            },
            ItemState::InScene(a) => match other {
                ItemState::InScene(b) => a.eq(b),
                _ => false,
            },
            ItemState::Unassigned => match other {
                ItemState::Unassigned => true,
                _ => false,
            },
        }
    }
}

impl vstd::std_specs::cmp::PartialEqSpecImpl for ItemState {
    open spec fn obeys_eq_spec() -> bool {
        true
    }

    open spec fn eq_spec(&self, other: &ItemState) -> bool {
        self@ == other@
    }
}

impl Clone for ItemState {
    fn clone(&self) -> (r: ItemState)
        ensures
            r@ == self@,
    {
        match self {
            ItemState::Owned(c) => ItemState::Owned(c.clone()),
            ItemState::InScene(s) => ItemState::InScene(s.clone()),
            ItemState::Unassigned => ItemState::Unassigned,
        }
    }
}

impl Default for ItemState {
    fn default() -> (r: ItemState)
        ensures
            r@ == ItemStateView::Unassigned,
    {
        ItemState::Unassigned
    }
}

/// The document that [`ItemState::dump`] writes for a state.
pub open spec fn item_state_json(state: ItemStateView) -> JsonView {
    match state {
        ItemStateView::Owned(c) => JsonView::Object(
            seq![("kind"@, JsonView::Str("character"@)), ("value"@, JsonView::Str(c))],
        ),
        ItemStateView::InScene(s) => JsonView::Object(
            seq![("kind"@, JsonView::Str("scene"@)), ("value"@, JsonView::Str(s))],
        ),
        ItemStateView::Unassigned => JsonView::Null,
    }
}

/// The state that [`ItemState::load`] reads from a document, or why it fails.
pub open spec fn item_state_from_json(data: JsonView) -> Result<ItemStateView, LoadError> {
    match data {
        JsonView::Null => Ok(ItemStateView::Unassigned),
        JsonView::Object(fields) => match field(fields, "value"@) {
            None => Err(LoadError::MissingValue),
            Some(JsonView::Str(value)) => match field(fields, "kind"@) {
                None => Err(LoadError::MissingKind),
                Some(JsonView::Str(kind)) => if kind == "character"@ {
                    Ok(ItemStateView::Owned(value))
                } else if kind == "scene"@ {
                    Ok(ItemStateView::InScene(value))
                } else {
                    Err(LoadError::UnknownKind)
                },
                Some(_) => Err(LoadError::UnknownKind),
            },
            Some(_) => Err(LoadError::MismatchedValue),
        },
        _ => Err(LoadError::NotItemState),
    }
}

impl ItemState {
    /// Writes the state as a JSON document.
    pub fn dump(&self) -> (r: Json)
        ensures
            r@ == item_state_json(self@),
    {
        match self {
            ItemState::Owned(c) => {
                let mut fields: Vec<(String, Json)> = Vec::new();
                fields.push((String::from_str("kind"), Json::Str(String::from_str("character"))));
                fields.push((String::from_str("value"), Json::Str(c.clone())));
                let r = Json::Object(fields);
                assert(fields@[0].1@ == fields@[0].1.value());
                assert(fields@[1].1@ == fields@[1].1.value());
                assert(r@->Object_0[0] == item_state_json(self@)->Object_0[0]);
                assert(r@->Object_0[1] == item_state_json(self@)->Object_0[1]);
                assert(r@->Object_0 =~= item_state_json(self@)->Object_0);
                r
            },
            ItemState::InScene(s) => {
                let mut fields: Vec<(String, Json)> = Vec::new();
                fields.push((String::from_str("kind"), Json::Str(String::from_str("scene"))));
                fields.push((String::from_str("value"), Json::Str(s.clone())));
                let r = Json::Object(fields);
                assert(fields@[0].1@ == fields@[0].1.value());
                assert(fields@[1].1@ == fields@[1].1.value());
                assert(r@->Object_0[0] == item_state_json(self@)->Object_0[0]);
                assert(r@->Object_0[1] == item_state_json(self@)->Object_0[1]);
                assert(r@->Object_0 =~= item_state_json(self@)->Object_0);
                r
            },
            ItemState::Unassigned => Json::Null,
        }
    }

    /// Reads the state from a JSON document; on error the state is unchanged.
    pub fn load(&mut self, data: Json) -> (r: Result<(), LoadError>)
        ensures
            match item_state_from_json(data@) {
                Ok(s) => r is Ok && final(self)@ == s,
                Err(e) => r == Err::<(), LoadError>(e) && final(self)@ == old(self)@,
            },
    {
        let new = match &data {
            Json::Null => ItemState::Unassigned,
            Json::Object(fields) => {
                let value = match get_field(fields, &String::from_str("value")) {
                    None => return Err(LoadError::MissingValue),
                    Some(Json::Str(value)) => value.clone(),
                    Some(_) => return Err(LoadError::MismatchedValue),
                };
                match get_field(fields, &String::from_str("kind")) {
                    None => return Err(LoadError::MissingKind),
                    Some(Json::Str(kind)) => {
                        if kind.eq(&String::from_str("character")) {
                            ItemState::Owned(value)
                        } else if kind.eq(&String::from_str("scene")) {
                            ItemState::InScene(value)
                        } else {
                            return Err(LoadError::UnknownKind);
                        }
                    },
                    Some(_) => return Err(LoadError::UnknownKind),
                }
            },
            _ => return Err(LoadError::NotItemState),
        };
        *self = new;
        Ok(())
    }
}

/// Something that carries tags.
pub trait Tagged: Sized {
    /// The tags; none by default.
    fn get_tags(&self) -> (r: Vec<String>)
        default_ensures
            r@.len() == 0,
    {
        Vec::new()
    }

    /// Replaces the tags; by default there are none to replace, and nothing
    /// changes.
    fn set_tags(&mut self, tags: Vec<String>)
        default_ensures
            *final(self) == *old(self),
    {
    }
}

/// Something with a name that is unique within its world.
pub trait Named {
    /// The name.
    spec fn name_view(&self) -> Seq<char>;

    fn name(&self) -> (r: &str)
        ensures
            r@ == self.name_view(),
    ;
}

/// Something described by a long and a short text, found among the world's
/// messages; by default under the world's name, its own name, and `long` or
/// `short`.
pub trait Description: Named {
    fn long(&self, world: &World) -> (r: String)
        default_ensures
            r@ == world@.name + "-"@ + self.name_view() + "-long"@,
    {
        let mut id = world.name().to_owned();
        id.append("-");
        id.append(self.name());
        id.append("-long");
        world.get_message(id.as_str())
    }

    fn short(&self, world: &World) -> (r: String)
        default_ensures
            r@ == world@.name + "-"@ + self.name_view() + "-short"@,
    {
        let mut id = world.name().to_owned();
        id.append("-");
        id.append(self.name());
        id.append("-short");
        world.get_message(id.as_str())
    }
}

/// Something that may have background music.
pub trait Music {
    /// Name of the background music file; none by default.
    fn music(&self) -> (r: Option<String>)
        default_ensures
            r is None,
    {
        None
    }
}

/// Something that can be reset to its original state.
pub trait Clean: Sized {
    /// Puts the value back to its original state; by default it has no state
    /// to put back, and nothing changes.
    fn clean(&mut self)
        default_ensures
            *final(self) == *old(self),
    {
    }
}

/// An item of a story.
pub trait Item: Named + Tagged + Clean {
    fn state(&self) -> &ItemState;

    fn set_state(&mut self, state: ItemState);

    fn last_event(&self) -> Option<usize>;

    fn set_last_event(&mut self, event: usize);
}

/// A character of a story.
pub trait Character: Named + Tagged + Clean {
    fn scene(&self) -> &Option<String>;

    fn set_scene(&mut self, scene: Option<String>);
}

/// The stored form of a character of type `C`, convertible both ways.
pub trait CharacterData<C: Character>: From<C> + Into<C> + Clone {
}

/// Reading back what was written gives the state that was written.
pub proof fn lemma_item_state_roundtrip(state: ItemStateView)
    ensures
        item_state_from_json(item_state_json(state)) == Ok::<ItemStateView, LoadError>(state),
{
    reveal_strlit("kind");
    reveal_strlit("value");
    reveal_strlit("character");
    reveal_strlit("scene");
    reveal_with_fuel(field, 3);
    match state {
        ItemStateView::Owned(c) => {
            let fields = seq![("kind"@, JsonView::Str("character"@)), ("value"@, JsonView::Str(c))];
            assert(fields.drop_first()[0] == ("value"@, JsonView::Str(c)));
            assert("kind"@.len() != "value"@.len());
            assert("character"@.len() != "scene"@.len());
        },
        ItemStateView::InScene(s) => {
            let fields = seq![("kind"@, JsonView::Str("scene"@)), ("value"@, JsonView::Str(s))];
            assert(fields.drop_first()[0] == ("value"@, JsonView::Str(s)));
            assert("kind"@.len() != "value"@.len());
            assert("character"@.len() != "scene"@.len());
        },
        ItemStateView::Unassigned => {},
    }
}

} // verus!
