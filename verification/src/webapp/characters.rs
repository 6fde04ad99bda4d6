use std::rc::Rc;
use uuid::Uuid;
use vstd::prelude::*;

verus! {

/// A character as a player sees it: the code that picks it, its name, the
/// link to it, its texts and its icon.
#[derive(Clone, Debug)]
pub struct Character {
    pub code: Rc<Option<String>>,
    pub name: Rc<String>,
    pub character_url: Rc<String>,
    pub short: Rc<String>,
    pub long: Rc<String>,
    pub icon: Rc<String>,
}

/// What a character's QR code holds: the character, if any, and the world it
/// plays in.
#[derive(Debug)]
pub struct CharacterQRJson {
    pub character: Option<String>,
    pub world_id: Uuid,
}

impl CharacterQRJson {
    /// The code of a character in a world.
    pub fn new(character: Option<String>, world_id: Uuid) -> (r: CharacterQRJson)
        ensures
            r.character == character,
            r.world_id == world_id,
    {
        CharacterQRJson { character, world_id }
    }
}

} // verus!
