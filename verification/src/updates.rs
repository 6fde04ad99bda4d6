use vstd::prelude::*;

use crate::world::{next_dialog, opt_text, CharacterView, ItemView, SceneView, World, WorldView};
use crate::{ItemState, ItemStateView};

verus! {

/// Why a change could not be made.
#[derive(Debug, Clone, Copy, PartialEq, Eq, Structural)]
pub enum ChangeError {
    /// The change names a character that the world does not have.
    CharacterNotFound,
    /// The change names a scene that the world does not have.
    SceneNotFound,
    /// The change names an item that the world does not have.
    ItemNotFound,
}

/// Puts an item into a state.
#[derive(Debug)]
pub struct AssignItemChange {
    item: String,
    state: ItemState,
}

/// Moves a character into a scene, or out of all scenes.
#[derive(Debug)]
pub struct MoveCharacterChange {
    character: String,
    scene: Option<String>,
}

/// Moves a scene on to its next dialog.
#[derive(Debug)]
pub struct NextSceneDialogChange {
    scene: String,
}

/// One of the library's changes of a world.
#[derive(Debug)]
pub enum Change {
    AssignItem(AssignItemChange),
    MoveCharacter(MoveCharacterChange),
    NextSceneDialog(NextSceneDialogChange),
}

/// The mathematical value of a change.
pub enum ChangeView {
    AssignItem { item: Seq<char>, state: ItemStateView },
    MoveCharacter { character: Seq<char>, scene: Option<Seq<char>> },
    NextSceneDialog { scene: Seq<char> },
}

impl View for AssignItemChange {
    type V = ChangeView;

    closed spec fn view(&self) -> ChangeView {
        ChangeView::AssignItem { item: self.item@, state: self.state@ }
    }
}

impl View for MoveCharacterChange {
    type V = ChangeView;

    closed spec fn view(&self) -> ChangeView {
        ChangeView::MoveCharacter { character: self.character@, scene: opt_text(self.scene) }
    }
}

impl View for NextSceneDialogChange {
    type V = ChangeView;

    closed spec fn view(&self) -> ChangeView {
        ChangeView::NextSceneDialog { scene: self.scene@ }
    }
}

impl View for Change {
    type V = ChangeView;

    open spec fn view(&self) -> ChangeView {
        match self {
            Change::AssignItem(c) => c@,
            Change::MoveCharacter(c) => c@,
            Change::NextSceneDialog(c) => c@,
        }
    }
}

/// The world after a change, or why the change fails (a failed change leaves
/// the world as it was).
pub open spec fn change_value(c: ChangeView, w: WorldView) -> Result<WorldView, ChangeError> {
    match c {
        ChangeView::AssignItem { item, state } => {
            let target = match state {
                ItemStateView::Owned(character) => if w.characters.contains_key(character) {
                    Ok(())
                } else {
                    Err(ChangeError::CharacterNotFound)
                },
                ItemStateView::InScene(scene) => if w.scenes.contains_key(scene) {
                    Ok(())
                } else {
                    Err(ChangeError::SceneNotFound)
                },
                ItemStateView::Unassigned => Ok(()),
            };
            match target {
                Err(e) => Err(e),
                Ok(_) => if w.items.contains_key(item) {
                    Ok(WorldView { items: w.items.insert(item, ItemView { state, ..w.items[item] }), ..w })
                } else {
                    Err(ChangeError::ItemNotFound)
                },
            }
        },
        ChangeView::MoveCharacter { character, scene } => {
            if scene matches Some(s) && !w.scenes.contains_key(s) {
                Err(ChangeError::SceneNotFound)
            } else if !w.characters.contains_key(character) {
                Err(ChangeError::CharacterNotFound)
            } else {
                Ok(
                    WorldView {
                        characters: w.characters.insert(
                            character,
                            CharacterView { scene, ..w.characters[character] },
                        ),
                        ..w
                    },
                )
            }
        },
        ChangeView::NextSceneDialog { scene } => if w.scenes.contains_key(scene) {
            Ok(
                WorldView {
                    scenes: w.scenes.insert(
                        scene,
                        SceneView { dialog: next_dialog(w.scenes[scene].dialog), ..w.scenes[scene] },
                    ),
                    ..w
                },
            )
        } else {
            Err(ChangeError::SceneNotFound)
        },
    }
}

/// The change stays within the machine's integers: a scene's dialog number
/// can still grow.
pub open spec fn change_in_range(c: ChangeView, w: WorldView) -> bool {
    match c {
        ChangeView::NextSceneDialog { scene } => w.scenes.contains_key(scene) ==> (w.scenes[scene].dialog matches Some(
            d,
        ) ==> d < usize::MAX),
        _ => true,
    }
}

impl AssignItemChange {
    /// The change that puts `item` into `state`.
    pub fn new(item: String, state: ItemState) -> (r: AssignItemChange)
        ensures
            r@ == (ChangeView::AssignItem { item: item@, state: state@ }),
    {
        AssignItemChange { item, state }
    }

    /// Makes the change: the owner or the scene must exist, then the item.
    pub fn change(&self, world: &mut World) -> (r: Result<(), ChangeError>)
        requires
            old(world).wf(),
        ensures
            final(world).wf(),
            final(world).spec_id() == old(world).spec_id(),
            match change_value(self@, old(world)@) {
                Ok(w) => r is Ok && final(world)@ == w,
                Err(e) => r == Err::<(), ChangeError>(e) && final(world)@ == old(world)@,
            },
    {
        let state = match &self.state {
            ItemState::Owned(character) => {
                if world.character(character).is_none() {
                    return Err(ChangeError::CharacterNotFound);
                }
                ItemState::Owned(character.clone())
            },
            ItemState::InScene(scene) => {
                if world.scene(scene).is_none() {
                    return Err(ChangeError::SceneNotFound);
                }
                ItemState::InScene(scene.clone())
            },
            ItemState::Unassigned => ItemState::Unassigned,
        };
        if world.set_item_state(&self.item, state) {
            Ok(())
        } else {
            Err(ChangeError::ItemNotFound)
        }
    }
}

impl MoveCharacterChange {
    /// The change that moves `character` into `scene` (out of all scenes for
    /// `None`).
    pub fn new(character: String, scene: Option<String>) -> (r: MoveCharacterChange)
        ensures
            r@ == (ChangeView::MoveCharacter { character: character@, scene: opt_text(scene) }),
    {
        MoveCharacterChange { character, scene }
    }

    /// Makes the change: the scene must exist, then the character.
    pub fn change(&self, world: &mut World) -> (r: Result<(), ChangeError>)
        requires
            old(world).wf(),
        ensures
            final(world).wf(),
            final(world).spec_id() == old(world).spec_id(),
            match change_value(self@, old(world)@) {
                Ok(w) => r is Ok && final(world)@ == w,
                Err(e) => r == Err::<(), ChangeError>(e) && final(world)@ == old(world)@,
            },
    {
        match &self.scene {
            Some(scene) => {
                if world.scene(scene).is_none() {
                    return Err(ChangeError::SceneNotFound);
                }
            },
            None => {},
        }
        let scene = crate::world::clone_opt(&self.scene);
        if world.set_character_scene(&self.character, scene) {
            Ok(())
        } else {
            Err(ChangeError::CharacterNotFound)
        }
    }
}

impl NextSceneDialogChange {
    /// The change that moves `scene` on to its next dialog.
    pub fn new(scene: String) -> (r: NextSceneDialogChange)
        ensures
            r@ == (ChangeView::NextSceneDialog { scene: scene@ }),
    {
        NextSceneDialogChange { scene }
    }

    /// Makes the change: the scene must exist.
    pub fn change(&self, world: &mut World) -> (r: Result<(), ChangeError>)
        requires
            old(world).wf(),
            change_in_range(self@, old(world)@),
        ensures
            final(world).wf(),
            final(world).spec_id() == old(world).spec_id(),
            match change_value(self@, old(world)@) {
                Ok(w) => r is Ok && final(world)@ == w,
                Err(e) => r == Err::<(), ChangeError>(e) && final(world)@ == old(world)@,
            },
    {
        if world.next_scene_dialog(&self.scene) {
            Ok(())
        } else {
            Err(ChangeError::SceneNotFound)
        }
    }
}

impl Change {
    /// Whether the change stays within the machine's integers in the world.
    pub fn in_range(&self, world: &World) -> (r: bool)
        requires
            world.wf(),
        ensures
            r == change_in_range(self@, world@),
    {
        match self {
            Change::NextSceneDialog(c) => match world.scene(&c.scene) {
                Some(sc) => match sc.dialog() {
                    Some(d) => d < usize::MAX,
                    None => true,
                },
                None => true,
            },
            _ => true,
        }
    }

    /// Makes the change.
    pub fn change(&self, world: &mut World) -> (r: Result<(), ChangeError>)
        requires
            old(world).wf(),
            change_in_range(self@, old(world)@),
        ensures
            final(world).wf(),
            final(world).spec_id() == old(world).spec_id(),
            match change_value(self@, old(world)@) {
                Ok(w) => r is Ok && final(world)@ == w,
                Err(e) => r == Err::<(), ChangeError>(e) && final(world)@ == old(world)@,
            },
    {
        match self {
            Change::AssignItem(c) => c.change(world),
            Change::MoveCharacter(c) => c.change(world),
            Change::NextSceneDialog(c) => c.change(world),
        }
    }
}

} // verus!
