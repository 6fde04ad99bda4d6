use vstd::prelude::*;

use crate::text::{clone_strings, contains_string, texts};
use crate::world::{item_views, opt_text, World, WorldView, ItemView};
use crate::keyed::{keyed, keys_unique, lemma_keyed_index, Keyed};
use crate::{Character, Item, ItemState, ItemStateView, Tagged};

verus! {

/// Why a condition could not be evaluated.
#[derive(Debug, Clone, Copy, PartialEq, Eq, Structural)]
pub enum CheckError {
    /// The condition names a scene that the world does not have.
    SceneNotFound,
    /// The condition asks for the dialog of a scene that has no dialogs.
    SceneWithoutDialogs,
}

// ------------------------------------------------------------ the checks

/// Holds in every world.
#[derive(Debug)]
pub struct AlwaysCheck;

/// Holds where all the given characters and items are in one and the same
/// scene (an item only counts as in a scene when it lies there).
#[derive(Debug)]
pub struct SameSceneCheck {
    characters: Vec<String>,
    items: Vec<String>,
}

/// Holds where the character owns the item.
#[derive(Debug)]
pub struct HasItemCheck {
    character: String,
    item: String,
}

/// Holds where the character is in the given scene, or in none where the
/// scene is `None`.
#[derive(Debug)]
pub struct CharacterInSceneCheck {
    character: String,
    scene: Option<String>,
}

/// Holds where the first character owns the item and both characters are in
/// the same scene.
#[derive(Debug)]
pub struct CanGiveCheck {
    from_character: String,
    to_character: String,
    item: String,
}

/// Holds where every item that carries one of the tags is in the given state.
#[derive(Debug)]
pub struct AllItemsWithTagInStateCheck {
    tags: Vec<String>,
    state: ItemState,
}

/// Holds where the scene is at the given dialog.
#[derive(Debug)]
pub struct SceneDialogCheck {
    scene: String,
    dialog: usize,
}

/// One of the library's checks.
#[derive(Debug)]
pub enum Check {
    Always(AlwaysCheck),
    SameScene(SameSceneCheck),
    HasItem(HasItemCheck),
    CharacterInScene(CharacterInSceneCheck),
    CanGive(CanGiveCheck),
    AllItemsWithTagInState(AllItemsWithTagInStateCheck),
    SceneDialog(SceneDialogCheck),
}

/// A condition on a world, built from checks with not, and, or.
#[derive(Debug)]
pub enum Condition {
    Check(Check),
    Not(Box<Condition>),
    And(Box<Condition>, Box<Condition>),
    Or(Box<Condition>, Box<Condition>),
}

/// The mathematical value of a check.
pub enum CheckView {
    Always,
    SameScene { characters: Seq<Seq<char>>, items: Seq<Seq<char>> },
    HasItem { character: Seq<char>, item: Seq<char> },
    CharacterInScene { character: Seq<char>, scene: Option<Seq<char>> },
    CanGive { from_character: Seq<char>, to_character: Seq<char>, item: Seq<char> },
    AllItemsWithTagInState { tags: Seq<Seq<char>>, state: ItemStateView },
    SceneDialog { scene: Seq<char>, dialog: usize },
}

/// The mathematical value of a condition.
pub enum ConditionView {
    Check(CheckView),
    Not(Box<ConditionView>),
    And(Box<ConditionView>, Box<ConditionView>),
    Or(Box<ConditionView>, Box<ConditionView>),
}

impl View for AlwaysCheck {
    type V = CheckView;

    closed spec fn view(&self) -> CheckView {
        CheckView::Always
    }
}

impl View for SameSceneCheck {
    type V = CheckView;

    closed spec fn view(&self) -> CheckView {
        CheckView::SameScene { characters: texts(self.characters@), items: texts(self.items@) }
    }
}

impl View for HasItemCheck {
    type V = CheckView;

    closed spec fn view(&self) -> CheckView {
        CheckView::HasItem { character: self.character@, item: self.item@ }
    }
}

impl View for CharacterInSceneCheck {
    type V = CheckView;

    closed spec fn view(&self) -> CheckView {
        CheckView::CharacterInScene { character: self.character@, scene: opt_text(self.scene) }
    }
}

impl View for CanGiveCheck {
    type V = CheckView;

    closed spec fn view(&self) -> CheckView {
        CheckView::CanGive {
            from_character: self.from_character@,
            to_character: self.to_character@,
            item: self.item@,
        }
    }
}

impl View for AllItemsWithTagInStateCheck {
    type V = CheckView;

    closed spec fn view(&self) -> CheckView {
        CheckView::AllItemsWithTagInState { tags: texts(self.tags@), state: self.state@ }
    }
}

impl View for SceneDialogCheck {
    type V = CheckView;

    closed spec fn view(&self) -> CheckView {
        CheckView::SceneDialog { scene: self.scene@, dialog: self.dialog }
    }
}

impl View for Check {
    type V = CheckView;

    open spec fn view(&self) -> CheckView {
        match self {
            Check::Always(c) => c@,
            Check::SameScene(c) => c@,
            Check::HasItem(c) => c@,
            Check::CharacterInScene(c) => c@,
            Check::CanGive(c) => c@,
            Check::AllItemsWithTagInState(c) => c@,
            Check::SceneDialog(c) => c@,
        }
    }
}

impl Condition {
    /// The mathematical value of this condition.
    pub open spec fn value(&self) -> ConditionView
        decreases self,
    {
        match self {
            Condition::Check(c) => ConditionView::Check(c@),
            Condition::Not(c) => ConditionView::Not(Box::new(c.value())),
            Condition::And(a, b) => ConditionView::And(Box::new(a.value()), Box::new(b.value())),
            Condition::Or(a, b) => ConditionView::Or(Box::new(a.value()), Box::new(b.value())),
        }
    }
}

impl View for Condition {
    type V = ConditionView;

    open spec fn view(&self) -> ConditionView {
        self.value()
    }
}

// ------------------------------------------------------------ the meaning

/// The scene a character is in; `None` where there is no such character or
/// it is in no scene.
pub open spec fn character_scene(w: WorldView, name: Seq<char>) -> Option<Seq<char>> {
    if w.characters.contains_key(name) {
        w.characters[name].scene
    } else {
        None
    }
}

/// The scene an item lies in; `None` where there is no such item or it does
/// not lie in a scene.
pub open spec fn item_scene(w: WorldView, name: Seq<char>) -> Option<Seq<char>> {
    if w.items.contains_key(name) {
        match w.items[name].state {
            ItemStateView::InScene(s) => Some(s),
            _ => None,
        }
    } else {
        None
    }
}

/// All the given characters and items are in a scene, and it is the same one.
pub open spec fn same_scene(w: WorldView, characters: Seq<Seq<char>>, items: Seq<Seq<char>>) -> bool {
    &&& forall|i: int| 0 <= i < characters.len() ==> #[trigger] character_scene(w, characters[i]) is Some
    &&& forall|i: int| 0 <= i < items.len() ==> #[trigger] item_scene(w, items[i]) is Some
    &&& forall|i: int, j: int|
        0 <= i < characters.len() && 0 <= j < characters.len() ==> #[trigger] character_scene(w, characters[i])
            == #[trigger] character_scene(w, characters[j])
    &&& forall|i: int, j: int|
        0 <= i < items.len() && 0 <= j < items.len() ==> #[trigger] item_scene(w, items[i]) == #[trigger] item_scene(
            w,
            items[j],
        )
    &&& forall|i: int, j: int|
        0 <= i < characters.len() && 0 <= j < items.len() ==> #[trigger] character_scene(w, characters[i])
            == #[trigger] item_scene(w, items[j])
}

/// The character owns the item.
pub open spec fn has_item(w: WorldView, character: Seq<char>, item: Seq<char>) -> bool {
    w.items.contains_key(item) && w.items[item].state == ItemStateView::Owned(character)
}

/// The character exists and is in `scene` (in no scene where it is `None`).
pub open spec fn character_in_scene(w: WorldView, character: Seq<char>, scene: Option<Seq<char>>) -> bool {
    w.characters.contains_key(character) && w.characters[character].scene == scene
}

/// The item carries one of the tags.
pub open spec fn tagged_with(item: ItemView, tags: Seq<Seq<char>>) -> bool {
    exists|t: int| 0 <= t < item.tags.len() && tags.contains(#[trigger] item.tags[t])
}

/// Every item that carries one of the tags is in `state`.
pub open spec fn all_tagged_in_state(w: WorldView, tags: Seq<Seq<char>>, state: ItemStateView) -> bool {
    forall|name: Seq<char>|
        #[trigger] w.items.contains_key(name) && tagged_with(w.items[name], tags) ==> w.items[name].state == state
}

/// What a check says of a world.
pub open spec fn check_value(c: CheckView, w: WorldView) -> Result<bool, CheckError> {
    match c {
        CheckView::Always => Ok(true),
        CheckView::SameScene { characters, items } => Ok(same_scene(w, characters, items)),
        CheckView::HasItem { character, item } => Ok(has_item(w, character, item)),
        CheckView::CharacterInScene { character, scene } => Ok(character_in_scene(w, character, scene)),
        CheckView::CanGive { from_character, to_character, item } => Ok(
            has_item(w, from_character, item) && same_scene(w, seq![from_character, to_character], seq![]),
        ),
        CheckView::AllItemsWithTagInState { tags, state } => Ok(all_tagged_in_state(w, tags, state)),
        CheckView::SceneDialog { scene, dialog } => if !w.scenes.contains_key(scene) {
            Err(CheckError::SceneNotFound)
        } else {
            match w.scenes[scene].dialog {
                None => Err(CheckError::SceneWithoutDialogs),
                Some(d) => Ok(d == dialog),
            }
        },
    }
}

/// What a condition says of a world: the parts are evaluated from left to
/// right, and the right part of an `and` (`or`) only where the left one holds
/// (does not hold).
pub open spec fn condition_value(c: ConditionView, w: WorldView) -> Result<bool, CheckError>
    decreases c,
{
    match c {
        ConditionView::Check(check) => check_value(check, w),
        ConditionView::Not(a) => match condition_value(*a, w) {
            Ok(b) => Ok(!b),
            Err(e) => Err(e),
        },
        ConditionView::And(a, b) => match condition_value(*a, w) {
            Ok(true) => condition_value(*b, w),
            Ok(false) => Ok(false),
            Err(e) => Err(e),
        },
        ConditionView::Or(a, b) => match condition_value(*a, w) {
            Ok(true) => Ok(true),
            Ok(false) => condition_value(*b, w),
            Err(e) => Err(e),
        },
    }
}

// ------------------------------------------------------------ evaluation

/// Whether one of `item_tags` is among `tags`.
fn any_tag_in(item_tags: &Vec<String>, tags: &Vec<String>) -> (r: bool)
    ensures
        r == exists|t: int| 0 <= t < item_tags.len() && texts(tags@).contains(#[trigger] texts(item_tags@)[t]),
{
    let mut i: usize = 0;
    while i < item_tags.len()
        invariant
            i <= item_tags.len(),
            forall|t: int| 0 <= t < i ==> !texts(tags@).contains(#[trigger] texts(item_tags@)[t]),
        decreases item_tags.len() - i,
    {
        if contains_string(tags, &item_tags[i]) {
            assert(texts(item_tags@)[i as int] == item_tags@[i as int]@);
            return true;
        }
        assert(texts(item_tags@)[i as int] == item_tags@[i as int]@);
        i += 1;
    }
    false
}

impl AlwaysCheck {
    /// The condition that always holds.
    pub fn cond() -> (r: Condition)
        ensures
            r@ == ConditionView::Check(CheckView::Always),
    {
        Condition::Check(Check::Always(AlwaysCheck))
    }

    /// Evaluates the check.
    pub fn check(&self, world: &World) -> (r: Result<bool, CheckError>)
        ensures
            r == check_value(self@, world@),
    {
        Ok(true)
    }
}

impl SameSceneCheck {
    /// The condition that all the characters and items are in one scene.
    pub fn cond(characters: Vec<String>, items: Vec<String>) -> (r: Condition)
        ensures
            r@ == ConditionView::Check(CheckView::SameScene { characters: texts(characters@), items: texts(items@) }),
    {
        Condition::Check(Check::SameScene(SameSceneCheck { characters, items }))
    }

    /// Evaluates the check.
    pub fn check(&self, world: &World) -> (r: Result<bool, CheckError>)
        requires
            world.wf(),
        ensures
            r == check_value(self@, world@),
    {
        let ghost w = world@;
        let ghost cs = texts(self.characters@);
        let ghost is = texts(self.items@);
        let mut first: Option<String> = None;
        let mut i: usize = 0;
        while i < self.characters.len()
            invariant
                world.wf(),
                w == world@,
                cs == texts(self.characters@),
                i <= self.characters.len(),
                (i == 0) == (first is None),
                forall|j: int| 0 <= j < i ==> #[trigger] character_scene(w, cs[j]) == opt_text(first),
            decreases self.characters.len() - i,
        {
            assert(cs[i as int] == self.characters@[i as int]@);
            match world.character(&self.characters[i]) {
                None => {
                    assert(character_scene(w, cs[i as int]) is None);
                    return Ok(false);
                },
                Some(c) => match c.scene() {
                    None => {
                        assert(character_scene(w, cs[i as int]) is None);
                        return Ok(false);
                    },
                    Some(sc) => {
                        match &first {
                            None => {
                                first = Some(sc.clone());
                            },
                            Some(f) => {
                                if !f.eq(sc) {
                                    assert(character_scene(w, cs[i as int]) != character_scene(w, cs[0]));
                                    return Ok(false);
                                }
                            },
                        }
                    },
                },
            }
            i += 1;
        }
        let mut k: usize = 0;
        while k < self.items.len()
            invariant
                world.wf(),
                w == world@,
                cs == texts(self.characters@),
                is == texts(self.items@),
                (cs.len() == 0 && k == 0) == (first is None),
                forall|j: int| 0 <= j < cs.len() ==> #[trigger] character_scene(w, cs[j]) == opt_text(first),
                k <= self.items.len(),
                forall|j: int| 0 <= j < k ==> #[trigger] item_scene(w, is[j]) == opt_text(first),
            decreases self.items.len() - k,
        {
            assert(is[k as int] == self.items@[k as int]@);
            match world.item(&self.items[k]) {
                None => {
                    assert(item_scene(w, is[k as int]) is None);
                    return Ok(false);
                },
                Some(it) => match it.state() {
                    ItemState::InScene(sc) => {
                        match &first {
                            None => {
                                first = Some(sc.clone());
                            },
                            Some(f) => {
                                if !f.eq(sc) {
                                    if self.characters.len() > 0 {
                                        assert(character_scene(w, cs[0]) != item_scene(w, is[k as int]));
                                    } else {
                                        assert(item_scene(w, is[0]) != item_scene(w, is[k as int]));
                                    }
                                    return Ok(false);
                                }
                            },
                        }
                    },
                    _ => {
                        assert(item_scene(w, is[k as int]) is None);
                        return Ok(false);
                    },
                },
            }
            k += 1;
        }
        Ok(true)
    }
}

impl HasItemCheck {
    /// The condition that the character owns the item.
    pub fn cond(character: String, item: String) -> (r: Condition)
        ensures
            r@ == ConditionView::Check(CheckView::HasItem { character: character@, item: item@ }),
    {
        Condition::Check(Check::HasItem(HasItemCheck { character, item }))
    }

    /// Evaluates the check.
    pub fn check(&self, world: &World) -> (r: Result<bool, CheckError>)
        requires
            world.wf(),
        ensures
            r == check_value(self@, world@),
    {
        match world.item(&self.item) {
            Some(it) => match it.state() {
                ItemState::Owned(owner) => Ok(self.character.eq(owner)),
                _ => Ok(false),
            },
            None => Ok(false),
        }
    }
}

impl CharacterInSceneCheck {
    /// The condition that the character is in the scene (in none for `None`).
    pub fn cond(character: String, scene: Option<String>) -> (r: Condition)
        ensures
            r@ == ConditionView::Check(CheckView::CharacterInScene { character: character@, scene: opt_text(scene) }),
    {
        Condition::Check(Check::CharacterInScene(CharacterInSceneCheck { character, scene }))
    }

    /// Evaluates the check.
    pub fn check(&self, world: &World) -> (r: Result<bool, CheckError>)
        requires
            world.wf(),
        ensures
            r == check_value(self@, world@),
    {
        match world.character(&self.character) {
            Some(c) => Ok(crate::world::opt_eq(&self.scene, c.scene())),
            None => Ok(false),
        }
    }
}

impl CanGiveCheck {
    /// The condition that the first character owns the item and both
    /// characters are in one scene.
    pub fn cond(from_character: String, to_character: String, item: String) -> (r: Condition)
        ensures
            r@ == ConditionView::Check(
                CheckView::CanGive { from_character: from_character@, to_character: to_character@, item: item@ },
            ),
    {
        Condition::Check(Check::CanGive(CanGiveCheck { from_character, to_character, item }))
    }

    /// Evaluates the check.
    pub fn check(&self, world: &World) -> (r: Result<bool, CheckError>)
        requires
            world.wf(),
        ensures
            r == check_value(self@, world@),
    {
        let has = HasItemCheck { character: self.from_character.clone(), item: self.item.clone() };
        match has.check(world) {
            Ok(true) => {},
            _ => return Ok(false),
        }
        let mut characters: Vec<String> = Vec::new();
        characters.push(self.from_character.clone());
        characters.push(self.to_character.clone());
        let same = SameSceneCheck { characters, items: Vec::new() };
        assert(texts(same.characters@) =~= seq![self.from_character@, self.to_character@]);
        assert(texts(same.items@) =~= Seq::<Seq<char>>::empty());
        same.check(world)
    }
}

impl AllItemsWithTagInStateCheck {
    /// The condition that every item carrying one of the tags is in `state`.
    pub fn cond(tags: Vec<String>, state: ItemState) -> (r: Condition)
        ensures
            r@ == ConditionView::Check(CheckView::AllItemsWithTagInState { tags: texts(tags@), state: state@ }),
    {
        Condition::Check(Check::AllItemsWithTagInState(AllItemsWithTagInStateCheck { tags, state }))
    }

    /// Evaluates the check.
    pub fn check(&self, world: &World) -> (r: Result<bool, CheckError>)
        requires
            world.wf(),
        ensures
            r == check_value(self@, world@),
    {
        let items = world.items();
        let ghost views = item_views(items@);
        let ghost tags = texts(self.tags@);
        let mut i: usize = 0;
        while i < items.len()
            invariant
                views == item_views(items@),
                keys_unique(views),
                keyed(views) == world@.items,
                tags == texts(self.tags@),
                i <= items.len(),
                forall|j: int| 0 <= j < i ==> tagged_with(#[trigger] views[j], tags) ==> views[j].state == self.state@,
            decreases items.len() - i,
        {
            let item_tags = items[i].get_tags();
            if any_tag_in(&item_tags, &self.tags) {
                if !items[i].state().eq(&self.state) {
                    proof {
                        lemma_keyed_index(views, i as int);
                        let name = views[i as int].name;
                        assert(world@.items.contains_key(name));
                        let t = choose|t: int| 0 <= t < item_tags.len() && texts(self.tags@).contains(
                            #[trigger] texts(item_tags@)[t],
                        );
                        assert(views[i as int].tags[t] == texts(item_tags@)[t]);
                        assert(tagged_with(world@.items[name], tags));
                    }
                    return Ok(false);
                }
            } else {
                proof {
                    if tagged_with(views[i as int], tags) {
                        let t = choose|t: int| 0 <= t < views[i as int].tags.len() && tags.contains(
                            #[trigger] views[i as int].tags[t],
                        );
                        assert(texts(item_tags@)[t] == views[i as int].tags[t]);
                    }
                }
            }
            i += 1;
        }
        proof {
            assert forall|name: Seq<char>|
                #[trigger] world@.items.contains_key(name) && tagged_with(world@.items[name], tags) implies world@.items[name].state
                == self.state@ by {
                let j = choose|j: int| 0 <= j < views.len() && #[trigger] views[j].key() == name;
                lemma_keyed_index(views, j);
            }
        }
        Ok(true)
    }
}

impl SceneDialogCheck {
    /// The condition that the scene is at the given dialog.
    pub fn cond(scene: String, dialog: usize) -> (r: Condition)
        ensures
            r@ == ConditionView::Check(CheckView::SceneDialog { scene: scene@, dialog }),
    {
        Condition::Check(Check::SceneDialog(SceneDialogCheck { scene, dialog }))
    }

    /// Evaluates the check; fails where the scene is missing or has no
    /// dialogs.
    pub fn check(&self, world: &World) -> (r: Result<bool, CheckError>)
        requires
            world.wf(),
        ensures
            r == check_value(self@, world@),
    {
        match world.scene(&self.scene) {
            None => Err(CheckError::SceneNotFound),
            Some(sc) => match sc.dialog() {
                None => Err(CheckError::SceneWithoutDialogs),
                Some(d) => Ok(d == self.dialog),
            },
        }
    }
}

impl Check {
    /// Evaluates the check.
    pub fn check(&self, world: &World) -> (r: Result<bool, CheckError>)
        requires
            world.wf(),
        ensures
            r == check_value(self@, world@),
    {
        match self {
            Check::Always(c) => c.check(world),
            Check::SameScene(c) => c.check(world),
            Check::HasItem(c) => c.check(world),
            Check::CharacterInScene(c) => c.check(world),
            Check::CanGive(c) => c.check(world),
            Check::AllItemsWithTagInState(c) => c.check(world),
            Check::SceneDialog(c) => c.check(world),
        }
    }
}

impl Condition {
    /// The condition made of a single check.
    pub fn new(check: Check) -> (r: Condition)
        ensures
            r@ == ConditionView::Check(check@),
    {
        Condition::Check(check)
    }

    /// The condition that holds where `self` does not.
    pub fn negate(self) -> (r: Condition)
        ensures
            r@ == ConditionView::Not(Box::new(self@)),
    {
        Condition::Not(Box::new(self))
    }

    /// The condition that holds where both `self` and `rhs` hold.
    pub fn and(self, rhs: Condition) -> (r: Condition)
        ensures
            r@ == ConditionView::And(Box::new(self@), Box::new(rhs@)),
    {
        Condition::And(Box::new(self), Box::new(rhs))
    }

    /// The condition that holds where `self` or `rhs` holds.
    pub fn or(self, rhs: Condition) -> (r: Condition)
        ensures
            r@ == ConditionView::Or(Box::new(self@), Box::new(rhs@)),
    {
        Condition::Or(Box::new(self), Box::new(rhs))
    }

    /// Evaluates the condition.
    pub fn check(&self, world: &World) -> (r: Result<bool, CheckError>)
        requires
            world.wf(),
        ensures
            r == condition_value(self@, world@),
        decreases self,
    {
        match self {
            Condition::Check(c) => c.check(world),
            Condition::Not(a) => match a.check(world) {
                Ok(b) => Ok(!b),
                Err(e) => Err(e),
            },
            Condition::And(a, b) => match a.check(world) {
                Ok(true) => b.check(world),
                Ok(false) => Ok(false),
                Err(e) => Err(e),
            },
            Condition::Or(a, b) => match a.check(world) {
                Ok(true) => Ok(true),
                Ok(false) => b.check(world),
                Err(e) => Err(e),
            },
        }
    }
}

impl Default for Condition {
    /// The condition that always holds.
    fn default() -> (r: Condition)
        ensures
            r@ == ConditionView::Check(CheckView::Always),
    {
        AlwaysCheck::cond()
    }
}

impl std::ops::Not for Condition {
    type Output = Condition;

    fn not(self) -> (r: Condition) {
        Condition::Not(Box::new(self))
    }
}

impl vstd::std_specs::ops::NotSpecImpl for Condition {
    open spec fn obeys_not_spec() -> bool {
        true
    }

    open spec fn not_req(self) -> bool {
        true
    }

    open spec fn not_spec(self) -> Condition {
        Condition::Not(Box::new(self))
    }
}

impl std::ops::BitAnd for Condition {
    type Output = Condition;

    fn bitand(self, rhs: Condition) -> (r: Condition) {
        Condition::And(Box::new(self), Box::new(rhs))
    }
}

impl vstd::std_specs::ops::BitAndSpecImpl for Condition {
    open spec fn obeys_bitand_spec() -> bool {
        true
    }

    open spec fn bitand_req(self, rhs: Condition) -> bool {
        true
    }

    open spec fn bitand_spec(self, rhs: Condition) -> Condition {
        Condition::And(Box::new(self), Box::new(rhs))
    }
}

impl std::ops::BitOr for Condition {
    type Output = Condition;

    fn bitor(self, rhs: Condition) -> (r: Condition) {
        Condition::Or(Box::new(self), Box::new(rhs))
    }
}

impl vstd::std_specs::ops::BitOrSpecImpl for Condition {
    open spec fn obeys_bitor_spec() -> bool {
        true
    }

    open spec fn bitor_req(self, rhs: Condition) -> bool {
        true
    }

    open spec fn bitor_spec(self, rhs: Condition) -> Condition {
        Condition::Or(Box::new(self), Box::new(rhs))
    }
}

} // verus!
