use vstd::prelude::*;

use crate::world::{clone_opt, opt_text};

verus! {

/// The data of an event: who started it is its initiator.
pub trait EventData {
    fn initiator(&self) -> String;

    fn set_initiator(&mut self, initiator: String);
}

/// A character picks up an item.
#[derive(Debug, Clone)]
pub struct PickData {
    pub character: String,
    pub item: String,
}

/// A character gives an item to another one.
#[derive(Debug, Clone)]
pub struct GiveData {
    pub from_character: String,
    pub to_character: String,
    pub item: String,
}

/// A character uses an item.
#[derive(Debug, Clone)]
pub struct UseItemData {
    pub character: String,
    pub item: String,
}

/// A character moves to a scene.
#[derive(Debug, Clone)]
pub struct MoveData {
    pub character: String,
    pub scene: String,
}

/// A character does something that changes nothing, perhaps with an item.
#[derive(Debug, Clone)]
pub struct VoidData {
    pub character: String,
    pub item: Option<String>,
}

/// A character says a line of a scene's dialog.
#[derive(Debug, Clone)]
pub struct TalkData {
    pub character: String,
    pub scene: String,
    pub dialog: usize,
}

/// The mathematical value of the data of an event.
pub enum EventDataView {
    Pick { character: Seq<char>, item: Seq<char> },
    Give { from_character: Seq<char>, to_character: Seq<char>, item: Seq<char> },
    UseItem { character: Seq<char>, item: Seq<char> },
    Move { character: Seq<char>, scene: Seq<char> },
    Void { character: Seq<char>, item: Option<Seq<char>> },
    Talk { character: Seq<char>, scene: Seq<char>, dialog: usize },
}

impl View for PickData {
    type V = EventDataView;

    open spec fn view(&self) -> EventDataView {
        EventDataView::Pick { character: self.character@, item: self.item@ }
    }
}

impl View for GiveData {
    type V = EventDataView;

    open spec fn view(&self) -> EventDataView {
        EventDataView::Give {
            from_character: self.from_character@,
            to_character: self.to_character@,
            item: self.item@,
        }
    }
}

impl View for UseItemData {
    type V = EventDataView;

    open spec fn view(&self) -> EventDataView {
        EventDataView::UseItem { character: self.character@, item: self.item@ }
    }
}

impl View for MoveData {
    type V = EventDataView;

    open spec fn view(&self) -> EventDataView {
        EventDataView::Move { character: self.character@, scene: self.scene@ }
    }
}

impl View for VoidData {
    type V = EventDataView;

    open spec fn view(&self) -> EventDataView {
        EventDataView::Void { character: self.character@, item: opt_text(self.item) }
    }
}

impl View for TalkData {
    type V = EventDataView;

    open spec fn view(&self) -> EventDataView {
        EventDataView::Talk { character: self.character@, scene: self.scene@, dialog: self.dialog }
    }
}

/// The initiator of an event: the character that starts it, which for a gift
/// is the one who receives the item.
pub open spec fn initiator_of(d: EventDataView) -> Seq<char> {
    match d {
        EventDataView::Pick { character, .. } => character,
        EventDataView::Give { to_character, .. } => to_character,
        EventDataView::UseItem { character, .. } => character,
        EventDataView::Move { character, .. } => character,
        EventDataView::Void { character, .. } => character,
        EventDataView::Talk { character, .. } => character,
    }
}

/// The data with `initiator` as its initiator.
pub open spec fn with_initiator(d: EventDataView, initiator: Seq<char>) -> EventDataView {
    match d {
        EventDataView::Pick { item, .. } => EventDataView::Pick { character: initiator, item },
        EventDataView::Give { from_character, item, .. } => EventDataView::Give {
            from_character,
            to_character: initiator,
            item,
        },
        EventDataView::UseItem { item, .. } => EventDataView::UseItem { character: initiator, item },
        EventDataView::Move { scene, .. } => EventDataView::Move { character: initiator, scene },
        EventDataView::Void { item, .. } => EventDataView::Void { character: initiator, item },
        EventDataView::Talk { scene, dialog, .. } => EventDataView::Talk { character: initiator, scene, dialog },
    }
}

impl PickData {
    pub fn new(character: &str, item: &str) -> (r: PickData)
        ensures
            r@ == (EventDataView::Pick { character: character@, item: item@ }),
    {
        PickData { character: character.to_owned(), item: item.to_owned() }
    }
}

impl GiveData {
    pub fn new(from_character: &str, to_character: &str, item: &str) -> (r: GiveData)
        ensures
            r@ == (EventDataView::Give {
                from_character: from_character@,
                to_character: to_character@,
                item: item@,
            }),
    {
        GiveData {
            from_character: from_character.to_owned(),
            to_character: to_character.to_owned(),
            item: item.to_owned(),
        }
    }
}

impl UseItemData {
    pub fn new(character: &str, item: &str) -> (r: UseItemData)
        ensures
            r@ == (EventDataView::UseItem { character: character@, item: item@ }),
    {
        UseItemData { character: character.to_owned(), item: item.to_owned() }
    }
}

impl MoveData {
    pub fn new(character: &str, scene: &str) -> (r: MoveData)
        ensures
            r@ == (EventDataView::Move { character: character@, scene: scene@ }),
    {
        MoveData { character: character.to_owned(), scene: scene.to_owned() }
    }
}

impl VoidData {
    pub fn new(character: &str, item: Option<&str>) -> (r: VoidData)
        ensures
            r@ == (EventDataView::Void {
                character: character@,
                item: match item {
                    Some(i) => Some(i@),
                    None => None,
                },
            }),
    {
        let item = match item {
            Some(i) => Some(i.to_owned()),
            None => None,
        };
        VoidData { character: character.to_owned(), item }
    }
}

impl TalkData {
    pub fn new(character: &str, scene: &str, dialog: usize) -> (r: TalkData)
        ensures
            r@ == (EventDataView::Talk { character: character@, scene: scene@, dialog }),
    {
        TalkData { character: character.to_owned(), scene: scene.to_owned(), dialog }
    }
}

impl EventData for PickData {
    fn initiator(&self) -> (r: String)
        ensures
            r@ == initiator_of(self@),
    {
        self.character.clone()
    }

    fn set_initiator(&mut self, initiator: String)
        ensures
            final(self)@ == with_initiator(old(self)@, initiator@),
    {
        self.character = initiator;
    }
}

impl EventData for GiveData {
    fn initiator(&self) -> (r: String)
        ensures
            r@ == initiator_of(self@),
    {
        self.to_character.clone()
    }

    fn set_initiator(&mut self, initiator: String)
        ensures
            final(self)@ == with_initiator(old(self)@, initiator@),
    {
        self.to_character = initiator;
    }
}

impl EventData for UseItemData {
    fn initiator(&self) -> (r: String)
        ensures
            r@ == initiator_of(self@),
    {
        self.character.clone()
    }

    fn set_initiator(&mut self, initiator: String)
        ensures
            final(self)@ == with_initiator(old(self)@, initiator@),
    {
        self.character = initiator;
    }
}

impl EventData for MoveData {
    fn initiator(&self) -> (r: String)
        ensures
            r@ == initiator_of(self@),
    {
        self.character.clone()
    }

    fn set_initiator(&mut self, initiator: String)
        ensures
            final(self)@ == with_initiator(old(self)@, initiator@),
    {
        self.character = initiator;
    }
}

impl EventData for VoidData {
    fn initiator(&self) -> (r: String)
        ensures
            r@ == initiator_of(self@),
    {
        self.character.clone()
    }

    fn set_initiator(&mut self, initiator: String)
        ensures
            final(self)@ == with_initiator(old(self)@, initiator@),
    {
        self.character = initiator;
    }
}

impl EventData for TalkData {
    fn initiator(&self) -> (r: String)
        ensures
            r@ == initiator_of(self@),
    {
        self.character.clone()
    }

    fn set_initiator(&mut self, initiator: String)
        ensures
            final(self)@ == with_initiator(old(self)@, initiator@),
    {
        self.character = initiator;
    }
}

impl PartialEq for PickData {
    fn eq(&self, other: &PickData) -> (r: bool) {
        self.character.eq(&other.character) && self.item.eq(&other.item)
    }
}

impl vstd::std_specs::cmp::PartialEqSpecImpl for PickData {
    open spec fn obeys_eq_spec() -> bool {
        true
    }

    open spec fn eq_spec(&self, other: &PickData) -> bool {
        self@ == other@
    }
}

impl PartialEq for GiveData {
    fn eq(&self, other: &GiveData) -> (r: bool) {
        self.from_character.eq(&other.from_character) && self.to_character.eq(&other.to_character)
            && self.item.eq(&other.item)
    }
}

impl vstd::std_specs::cmp::PartialEqSpecImpl for GiveData {
    open spec fn obeys_eq_spec() -> bool {
        true
    }

    open spec fn eq_spec(&self, other: &GiveData) -> bool {
        self@ == other@
    }
}

impl PartialEq for UseItemData {
    fn eq(&self, other: &UseItemData) -> (r: bool) {
        self.character.eq(&other.character) && self.item.eq(&other.item)
    }
}

impl vstd::std_specs::cmp::PartialEqSpecImpl for UseItemData {
    open spec fn obeys_eq_spec() -> bool {
        true
    }

    open spec fn eq_spec(&self, other: &UseItemData) -> bool {
        self@ == other@
    }
}

impl PartialEq for MoveData {
    fn eq(&self, other: &MoveData) -> (r: bool) {
        self.character.eq(&other.character) && self.scene.eq(&other.scene)
    }
}

impl vstd::std_specs::cmp::PartialEqSpecImpl for MoveData {
    open spec fn obeys_eq_spec() -> bool {
        true
    }

    open spec fn eq_spec(&self, other: &MoveData) -> bool {
        self@ == other@
    }
}

impl PartialEq for VoidData {
    fn eq(&self, other: &VoidData) -> (r: bool) {
        self.character.eq(&other.character) && crate::world::opt_eq(&self.item, &other.item)
    }
}

impl vstd::std_specs::cmp::PartialEqSpecImpl for VoidData {
    open spec fn obeys_eq_spec() -> bool {
        true
    }

    open spec fn eq_spec(&self, other: &VoidData) -> bool {
        self@ == other@
    }
}

impl PartialEq for TalkData {
    fn eq(&self, other: &TalkData) -> (r: bool) {
        self.character.eq(&other.character) && self.scene.eq(&other.scene) && self.dialog == other.dialog
    }
}

impl vstd::std_specs::cmp::PartialEqSpecImpl for TalkData {
    open spec fn obeys_eq_spec() -> bool {
        true
    }

    open spec fn eq_spec(&self, other: &TalkData) -> bool {
        self@ == other@
    }
}

} // verus!
